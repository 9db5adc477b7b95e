use page_scaffold::content::{
    content_lines, join_content, render_file_text, render_written_form, split_content_lines,
};
use page_scaffold::date::datetime_from_fields;
use page_scaffold::front_matter::FrontMatter;

fn sample_lines() -> Vec<String> {
    let dt = datetime_from_fields(2024, 3, 5, 10, 30, 0).unwrap();
    let fm = FrontMatter { title: Some("My First Post".to_string()), datetime: Some(dt) };
    content_lines(&fm, "My First Post")
}

#[test]
fn content_lines_have_expected_shape() {
    let lines = sample_lines();
    let expect = vec![
        "+++",
        "title = \"My First Post\"",
        "datetime = 2024-03-05T10:30:00",
        "+++",
        "",
        "# My First Post",
        "",
        "...",
    ];
    assert_eq!(lines, expect);
}

#[test]
fn content_starts_with_marker_and_ends_with_placeholder() {
    let lines = sample_lines();
    let content = join_content(&lines);
    assert!(content.starts_with("+++"));
    assert!(content.ends_with("\n\n..."));
    let collected: Vec<&str> = content.lines().collect();
    let n = collected.len();
    assert_eq!(collected[n - 1], "...");
    assert_eq!(collected[n - 2], "");
    assert_eq!(collected[n - 3], "# My First Post");
}

#[test]
fn content_holds_exactly_one_front_matter_block() {
    let lines = sample_lines();
    let content = join_content(&lines);
    let markers = content.lines().filter(|l| *l == "+++").count();
    assert_eq!(markers, 2);
    assert_eq!(content.lines().next(), Some("+++"));
}

#[test]
fn file_text_terminates_every_line_once() {
    let lines = sample_lines();
    let content = join_content(&lines);
    let file_text = render_file_text(&lines);
    assert_eq!(file_text, format!("{}\n", content));
    assert!(!file_text.contains('\r'));
    let newline_count = file_text.chars().filter(|c| *c == '\n').count();
    assert_eq!(newline_count, lines.len());
    let read_back: Vec<&str> = file_text.lines().collect();
    let written: Vec<&str> = lines.iter().map(|l| l.as_str()).collect();
    assert_eq!(read_back, written);
}

#[test]
fn written_form_matches_line_iteration() {
    let samples = [
        "+++\nx\n+++\n\n# a\r\n\n...",
        "a",
        "a\r",
        "x\r\r\ny",
        "a\nb\n",
        "",
        "\n",
        "only\rinner",
    ];
    for content in samples {
        let expected: String = content.lines().map(|l| format!("{}\n", l)).collect();
        assert_eq!(render_written_form(content), expected);
    }
}

#[test]
fn split_reads_lines_as_the_writer_does() {
    let text = "a\r\nb\rc\n\nd\r";
    let pieces = split_content_lines(text);
    let expected: Vec<&str> = text.lines().collect();
    assert_eq!(pieces, expected);
}

#[test]
fn written_form_drops_cr_before_line_end() {
    assert_eq!(render_written_form("# a\r\nrest"), "# a\nrest\n");
}

#[test]
fn content_without_front_matter_fields_keeps_block() {
    let fm = FrontMatter { title: None, datetime: None };
    let lines = content_lines(&fm, "Bare");
    let content = join_content(&lines);
    assert_eq!(content, "+++\n+++\n\n# Bare\n\n...");
}
