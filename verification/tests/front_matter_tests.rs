use page_scaffold::date::datetime_from_fields;
use page_scaffold::front_matter::{front_matter_lines, FrontMatter};

#[test]
fn front_matter_serializes_title_and_datetime() {
    let dt = datetime_from_fields(2024, 3, 5, 10, 30, 0).unwrap();
    let fm = FrontMatter { title: Some("My First Post".to_string()), datetime: Some(dt) };
    let lines = front_matter_lines(&fm);
    assert_eq!(lines.len(), 2);
    assert_eq!(lines[0], "title = \"My First Post\"");
    assert_eq!(lines[1], "datetime = 2024-03-05T10:30:00");
}

#[test]
fn front_matter_omits_unset_fields() {
    let fm = FrontMatter { title: None, datetime: None };
    assert_eq!(front_matter_lines(&fm).len(), 0);
    let fm = FrontMatter { title: Some("Only a Title".to_string()), datetime: None };
    let lines = front_matter_lines(&fm);
    assert_eq!(lines.len(), 1);
    assert_eq!(lines[0], "title = \"Only a Title\"");
}

#[test]
fn front_matter_escapes_quotes_and_backslashes() {
    let fm = FrontMatter { title: Some("He said \"hi\" \\ bye".to_string()), datetime: None };
    let lines = front_matter_lines(&fm);
    assert_eq!(lines[0], "title = \"He said \\\"hi\\\" \\\\ bye\"");
}

#[test]
fn front_matter_escapes_line_breaks() {
    let fm = FrontMatter { title: Some("a\nb\rc\td".to_string()), datetime: None };
    let lines = front_matter_lines(&fm);
    assert_eq!(lines[0], "title = \"a\\nb\\rc\\td\"");
}
