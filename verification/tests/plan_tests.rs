use page_scaffold::date::datetime_from_fields;
use page_scaffold::plan::{new_page_plan, plan_page, NewPageConfig};

#[test]
fn plan_for_fixed_time_is_exact() {
    let dt = datetime_from_fields(2024, 3, 5, 10, 30, 0).unwrap();
    let config = NewPageConfig { name: "My First Post".to_string(), section: None };
    let p = plan_page(&config, &dt);
    assert_eq!(p.rel_folder, "2024-03-05-my-first-post");
    assert_eq!(p.rel_file, "2024-03-05-my-first-post/index.md");
    assert_eq!(
        p.content,
        "+++\ntitle = \"My First Post\"\ndatetime = 2024-03-05T10:30:00\n+++\n\n# My First Post\n\n..."
    );
    assert_eq!(p.file_text, format!("{}\n", p.content));
    assert_eq!(p.front.title.as_deref(), Some("My First Post"));
    assert_eq!(p.front.datetime, Some(dt));
}

#[test]
fn plan_with_section_nests_folder() {
    let dt = datetime_from_fields(2024, 3, 5, 10, 30, 0).unwrap();
    let config = NewPageConfig {
        name: "My First Post".to_string(),
        section: Some("Notes".to_string()),
    };
    let p = plan_page(&config, &dt);
    assert_eq!(p.rel_folder, "notes/2024-03-05-my-first-post");
    assert_eq!(p.rel_file, "notes/2024-03-05-my-first-post/index.md");
}

#[test]
fn plan_writes_lines_faithfully_for_messy_names() {
    let dt = datetime_from_fields(2024, 3, 5, 10, 30, 0).unwrap();
    let names = ["Trailing CR\r", "Broken\nTitle", "Double CR\r\r", "CRLF\r\nInside"];
    for name in names {
        let config = NewPageConfig { name: name.to_string(), section: None };
        let p = plan_page(&config, &dt);
        let expected: String = p.content.lines().map(|l| format!("{}\n", l)).collect();
        assert_eq!(p.file_text, expected);
    }
}

#[test]
fn plan_strips_cr_before_heading_line_end() {
    let dt = datetime_from_fields(2024, 3, 5, 10, 30, 0).unwrap();
    let config = NewPageConfig { name: "Trailing CR\r".to_string(), section: None };
    let p = plan_page(&config, &dt);
    assert!(p.content.contains("# Trailing CR\r\n"));
    assert!(p.file_text.contains("# Trailing CR\n"));
    assert!(!p.file_text.contains('\r'));
}

#[test]
fn plan_for_current_time_is_well_formed() {
    let config = NewPageConfig { name: "My Clock Page".to_string(), section: None };
    let p = new_page_plan(&config).expect("the host clock should sit in the year range");
    assert!(p.rel_folder.ends_with("-my-clock-page"));
    // The folder opens with the dated prefix `YYYY-MM-DD-`.
    let prefix: Vec<char> = p.rel_folder.chars().take(11).collect();
    assert_eq!(prefix.len(), 11);
    for (i, c) in prefix.iter().enumerate() {
        if i == 4 || i == 7 || i == 10 {
            assert_eq!(*c, '-');
        } else {
            assert!(c.is_ascii_digit());
        }
    }
    assert!(p.content.starts_with("+++\ntitle = \"My Clock Page\"\ndatetime = "));
    assert!(p.content.ends_with("\n\n# My Clock Page\n\n..."));
    assert_eq!(p.file_text, format!("{}\n", p.content));
}
