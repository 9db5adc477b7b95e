use page_scaffold::date::Date;
use page_scaffold::resolve::{folder_name, index_file_path, join_path, rel_folder};

fn march_fifth() -> Date {
    Date { year: 2024, month: 3, day: 5 }
}

#[test]
fn resolver_folder_name_is_dated_slug() {
    let d = march_fifth();
    assert_eq!(folder_name("My First Post", &d), "2024-03-05-my-first-post");
}

#[test]
fn resolver_without_section_sits_under_root() {
    let d = march_fifth();
    let rel = rel_folder("My First Post", None, &d);
    assert_eq!(rel, "2024-03-05-my-first-post");
    assert_eq!(
        join_path("content", &rel),
        "content/2024-03-05-my-first-post"
    );
}

#[test]
fn resolver_with_section_nests_under_its_slug() {
    let d = march_fifth();
    let rel = rel_folder("My First Post", Some("Notes"), &d);
    assert_eq!(rel, "notes/2024-03-05-my-first-post");
}

#[test]
fn resolver_is_deterministic() {
    let d = march_fifth();
    let a = rel_folder("Some  Fancy Title!", Some("Notes & Drafts"), &d);
    let b = rel_folder("Some  Fancy Title!", Some("Notes & Drafts"), &d);
    assert_eq!(a, b);
    let c = rel_folder("Some  Fancy Title!", None, &d);
    let e = rel_folder("Some  Fancy Title!", None, &d);
    assert_eq!(c, e);
}

#[test]
fn index_file_sits_inside_folder() {
    assert_eq!(
        index_file_path("2024-03-05-my-first-post"),
        "2024-03-05-my-first-post/index.md"
    );
}
