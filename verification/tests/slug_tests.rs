use page_scaffold::slugger::slugify;

#[test]
fn slug_lowercases_and_dashes() {
    assert_eq!(slugify("My First Post"), "my-first-post");
}

#[test]
fn slug_keeps_digits() {
    assert_eq!(slugify("Post 42, part 7"), "post-42-part-7");
}

#[test]
fn slug_collapses_runs_and_trims() {
    assert_eq!(slugify("  --Hello_-_World!!  "), "hello-world");
}

#[test]
fn slug_transliterates_non_ascii() {
    assert_eq!(slugify("Crème Brûlée"), "creme-brulee");
}

#[test]
fn slug_of_empty_is_empty() {
    assert_eq!(slugify(""), "");
}

#[test]
fn slug_of_only_punctuation_is_empty() {
    assert_eq!(slugify("?!&"), "");
}

#[test]
fn slug_idempotent_plain() {
    let once = slugify("My First Post");
    assert_eq!(slugify(&once), once);
}

#[test]
fn slug_idempotent_messy() {
    let once = slugify("  --Æúű__cool??  ");
    assert_eq!(slugify(&once), once);
}

#[test]
fn slug_idempotent_digits_and_dashes() {
    let once = slugify("2024-03-05 My First Post");
    assert_eq!(once, "2024-03-05-my-first-post");
    assert_eq!(slugify(&once), once);
}
