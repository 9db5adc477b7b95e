//! Planning one new page: from the caller's request and a timestamp to
//! everything the writer protocol needs — the target folder, the content
//! file path, the front matter, and the exact page text in both its
//! in-memory and its on-disk form.

use crate::content::{
    content_lines, content_lines_spec, join_content, join_lines, render_written_form, written_form,
};
use crate::date::{current_datetime, DateTime};
use crate::front_matter::FrontMatter;
use crate::resolve::{index_file_path, rel_folder, rel_folder_spec};
use vstd::prelude::*;

verus! {

/// The caller's request: a page name (the title, required non-empty by the
/// surrounding command) and an optional section.
pub struct NewPageConfig {
    pub name: String,
    pub section: Option<String>,
}

/// The section of a request, as a sequence of characters.
pub open spec fn section_view(c: NewPageConfig) -> Option<Seq<char>> {
    match c.section {
        Some(s) => Some(s@),
        None => None,
    }
}

/// Everything one writer run needs.
pub struct PagePlan {
    /// The front matter of the new page: its title and creation timestamp.
    pub front: FrontMatter,
    /// The target folder, relative to the content root.
    pub rel_folder: String,
    /// The content file, relative to the content root.
    pub rel_file: String,
    /// The in-memory page text, lines joined by single `\n` separators.
    pub content: String,
    /// The on-disk page text: every line of the content, read as the
    /// writer reads lines, followed by exactly one `\n`.
    pub file_text: String,
}

/// What a plan promises for a request and a timestamp.
pub open spec fn plan_matches(c: NewPageConfig, now: DateTime, p: PagePlan) -> bool {
    &&& p.front.title matches Some(t) && t@ == c.name@
    &&& p.front.datetime == Some(now)
    &&& p.rel_folder@ == rel_folder_spec(c.name@, section_view(c), now.date)
    &&& p.rel_file@ == p.rel_folder@ + seq!['/'] + "index.md"@
    &&& p.content@ == join_lines(content_lines_spec(p.front, c.name@))
    &&& p.file_text@ == written_form(p.content@)
}

/// Builds the full plan for one new page from the request and a timestamp.
pub fn plan_page(config: &NewPageConfig, now: &DateTime) -> (p: PagePlan)
    requires
        config.name@.len() > 0,
        now.wf(),
    ensures
        plan_matches(*config, *now, p),
{
    let front = FrontMatter { title: Some(config.name.clone()), datetime: Some(*now) };
    let folder = match &config.section {
        Some(sec) => rel_folder(config.name.as_str(), Some(sec.as_str()), &now.date),
        None => rel_folder(config.name.as_str(), None, &now.date),
    };
    let rel_file = index_file_path(folder.as_str());
    let lines = content_lines(&front, config.name.as_str());
    let content = join_content(&lines);
    let file_text = render_written_form(content.as_str());
    PagePlan { front, rel_folder: folder, rel_file, content, file_text }
}

/// Plans a page for the current local time. Whatever the clock reports, a
/// returned plan matches a well-formed timestamp that is recorded in its
/// front matter; `None` comes only when the clock's year cannot be rendered
/// with four digits.
pub fn new_page_plan(config: &NewPageConfig) -> (r: Option<PagePlan>)
    requires
        config.name@.len() > 0,
    ensures
        r matches Some(p) ==> p.front.datetime matches Some(dt) && dt.wf() && plan_matches(
            *config,
            dt,
            p,
        ),
{
    match current_datetime() {
        Some(now) => Some(plan_page(config, &now)),
        None => None,
    }
}

} // verus!
