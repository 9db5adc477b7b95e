//! The path/name resolver: turns a human title and an optional section into
//! a deterministic, collision-avoiding folder path under the site's content
//! root. The folder name carries the ISO local date so that pages created on
//! different days cannot collide.

use crate::date::{date_str, format_date, Date};
use crate::slugger::{slug_of, slugify};
use vstd::prelude::*;

verus! {

/// The slugged folder name of a page: the slug of `«YYYY-MM-DD» «name»`.
pub open spec fn folder_name_spec(name: Seq<char>, d: Date) -> Seq<char> {
    slug_of(date_str(d) + seq![' '] + name)
}

/// The target folder relative to the content root: the folder name, nested
/// under the slug of the section when one is given.
pub open spec fn rel_folder_spec(name: Seq<char>, section: Option<Seq<char>>, d: Date) -> Seq<
    char,
> {
    match section {
        Some(sec) => slug_of(sec) + seq!['/'] + folder_name_spec(name, d),
        None => folder_name_spec(name, d),
    }
}

/// Law: resolution is pure and deterministic. Two resolutions of the same
/// name, section and date give the same folder path.
pub proof fn lemma_resolve_deterministic(
    name: Seq<char>,
    section: Option<Seq<char>>,
    d: Date,
    r1: Seq<char>,
    r2: Seq<char>,
)
    requires
        r1 == rel_folder_spec(name, section, d),
        r2 == rel_folder_spec(name, section, d),
    ensures
        r1 == r2,
{
}

/// Derives the slugged, dated folder name of a page.
pub fn folder_name(name: &str, d: &Date) -> (r: String)
    ensures
        r@ == folder_name_spec(name@, *d),
{
    let mut s = format_date(d);
    s.append(" ");
    s.append(name);
    proof {
        reveal_strlit(" ");
        assert(s@ =~= date_str(*d) + seq![' '] + name@);
    }
    slugify(s.as_str())
}

/// Resolves the target folder of a page, relative to the content root.
pub fn rel_folder(name: &str, section: Option<&str>, d: &Date) -> (r: String)
    ensures
        section matches Some(sec) ==> r@ == rel_folder_spec(name@, Some(sec@), *d),
        section is None ==> r@ == rel_folder_spec(name@, None, *d),
{
    match section {
        Some(sec) => {
            let mut s = slugify(sec);
            s.append("/");
            let f = folder_name(name, d);
            s.append(f.as_str());
            proof {
                reveal_strlit("/");
                assert(s@ =~= rel_folder_spec(name@, Some(sec@), *d));
            }
            s
        },
        None => folder_name(name, d),
    }
}

/// Joins two path segments with a single `/` separator.
pub fn join_path(base: &str, rel: &str) -> (r: String)
    ensures
        r@ == base@ + seq!['/'] + rel@,
{
    let mut s = String::from_str(base);
    s.append("/");
    s.append(rel);
    proof {
        reveal_strlit("/");
        assert(s@ =~= base@ + seq!['/'] + rel@);
    }
    s
}

/// The content file inside a target folder: `«folder»/index.md`.
pub fn index_file_path(folder: &str) -> (r: String)
    ensures
        r@ == folder@ + seq!['/'] + "index.md"@,
{
    join_path(folder, "index.md")
}

} // verus!
