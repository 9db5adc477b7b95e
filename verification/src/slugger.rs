//! Slug derivation for folder names.
//!
//! A slug consists of `a-z`, `0-9` and `-`, never holds two `-` in a row and
//! never starts or ends with `-`. Lowercasing and the dash policy are modeled
//! exactly; what the transliteration table yields for a non-ascii character
//! is left abstract.

use vstd::prelude::*;

verus! {

/// What the transliteration table of the slug machinery yields for one
/// non-ascii character: a fixed function of the character alone.
pub uninterp spec fn transliterate_char(c: char) -> Seq<char>;

/// Characters that a slug keeps unchanged: ascii lowercase letters and digits.
pub open spec fn is_keep(c: char) -> bool {
    ('a' <= c && c <= 'z') || ('0' <= c && c <= '9')
}

/// Ascii uppercase letters, which a slug lowercases.
pub open spec fn is_upper(c: char) -> bool {
    'A' <= c && c <= 'Z'
}

/// The lowercase counterpart of an ascii uppercase letter.
pub open spec fn lower(c: char) -> char
    recommends
        is_upper(c),
{
    ((c as u32) + 32) as char
}

/// Ascii characters pass through to the dash/keep policy unchanged; any
/// other character is first transliterated.
pub open spec fn expand_char(c: char) -> Seq<char> {
    if (c as u32) <= 127 {
        seq![c]
    } else {
        transliterate_char(c)
    }
}

/// The input as the dash/keep policy sees it, character by character.
pub open spec fn expand(s: Seq<char>) -> Seq<char>
    decreases s.len(),
{
    if s.len() == 0 {
        Seq::empty()
    } else {
        expand_char(s[0]) + expand(s.drop_first())
    }
}

/// The dash/keep policy: keep lowercase letters and digits, lowercase
/// uppercase letters, and turn each run of anything else into a single `-`.
/// `prev_dash` records whether the previous emitted position is a dash (or
/// the start of the input), so that runs collapse and no leading `-` appears.
pub open spec fn slug_core(s: Seq<char>, prev_dash: bool) -> Seq<char>
    decreases s.len(),
{
    if s.len() == 0 {
        Seq::empty()
    } else if is_keep(s[0]) {
        seq![s[0]] + slug_core(s.drop_first(), false)
    } else if is_upper(s[0]) {
        seq![lower(s[0])] + slug_core(s.drop_first(), false)
    } else if prev_dash {
        slug_core(s.drop_first(), true)
    } else {
        seq!['-'] + slug_core(s.drop_first(), true)
    }
}

/// Drops the single trailing `-` that the dash policy may leave.
pub open spec fn trim_dash(s: Seq<char>) -> Seq<char> {
    if s.len() > 0 && s[s.len() - 1] == '-' {
        s.drop_last()
    } else {
        s
    }
}

/// The slug of a string.
pub open spec fn slug_of(s: Seq<char>) -> Seq<char> {
    trim_dash(slug_core(expand(s), true))
}

/// Relies on `slug::slugify`: ascii characters go straight to its dash/keep
/// policy (lowercase letters and digits kept, uppercase lowercased, runs of
/// anything else collapsed to one `-`, no leading or trailing `-`), and each
/// non-ascii character is first transliterated through `deunicode`, modeled
/// here by `transliterate_char`.
#[verifier::external_body]
fn slugify_raw(s: &str) -> (r: String)
    ensures
        r@ == slug_of(s@),
        s@.len() == 1 && (s@[0] as u32) > 127 ==> r@ == trim_dash(
            slug_core(transliterate_char(s@[0]), true),
        ),
{
    slug::slugify(s)
}

/// Turns an arbitrary string into its slug.
pub fn slugify(s: &str) -> (r: String)
    ensures
        r@ == slug_of(s@),
{
    slugify_raw(s)
}

/// Characters that a finished slug may contain.
pub open spec fn is_slug_char(c: char) -> bool {
    is_keep(c) || c == '-'
}

pub open spec fn all_slug_chars(s: Seq<char>) -> bool {
    forall|i: int| 0 <= i < s.len() ==> is_slug_char(#[trigger] s[i])
}

pub open spec fn no_double_dash(s: Seq<char>) -> bool {
    forall|i: int| 0 <= i && i + 1 < s.len() ==> !(#[trigger] s[i] == '-' && s[i + 1] == '-')
}

/// The shape every slug has: only slug characters, no `--`, and no `-` at
/// either end.
pub open spec fn is_canonical_slug(s: Seq<char>) -> bool {
    &&& all_slug_chars(s)
    &&& no_double_dash(s)
    &&& s.len() > 0 ==> s[0] != '-' && s[s.len() - 1] != '-'
}

proof fn lemma_core_shape(s: Seq<char>, prev_dash: bool)
    ensures
        all_slug_chars(slug_core(s, prev_dash)),
        no_double_dash(slug_core(s, prev_dash)),
        prev_dash && slug_core(s, prev_dash).len() > 0 ==> slug_core(s, prev_dash)[0] != '-',
    decreases s.len(),
{
    if s.len() == 0 {
    } else {
        let rest = s.drop_first();
        let out = slug_core(s, prev_dash);
        if is_keep(s[0]) {
            lemma_core_shape(rest, false);
            assert(out == seq![s[0]] + slug_core(rest, false));
        } else if is_upper(s[0]) {
            lemma_core_shape(rest, false);
            assert(is_keep(lower(s[0])));
            assert(out == seq![lower(s[0])] + slug_core(rest, false));
        } else if prev_dash {
            lemma_core_shape(rest, true);
        } else {
            lemma_core_shape(rest, true);
            assert(out == seq!['-'] + slug_core(rest, true));
        }
    }
}

proof fn lemma_slug_of_canonical(s: Seq<char>)
    ensures
        is_canonical_slug(slug_of(s)),
{
    let out = slug_core(expand(s), true);
    lemma_core_shape(expand(s), true);
    let r = slug_of(s);
    if out.len() > 0 && out[out.len() - 1] == '-' {
        assert(r == out.drop_last());
        assert forall|i: int| 0 <= i < r.len() implies is_slug_char(#[trigger] r[i]) by {
            assert(r[i] == out[i]);
        }
        if r.len() > 0 {
            assert(r[r.len() - 1] == out[out.len() - 2]);
            assert(!(out[out.len() - 2] == '-' && out[out.len() - 1] == '-'));
        }
    }
}

proof fn lemma_expand_ascii_id(s: Seq<char>)
    requires
        forall|i: int| 0 <= i < s.len() ==> (#[trigger] s[i] as u32) <= 127,
    ensures
        expand(s) == s,
    decreases s.len(),
{
    if s.len() == 0 {
        assert(expand(s) =~= s);
    } else {
        lemma_expand_ascii_id(s.drop_first());
        assert(expand_char(s[0]) == seq![s[0]]);
        assert(expand(s) =~= s);
    }
}

proof fn lemma_core_id(s: Seq<char>, prev_dash: bool)
    requires
        all_slug_chars(s),
        no_double_dash(s),
        s.len() > 0 ==> s[s.len() - 1] != '-',
        prev_dash && s.len() > 0 ==> s[0] != '-',
    ensures
        slug_core(s, prev_dash) == s,
    decreases s.len(),
{
    if s.len() == 0 {
        assert(slug_core(s, prev_dash) =~= s);
    } else {
        let rest = s.drop_first();
        assert(is_slug_char(s[0]));
        assert forall|i: int| 0 <= i < rest.len() implies is_slug_char(#[trigger] rest[i]) by {
            assert(rest[i] == s[i + 1]);
        }
        assert forall|i: int| 0 <= i && i + 1 < rest.len() implies !(#[trigger] rest[i] == '-'
            && rest[i + 1] == '-') by {
            assert(rest[i] == s[i + 1] && rest[i + 1] == s[i + 2]);
        }
        if rest.len() > 0 {
            assert(rest[rest.len() - 1] == s[s.len() - 1]);
        }
        if is_keep(s[0]) {
            lemma_core_id(rest, false);
            assert(slug_core(s, prev_dash) =~= s);
        } else {
            assert(s[0] == '-');
            assert(!is_upper(s[0]));
            assert(!prev_dash);
            assert(rest.len() > 0 ==> rest[0] == s[1] && rest[0] != '-');
            lemma_core_id(rest, true);
            assert(slug_core(s, prev_dash) =~= s);
        }
    }
}

/// Law: slug derivation is idempotent. Deriving the slug of a string that is
/// already a slug changes nothing, so `slug_of(slug_of(s)) == slug_of(s)`.
pub proof fn lemma_slug_idempotent(s: Seq<char>)
    ensures
        slug_of(slug_of(s)) == slug_of(s),
{
    let c = slug_of(s);
    lemma_slug_of_canonical(s);
    assert forall|i: int| 0 <= i < c.len() implies (#[trigger] c[i] as u32) <= 127 by {
        assert(is_slug_char(c[i]));
    }
    lemma_expand_ascii_id(c);
    lemma_core_id(c, true);
    assert(slug_of(c) == trim_dash(c));
    if c.len() > 0 {
        assert(c[c.len() - 1] != '-');
    }
}

} // verus!
