//! The minimal front matter a new page carries: a title and a creation
//! timestamp, serialized as a fixed key/value block. Every other field of a
//! page's front matter keeps its default and is not written out.

use crate::date::{format_datetime, datetime_str, DateTime};
use vstd::prelude::*;

verus! {

/// The two fields the page creator fills; everything else stays defaulted.
pub struct FrontMatter {
    pub title: Option<String>,
    pub datetime: Option<DateTime>,
}

/// How one character of a quoted value is written: backslash escapes for
/// the quote, the backslash itself and control characters, so that a value
/// never breaks its line or its quotes.
pub open spec fn escape_char(c: char) -> Seq<char> {
    if c == '"' {
        seq!['\\', '"']
    } else if c == '\\' {
        seq!['\\', '\\']
    } else if c == '\n' {
        seq!['\\', 'n']
    } else if c == '\r' {
        seq!['\\', 'r']
    } else if c == '\t' {
        seq!['\\', 't']
    } else {
        seq![c]
    }
}

/// A string escaped for use inside a quoted value.
pub open spec fn escape(s: Seq<char>) -> Seq<char>
    decreases s.len(),
{
    if s.len() == 0 {
        Seq::empty()
    } else {
        escape_char(s[0]) + escape(s.drop_first())
    }
}

/// The `title = "..."` line.
pub open spec fn title_line(t: Seq<char>) -> Seq<char> {
    "title = \""@ + escape(t) + "\""@
}

/// The `datetime = ...` line.
pub open spec fn datetime_line(dt: DateTime) -> Seq<char> {
    "datetime = "@ + datetime_str(dt)
}

/// The serialized key/value lines of the front matter, in fixed order:
/// the title, then the timestamp, each only when set.
pub open spec fn fm_lines(fm: FrontMatter) -> Seq<Seq<char>> {
    (match fm.title {
        Some(t) => seq![title_line(t@)],
        None => Seq::empty(),
    }) + (match fm.datetime {
        Some(dt) => seq![datetime_line(dt)],
        None => Seq::empty(),
    })
}

proof fn lemma_escape_snoc(s: Seq<char>, c: char)
    ensures
        escape(s.push(c)) == escape(s) + escape_char(c),
    decreases s.len(),
{
    if s.len() == 0 {
        assert(s.push(c).drop_first() =~= s);
        assert(escape(s.push(c)) =~= escape(s) + escape_char(c));
    } else {
        assert(s.push(c)[0] == s[0]);
        assert(s.push(c).drop_first() =~= s.drop_first().push(c));
        lemma_escape_snoc(s.drop_first(), c);
        assert(escape(s.push(c)) =~= escape(s) + escape_char(c));
    }
}

/// An escaped value never holds a newline or a carriage return, so it never
/// breaks its line.
pub proof fn lemma_escape_no_newline(s: Seq<char>)
    ensures
        forall|j: int| 0 <= j < escape(s).len() ==> #[trigger] escape(s)[j] != '\n' && escape(s)[j]
            != '\r',
    decreases s.len(),
{
    if s.len() == 0 {
    } else {
        lemma_escape_no_newline(s.drop_first());
        assert(escape(s) == escape_char(s[0]) + escape(s.drop_first()));
        assert forall|j: int| 0 <= j < escape(s).len() implies #[trigger] escape(s)[j] != '\n'
            && escape(s)[j] != '\r' by {
            if j < escape_char(s[0]).len() {
                assert(escape(s)[j] == escape_char(s[0])[j]);
            } else {
                assert(escape(s)[j] == escape(s.drop_first())[j - escape_char(s[0]).len()]);
            }
        }
    }
}

/// Escapes a string for use inside a quoted value.
fn escape_str(s: &str) -> (r: String)
    ensures
        r@ == escape(s@),
{
    let n = s.unicode_len();
    let mut r = String::new();
    let mut i: usize = 0;
    proof {
        assert(escape(s@.subrange(0, 0)) =~= Seq::<char>::empty());
    }
    while i < n
        invariant
            i <= n,
            n == s@.len(),
            r@ == escape(s@.subrange(0, i as int)),
        decreases n - i,
    {
        let c = s.get_char(i);
        proof {
            reveal_strlit("\\\"");
            reveal_strlit("\\\\");
            reveal_strlit("\\n");
            reveal_strlit("\\r");
            reveal_strlit("\\t");
            lemma_escape_snoc(s@.subrange(0, i as int), c);
            assert(s@.subrange(0, i as int).push(c) =~= s@.subrange(0, i + 1 as int));
        }
        if c == '"' {
            r.append("\\\"");
        } else if c == '\\' {
            r.append("\\\\");
        } else if c == '\n' {
            r.append("\\n");
        } else if c == '\r' {
            r.append("\\r");
        } else if c == '\t' {
            r.append("\\t");
        } else {
            let piece = s.substring_char(i, i + 1);
            proof {
                assert(s@.subrange(i as int, i + 1 as int) =~= seq![c]);
            }
            r.append(piece);
        }
        proof {
            assert(r@ =~= escape(s@.subrange(0, i + 1 as int)));
        }
        i = i + 1;
    }
    proof {
        assert(s@.subrange(0, n as int) =~= s@);
    }
    r
}

/// Serializes the front matter to its key/value lines, in fixed order.
pub fn front_matter_lines(fm: &FrontMatter) -> (r: Vec<String>)
    ensures
        r@.map_values(|l: String| l@) == fm_lines(*fm),
{
    let mut r: Vec<String> = Vec::new();
    match &fm.title {
        Some(t) => {
            let mut line = String::from_str("title = \"");
            let e = escape_str(t.as_str());
            line.append(e.as_str());
            line.append("\"");
            proof {
                assert(line@ =~= title_line(t@));
            }
            r.push(line);
        },
        None => {},
    }
    match &fm.datetime {
        Some(dt) => {
            let mut line = String::from_str("datetime = ");
            let f = format_datetime(dt);
            line.append(f.as_str());
            proof {
                assert(line@ =~= datetime_line(*dt));
            }
            r.push(line);
        },
        None => {},
    }
    proof {
        assert(r@.map_values(|l: String| l@) =~= fm_lines(*fm));
    }
    r
}

} // verus!
