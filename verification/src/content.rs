//! Assembly of the page text: the front-matter block between `+++` markers,
//! a heading equal to the unslugged title, and the literal placeholder body
//! `...`. The text is modeled as a list of lines; on disk every line is
//! terminated by exactly one `\n`, whatever the host platform, with a `\r`
//! standing directly before a line's `\n` treated as part of the line
//! ending and never written.

use crate::front_matter::{fm_lines, front_matter_lines, FrontMatter};
use vstd::prelude::*;

verus! {

/// The view of a list of text lines.
pub open spec fn line_views(lines: Seq<String>) -> Seq<Seq<char>> {
    lines.map_values(|l: String| l@)
}

/// The heading line `# <title>`, with the original, unslugged title.
pub open spec fn heading_line(title: Seq<char>) -> Seq<char> {
    "# "@ + title
}

/// The lines of a new page: a `+++` marker, the front-matter lines, the
/// closing `+++` marker, a blank line, the title heading, a blank line, and
/// the literal placeholder body `...`.
pub open spec fn content_lines_spec(fm: FrontMatter, title: Seq<char>) -> Seq<Seq<char>> {
    seq!["+++"@] + fm_lines(fm) + seq![
        "+++"@,
        Seq::<char>::empty(),
        heading_line(title),
        Seq::<char>::empty(),
        "..."@,
    ]
}

/// The in-memory page text: the lines joined by single `\n` separators.
pub open spec fn join_lines(lines: Seq<Seq<char>>) -> Seq<char>
    decreases lines.len(),
{
    if lines.len() == 0 {
        Seq::empty()
    } else if lines.len() == 1 {
        lines[0]
    } else {
        lines[0] + seq!['\n'] + join_lines(lines.drop_first())
    }
}

/// The text written to disk: every line followed by exactly one `\n`.
pub open spec fn terminate_lines(lines: Seq<Seq<char>>) -> Seq<char>
    decreases lines.len(),
{
    if lines.len() == 0 {
        Seq::empty()
    } else {
        lines[0] + seq!['\n'] + terminate_lines(lines.drop_first())
    }
}

/// A line of text proper: it holds no line break of either kind.
pub open spec fn line_ok(l: Seq<char>) -> bool {
    forall|j: int| 0 <= j < l.len() ==> #[trigger] l[j] != '\n' && l[j] != '\r'
}

/// Reading a terminated text back as lines: each `\n` ends one line, and a
/// trailing piece without a terminator counts as a final line.
pub open spec fn split_terminated(s: Seq<char>) -> Seq<Seq<char>>
    decreases s.len(),
{
    if s.len() == 0 {
        Seq::empty()
    } else if s[0] == '\n' {
        seq![Seq::<char>::empty()] + split_terminated(s.drop_first())
    } else {
        let rest = split_terminated(s.drop_first());
        if rest.len() == 0 {
            seq![s]
        } else {
            seq![seq![s[0]] + rest[0]] + rest.drop_first()
        }
    }
}

proof fn lemma_join_snoc(lines: Seq<Seq<char>>, l: Seq<char>)
    requires
        lines.len() > 0,
    ensures
        join_lines(lines.push(l)) == join_lines(lines) + seq!['\n'] + l,
    decreases lines.len(),
{
    if lines.len() == 1 {
        assert(lines.push(l)[0] == lines[0]);
        assert(lines.push(l).drop_first() =~= seq![l]);
        assert(join_lines(seq![l]) == l);
        assert(join_lines(lines) == lines[0]);
        assert(join_lines(lines.push(l)) =~= join_lines(lines) + seq!['\n'] + l);
    } else {
        assert(lines.push(l)[0] == lines[0]);
        assert(lines.push(l).drop_first() =~= lines.drop_first().push(l));
        lemma_join_snoc(lines.drop_first(), l);
        assert(join_lines(lines.push(l)) =~= join_lines(lines) + seq!['\n'] + l);
    }
}

proof fn lemma_terminate_snoc(lines: Seq<Seq<char>>, l: Seq<char>)
    ensures
        terminate_lines(lines.push(l)) == terminate_lines(lines) + l + seq!['\n'],
    decreases lines.len(),
{
    if lines.len() == 0 {
        assert(lines.push(l)[0] == l);
        assert(lines.push(l).drop_first() =~= lines);
        assert(terminate_lines(lines.push(l)) =~= terminate_lines(lines) + l + seq!['\n']);
    } else {
        assert(lines.push(l)[0] == lines[0]);
        assert(lines.push(l).drop_first() =~= lines.drop_first().push(l));
        lemma_terminate_snoc(lines.drop_first(), l);
        assert(terminate_lines(lines.push(l)) =~= terminate_lines(lines) + l + seq!['\n']);
    }
}

proof fn lemma_split_one_line(l: Seq<char>, t: Seq<char>)
    requires
        line_ok(l),
    ensures
        split_terminated(l + seq!['\n'] + t) == seq![l] + split_terminated(t),
    decreases l.len(),
{
    let s = l + seq!['\n'] + t;
    if l.len() == 0 {
        assert(l =~= Seq::<char>::empty());
        assert(s[0] == '\n');
        assert(s.drop_first() =~= t);
        assert(split_terminated(s) =~= seq![l] + split_terminated(t));
    } else {
        assert(s[0] == l[0]);
        assert(l[0] != '\n');
        assert(s.drop_first() =~= l.drop_first() + seq!['\n'] + t);
        assert(line_ok(l.drop_first()));
        lemma_split_one_line(l.drop_first(), t);
        let rest = split_terminated(s.drop_first());
        assert(rest == seq![l.drop_first()] + split_terminated(t));
        assert(rest.len() > 0);
        assert(rest[0] == l.drop_first());
        assert(seq![s[0]] + rest[0] =~= l);
        assert(rest.drop_first() =~= split_terminated(t));
        assert(split_terminated(s) =~= seq![l] + split_terminated(t));
    }
}

/// Law: writing terminates every line with exactly one `\n` and emits no
/// `\r`, whatever the host platform: the file text read back by lines is
/// exactly the lines that were written.
pub proof fn lemma_file_text_lines(lines: Seq<Seq<char>>)
    requires
        forall|i: int| 0 <= i < lines.len() ==> line_ok(#[trigger] lines[i]),
    ensures
        split_terminated(terminate_lines(lines)) == lines,
        forall|j: int| 0 <= j < terminate_lines(lines).len() ==> #[trigger] terminate_lines(
            lines,
        )[j] != '\r',
    decreases lines.len(),
{
    if lines.len() == 0 {
        assert(split_terminated(terminate_lines(lines)) =~= lines);
    } else {
        lemma_file_text_lines(lines.drop_first());
        lemma_split_one_line(lines[0], terminate_lines(lines.drop_first()));
        assert(terminate_lines(lines) == lines[0] + seq!['\n'] + terminate_lines(
            lines.drop_first(),
        ));
        assert(split_terminated(terminate_lines(lines)) =~= lines);
        assert forall|j: int| 0 <= j < terminate_lines(lines).len() implies #[trigger]
            terminate_lines(lines)[j] != '\r' by {
            let head = lines[0];
            let tail = terminate_lines(lines.drop_first());
            if j < head.len() {
                assert(terminate_lines(lines)[j] == head[j]);
            } else if j == head.len() {
                assert(terminate_lines(lines)[j] == '\n');
            } else {
                assert(terminate_lines(lines)[j] == tail[j - head.len() - 1]);
            }
        }
    }
}

/// A line holds no inner line feed.
pub open spec fn has_no_newline(l: Seq<char>) -> bool {
    forall|j: int| 0 <= j < l.len() ==> #[trigger] l[j] != '\n'
}

/// A line as the writer reads it out of the assembled text: one `\r`
/// standing directly before the line's `\n` belongs to the line ending, not
/// to the line.
pub open spec fn strip_tail_cr(l: Seq<char>) -> Seq<char> {
    if l.len() > 0 && l[l.len() - 1] == '\r' {
        l.drop_last()
    } else {
        l
    }
}

/// The lines of an assembled text, exactly as the writer iterates them:
/// split at each `\n`, a `\r` directly before a `\n` is part of that line
/// ending, and a final piece without a terminator counts as a last line.
pub open spec fn str_lines(s: Seq<char>) -> Seq<Seq<char>>
    decreases s.len(),
{
    if s.len() == 0 {
        Seq::empty()
    } else if s[0] == '\n' {
        seq![Seq::<char>::empty()] + str_lines(s.drop_first())
    } else if s.len() >= 2 && s[0] == '\r' && s[1] == '\n' {
        seq![Seq::<char>::empty()] + str_lines(s.skip(2))
    } else {
        let rest = str_lines(s.drop_first());
        if rest.len() == 0 {
            seq![s]
        } else {
            seq![seq![s[0]] + rest[0]] + rest.drop_first()
        }
    }
}

/// The bytes the writer puts on disk for an assembled text: its lines,
/// each followed by exactly one `\n`.
pub open spec fn written_form(s: Seq<char>) -> Seq<char> {
    terminate_lines(str_lines(s))
}

proof fn lemma_str_lines_concat(a: Seq<char>, t: Seq<char>)
    requires
        has_no_newline(a),
    ensures
        str_lines(a + seq!['\n'] + t) == seq![strip_tail_cr(a)] + str_lines(t),
    decreases a.len(),
{
    let s = a + seq!['\n'] + t;
    if a.len() == 0 {
        assert(s[0] == '\n');
        assert(s.drop_first() =~= t);
        assert(a =~= Seq::<char>::empty());
        assert(strip_tail_cr(a) == a);
        assert(str_lines(s) =~= seq![strip_tail_cr(a)] + str_lines(t));
    } else if a.len() == 1 && a[0] == '\r' {
        assert(s[0] == '\r');
        assert(s[1] == '\n');
        assert(s.skip(2) =~= t);
        assert(strip_tail_cr(a) =~= Seq::<char>::empty());
        assert(str_lines(s) =~= seq![strip_tail_cr(a)] + str_lines(t));
    } else {
        assert(s[0] == a[0]);
        assert(a[0] != '\n');
        if a.len() >= 2 {
            assert(s[1] == a[1]);
            assert(a[1] != '\n');
        } else {
            assert(a[0] != '\r');
        }
        assert(s.drop_first() =~= a.drop_first() + seq!['\n'] + t);
        assert(has_no_newline(a.drop_first())) by {
            assert forall|j: int| 0 <= j < a.drop_first().len() implies #[trigger] a.drop_first()[j]
                != '\n' by {
                assert(a.drop_first()[j] == a[j + 1]);
            }
        }
        lemma_str_lines_concat(a.drop_first(), t);
        let rest = str_lines(s.drop_first());
        assert(rest == seq![strip_tail_cr(a.drop_first())] + str_lines(t));
        assert(rest.len() > 0);
        assert(rest[0] == strip_tail_cr(a.drop_first()));
        assert(seq![s[0]] + rest[0] =~= strip_tail_cr(a));
        assert(rest.drop_first() =~= str_lines(t));
        assert(str_lines(s) =~= seq![strip_tail_cr(a)] + str_lines(t));
    }
}

proof fn lemma_str_lines_single(a: Seq<char>)
    requires
        a.len() > 0,
        has_no_newline(a),
    ensures
        str_lines(a) == seq![a],
    decreases a.len(),
{
    if a.len() == 1 {
        assert(a.drop_first().len() == 0);
        assert(str_lines(a.drop_first()) == Seq::<Seq<char>>::empty());
        assert(str_lines(a) =~= seq![a]);
    } else {
        assert(a[0] != '\n');
        assert(a[1] != '\n');
        assert(has_no_newline(a.drop_first())) by {
            assert forall|j: int| 0 <= j < a.drop_first().len() implies #[trigger] a.drop_first()[j]
                != '\n' by {
                assert(a.drop_first()[j] == a[j + 1]);
            }
        }
        lemma_str_lines_single(a.drop_first());
        assert(seq![a[0]] + a.drop_first() =~= a);
        assert(str_lines(a) =~= seq![a]);
    }
}

/// For proper single lines whose last line is non-empty, reading the joined
/// text back gives exactly those lines: the in-memory and the on-disk line
/// structure agree.
pub proof fn lemma_str_lines_of_joined(lines: Seq<Seq<char>>)
    requires
        lines.len() > 0,
        forall|i: int| 0 <= i < lines.len() ==> line_ok(#[trigger] lines[i]),
        lines[lines.len() - 1].len() > 0,
    ensures
        str_lines(join_lines(lines)) == lines,
    decreases lines.len(),
{
    if lines.len() == 1 {
        assert(line_ok(lines[0]));
        lemma_str_lines_single(lines[0]);
        assert(join_lines(lines) == lines[0]);
        assert(str_lines(join_lines(lines)) =~= lines);
    } else {
        assert forall|i: int| 0 <= i < lines.drop_first().len() implies line_ok(
            #[trigger] lines.drop_first()[i],
        ) by {
            assert(lines.drop_first()[i] == lines[i + 1]);
        }
        assert(lines.drop_first()[lines.drop_first().len() - 1] == lines[lines.len() - 1]);
        lemma_str_lines_of_joined(lines.drop_first());
        assert(join_lines(lines) == lines[0] + seq!['\n'] + join_lines(lines.drop_first()));
        assert(line_ok(lines[0]));
        lemma_str_lines_concat(lines[0], join_lines(lines.drop_first()));
        assert(strip_tail_cr(lines[0]) == lines[0]);
        assert(str_lines(join_lines(lines)) =~= lines);
    }
}

proof fn lemma_terminate_ends_newline(ls: Seq<Seq<char>>)
    requires
        ls.len() > 0,
    ensures
        terminate_lines(ls).len() > 0,
        terminate_lines(ls)[terminate_lines(ls).len() - 1] == '\n',
    decreases ls.len(),
{
    if ls.len() == 1 {
        assert(terminate_lines(ls.drop_first()) == Seq::<char>::empty());
        assert(terminate_lines(ls) =~= ls[0] + seq!['\n']);
    } else {
        lemma_terminate_ends_newline(ls.drop_first());
        assert(terminate_lines(ls)[terminate_lines(ls).len() - 1] == terminate_lines(
            ls.drop_first(),
        )[terminate_lines(ls.drop_first()).len() - 1]);
    }
}

/// Law: whatever the assembled text holds — a page name may carry any
/// character — the written bytes are the text's lines, each followed by
/// exactly one `\n`: no written line holds an inner `\n`, and a non-empty
/// text always ends in exactly one final `\n`. A `\r` that stands directly
/// before a line's `\n` in the text belongs to the line ending and is not
/// written (`str_lines`).
pub proof fn lemma_written_form_lines(s: Seq<char>)
    ensures
        written_form(s) == terminate_lines(str_lines(s)),
        forall|i: int| 0 <= i < str_lines(s).len() ==> has_no_newline(#[trigger] str_lines(s)[i]),
        s.len() > 0 ==> str_lines(s).len() > 0,
        s.len() > 0 ==> written_form(s).len() > 0 && written_form(s)[written_form(s).len() - 1]
            == '\n',
    decreases s.len(),
{
    if s.len() == 0 {
    } else if s[0] == '\n' {
        lemma_written_form_lines(s.drop_first());
        assert forall|i: int| 0 <= i < str_lines(s).len() implies has_no_newline(
            #[trigger] str_lines(s)[i],
        ) by {
            if i > 0 {
                assert(str_lines(s)[i] == str_lines(s.drop_first())[i - 1]);
            }
        }
        lemma_terminate_ends_newline(str_lines(s));
    } else if s.len() >= 2 && s[0] == '\r' && s[1] == '\n' {
        lemma_written_form_lines(s.skip(2));
        assert forall|i: int| 0 <= i < str_lines(s).len() implies has_no_newline(
            #[trigger] str_lines(s)[i],
        ) by {
            if i > 0 {
                assert(str_lines(s)[i] == str_lines(s.skip(2))[i - 1]);
            }
        }
        lemma_terminate_ends_newline(str_lines(s));
    } else {
        lemma_written_form_lines(s.drop_first());
        let rest = str_lines(s.drop_first());
        assert forall|i: int| 0 <= i < str_lines(s).len() implies has_no_newline(
            #[trigger] str_lines(s)[i],
        ) by {
            if rest.len() == 0 {
                if s.len() > 1 {
                    lemma_str_lines_nonempty(s.drop_first());
                }
                assert(s.len() == 1);
                assert(str_lines(s)[i] == s);
            } else {
                if i == 0 {
                    assert(str_lines(s)[0] == seq![s[0]] + rest[0]);
                    assert(has_no_newline(rest[0]));
                    assert forall|j: int| 0 <= j < str_lines(s)[0].len() implies #[trigger]
                        str_lines(s)[0][j] != '\n' by {
                        if j > 0 {
                            assert(str_lines(s)[0][j] == rest[0][j - 1]);
                        }
                    }
                } else {
                    assert(str_lines(s)[i] == rest.drop_first()[i - 1]);
                    assert(rest.drop_first()[i - 1] == rest[i]);
                }
            }
        }
        lemma_terminate_ends_newline(str_lines(s));
    }
}

proof fn lemma_str_lines_nonempty(s: Seq<char>)
    requires
        s.len() > 0,
    ensures
        str_lines(s).len() > 0,
    decreases s.len(),
{
    if s[0] == '\n' {
    } else if s.len() >= 2 && s[0] == '\r' && s[1] == '\n' {
    } else {
    }
}

/// Splits an assembled text into the lines the writer puts on disk,
/// reading them as the writer does: at each `\n`, a `\r` directly before it
/// stripped, a final unterminated piece kept.
pub fn split_content_lines(s: &str) -> (r: Vec<String>)
    ensures
        line_views(r@) == str_lines(s@),
{
    let n = s.unicode_len();
    let mut done: Vec<String> = Vec::new();
    let mut cur = String::new();
    let mut i: usize = 0;
    proof {
        assert(cur@ + s@.skip(0) =~= s@);
        assert(line_views(done@) =~= Seq::<Seq<char>>::empty());
    }
    while i < n
        invariant
            i <= n,
            n == s@.len(),
            has_no_newline(cur@),
            str_lines(s@) == line_views(done@) + str_lines(cur@ + s@.skip(i as int)),
        decreases n - i,
    {
        let c = s.get_char(i);
        proof {
            assert(s@.skip(i as int) =~= seq![c] + s@.skip(i + 1 as int));
        }
        if c == '\n' {
            let ghost old_cur = cur@;
            let ghost prev = done@;
            let stripped = strip_trailing_cr(cur);
            done.push(stripped);
            cur = String::new();
            proof {
                assert(old_cur + s@.skip(i as int) =~= old_cur + seq!['\n'] + s@.skip(
                    i + 1 as int,
                ));
                lemma_str_lines_concat(old_cur, s@.skip(i + 1 as int));
                assert(line_views(done@) =~= line_views(prev).push(strip_tail_cr(old_cur)));
                assert(cur@ + s@.skip(i + 1 as int) =~= s@.skip(i + 1 as int));
            }
        } else {
            let ghost old_cur = cur@;
            let piece = s.substring_char(i, i + 1);
            proof {
                assert(s@.subrange(i as int, i + 1 as int) =~= seq![c]);
            }
            cur.append(piece);
            proof {
                assert(cur@ + s@.skip(i + 1 as int) =~= old_cur + s@.skip(i as int));
            }
        }
        proof {
            assert(str_lines(s@) =~= line_views(done@) + str_lines(cur@ + s@.skip(i + 1 as int)));
        }
        i = i + 1;
    }
    proof {
        assert(cur@ + s@.skip(n as int) =~= cur@);
    }
    if cur.as_str().is_empty() {
        proof {
            assert(str_lines(cur@) =~= Seq::<Seq<char>>::empty());
            assert(line_views(done@) =~= str_lines(s@));
        }
        done
    } else {
        proof {
            lemma_str_lines_single(cur@);
        }
        done.push(cur);
        proof {
            assert(line_views(done@) =~= str_lines(s@));
        }
        done
    }
}

fn strip_trailing_cr(l: String) -> (r: String)
    ensures
        r@ == strip_tail_cr(l@),
{
    let m = l.as_str().unicode_len();
    if m > 0 && l.as_str().get_char(m - 1) == '\r' {
        let kept = l.as_str().substring_char(0, m - 1);
        proof {
            assert(l@.subrange(0, m - 1 as int) =~= l@.drop_last());
        }
        String::from_str(kept)
    } else {
        l
    }
}

/// Renders the bytes the writer puts on disk for an assembled text.
pub fn render_written_form(content: &str) -> (r: String)
    ensures
        r@ == written_form(content@),
{
    let lines = split_content_lines(content);
    render_file_text(&lines)
}

/// Law: the assembled page opens with a `+++` marker, holds exactly one
/// front-matter block (no line besides the two markers reads `+++`), and
/// ends with the placeholder body `...` preceded by a blank line and a
/// heading equal to the unslugged title. Holds for every title that is a
/// single line of text.
pub proof fn lemma_content_shape(fm: FrontMatter, title: Seq<char>)
    requires
        line_ok(title),
    ensures
        ({
            let lines = content_lines_spec(fm, title);
            let n = fm_lines(fm).len() as int;
            &&& lines.len() == n + 6
            &&& lines[0] == "+++"@
            &&& lines[n + 1] == "+++"@
            &&& forall|i: int|
                0 <= i < lines.len() && i != 0 && i != n + 1 ==> #[trigger] lines[i] != "+++"@
            &&& lines[n + 2] == Seq::<char>::empty()
            &&& lines[n + 3] == heading_line(title)
            &&& lines[n + 4] == Seq::<char>::empty()
            &&& lines[n + 5] == "..."@
            &&& forall|i: int| 0 <= i < lines.len() ==> line_ok(#[trigger] lines[i])
        }),
{
    reveal_strlit("+++");
    reveal_strlit("...");
    reveal_strlit("# ");
    reveal_strlit("title = \"");
    reveal_strlit("datetime = ");
    let lines = content_lines_spec(fm, title);
    let n = fm_lines(fm).len() as int;
    assert(n <= 2);
    assert forall|i: int| 0 <= i < lines.len() && i != 0 && i != n + 1 implies #[trigger] lines[i]
        != "+++"@ by {
        lemma_fm_line_shapes(fm);
        if 1 <= i < n + 1 {
            assert(lines[i] == fm_lines(fm)[i - 1]);
            assert(lines[i][0] != '+');
        } else if i == n + 3 {
            assert(lines[i] == heading_line(title));
            assert(heading_line(title)[0] == '#');
        } else if i == n + 2 || i == n + 4 {
            assert(lines[i].len() == 0);
        } else if i == n + 5 {
            assert(lines[i] == "..."@);
            assert("..."@[0] != "+++"@[0]);
        }
    }
    assert forall|i: int| 0 <= i < lines.len() implies line_ok(#[trigger] lines[i]) by {
        lemma_fm_line_shapes(fm);
        if 1 <= i < n + 1 {
            assert(lines[i] == fm_lines(fm)[i - 1]);
        } else if i == n + 3 {
            assert(lines[i] == heading_line(title));
            assert forall|j: int| 0 <= j < heading_line(title).len() implies #[trigger]
                heading_line(title)[j] != '\n' && heading_line(title)[j] != '\r' by {
                if j >= 2 {
                    assert(heading_line(title)[j] == title[j - 2]);
                }
            }
        }
    }
}

/// Every front-matter line is a single proper line and starts with its key,
/// never with a marker character.
proof fn lemma_fm_line_shapes(fm: FrontMatter)
    ensures
        forall|i: int|
            0 <= i < fm_lines(fm).len() ==> line_ok(#[trigger] fm_lines(fm)[i]) && fm_lines(
                fm,
            )[i].len() > 0 && fm_lines(fm)[i][0] != '+',
{
    reveal_strlit("title = \"");
    reveal_strlit("datetime = ");
    assert forall|i: int| 0 <= i < fm_lines(fm).len() implies line_ok(#[trigger] fm_lines(fm)[i])
        && fm_lines(fm)[i].len() > 0 && fm_lines(fm)[i][0] != '+' by {
        let l = fm_lines(fm)[i];
        match fm.title {
            Some(t) => {
                if i == 0 {
                    assert(l == crate::front_matter::title_line(t@));
                    lemma_title_line_shape(t@);
                } else {
                    assert(fm.datetime is Some);
                    assert(l == crate::front_matter::datetime_line(fm.datetime->0));
                    lemma_datetime_line_shape(fm.datetime->0);
                }
            },
            None => {
                assert(fm.datetime is Some);
                assert(l == crate::front_matter::datetime_line(fm.datetime->0));
                lemma_datetime_line_shape(fm.datetime->0);
            },
        }
    }
}

proof fn lemma_title_line_shape(t: Seq<char>)
    ensures
        line_ok(crate::front_matter::title_line(t)),
        crate::front_matter::title_line(t).len() > 0,
        crate::front_matter::title_line(t)[0] == 't',
{
    reveal_strlit("title = \"");
    reveal_strlit("\"");
    let l = crate::front_matter::title_line(t);
    let pre = "title = \""@;
    let e = crate::front_matter::escape(t);
    crate::front_matter::lemma_escape_no_newline(t);
    assert forall|j: int| 0 <= j < l.len() implies #[trigger] l[j] != '\n' && l[j] != '\r' by {
        if j < pre.len() {
            assert(l[j] == pre[j]);
        } else if j < pre.len() + e.len() {
            assert(l[j] == e[j - pre.len()]);
        } else {
            assert(l[j] == "\""@[j - pre.len() - e.len()]);
        }
    }
    assert(l[0] == pre[0]);
}

proof fn lemma_datetime_line_shape(dt: crate::date::DateTime)
    ensures
        line_ok(crate::front_matter::datetime_line(dt)),
        crate::front_matter::datetime_line(dt).len() > 0,
        crate::front_matter::datetime_line(dt)[0] == 'd',
{
    reveal_strlit("datetime = ");
    let l = crate::front_matter::datetime_line(dt);
    let pre = "datetime = "@;
    let ds = crate::date::datetime_str(dt);
    assert(ds.len() == 19);
    assert forall|j: int| 0 <= j < l.len() implies #[trigger] l[j] != '\n' && l[j] != '\r' by {
        if j < pre.len() {
            assert(l[j] == pre[j]);
        } else {
            assert(l[j] == ds[j - pre.len()]);
            lemma_datetime_str_chars(dt, j - pre.len());
        }
    }
    assert(l[0] == pre[0]);
}

/// Every character of a rendered timestamp is a digit or one of `-`, `T`,
/// `:`.
proof fn lemma_datetime_str_chars(dt: crate::date::DateTime, j: int)
    requires
        0 <= j < crate::date::datetime_str(dt).len(),
    ensures
        ({
            let c = crate::date::datetime_str(dt)[j];
            ('0' <= c && c <= '9') || c == '-' || c == 'T' || c == ':'
        }),
{
}

/// Law: the same shape, read off the written file text itself. For a title
/// that is a single line of text, the written form of the assembled page is
/// exactly the assembled lines, each with one `\n`: the file opens with a
/// `+++` marker line and, read back line by line, closes with the
/// placeholder body `...` preceded by a blank line and the heading that
/// carries the unslugged title.
pub proof fn lemma_file_text_shape(fm: FrontMatter, title: Seq<char>)
    requires
        line_ok(title),
    ensures
        ({
            let lines = content_lines_spec(fm, title);
            let file = written_form(join_lines(lines));
            &&& file == terminate_lines(lines)
            &&& file.take(4) == "+++\n"@
            &&& split_terminated(file) == lines
            &&& split_terminated(file)[split_terminated(file).len() - 1] == "..."@
            &&& split_terminated(file)[split_terminated(file).len() - 2] == Seq::<char>::empty()
            &&& split_terminated(file)[split_terminated(file).len() - 3] == heading_line(title)
        }),
{
    let lines = content_lines_spec(fm, title);
    lemma_content_shape(fm, title);
    reveal_strlit("+++");
    reveal_strlit("...");
    reveal_strlit("+++\n");
    assert(lines[lines.len() - 1].len() > 0);
    lemma_str_lines_of_joined(lines);
    let file = written_form(join_lines(lines));
    assert(file == terminate_lines(lines));
    lemma_file_text_lines(lines);
    assert(file == lines[0] + seq!['\n'] + terminate_lines(lines.drop_first()));
    assert(file.take(4) =~= "+++\n"@);
}

/// Assembles the lines of a new page from its front matter and title.
pub fn content_lines(fm: &FrontMatter, title: &str) -> (r: Vec<String>)
    ensures
        line_views(r@) == content_lines_spec(*fm, title@),
{
    let mut r: Vec<String> = Vec::new();
    r.push(String::from_str("+++"));
    let fml = front_matter_lines(fm);
    let mut i: usize = 0;
    proof {
        assert(line_views(r@) =~= seq!["+++"@] + fm_lines(*fm).take(0));
    }
    while i < fml.len()
        invariant
            i <= fml.len(),
            fml@.map_values(|l: String| l@) == fm_lines(*fm),
            line_views(r@) == seq!["+++"@] + fm_lines(*fm).take(i as int),
        decreases fml.len() - i,
    {
        let line = fml[i].clone();
        let ghost prev = r@;
        r.push(line);
        proof {
            assert(fml@.map_values(|l: String| l@)[i as int] == fml@[i as int]@);
            assert(line@ == fm_lines(*fm)[i as int]);
            assert(r@ == prev.push(line));
            assert(line_views(r@) =~= line_views(prev).push(line@));
            assert(line_views(r@) =~= seq!["+++"@] + fm_lines(*fm).take(i + 1 as int));
        }
        i = i + 1;
    }
    proof {
        assert(fm_lines(*fm).take(fml@.len() as int) =~= fm_lines(*fm));
    }
    r.push(String::from_str("+++"));
    r.push(String::new());
    let mut heading = String::from_str("# ");
    heading.append(title);
    r.push(heading);
    r.push(String::new());
    r.push(String::from_str("..."));
    proof {
        assert(line_views(r@) =~= content_lines_spec(*fm, title@));
    }
    r
}

/// Joins lines with single `\n` separators: the in-memory page text.
pub fn join_content(lines: &Vec<String>) -> (r: String)
    ensures
        r@ == join_lines(line_views(lines@)),
{
    let lv = Ghost(line_views(lines@));
    let mut r = String::new();
    let mut i: usize = 0;
    while i < lines.len()
        invariant
            i <= lines.len(),
            lv@ == line_views(lines@),
            r@ == join_lines(lv@.take(i as int)),
        decreases lines.len() - i,
    {
        proof {
            reveal_strlit("\n");
        }
        if i > 0 {
            r.append("\n");
        }
        r.append(lines[i].as_str());
        proof {
            assert(lv@.take(i + 1 as int) =~= lv@.take(i as int).push(lv@[i as int]));
            if i > 0 {
                lemma_join_snoc(lv@.take(i as int), lv@[i as int]);
            } else {
                assert(lv@.take(1) =~= seq![lv@[0]]);
            }
            assert(r@ =~= join_lines(lv@.take(i + 1 as int)));
        }
        i = i + 1;
    }
    proof {
        assert(lv@.take(lines@.len() as int) =~= lv@);
    }
    r
}

/// Renders the file text: every line followed by exactly one `\n`.
pub fn render_file_text(lines: &Vec<String>) -> (r: String)
    ensures
        r@ == terminate_lines(line_views(lines@)),
{
    let lv = Ghost(line_views(lines@));
    let mut r = String::new();
    let mut i: usize = 0;
    while i < lines.len()
        invariant
            i <= lines.len(),
            lv@ == line_views(lines@),
            r@ == terminate_lines(lv@.take(i as int)),
        decreases lines.len() - i,
    {
        proof {
            reveal_strlit("\n");
        }
        r.append(lines[i].as_str());
        r.append("\n");
        proof {
            assert(lv@.take(i + 1 as int) =~= lv@.take(i as int).push(lv@[i as int]));
            lemma_terminate_snoc(lv@.take(i as int), lv@[i as int]);
            assert(r@ =~= terminate_lines(lv@.take(i + 1 as int)));
        }
        i = i + 1;
    }
    proof {
        assert(lv@.take(lines@.len() as int) =~= lv@);
    }
    r
}

} // verus!
