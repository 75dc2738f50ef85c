//! The raw configuration lines: splitting file content into its lines and
//! rendering a line sequence back to file content.
//!
//! Splitting follows the usual text convention: lines are separated by a
//! single newline, a trailing newline closes the last line rather than
//! opening an empty one, and empty content has no lines. Rendering joins the
//! lines with single newlines and ends non-empty content with exactly one
//! trailing newline.

use vstd::prelude::*;
use crate::text::{first_of, lemma_first_of, lemma_first_of_is};

verus! {

/// The lines of `s`, in order.
pub open spec fn spec_lines(s: Seq<char>) -> Seq<Seq<char>>
    decreases s.len(),
    via spec_lines_decreases
{
    if s.len() == 0 {
        Seq::empty()
    } else {
        let i = first_of(s, '\n') as int;
        if i == s.len() {
            seq![s]
        } else {
            seq![s.take(i)] + spec_lines(s.skip(i + 1))
        }
    }
}

#[via_fn]
proof fn spec_lines_decreases(s: Seq<char>) {
    lemma_first_of(s, '\n');
}

/// The file content that renders a line sequence: every line followed by a
/// newline; no lines, no content.
pub open spec fn spec_render(ls: Seq<Seq<char>>) -> Seq<char>
    decreases ls.len(),
{
    if ls.len() == 0 {
        Seq::empty()
    } else {
        ls[0] + seq!['\n'] + spec_render(ls.skip(1))
    }
}

/// The line contains no newline character.
pub open spec fn no_nl(l: Seq<char>) -> bool {
    forall|j: int| 0 <= j < l.len() ==> l[j] != '\n'
}

/// No line produced by splitting contains a newline.
pub proof fn lemma_lines_no_nl(s: Seq<char>)
    ensures
        forall|k: int| 0 <= k < spec_lines(s).len() ==> no_nl(#[trigger] spec_lines(s)[k]),
    decreases s.len(),
{
    lemma_first_of(s, '\n');
    if s.len() == 0 {
    } else {
        let i = first_of(s, '\n') as int;
        if i == s.len() {
            assert(no_nl(spec_lines(s)[0]));
        } else {
            lemma_lines_no_nl(s.skip(i + 1));
            let ls = spec_lines(s);
            let rest = spec_lines(s.skip(i + 1));
            assert forall|k: int| 0 <= k < ls.len() implies no_nl(#[trigger] ls[k]) by {
                if k == 0 {
                    assert forall|j: int| 0 <= j < ls[0].len() implies ls[0][j] != '\n' by {
                        assert(s.take(i)[j] == s[j]);
                    }
                } else {
                    assert(ls[k] == rest[k - 1]);
                }
            }
        }
    }
}

/// Splitting undoes rendering, for lines that contain no newline.
pub proof fn lemma_lines_of_render(ls: Seq<Seq<char>>)
    requires
        forall|k: int| 0 <= k < ls.len() ==> no_nl(#[trigger] ls[k]),
    ensures
        spec_lines(spec_render(ls)) == ls,
    decreases ls.len(),
{
    if ls.len() == 0 {
        assert(spec_lines(spec_render(ls)) =~= ls);
    } else {
        let s = spec_render(ls);
        let head = ls[0];
        let rest = spec_render(ls.skip(1));
        assert(s == head + seq!['\n'] + rest);
        assert forall|j: int| 0 <= j < head.len() implies s[j] != '\n' by {
            assert(s[j] == head[j]);
        }
        assert(s[head.len() as int] == '\n');
        lemma_first_of_is(s, '\n', head.len() as int);
        let i = head.len() as int;
        assert(i < s.len());
        assert(s.take(i) =~= head);
        assert(s.skip(i + 1) =~= rest);
        assert forall|k: int| 0 <= k < ls.skip(1).len() implies no_nl(#[trigger] ls.skip(1)[k]) by {
            assert(ls.skip(1)[k] == ls[k + 1]);
        }
        lemma_lines_of_render(ls.skip(1));
        assert(spec_lines(s) =~= ls);
    }
}

/// The lines of `s`, each an owned string.
pub fn split_lines(s: &str) -> (r: Vec<String>)
    ensures
        r.deep_view() == spec_lines(s@),
{
    let n = s.unicode_len();
    let mut r: Vec<String> = Vec::new();
    let mut start: usize = 0;
    let mut i: usize = 0;
    proof {
        assert(s@.skip(0) =~= s@);
        assert(r.deep_view() =~= Seq::<Seq<char>>::empty());
        assert(r.deep_view() + spec_lines(s@) =~= spec_lines(s@));
    }
    while i < n
        invariant
            0 <= start <= i <= n,
            n == s@.len(),
            forall|j: int| start <= j < i ==> s@[j] != '\n',
            spec_lines(s@) == r.deep_view() + spec_lines(s@.skip(start as int)),
        decreases n - i,
    {
        if s.get_char(i) == '\n' {
            let line = String::from_str(s.substring_char(start, i));
            proof {
                let tail = s@.skip(start as int);
                assert forall|j: int| 0 <= j < i - start implies tail[j] != '\n' by {
                    assert(tail[j] == s@[j + start]);
                }
                assert(tail[i - start] == s@[i as int]);
                lemma_first_of_is(tail, '\n', i as int - start as int);
                assert(tail.take(i as int - start as int) =~= s@.subrange(
                    start as int,
                    i as int,
                ));
                assert(tail.skip(i as int - start as int + 1) =~= s@.skip(i as int + 1));
                assert(spec_lines(tail) == seq![line@] + spec_lines(s@.skip(i as int + 1)));
            }
            let ghost old_dv = r.deep_view();
            r.push(line);
            proof {
                assert(r.deep_view() =~= old_dv.push(line@));
                assert(old_dv.push(line@) =~= old_dv + seq![line@]);
                assert(r.deep_view() + spec_lines(s@.skip(i as int + 1)) =~= old_dv + (seq![
                    line@,
                ] + spec_lines(s@.skip(i as int + 1))));
            }
            start = i + 1;
        }
        i = i + 1;
    }
    if start < n {
        let line = String::from_str(s.substring_char(start, n));
        proof {
            let tail = s@.skip(start as int);
            assert forall|j: int| 0 <= j < tail.len() implies tail[j] != '\n' by {
                assert(tail[j] == s@[j + start]);
            }
            lemma_first_of_is(tail, '\n', tail.len() as int);
            assert(tail.take(tail.len() as int) =~= tail);
            assert(tail =~= s@.subrange(start as int, n as int));
            assert(spec_lines(tail) == seq![line@]);
        }
        let ghost old_dv = r.deep_view();
        r.push(line);
        proof {
            assert(r.deep_view() =~= old_dv.push(line@));
            assert(old_dv.push(line@) =~= old_dv + seq![line@]);
        }
    } else {
        proof {
            assert(s@.skip(start as int) =~= Seq::<char>::empty());
            assert(r.deep_view() + spec_lines(s@.skip(start as int)) =~= r.deep_view());
        }
    }
    r
}

/// The file content for a line sequence: lines joined by newlines, one
/// trailing newline when any line exists, empty content otherwise.
pub fn render_lines(lines: &Vec<String>) -> (out: String)
    ensures
        out@ == spec_render(lines.deep_view()),
{
    let ghost dv = lines.deep_view();
    let mut out = String::new();
    let mut i: usize = 0;
    proof {
        reveal_strlit("\n");
        assert(dv.skip(0) =~= dv);
    }
    while i < lines.len()
        invariant
            0 <= i <= lines.len(),
            dv == lines.deep_view(),
            dv.len() == lines.len(),
            "\n"@ == seq!['\n'],
            spec_render(dv) == out@ + spec_render(dv.skip(i as int)),
        decreases lines.len() - i,
    {
        let ghost pre = out@;
        out.append(lines[i].as_str());
        out.append("\n");
        proof {
            let tail = dv.skip(i as int);
            assert(tail.len() > 0);
            assert(tail[0] == dv[i as int]);
            assert(tail.skip(1) =~= dv.skip(i as int + 1));
            assert(spec_render(tail) == tail[0] + seq!['\n'] + spec_render(dv.skip(i as int + 1)));
            assert(dv[i as int] == lines@[i as int]@);
            assert(out@ =~= pre + (dv[i as int] + seq!['\n']));
            assert(out@ + spec_render(dv.skip(i as int + 1)) =~= pre + spec_render(tail));
        }
        i = i + 1;
    }
    proof {
        assert(dv.skip(dv.len() as int) =~= Seq::<Seq<char>>::empty());
        assert(spec_render(dv.skip(dv.len() as int)) == Seq::<char>::empty());
        assert(out@ =~= out@ + Seq::<char>::empty());
    }
    out
}

} // verus!
