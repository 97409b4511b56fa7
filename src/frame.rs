use vstd::prelude::*;
use vstd::string::*;

use crate::parser::lines_view;

verus! {

/// Index of the first line feed at or after `i`, or the length if there is none.
pub open spec fn newline_from(s: Seq<char>, i: int) -> int
    decreases s.len() - i,
{
    if i < 0 || i >= s.len() {
        s.len() as int
    } else if s[i] == '\n' {
        i
    } else {
        newline_from(s, i + 1)
    }
}

/// A line without the carriage return that may end it.
pub open spec fn strip_cr(line: Seq<char>) -> Seq<char> {
    if line.len() > 0 && line.last() == '\r' {
        line.drop_last()
    } else {
        line
    }
}

/// The lines of `s` from index `i` on: each ends at a line feed (or at the end
/// of the text), and neither the line feed nor a carriage return just before it
/// belongs to the line; a last line with no line feed after it is kept whole.
/// A text that ends with a line feed has no empty line after it.
pub open spec fn lines_from(s: Seq<char>, i: int) -> Seq<Seq<char>>
    decreases s.len() + 1 - i,
    via lines_from_decreases
{
    if i < 0 || i >= s.len() {
        Seq::empty()
    } else {
        let k = newline_from(s, i);
        let line = if k < s.len() {
            strip_cr(s.subrange(i, k))
        } else {
            s.subrange(i, k)
        };
        seq![line] + lines_from(s, k + 1)
    }
}

#[via_fn]
proof fn lines_from_decreases(s: Seq<char>, i: int) {
    if 0 <= i < s.len() {
        lemma_newline_from_bounds(s, i);
    }
}

/// The first line feed at or after `i` is not before `i` nor past the end.
pub proof fn lemma_newline_from_bounds(s: Seq<char>, i: int)
    requires
        0 <= i <= s.len(),
    ensures
        i <= newline_from(s, i) <= s.len(),
        newline_from(s, i) < s.len() ==> s[newline_from(s, i)] == '\n',
    decreases s.len() - i,
{
    if i < s.len() && s[i] != '\n' {
        lemma_newline_from_bounds(s, i + 1);
    }
}

/// Cuts a text into its lines (see `lines_from`).
pub fn split_lines(text: &str) -> (r: Vec<String>)
    ensures
        lines_view(r@) == lines_from(text@, 0),
{
    let n = text.unicode_len();
    let mut out: Vec<String> = Vec::new();
    let mut i: usize = 0;
    while i < n
        invariant
            n == text@.len(),
            0 <= i <= n,
            lines_view(out@) + lines_from(text@, i as int) == lines_from(text@, 0),
        decreases n - i,
    {
        let mut k: usize = i;
        while k < n && text.get_char(k) != '\n'
            invariant
                n == text@.len(),
                i <= k <= n,
                newline_from(text@, k as int) == newline_from(text@, i as int),
            decreases n - k,
        {
            k += 1;
        }
        let mut end: usize = k;
        if k < n && end > i && text.get_char(end - 1) == '\r' {
            end = end - 1;
        }
        let line = String::from_str(text.substring_char(i, end));
        let ghost earlier = out@;
        out.push(line);
        proof {
            let whole = text@.subrange(i as int, k as int);
            let expected = if k < n {
                strip_cr(whole)
            } else {
                whole
            };
            assert(newline_from(text@, k as int) == k);
            assert(line@ == expected) by {
                if end < k {
                    assert(text@.subrange(i as int, end as int) =~= whole.drop_last());
                }
            }
            assert(lines_view(out@) =~= lines_view(earlier) + seq![line@]);
            assert(lines_from(text@, i as int) == seq![expected] + lines_from(text@, k + 1));
            assert(lines_view(out@) + lines_from(text@, k + 1) =~= lines_view(earlier)
                + lines_from(text@, i as int));
        }
        if k == n {
            i = n;
        } else {
            i = k + 1;
        }
    }
    assert(lines_view(out@) =~= lines_view(out@) + lines_from(text@, i as int));
    out
}

} // verus!
