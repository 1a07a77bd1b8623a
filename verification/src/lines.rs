//! The pure half of the line reader: splitting one source text into lines.
//!
//! A line ends at a newline character, and a carriage return directly
//! before that newline belongs to the terminator, not to the line. Text
//! after the last terminator forms a final line, and a text ending with a
//! terminator gets no extra empty final line — the line discipline of the
//! standard library's line iterator.

use vstd::prelude::*;
use vstd::string::*;
use crate::parser::push_string;

verus! {

/// The index of the first newline character at or after `from`, or
/// `s.len()` if there is none.
pub open spec fn next_newline(s: Seq<char>, from: int) -> int
    decreases s.len() - from,
    when 0 <= from <= s.len()
{
    if from >= s.len() {
        s.len() as int
    } else if s[from] == '\n' {
        from
    } else {
        next_newline(s, from + 1)
    }
}

pub proof fn lemma_next_newline_bounds(s: Seq<char>, from: int)
    requires
        0 <= from <= s.len(),
    ensures
        from <= next_newline(s, from) <= s.len(),
    decreases s.len() - from,
{
    if from < s.len() && s[from] != '\n' {
        lemma_next_newline_bounds(s, from + 1);
    }
}

proof fn lemma_next_newline_is(s: Seq<char>, from: int, i: int)
    requires
        0 <= from <= i <= s.len(),
        i == s.len() || s[i] == '\n',
        forall|j: int| from <= j < i ==> #[trigger] s[j] != '\n',
    ensures
        next_newline(s, from) == i,
    decreases i - from,
{
    if from < i {
        lemma_next_newline_is(s, from + 1, i);
    }
}

/// A terminated line's content: the carriage return of a carriage-return /
/// newline terminator is not part of the line.
pub open spec fn strip_cr(l: Seq<char>) -> Seq<char> {
    if l.len() > 0 && l.last() == '\r' {
        l.drop_last()
    } else {
        l
    }
}

/// The lines of `s` from position `from` on: one line per newline
/// terminator, each without its terminator, plus a final unterminated line
/// (kept verbatim, a trailing carriage return included) where text remains
/// after the last terminator.
pub open spec fn lines_from(s: Seq<char>, from: int) -> Seq<Seq<char>>
    decreases s.len() - from,
    when 0 <= from <= s.len()
{
    if from >= s.len() {
        Seq::empty()
    } else {
        let k = next_newline(s, from);
        if k == s.len() {
            seq![s.subrange(from, k)]
        } else {
            proof {
                lemma_next_newline_bounds(s, from);
            }
            seq![strip_cr(s.subrange(from, k))] + lines_from(s, k + 1)
        }
    }
}

/// The lines of a text.
pub open spec fn lines_of(s: Seq<char>) -> Seq<Seq<char>> {
    lines_from(s, 0)
}

/// Splits one text into its lines.
pub fn split_lines(text: &str) -> (r: Vec<String>)
    ensures
        r.deep_view() == lines_of(text@),
{
    let ghost s = text@;
    let n = text.unicode_len();
    let mut out: Vec<String> = Vec::new();
    let mut start: usize = 0;
    proof {
        assert(out.deep_view() + lines_from(s, 0) =~= lines_of(s));
    }
    while start < n
        invariant
            0 <= start <= n,
            n == s.len(),
            s == text@,
            out.deep_view() + lines_from(s, start as int) == lines_of(s),
        decreases n - start,
    {
        let mut k: usize = start;
        while k < n && text.get_char(k) != '\n'
            invariant
                start <= k <= n,
                n == s.len(),
                s == text@,
                forall|j: int| start <= j < k ==> #[trigger] s[j] != '\n',
            decreases n - k,
        {
            k += 1;
        }
        proof {
            lemma_next_newline_is(s, start as int, k as int);
        }
        let line = if k < n && k > start && text.get_char(k - 1) == '\r' {
            text.substring_char(start, k - 1)
        } else {
            text.substring_char(start, k)
        };
        let ghost prev = out.deep_view();
        push_string(&mut out, line.to_owned());
        proof {
            if k < n {
                assert(line@ == strip_cr(s.subrange(start as int, k as int))) by {
                    if k > start && s[k - 1] == '\r' {
                        assert(s.subrange(start as int, k - 1) =~= s.subrange(
                            start as int,
                            k as int,
                        ).drop_last());
                    }
                }
                assert(prev.push(line@) + lines_from(s, k + 1) =~= prev + lines_from(
                    s,
                    start as int,
                ));
            } else {
                assert(prev.push(line@) + lines_from(s, n as int) =~= prev + lines_from(
                    s,
                    start as int,
                ));
            }
        }
        start = if k < n {
            k + 1
        } else {
            k
        };
    }
    proof {
        assert(out.deep_view() + lines_from(s, n as int) =~= out.deep_view());
    }
    out
}

} // verus!
