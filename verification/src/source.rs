//! Source text positioning.
//!
//! Positions count characters, and lines end at `\n` characters; a
//! carriage return directly before a terminating `\n` belongs to the
//! terminator and is left out of the line's text.

use vstd::prelude::*;

use crate::error::CompilerError;

verus! {

/// How many `\n` characters sit among the first `upto` characters.
pub open spec fn newline_count(s: Seq<char>, upto: int) -> int
    decreases upto,
{
    if upto <= 0 {
        0
    } else {
        newline_count(s, upto - 1) + (if 0 <= upto - 1 < s.len() && s[upto - 1] == '\n' {
            1int
        } else {
            0int
        })
    }
}

/// The position of the first `\n` at or after `from`, or the text's end.
pub open spec fn next_newline(s: Seq<char>, from: int) -> int
    decreases s.len() - from,
{
    if from < 0 || from >= s.len() {
        s.len() as int
    } else if s[from] == '\n' {
        from
    } else {
        next_newline(s, from + 1)
    }
}

/// Where the text of the line starting at `from` ends: at the next
/// `\n`, less one when a `\r` directly precedes that `\n`.
pub open spec fn line_text_end(s: Seq<char>, from: int) -> int {
    let e = next_newline(s, from);
    if e < s.len() && from <= e - 1 && s[e - 1] == '\r' {
        e - 1
    } else {
        e
    }
}

/// The position where line `i` starts: one past the `i`-th `\n`.
pub open spec fn nth_line_start(s: Seq<char>, i: int) -> int
    decreases i,
{
    if i <= 0 {
        0
    } else {
        next_newline(s, nth_line_start(s, i - 1)) + 1
    }
}

/// A source text.
#[derive(Debug)]
pub struct Source {
    pub text: String,
}

impl Source {
    /// Wrap a text.
    pub fn new(text: String) -> (r: Source)
        ensures
            r.text == text,
    {
        Source { text }
    }

    /// The number of the line the character at `index` sits on: the
    /// count of `\n` characters before it, not counting one directly
    /// at `index - 1`.
    pub fn line_index(&self, index: usize) -> (r: usize)
        requires
            index <= self.text@.len(),
        ensures
            index == 0 ==> r == 0,
            index > 0 ==> r as int == newline_count(self.text@, index as int) - (
            if self.text@[index - 1] == '\n' {
                1int
            } else {
                0int
            }),
    {
        if index == 0 {
            return 0;
        }
        let mut count: usize = 0;
        let mut i: usize = 0;
        while i < index
            invariant
                i <= index <= self.text@.len(),
                count as int == newline_count(self.text@, i as int),
                count <= i,
            decreases index - i,
        {
            if self.text.as_str().get_char(i) == '\n' {
                count = count + 1;
            }
            i = i + 1;
        }
        if self.text.as_str().get_char(index - 1) == '\n' {
            proof {
                assert(newline_count(self.text@, index as int) == newline_count(
                    self.text@,
                    index - 1,
                ) + 1);
                assert(newline_count(self.text@, index - 1) >= 0) by {
                    lemma_newline_count_nonneg(self.text@, index - 1);
                }
            }
            count - 1
        } else {
            count
        }
    }

    /// The position where line `index` starts; one past the text's end
    /// when the text has fewer lines.
    pub fn line_start(&self, index: usize) -> (r: usize)
        requires
            self.text@.len() < usize::MAX,
        ensures
            r as int == nth_line_start(self.text@, index as int),
            r <= self.text@.len() + 1,
    {
        let n = self.text.as_str().unicode_len();
        let mut pos: usize = 0;
        let mut k: usize = 0;
        while k < index
            invariant
                k <= index,
                n == self.text@.len(),
                n < usize::MAX,
                pos as int == nth_line_start(self.text@, k as int),
                pos <= n + 1,
            decreases index - k,
        {
            let mut j: usize = if pos > n {
                n
            } else {
                pos
            };
            proof {
                if pos > n {
                    assert(next_newline(self.text@, pos as int) == n);
                    assert(next_newline(self.text@, n as int) == n);
                }
            }
            while j < n && self.text.as_str().get_char(j) != '\n'
                invariant
                    j <= n,
                    n == self.text@.len(),
                    next_newline(self.text@, pos as int) == next_newline(self.text@, j as int),
                decreases n - j,
            {
                j = j + 1;
            }
            proof {
                assert(next_newline(self.text@, j as int) == j);
            }
            pos = j + 1;
            k = k + 1;
        }
        pos
    }

    /// The text of line `index`: the characters from its start to the
    /// next `\n` or the text's end, without a `\r` directly before
    /// that `\n`. A line exists exactly when its start lies inside the
    /// text.
    pub fn line(&self, index: usize) -> (r: Result<&str, CompilerError>)
        requires
            self.text@.len() < usize::MAX,
        ensures
            r is Ok <==> nth_line_start(self.text@, index as int) < self.text@.len(),
            r matches Ok(l) ==> l@ == self.text@.subrange(
                nth_line_start(self.text@, index as int),
                line_text_end(self.text@, nth_line_start(self.text@, index as int)),
            ),
            r is Err ==> r == Err::<&str, CompilerError>(CompilerError::ReadSource),
    {
        let n = self.text.as_str().unicode_len();
        let start = self.line_start(index);
        if start >= n {
            return Err(CompilerError::ReadSource);
        }
        let mut j: usize = start;
        while j < n && self.text.as_str().get_char(j) != '\n'
            invariant
                j <= n,
                n == self.text@.len(),
                next_newline(self.text@, start as int) == next_newline(self.text@, j as int),
            decreases n - j,
        {
            j = j + 1;
        }
        proof {
            assert(next_newline(self.text@, j as int) == j);
            lemma_next_newline_bounds(self.text@, start as int);
        }
        if j < n && j > start && self.text.as_str().get_char(j - 1) == '\r' {
            Ok(self.text.as_str().substring_char(start, j - 1))
        } else {
            Ok(self.text.as_str().substring_char(start, j))
        }
    }
}

/// Newline counts are never negative.
proof fn lemma_newline_count_nonneg(s: Seq<char>, upto: int)
    ensures
        newline_count(s, upto) >= 0,
    decreases upto,
{
    if upto > 0 {
        lemma_newline_count_nonneg(s, upto - 1);
    }
}

/// The next newline lies between `from` and the text's end.
proof fn lemma_next_newline_bounds(s: Seq<char>, from: int)
    requires
        0 <= from,
    ensures
        from <= next_newline(s, from) <= s.len() || next_newline(s, from) == s.len(),
        next_newline(s, from) <= s.len(),
    decreases s.len() - from,
{
    if !(from >= s.len()) && s[from] != '\n' {
        lemma_next_newline_bounds(s, from + 1);
    }
}

} // verus!
