//! Source positions: half-open character ranges.

use vstd::prelude::*;

verus! {

/// A half-open range of character positions in a source text.
#[derive(Clone, Copy, Debug, PartialEq, Eq, Structural)]
pub struct Span {
    pub start: usize,
    pub end: usize,
}

impl Span {
    /// The span from `start` to `end`.
    pub fn new(start: usize, end: usize) -> (r: Span)
        ensures
            r.start == start,
            r.end == end,
    {
        Span { start, end }
    }

    /// The empty span at position 0.
    pub fn zero() -> (r: Span)
        ensures
            r.start == 0,
            r.end == 0,
    {
        Span { start: 0, end: 0 }
    }

    /// The smallest span covering both: from the smaller start to the
    /// larger end.
    pub fn combine(self, other: Span) -> (r: Span)
        ensures
            r.start == if self.start <= other.start {
                self.start
            } else {
                other.start
            },
            r.end == if self.end >= other.end {
                self.end
            } else {
                other.end
            },
    {
        Span {
            start: if self.start <= other.start {
                self.start
            } else {
                other.start
            },
            end: if self.end >= other.end {
                self.end
            } else {
                other.end
            },
        }
    }
}

impl Default for Span {
    /// The empty span at position 0.
    fn default() -> (r: Span)
        ensures
            r.start == 0,
            r.end == 0,
    {
        Span { start: 0, end: 0 }
    }
}

} // verus!
