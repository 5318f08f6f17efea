//! Source spans: the byte range a syntax-tree node covers, carried on
//! every diagnostic this core produces.

use vstd::prelude::*;

verus! {

/// A region of the source text, as start and end offsets.
#[derive(Clone, Copy, PartialEq, Eq, Structural, Debug, Hash)]
pub struct Span {
    pub start: usize,
    pub end: usize,
}

/// The smallest span covering both arguments.
pub open spec fn spec_join(a: Span, b: Span) -> Span {
    Span {
        start: if a.start <= b.start {
            a.start
        } else {
            b.start
        },
        end: if a.end >= b.end {
            a.end
        } else {
            b.end
        },
    }
}

impl Span {
    /// Construct a span from its offsets.
    pub fn new(start: usize, end: usize) -> (s: Span)
        ensures
            s == (Span { start, end }),
    {
        Span { start, end }
    }

    /// Join two spans into the smallest span covering both.
    pub fn join(self, other: Span) -> (s: Span)
        ensures
            s == spec_join(self, other),
    {
        Span {
            start: if self.start <= other.start {
                self.start
            } else {
                other.start
            },
            end: if self.end >= other.end {
                self.end
            } else {
                other.end
            },
        }
    }
}

} // verus!
