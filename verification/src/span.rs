//! Source locations.

use vstd::prelude::*;

verus! {

/// A range of source offsets: `start` is the offset of the first character,
/// `end` the offset just past the last one.
#[derive(Clone, Copy, Debug, PartialEq, Eq, Structural)]
pub struct Span {
    pub start: usize,
    pub end: usize,
}

impl Span {
    /// The span that begins where `self` begins and ends where `last` ends.
    pub open spec fn through(self, last: Span) -> Span {
        Span { start: self.start, end: last.end }
    }

    /// The empty span at the beginning of `self`.
    pub open spec fn before(self) -> Span {
        Span { start: self.start, end: self.start }
    }

    /// The empty span at the end of `self`.
    pub open spec fn after(self) -> Span {
        Span { start: self.end, end: self.end }
    }

    pub fn new(start: usize, end: usize) -> (span: Span)
        ensures
            span == (Span { start, end }),
    {
        Span { start, end }
    }

    /// Joins two spans into the one that covers both and what lies between.
    pub fn to(self, last: Span) -> (span: Span)
        ensures
            span == self.through(last),
    {
        Span { start: self.start, end: last.end }
    }
}

} // verus!
