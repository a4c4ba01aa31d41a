use vstd::prelude::*;

verus! {

/// A source range: one line, from a start column to an end column.
#[derive(Debug, Clone, Copy, PartialEq, Eq, Structural)]
pub struct Span {
    pub line: usize,
    pub start_column: usize,
    pub end_column: usize,
}

impl Span {
    pub fn new(line: usize, start_column: usize, end_column: usize) -> (r: Span)
        ensures
            r == (Span { line, start_column, end_column }),
    {
        Span { line, start_column, end_column }
    }

    /// The span used where no source position is known.
    pub open spec fn spec_unknown() -> Span {
        Span { line: 0, start_column: 0, end_column: 0 }
    }

    pub fn unknown() -> (r: Span)
        ensures
            r == Span::spec_unknown(),
    {
        Span { line: 0, start_column: 0, end_column: 0 }
    }

    /// The span from the start of `self` to the end of `other`, on `self`'s line.
    pub open spec fn spec_merge(self, other: Span) -> Span {
        Span { line: self.line, start_column: self.start_column, end_column: other.end_column }
    }

    pub fn merge(&self, other: &Span) -> (r: Span)
        ensures
            r == self.spec_merge(*other),
    {
        Span { line: self.line, start_column: self.start_column, end_column: other.end_column }
    }
}

} // verus!
