use vstd::prelude::*;

verus! {

/// A position in a source text: the line (counted from 0) and the byte
/// offset of the position from the start of that line.
#[derive(Copy, Clone, PartialEq, Eq, Structural, PartialOrd, Ord, Hash, Debug)]
pub struct Location {
    pub line: usize,
    pub column: usize,
}

impl Location {
    pub fn new(line: usize, column: usize) -> (r: Self)
        ensures
            r.line == line,
            r.column == column,
    {
        Self { line, column }
    }

    pub fn default() -> (r: Self)
        ensures
            r.line == 0,
            r.column == 0,
    {
        Self { line: 0, column: 0 }
    }
}

/// A typed byte range `start..end` of a source text together with the
/// location of its first byte.
#[derive(Copy, Clone, PartialEq, Eq, Structural, PartialOrd, Ord, Hash, Debug)]
pub struct Span<T: Copy> {
    pub kind: T,
    pub start: usize,
    pub end: usize,
    pub location: Location,
}

impl<T: Copy> Span<T> {
    pub fn new(kind: T, start: usize, end: usize, location: Location) -> (r: Self)
        ensures
            r.kind == kind,
            r.start == start,
            r.end == end,
            r.location == location,
    {
        Self { kind, start, end, location }
    }

    pub fn kind(&self) -> (r: T)
        ensures
            r == self.kind,
    {
        self.kind
    }

    pub fn range(&self) -> (r: core::ops::Range<usize>)
        ensures
            r.start == self.start,
            r.end == self.end,
    {
        self.start..self.end
    }

    pub fn location(&self) -> (r: Location)
        ensures
            r == self.location,
    {
        self.location
    }
}

} // verus!
