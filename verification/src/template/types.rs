use crate::span::{Location, Span};
use vstd::prelude::*;

verus! {

/// The kinds of the spans of a compiled template.
#[derive(Copy, Clone, PartialEq, Eq, PartialOrd, Ord, Hash, Debug)]
pub enum Kind<'a> {
    CODE(&'a str),
    CONTENT(&'a str),
    DOC(&'a str),
    /// Code with content, or content with code.
    MIXED,
}

impl<'a> Default for Kind<'a> {
    fn default() -> (r: Self)
        ensures
            r == Kind::<'a>::MIXED,
    {
        Self::MIXED
    }
}

/// A span of a compiled template, with the spans that it holds.
#[derive(Debug)]
pub struct Block<'a> {
    pub span: Span<Kind<'a>>,
    pub blocks: Vec<Block<'a>>,
}

impl<'a> Default for Block<'a> {
    /// An empty mixed span at the start, holding nothing.
    fn default() -> (r: Self)
        ensures
            r.span == (Span { kind: Kind::<'a>::MIXED, start: 0, end: 0, location: Location { line: 0, column: 0 } }),
            r.blocks@.len() == 0,
    {
        Self { span: Span::new(Kind::MIXED, 0, 0, Location::default()), blocks: Vec::new() }
    }
}

impl<'a> Block<'a> {
    pub fn with_span(&mut self, span: Span<Kind<'a>>) -> (r: &mut Self)
        ensures
            r.span == span,
            r.blocks == old(self).blocks,
            *final(self) == *final(r),
    {
        self.span = span;
        self
    }

    pub fn push_block(&mut self, block: Block<'a>) -> (r: &mut Self)
        ensures
            r.span == old(self).span,
            r.blocks@ == old(self).blocks@.push(block),
            *final(self) == *final(r),
    {
        self.blocks.push(block);
        self
    }
}

} // verus!
