use crate::optimizer::Optimizer;
use crate::tokenizer::token::{Kind, Token};
use vstd::prelude::*;

verus! {

/// The optimizer of templates that are not markup: it drops only the end of input.
#[derive(Debug)]
pub struct DefaultOptimizer {}

impl Default for DefaultOptimizer {
    fn default() -> (r: Self) {
        Self {}
    }
}

impl Optimizer for DefaultOptimizer {
    open spec fn can_accept(&self, src: Seq<u8>, t: Token) -> bool {
        true
    }

    fn accept(&mut self, _source: &str, token: &Token) -> (r: bool)
        ensures
            r == (token.kind != Kind::EOF),
    {
        // EOF is special.
        if token.kind() == Kind::EOF {
            return false;
        }
        true
    }
}

} // verus!
