use vstd::prelude::*;

verus! {

/// The kinds of templates that the compiler reads.
#[derive(Copy, Clone, PartialEq, Eq, Structural, Debug)]
pub enum TemplateKind {
    /// HTML markup with `@` blocks.
    KHTML,
    /// Any other text with `@` blocks.
    KTEXT,
}

/// Options of the template compiler.
#[derive(Copy, Clone, PartialEq, Eq, Structural, Debug)]
pub struct CompilerOptions {
    /// Whether markup that changes nothing in the output is left out.
    pub optimization: bool,
}

impl Default for CompilerOptions {
    /// No optimization.
    fn default() -> (r: Self)
        ensures
            !r.optimization,
    {
        CompilerOptions { optimization: false }
    }
}

impl CompilerOptions {
    pub fn with_optimization(self, optimization: bool) -> (r: Self)
        ensures
            r.optimization == optimization,
    {
        CompilerOptions { optimization, ..self }
    }

    pub fn need_optimization(&self) -> (r: bool)
        ensures
            r == self.optimization,
    {
        self.optimization
    }
}

} // verus!
