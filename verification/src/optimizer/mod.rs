pub mod default;
pub mod html;

use crate::optimizer::default::DefaultOptimizer;
use crate::optimizer::html::{html_accept, HtmlOptimizer};
use crate::options::{CompilerOptions, TemplateKind};
use crate::tokenizer::token::{Kind, Token};
use vstd::prelude::*;
use vstd::string::StringSliceAdditionalSpecFns;

verus! {

/// Decides, token by token, which tokens of a template go to the output.
pub trait Optimizer {
    /// The optimizer can be asked about token `t` of the source text `src`.
    spec fn can_accept(&self, src: Seq<u8>, t: Token) -> bool;

    /// Whether `token` of `source` goes to the output.
    fn accept(&mut self, source: &str, token: &Token) -> bool
        requires
            old(self).can_accept(source.spec_bytes(), *token),
    ;
}

/// The optimizer of a template, chosen by the template's kind.
pub enum TemplateOptimizer<'a> {
    Html(HtmlOptimizer<'a>),
    Default(DefaultOptimizer),
}

impl<'a> Optimizer for TemplateOptimizer<'a> {
    open spec fn can_accept(&self, src: Seq<u8>, t: Token) -> bool {
        match self {
            TemplateOptimizer::Html(o) => o.can_accept(src, t),
            TemplateOptimizer::Default(o) => o.can_accept(src, t),
        }
    }

    fn accept(&mut self, source: &str, token: &Token) -> (r: bool)
        ensures
            match *old(self) {
                TemplateOptimizer::Html(o) => {
                    &&& *final(self) matches TemplateOptimizer::Html(n)
                    &&& n.compiler_options == o.compiler_options
                    &&& (r, n.contexts@) == html_accept(
                        source.spec_bytes(),
                        o.compiler_options.optimization,
                        o.contexts@,
                        *token,
                    )
                },
                TemplateOptimizer::Default(_) => {
                    &&& *final(self) is Default
                    &&& r == (token.kind != Kind::EOF)
                },
            },
    {
        match self {
            TemplateOptimizer::Html(o) => o.accept(source, token),
            TemplateOptimizer::Default(o) => o.accept(source, token),
        }
    }
}

/// The optimizer for a kind of template: HTML templates get the markup
/// optimizer, any other the default one.
pub fn create_optimizer<'a>(template_kind: TemplateKind, options: &'a CompilerOptions) -> (r:
    TemplateOptimizer<'a>)
    ensures
        match template_kind {
            TemplateKind::KHTML => r matches TemplateOptimizer::Html(o) && o.compiler_options
                == options && o.contexts@.len() == 0,
            _ => r is Default,
        },
{
    match template_kind {
        TemplateKind::KHTML => TemplateOptimizer::Html(HtmlOptimizer::new(options)),
        _ => TemplateOptimizer::Default(DefaultOptimizer::default()),
    }
}

} // verus!
