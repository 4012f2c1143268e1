use crate::optimizer::Optimizer;
use crate::options::CompilerOptions;
use crate::template::block::token_in;
use crate::text::{lowercase, str_eq, substr, to_lowercase};
use crate::tokenizer::token::{token_text, Kind, Token};
use vstd::prelude::*;
use vstd::string::StringSliceAdditionalSpecFns;

verus! {

/// What the optimizer knows of the tag that it is reading.
#[derive(Copy, Clone, PartialEq, Eq, Structural, Debug)]
pub struct HtmlParseContext {
    /// The token read last.
    pub pre: Option<Token>,
    /// The tag's name.
    pub tag: Option<Token>,
    /// The `>` of the start tag was read.
    pub is_closed: bool,
    /// The tag is a close tag, `</...>`.
    pub is_close_tag: bool,
    /// The tag closes itself, `<... />`.
    pub is_self_close_tag: bool,
    /// The tag's name was read.
    pub is_start_tag: bool,
    /// Inside a quoted attribute value.
    pub is_quoted: bool,
}

/// A context that knows nothing yet.
pub open spec fn fresh_context() -> HtmlParseContext {
    HtmlParseContext {
        pre: None,
        tag: None,
        is_closed: false,
        is_close_tag: false,
        is_self_close_tag: false,
        is_start_tag: false,
        is_quoted: false,
    }
}

impl Default for HtmlParseContext {
    fn default() -> (r: Self)
        ensures
            r == fresh_context(),
    {
        Self {
            pre: None,
            tag: None,
            is_closed: false,
            is_close_tag: false,
            is_self_close_tag: false,
            is_start_tag: false,
            is_quoted: false,
        }
    }
}

impl HtmlParseContext {
    pub fn close(&mut self)
        ensures
            *final(self) == (HtmlParseContext { is_closed: true, ..*old(self) }),
    {
        self.is_closed = true;
    }

    pub fn set_pre(&mut self, pre: Token)
        ensures
            *final(self) == (HtmlParseContext { pre: Some(pre), ..*old(self) }),
    {
        self.pre = Some(pre);
    }

    pub fn set_tag(&mut self, tag: Token)
        ensures
            *final(self) == (HtmlParseContext { tag: Some(tag), ..*old(self) }),
    {
        self.tag = Some(tag);
    }

    pub fn start(&mut self)
        ensures
            *final(self) == (HtmlParseContext { is_start_tag: true, ..*old(self) }),
    {
        self.is_start_tag = true;
    }

    pub fn set_close_tag(&mut self)
        ensures
            *final(self) == (HtmlParseContext { is_close_tag: true, ..*old(self) }),
    {
        self.is_close_tag = true;
    }
}

/// The contexts without the last one, if there is one.
pub open spec fn pop_context(cs: Seq<HtmlParseContext>) -> Seq<HtmlParseContext> {
    if cs.len() == 0 {
        cs
    } else {
        cs.drop_last()
    }
}

/// The tags that have no close tag: after their `>` they are done.
pub open spec fn is_unpaired_tag_name(name: Seq<char>) -> bool {
    name == "br"@ || name == "doctype"@ || name == "link"@ || name == "meta"@
}

/// The byte is `"` or `'`.
pub open spec fn is_quote_byte(c: u8) -> bool {
    c == 34u8 || c == 39u8
}

/// The token's text starts with a quote.
pub open spec fn starts_quoted(src: Seq<u8>, t: Token) -> bool {
    t.start < t.end && is_quote_byte(src[t.start as int])
}

/// The token's text ends with a quote.
pub open spec fn ends_quoted(src: Seq<u8>, t: Token) -> bool {
    t.start < t.end && is_quote_byte(src[t.end - 1])
}

/// The last context after a `>`.
pub open spec fn after_greater_than(src: Seq<u8>, cs: Seq<HtmlParseContext>) -> Seq<HtmlParseContext> {
    if cs.len() == 0 {
        cs
    } else {
        let c = cs.last();
        if c.is_close_tag {
            // the close tag and its start tag are done.
            pop_context(pop_context(cs))
        } else if c.is_self_close_tag {
            cs.drop_last()
        } else {
            match c.tag {
                Some(tag) => if is_unpaired_tag_name(lowercase(token_text(src, tag))) {
                    cs.drop_last()
                } else {
                    cs.update(cs.len() - 1, HtmlParseContext { is_closed: true, ..c })
                },
                None => cs,
            }
        }
    }
}

/// The last context after a `/`.
pub open spec fn after_slash(cs: Seq<HtmlParseContext>, t: Token) -> Seq<HtmlParseContext> {
    if cs.len() == 0 {
        cs
    } else {
        let c = cs.last();
        let c1 = match c.pre {
            Some(p) => if p.kind == Kind::LESSTHAN {
                HtmlParseContext { is_close_tag: true, ..c }
            } else if p.kind == Kind::EXPRESSION {
                HtmlParseContext { is_self_close_tag: true, ..c }
            } else {
                c
            },
            None => c,
        };
        cs.update(cs.len() - 1, HtmlParseContext { pre: Some(t), ..c1 })
    }
}

/// The last context after an expression.
pub open spec fn after_expression(src: Seq<u8>, cs: Seq<HtmlParseContext>, t: Token) -> Seq<
    HtmlParseContext,
> {
    if cs.len() == 0 {
        cs
    } else {
        let c = cs.last();
        let qs = starts_quoted(src, t);
        let qe = ends_quoted(src, t);
        let c1 = if (c.pre matches Some(p) && p.kind == Kind::LESSTHAN) && !(qe || qs) {
            // the tag's name.
            HtmlParseContext { tag: Some(t), is_start_tag: true, ..c }
        } else if c.is_start_tag {
            let q1 = qs || c.is_quoted;
            HtmlParseContext { is_quoted: q1 && !qe, ..c }
        } else {
            c
        };
        cs.update(cs.len() - 1, HtmlParseContext { pre: Some(t), ..c1 })
    }
}

/// Whether a whitespace token goes to the output, and the contexts after it:
/// within a tag it is kept inside quotes, in a `pre` tag, and right after the
/// tag's name; elsewhere in a tag it is dropped.
pub open spec fn after_whitespace(src: Seq<u8>, cs: Seq<HtmlParseContext>, t: Token) -> (
    bool,
    Seq<HtmlParseContext>,
) {
    if cs.len() == 0 {
        (false, cs)
    } else {
        let c = cs.last();
        let kept = cs.update(cs.len() - 1, HtmlParseContext { pre: Some(t), ..c });
        if c.is_quoted {
            // inside a quoted value.
            (true, kept)
        } else if c.is_closed {
            (false, cs)
        } else {
            match c.tag {
                Some(tag) => if lowercase(token_text(src, tag)) == "pre"@ {
                    (true, kept)
                } else if c.pre == Some(tag) {
                    (true, kept)
                } else {
                    (false, cs)
                },
                None => (false, cs),
            }
        }
    }
}

/// The last context after a quote: within a start tag, a quote opens or
/// closes an attribute value.
pub open spec fn after_quote(cs: Seq<HtmlParseContext>, t: Token) -> Seq<HtmlParseContext> {
    if cs.len() == 0 {
        cs
    } else {
        let c = cs.last();
        if c.is_start_tag && !c.is_closed {
            cs.update(cs.len() - 1, HtmlParseContext { pre: Some(t), is_quoted: !c.is_quoted, ..c })
        } else {
            cs
        }
    }
}

/// Whether the markup optimizer lets token `t` of `src` through, and its
/// contexts after the token: the end of input never goes through; without
/// optimization everything else does; with it, line breaks never do, nor
/// whitespace outside tags; within a tag whitespace goes through inside
/// quotes, in a `pre` tag and right after the tag's name.
pub open spec fn html_accept(src: Seq<u8>, optimize: bool, cs: Seq<HtmlParseContext>, t: Token) -> (
    bool,
    Seq<HtmlParseContext>,
) {
    if t.kind == Kind::EOF {
        (false, cs)
    } else if !optimize {
        (true, cs)
    } else if t.kind == Kind::LESSTHAN {
        if cs.len() == 0 || cs.last().is_closed {
            (true, cs.push(HtmlParseContext { pre: Some(t), ..fresh_context() }))
        } else {
            (true, cs)
        }
    } else if t.kind == Kind::GREATTHAN {
        (true, after_greater_than(src, cs))
    } else if t.kind == Kind::SLASH {
        (true, after_slash(cs, t))
    } else if t.kind == Kind::EXPRESSION {
        (true, after_expression(src, cs, t))
    } else if t.kind == Kind::WHITESPACE {
        after_whitespace(src, cs, t)
    } else if t.kind == Kind::DQMARK || t.kind == Kind::SQMAERK {
        (true, after_quote(cs, t))
    } else if t.kind == Kind::NEWLINE {
        (false, cs)
    } else {
        (true, cs)
    }
}

/// Without optimization every token but the end of input goes through, and
/// the contexts do not change.
pub proof fn lemma_no_optimization_keeps_all(src: Seq<u8>, cs: Seq<HtmlParseContext>, t: Token)
    ensures
        html_accept(src, false, cs, t) == (t.kind != Kind::EOF, cs),
{
}

/// The optimizer drops nothing but the end of input, line breaks and whitespace.
pub proof fn lemma_drops_only_blanks(src: Seq<u8>, optimize: bool, cs: Seq<HtmlParseContext>, t: Token)
    ensures
        !html_accept(src, optimize, cs, t).0 ==> (t.kind == Kind::EOF || t.kind == Kind::NEWLINE
            || t.kind == Kind::WHITESPACE),
        t.kind == Kind::EOF ==> !html_accept(src, optimize, cs, t).0,
        optimize && t.kind == Kind::NEWLINE ==> !html_accept(src, optimize, cs, t).0,
{
}

/// After the `>` of a start tag, the tag is done when its lower-case name is
/// `br`, `doctype`, `link` or `meta`, which have no close tag, and its
/// context goes; any other start tag stays, marked closed. A `>` after a
/// close tag ends that tag and the start tag before it.
pub proof fn lemma_greater_than_rules(src: Seq<u8>, cs: Seq<HtmlParseContext>)
    requires
        cs.len() > 0,
    ensures
        ({
            let c = cs.last();
            let l = match c.tag {
                Some(t) => lowercase(token_text(src, t)),
                None => seq![],
            };
            let done = l == seq!['b', 'r'] || l == seq!['d', 'o', 'c', 't', 'y', 'p', 'e'] || l == seq![
                'l',
                'i',
                'n',
                'k',
            ] || l == seq!['m', 'e', 't', 'a'];
            &&& c.is_close_tag ==> after_greater_than(src, cs) == cs.drop_last().take(
                if cs.len() >= 2 { cs.len() - 2 } else { 0 },
            )
            &&& (!c.is_close_tag && !c.is_self_close_tag && c.tag is Some && done) ==> after_greater_than(src, cs) == cs.drop_last()
            &&& (!c.is_close_tag && !c.is_self_close_tag && c.tag is Some && !done) ==> after_greater_than(src, cs) == cs.update(cs.len() - 1, HtmlParseContext { is_closed: true, ..c })
        }),
{
    reveal_strlit("br");
    reveal_strlit("doctype");
    reveal_strlit("link");
    reveal_strlit("meta");
    assert("br"@ =~= seq!['b', 'r']);
    assert("doctype"@ =~= seq!['d', 'o', 'c', 't', 'y', 'p', 'e']);
    assert("link"@ =~= seq!['l', 'i', 'n', 'k']);
    assert("meta"@ =~= seq!['m', 'e', 't', 'a']);
    if cs.last().is_close_tag {
        if cs.len() >= 2 {
            assert(cs.drop_last().drop_last() =~= cs.drop_last().take(cs.len() - 2));
        } else {
            assert(cs.drop_last() =~= cs.drop_last().take(0));
        }
    }
}

/// Every tag name that the contexts hold is a token of `src`.
pub open spec fn tags_in(src: Seq<u8>, cs: Seq<HtmlParseContext>) -> bool {
    forall|i: int| 0 <= i < cs.len() ==> ((#[trigger] cs[i]).tag matches Some(t) ==> token_in(src, t))
}

/// The optimizer of HTML templates.
pub struct HtmlOptimizer<'a> {
    pub compiler_options: &'a CompilerOptions,
    /// The tags being read, innermost last.
    pub contexts: Vec<HtmlParseContext>,
}

impl<'a> HtmlOptimizer<'a> {
    pub fn new(compiler_options: &'a CompilerOptions) -> (r: Self)
        ensures
            r.compiler_options == compiler_options,
            r.contexts@.len() == 0,
    {
        Self { compiler_options: compiler_options, contexts: Vec::new() }
    }
}

/// Whether a lower-case tag name has no close tag.
fn is_unpaired_tag(name: &str) -> (r: bool)
    ensures
        r == is_unpaired_tag_name(name@),
{
    str_eq(name, "br") || str_eq(name, "doctype") || str_eq(name, "link") || str_eq(name, "meta")
}

impl<'a> HtmlOptimizer<'a> {
    /// `<`: a new context, unless a tag is still open.
    fn on_less_than(&mut self, token: &Token)
        requires
            token.kind == Kind::LESSTHAN,
        ensures
            final(self).compiler_options == old(self).compiler_options,
            final(self).contexts@ == html_accept(
                seq![],
                true,
                old(self).contexts@,
                *token,
            ).1,
    {
        let n = self.contexts.len();
        // open tag: create new context, don't know whether the tag is start or close.
        if n == 0 || self.contexts[n - 1].is_closed {
            let mut context = HtmlParseContext::default();
            context.set_pre(*token);
            self.contexts.push(context);
        }
    }

    /// `>`: a tag is done, or its start tag is closed.
    #[verifier::spinoff_prover]
    fn on_greater_than(&mut self, source: &str)
        requires
            tags_in(source.spec_bytes(), old(self).contexts@),
        ensures
            final(self).compiler_options == old(self).compiler_options,
            final(self).contexts@ == after_greater_than(source.spec_bytes(), old(self).contexts@),
    {
        let ghost src = source.spec_bytes();
        let n = self.contexts.len();
        if n > 0 {
            let mut context = self.contexts[n - 1];
            if context.is_close_tag {
                // the close tag, then its start tag.
                self.contexts.pop();
                self.contexts.pop();
            } else if context.is_self_close_tag {
                self.contexts.pop();
            } else if let Some(tag) = context.tag {
                // close the start tag.
                context.close();
                self.contexts.set(n - 1, context);
                proof {
                    assert(token_in(src, old(self).contexts@[n - 1].tag->0));
                }
                // tags like link, meta and br close themselves.
                let tag_name = to_lowercase(substr(source, tag.start, tag.end));
                if is_unpaired_tag(tag_name.as_str()) {
                    self.contexts.pop();
                }
            }
        }
    }

    /// `/`: the tag is a close tag or closes itself.
    fn on_slash(&mut self, token: &Token)
        ensures
            final(self).compiler_options == old(self).compiler_options,
            final(self).contexts@ == after_slash(old(self).contexts@, *token),
    {
        let n = self.contexts.len();
        // </div>: close tag; <div a="a1" ... /> and <br/>: self-close tag.
        if n > 0 {
            let mut context = self.contexts[n - 1];
            if let Some(pre) = context.pre {
                match pre.kind() {
                    Kind::LESSTHAN => {
                        context.set_close_tag();
                    },
                    Kind::EXPRESSION => {
                        context.is_self_close_tag = true;
                    },
                    _ => {},
                }
            }
            context.set_pre(*token);
            self.contexts.set(n - 1, context);
        }
    }

    /// An expression: a tag's name, or a part of an attribute.
    #[verifier::spinoff_prover]
    fn on_expression(&mut self, source: &str, token: &Token)
        requires
            token_in(source.spec_bytes(), *token),
        ensures
            final(self).compiler_options == old(self).compiler_options,
            final(self).contexts@ == after_expression(
                source.spec_bytes(),
                old(self).contexts@,
                *token,
            ),
    {
        let bytes = source.as_bytes();
        let is_quoted_started = token.start < token.end && (bytes[token.start] == 34
            || bytes[token.start] == 39);
        let is_quoted_ended = token.start < token.end && (bytes[token.end - 1] == 34
            || bytes[token.end - 1] == 39);
        let n = self.contexts.len();
        if n > 0 {
            let mut context = self.contexts[n - 1];
            let tag_start = match context.pre {
                Some(pre) => pre.kind() == Kind::LESSTHAN,
                None => false,
            };
            if tag_start && !(is_quoted_ended || is_quoted_started) {
                // the tag's name.
                context.set_tag(*token);
                context.start();
            } else if context.is_start_tag {
                context.pre = Some(*token);
                if is_quoted_started {
                    context.is_quoted = is_quoted_started;
                }
                if context.is_quoted {
                    context.is_quoted = !is_quoted_ended;
                }
            }
            context.set_pre(*token);
            self.contexts.set(n - 1, context);
        }
    }

    /// Whitespace: within a tag, kept inside quotes, in `pre` and right after the tag's name.
    #[verifier::spinoff_prover]
    fn on_whitespace(&mut self, source: &str, token: &Token) -> (r: bool)
        requires
            tags_in(source.spec_bytes(), old(self).contexts@),
        ensures
            final(self).compiler_options == old(self).compiler_options,
            (r, final(self).contexts@) == after_whitespace(
                source.spec_bytes(),
                old(self).contexts@,
                *token,
            ),
    {
        let ghost src = source.spec_bytes();
        let n = self.contexts.len();
        if n > 0 {
            let mut context = self.contexts[n - 1];
            if context.is_quoted {
                // inside a quoted string.
                context.set_pre(*token);
                self.contexts.set(n - 1, context);
                true
            } else if context.is_closed {
                false
            } else {
                if let Some(tag) = context.tag {
                    proof {
                        assert(token_in(src, old(self).contexts@[n - 1].tag->0));
                    }
                    let tag_name = to_lowercase(substr(source, tag.start, tag.end));
                    let after_name = match context.pre {
                        Some(pre) => pre == tag,
                        None => false,
                    };
                    if str_eq(tag_name.as_str(), "pre") || after_name {
                        context.set_pre(*token);
                        self.contexts.set(n - 1, context);
                        return true;
                    }
                }
                false
            }
        } else {
            false
        }
    }

    /// A quote: within a start tag it opens or closes an attribute value.
    fn on_quote(&mut self, token: &Token)
        ensures
            final(self).compiler_options == old(self).compiler_options,
            final(self).contexts@ == after_quote(old(self).contexts@, *token),
    {
        let n = self.contexts.len();
        if n > 0 {
            let mut context = self.contexts[n - 1];
            if context.is_start_tag && !context.is_closed {
                context.is_quoted = !context.is_quoted;
                context.set_pre(*token);
                self.contexts.set(n - 1, context);
            }
        }
    }
}

/// The optimizer's contexts only ever hold tag names that are tokens of the source.
pub proof fn lemma_tags_kept(src: Seq<u8>, cs: Seq<HtmlParseContext>, cs2: Seq<HtmlParseContext>, t: Token)
    requires
        tags_in(src, cs),
        token_in(src, t),
        exists|opt: bool| cs2 == (#[trigger] html_accept(src, opt, cs, t)).1,
    ensures
        tags_in(src, cs2),
{
    let opt = choose|opt: bool| cs2 == (#[trigger] html_accept(src, opt, cs, t)).1;
    if cs.len() > 0 {
        assert(cs.last() == cs[cs.len() - 1]);
    }
    assert forall|i: int| 0 <= i < cs2.len() implies ((#[trigger] cs2[i]).tag matches Some(g)
        ==> token_in(src, g)) by {
        if cs.len() > 0 && i == cs.len() - 1 {
            assert(cs.last() == cs[i]);
        }
        if i < cs.len() {
            assert(cs[i].tag matches Some(g) ==> token_in(src, g));
        }
    }
}

impl<'a> Optimizer for HtmlOptimizer<'a> {
    open spec fn can_accept(&self, src: Seq<u8>, t: Token) -> bool {
        &&& token_in(src, t)
        &&& tags_in(src, self.contexts@)
    }

    fn accept(&mut self, source: &str, token: &Token) -> (r: bool)
        ensures
            final(self).compiler_options == old(self).compiler_options,
            (r, final(self).contexts@) == html_accept(
                source.spec_bytes(),
                old(self).compiler_options.optimization,
                old(self).contexts@,
                *token,
            ),
            tags_in(source.spec_bytes(), final(self).contexts@),
    {
        // EOF is special.
        if token.kind() == Kind::EOF {
            return false;
        }
        if !self.compiler_options.need_optimization() {
            return true;
        }
        let r = match token.kind() {
            Kind::LESSTHAN => {
                self.on_less_than(token);
                true
            },
            Kind::GREATTHAN => {
                self.on_greater_than(source);
                true
            },
            Kind::SLASH => {
                self.on_slash(token);
                true
            },
            Kind::EXPRESSION => {
                self.on_expression(source, token);
                true
            },
            Kind::WHITESPACE => self.on_whitespace(source, token),
            Kind::DQMARK | Kind::SQMAERK => {
                self.on_quote(token);
                true
            },
            Kind::NEWLINE => false,
            _ => true,
        };
        proof {
            let ghost opt = old(self).compiler_options.optimization;
            assert(self.contexts@ == html_accept(source.spec_bytes(), opt, old(self).contexts@, *token).1);
            lemma_tags_kept(source.spec_bytes(), old(self).contexts@, self.contexts@, *token);
        }
        r
    }
}

} // verus!
