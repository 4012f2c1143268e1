use crate::template::block::{empty_model, push_token_model, BlockModel, Kind};
use crate::template::context::switch_spec;
use crate::template::grammar::{advance, render_loop, render_section_spec};
use crate::template::utils::{context_at_spec, Context};
use crate::tokenizer::token::{self, Token};
use vstd::prelude::*;

verus! {

proof fn lemma_render_loop_tokens(toks: Seq<Token>, start: int, i: int, m: BlockModel)
    requires
        0 <= start <= i <= toks.len(),
        m.tokens == toks.subrange(start, i),
    ensures
        ({
            let (m2, p, closed) = render_loop(toks, i, m);
            closed ==> {
                &&& i <= p < toks.len()
                &&& toks[p].kind == token::Kind::CPARENTHESIS
                &&& m2.tokens == toks.subrange(start, p + 1)
                &&& m2.name == m.name
                &&& m2.kind == m.kind
                &&& forall|j: int| i <= j < p ==> (#[trigger] toks[j]).kind != token::Kind::CPARENTHESIS
            }
        }),
    decreases toks.len() - i,
{
    if 0 <= i < toks.len() && toks[i].kind != token::Kind::EOF {
        assert(toks.subrange(start, i).push(toks[i]) =~= toks.subrange(start, i + 1));
        if toks[i].kind != token::Kind::CPARENTHESIS {
            lemma_render_loop_tokens(toks, start, i + 1, push_token_model(m, toks[i]));
        }
    }
}

/// A `@render_section(...)` block that parses is named after its keyword,
/// is inlined code, and holds every token from the keyword through the first
/// `)` after it, that `)` included and last; reading goes on right after it.
pub proof fn lemma_render_section_tokens(
    src: Seq<u8>,
    toks: Seq<Token>,
    pos: int,
    directive: Seq<char>,
)
    requires
        0 <= pos < toks.len(),
    ensures
        ({
            let (r, q) = render_section_spec(src, toks, pos, toks[pos], directive);
            r matches Ok(m) ==> {
                &&& pos < q - 1 < toks.len()
                &&& m.name == Some(directive)
                &&& m.kind == Kind::INLINEDCODE
                &&& m.tokens == toks.subrange(pos, q)
                &&& m.tokens.last().kind == token::Kind::CPARENTHESIS
                &&& forall|j: int| pos < j < q - 1 ==> (#[trigger] toks[j]).kind
                    != token::Kind::CPARENTHESIS
            }
        }),
{
    let m0 = push_token_model(empty_model(Some(directive), Kind::INLINEDCODE, src), toks[pos]);
    assert(m0.tokens =~= toks.subrange(pos, pos + 1));
    lemma_render_loop_tokens(toks, pos, advance(toks, pos), m0);
    let (m, p, closed) = render_loop(toks, advance(toks, pos), m0);
    if closed {
        assert(m.tokens.last() == toks[p]);
    }
}

/// An `@` followed by `{` or `(` always switches the context: content to
/// code and code to content, whether or not the `@` is still unread.
pub proof fn lemma_block_after_at_switches(
    src: Seq<u8>,
    toks: Seq<Token>,
    pos: int,
    start: Token,
    from: Context,
)
    requires
        start.kind == token::Kind::AT,
        0 <= pos,
        ({
            let unread = pos < toks.len() && toks[pos].start == start.start && toks[pos].end
                == start.end;
            let next = if unread {
                pos + 1
            } else {
                pos
            };
            &&& next < toks.len()
            &&& (toks[next].kind == token::Kind::OCURLYBRACKET || toks[next].kind
                == token::Kind::OPARENTHESIS)
        }),
    ensures
        context_at_spec(src, toks, pos, start, from) == Ok::<Context, crate::error::CompileError>(
            if from == Context::Content {
                Context::Code
            } else {
                Context::Content
            },
        ),
        context_at_spec(src, toks, pos, start, Context::Content) != context_at_spec(
            src,
            toks,
            pos,
            start,
            Context::Code,
        ),
{
}

/// In a template, `@{` opens a content block from code and a code block
/// from anything else, and `@(` opens inlined content from code and inlined
/// code from anything else.
pub proof fn lemma_template_at_block_switches(kind: Kind, src: Seq<u8>, toks: Seq<Token>, pos: int)
    requires
        0 <= pos,
        pos + 1 < toks.len(),
        toks[pos].kind == token::Kind::AT,
    ensures
        ({
            let code = kind == Kind::CODE || kind == Kind::FUNCTIONS || kind == Kind::INLINEDCODE;
            &&& toks[pos + 1].kind == token::Kind::OCURLYBRACKET ==> switch_spec(kind, src, toks, pos)
                == Ok::<(bool, Kind), crate::error::CompileError>(
                (true, if code { Kind::CONTENT } else { Kind::CODE }),
            )
            &&& toks[pos + 1].kind == token::Kind::OPARENTHESIS ==> switch_spec(kind, src, toks, pos)
                == Ok::<(bool, Kind), crate::error::CompileError>(
                (true, if code { Kind::INLINEDCONTENT } else { Kind::INLINEDCODE }),
            )
        }),
{
}

/// What an `@` does in a template context besides opening a block: `@@`, a
/// last `@` and an `@` before any other token do not switch; `@*` opens a
/// comment in a content context (content, inlined content, the root) and is
/// refused elsewhere; `@use` opens a directive in content or the root;
/// `@layout` only in the root; `@section` opens a section in code, content,
/// functions or the root; any other expression opens inlined content from
/// code and inlined code from anything else. A refusal names the token
/// after the `@`.
pub proof fn lemma_template_at_rules(kind: Kind, src: Seq<u8>, toks: Seq<Token>, pos: int)
    requires
        0 <= pos < toks.len(),
        toks[pos].kind == token::Kind::AT,
    ensures
        pos + 1 == toks.len() ==> switch_spec(kind, src, toks, pos) == Ok::<(bool, Kind), crate::error::CompileError>((false, kind)),
        pos + 1 < toks.len() ==> ({
            let nt = toks[pos + 1];
            let exp = crate::tokenizer::token::token_text(src, nt);
            let code = kind == Kind::CODE || kind == Kind::FUNCTIONS || kind == Kind::INLINEDCODE;
            let r = switch_spec(kind, src, toks, pos);
            let refused = |e: crate::error::ErrorKind| Err::<(bool, Kind), crate::error::CompileError>(crate::error::CompileError { kind: e, token: Some(nt) });
            &&& nt.kind == token::Kind::AT ==> r == Ok::<(bool, Kind), crate::error::CompileError>((false, kind))
            &&& nt.kind == token::Kind::ASTERISK ==> r == if kind == Kind::CONTENT || kind == Kind::INLINEDCONTENT || kind == Kind::ROOT {
                Ok((true, Kind::COMMENT))
            } else {
                refused(crate::error::ErrorKind::CommentNotAllowed)
            }
            &&& (nt.kind == token::Kind::EXPRESSION && exp == seq!['u', 's', 'e']) ==> r == if kind == Kind::CONTENT || kind == Kind::ROOT {
                Ok((true, Kind::DIRECTIVE))
            } else {
                refused(crate::error::ErrorKind::UseNotAllowed)
            }
            &&& (nt.kind == token::Kind::EXPRESSION && exp == seq!['l', 'a', 'y', 'o', 'u', 't']) ==> r == if kind == Kind::ROOT {
                Ok((true, Kind::DIRECTIVE))
            } else {
                refused(crate::error::ErrorKind::LayoutNotAllowed)
            }
            &&& (nt.kind == token::Kind::EXPRESSION && exp == seq!['s', 'e', 'c', 't', 'i', 'o', 'n']) ==> r == if kind == Kind::CODE || kind == Kind::CONTENT || kind == Kind::FUNCTIONS || kind == Kind::ROOT {
                Ok((true, Kind::SECTION))
            } else {
                refused(crate::error::ErrorKind::SectionNotAllowed)
            }
            &&& (nt.kind == token::Kind::EXPRESSION && exp != seq!['u', 's', 'e'] && exp != seq!['l', 'a', 'y', 'o', 'u', 't'] && exp != seq!['s', 'e', 'c', 't', 'i', 'o', 'n']) ==> r == Ok::<(bool, Kind), crate::error::CompileError>(
                (true, if code { Kind::INLINEDCONTENT } else { Kind::INLINEDCODE }),
            )
            &&& (nt.kind != token::Kind::AT && nt.kind != token::Kind::EXPRESSION && nt.kind != token::Kind::OPARENTHESIS && nt.kind != token::Kind::OCURLYBRACKET && nt.kind != token::Kind::ASTERISK) ==> r == Ok::<(bool, Kind), crate::error::CompileError>((false, kind))
        }),
{
}

/// After an `@`: `@@` and `@section` keep the context; `@use` and `@layout`
/// switch content to code and leave code as it is; any other expression
/// switches the context; an `@` before any other token, or at the end,
/// keeps it.
pub proof fn lemma_context_after_at_rules(src: Seq<u8>, toks: Seq<Token>, pos: int, start: Token, from: Context)
    requires
        start.kind == token::Kind::AT,
        0 <= pos < toks.len(),
        toks[pos].start == start.start && toks[pos].end == start.end,
    ensures
        pos + 1 == toks.len() ==> context_at_spec(src, toks, pos, start, from) == Ok::<Context, crate::error::CompileError>(from),
        pos + 1 < toks.len() ==> ({
            let nt = toks[pos + 1];
            let exp = crate::tokenizer::token::token_text(src, nt);
            let other = if from == Context::Content { Context::Code } else { Context::Content };
            let r = context_at_spec(src, toks, pos, start, from);
            &&& (nt.kind == token::Kind::EXPRESSION && (exp == seq!['u', 's', 'e'] || exp == seq!['l', 'a', 'y', 'o', 'u', 't'])) ==> r == Ok::<Context, crate::error::CompileError>(Context::Code)
            &&& (nt.kind == token::Kind::EXPRESSION && exp == seq!['s', 'e', 'c', 't', 'i', 'o', 'n']) ==> r == Ok::<Context, crate::error::CompileError>(from)
            &&& (nt.kind == token::Kind::EXPRESSION && exp != seq!['u', 's', 'e'] && exp != seq!['l', 'a', 'y', 'o', 'u', 't'] && exp != seq!['s', 'e', 'c', 't', 'i', 'o', 'n']) ==> r == Ok::<Context, crate::error::CompileError>(other)
            &&& (nt.kind != token::Kind::EXPRESSION && nt.kind != token::Kind::OPARENTHESIS && nt.kind != token::Kind::OCURLYBRACKET) ==> r == Ok::<Context, crate::error::CompileError>(from)
        }),
{
}

} // verus!
