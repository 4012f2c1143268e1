//! What the template parser makes of a token stream: one spec function for
//! each parsing function, over the source bytes `src`, the tokens `toks` and
//! the position `pos` of the next token to read.
use crate::consts::{layout_keyword, render_section_keyword, section_keyword, use_keyword};
use crate::error::{CompileError, ErrorKind};
use crate::template::block::{empty_model, push_block_model, push_token_model, tokens_text, BlockModel, Kind};
use crate::template::context::{consume_spec, consumed_pending, nth_token_spec, switch_spec};
use crate::text::{all_whitespace, text_of};
use crate::tokenizer::stream::{blank_pred, whitespace_pred, lemma_skip_end_bounds, skip_end};
use crate::tokenizer::token::{self, Token};
use vstd::prelude::*;

verus! {

/// The result of a parsing function, where the stream stops, and the
/// tokens that the context is left holding.
pub struct Outcome {
    pub result: Result<BlockModel, CompileError>,
    pub pos: int,
    pub pending: Seq<Token>,
}

/// The earliest token read, when any was read: parsing errors point at it.
pub open spec fn earliest(toks: Seq<Token>, pos: int) -> Option<Token> {
    if pos > 0 && toks.len() > 0 {
        Some(toks[0])
    } else {
        None
    }
}

/// The position after reading one token, if one is left.
pub open spec fn advance(toks: Seq<Token>, pos: int) -> int {
    if pos < toks.len() {
        pos + 1
    } else {
        pos
    }
}

/// `@@` at `pos`: an escaped `@`.
pub open spec fn escaped_at(toks: Seq<Token>, pos: int) -> bool {
    &&& nth_token_spec(toks, pos, 0) matches Some(a) && a.kind == token::Kind::AT
    &&& nth_token_spec(toks, pos, 1) matches Some(b) && b.kind == token::Kind::AT
}

/// Whether a context of kind `kind` is a code context.
pub open spec fn context_is_code(kind: Kind) -> bool {
    kind == Kind::CODE || kind == Kind::FUNCTIONS || kind == Kind::DIRECTIVE || kind == Kind::INLINEDCODE
}

pub open spec fn with_kind(r: Result<BlockModel, CompileError>, kind: Kind) -> Result<BlockModel, CompileError> {
    match r {
        Ok(m) => Ok(BlockModel { kind, ..m }),
        Err(e) => Err(e),
    }
}

pub open spec fn err(kind: ErrorKind, token: Option<Token>) -> Result<BlockModel, CompileError> {
    Err(CompileError { kind, token })
}

/// An expression after `@`: an inlined code block of that one token.
pub open spec fn inlined_spec(src: Seq<u8>, t: Token) -> BlockModel {
    push_token_model(empty_model(None, Kind::INLINEDCODE, src), t)
}

/// The tokens of a directive, up to a line break or `;`, which is read too.
pub open spec fn directive_loop(toks: Seq<Token>, pos: int, m: BlockModel) -> (BlockModel, int)
    decreases toks.len() - pos,
{
    if !(0 <= pos < toks.len()) {
        (m, pos)
    } else if toks[pos].kind == token::Kind::NEWLINE || toks[pos].kind == token::Kind::SEMICOLON {
        (m, pos + 1)
    } else {
        directive_loop(toks, pos + 1, push_token_model(m, toks[pos]))
    }
}

/// `@layout ...` or `@use ...`: `pos` is at the directive token `token`.
pub open spec fn directive_spec(
    src: Seq<u8>,
    toks: Seq<Token>,
    pos: int,
    token: Token,
    directive: Seq<char>,
) -> (Result<BlockModel, CompileError>, int) {
    let p1 = advance(toks, pos);
    let p2 = skip_end(toks, p1, whitespace_pred());
    if p2 == p1 {
        (err(ErrorKind::ExpectedWhitespaceAfterDirective, Some(token)), p2)
    } else if nth_token_spec(toks, p2, 0) is None || toks[p2].kind == token::Kind::EOF {
        // the end of input is no content.
        (err(ErrorKind::ExpectedDirectiveContent, Some(token)), p2)
    } else {
        let (m, p3) = directive_loop(toks, p2, empty_model(Some(directive), Kind::DIRECTIVE, src));
        if all_whitespace(tokens_text(src, m.tokens)) {
            (err(ErrorKind::ExpectedDirectiveContent, Some(token)), p3)
        } else {
            (Ok(m), p3)
        }
    }
}

/// The parameters of `@render_section`, up to `)` (found or not) or the end of input.
pub open spec fn render_loop(toks: Seq<Token>, pos: int, m: BlockModel) -> (BlockModel, int, bool)
    decreases toks.len() - pos,
{
    if !(0 <= pos < toks.len()) || toks[pos].kind == token::Kind::EOF {
        (m, pos, false)
    } else if toks[pos].kind == token::Kind::CPARENTHESIS {
        (push_token_model(m, toks[pos]), pos, true)
    } else {
        render_loop(toks, pos + 1, push_token_model(m, toks[pos]))
    }
}

/// `@render_section(...)`: `pos` is at the keyword token `token`.
pub open spec fn render_section_spec(
    src: Seq<u8>,
    toks: Seq<Token>,
    pos: int,
    token: Token,
    directive: Seq<char>,
) -> (Result<BlockModel, CompileError>, int) {
    let m0 = push_token_model(empty_model(Some(directive), Kind::INLINEDCODE, src), token);
    let (m, p, closed) = render_loop(toks, advance(toks, pos), m0);
    if !closed {
        (err(ErrorKind::ExpectedCloseParenthesis, Some(token)), p)
    } else {
        (Ok(m), advance(toks, p))
    }
}

/// The tokens of a comment up to its closing `*@`.
pub open spec fn comment_loop(toks: Seq<Token>, pos: int, m: BlockModel, at: Token) -> (
    Result<BlockModel, CompileError>,
    int,
)
    decreases toks.len() - pos,
{
    if !(0 <= pos < toks.len()) {
        (err(ErrorKind::UnterminatedComment, Some(at)), pos)
    } else if toks[pos].kind == token::Kind::ASTERISK {
        let m1 = push_token_model(m, toks[pos]);
        let q = pos + 1;
        if q >= toks.len() {
            (err(ErrorKind::UnterminatedComment, Some(at)), q)
        } else if toks[q].kind == token::Kind::AT {
            (Ok(push_token_model(m1, toks[q])), q + 1)
        } else if toks[q].kind != token::Kind::ASTERISK {
            comment_loop(toks, q + 1, push_token_model(m1, toks[q]), at)
        } else {
            comment_loop(toks, q, m1, at)
        }
    } else {
        comment_loop(toks, pos + 1, push_token_model(m, toks[pos]), at)
    }
}

/// `@* ... *@`: `at` is the `@` read already and `pos` is at the `*`.
pub open spec fn comment_spec(src: Seq<u8>, toks: Seq<Token>, pos: int, at: Token) -> (
    Result<BlockModel, CompileError>,
    int,
) {
    let m0 = push_token_model(empty_model(None, Kind::COMMENT, src), at);
    if 0 <= pos < toks.len() && toks[pos].kind == token::Kind::ASTERISK {
        comment_loop(toks, pos + 1, push_token_model(m0, toks[pos]), at)
    } else {
        (err(ErrorKind::ExpectedAsterisk, Some(at)), pos)
    }
}

/// A block that starts with `@` at `pos`, parsed in a context of kind `kind`
/// that holds `pending`.
pub open spec fn at_block_spec(src: Seq<u8>, toks: Seq<Token>, pos: int, kind: Kind, pending: Seq<Token>) -> Outcome
    decreases toks.len() - pos, 1int,
{
    if !(0 <= pos < toks.len()) {
        Outcome { result: err(ErrorKind::EmptyStreamExpectingAt, None), pos, pending }
    } else if toks[pos].kind != token::Kind::AT {
        Outcome { result: err(ErrorKind::ExpectingAt, None), pos, pending }
    } else {
        let start_token = toks[pos];
        let p = pos + 1;
        if p >= toks.len() {
            Outcome { result: err(ErrorKind::ExpectedContentAfterAt, Some(start_token)), pos: p, pending }
        } else {
            let t = toks[p];
            if t.kind == token::Kind::OPARENTHESIS {
                let o = within_spec(src, toks, token::Kind::OPARENTHESIS, token::Kind::CPARENTHESIS, p, kind, pending);
                Outcome { result: with_kind(o.result, kind), ..o }
            } else if t.kind == token::Kind::OCURLYBRACKET {
                let o = within_spec(src, toks, token::Kind::OCURLYBRACKET, token::Kind::CCURLYBRACKET, p, kind, pending);
                Outcome { result: with_kind(o.result, kind), ..o }
            } else if t.kind == token::Kind::EXPRESSION {
                let exp = text_of(src, t.start as int, t.end as int);
                if exp == layout_keyword() || exp == use_keyword() {
                    let (r, q) = directive_spec(src, toks, p, t, exp);
                    Outcome { result: with_kind(r, kind), pos: q, pending }
                } else if exp == render_section_keyword() {
                    if context_is_code(kind) {
                        let (r, q) = render_section_spec(src, toks, p, t, exp);
                        Outcome { result: with_kind(r, kind), pos: q, pending }
                    } else {
                        Outcome { result: err(ErrorKind::RenderSectionNotAllowed, Some(t)), pos: p, pending }
                    }
                } else if exp == section_keyword() {
                    let (r, q) = section_spec(src, toks, p, t);
                    Outcome { result: with_kind(r, kind), pos: q, pending }
                } else {
                    Outcome { result: Ok(BlockModel { kind, ..inlined_spec(src, t) }), pos: p + 1, pending }
                }
            } else if t.kind == token::Kind::ASTERISK {
                let (r, q) = comment_spec(src, toks, p, start_token);
                Outcome { result: with_kind(r, kind), pos: q, pending }
            } else {
                Outcome { result: err(ErrorKind::ExpectedBlockAfterAt, Some(t)), pos: p, pending }
            }
        }
    }
}

/// `@section name { ... }`: `pos` is at the `section` token `token`.
pub open spec fn section_spec(src: Seq<u8>, toks: Seq<Token>, pos: int, token: Token) -> (
    Result<BlockModel, CompileError>,
    int,
)
    decreases toks.len() - pos, 1int,
{
    if !(0 <= pos <= toks.len()) {
        (err(ErrorKind::ExpectedWhitespaceAfterSection, Some(token)), pos)
    } else {
        let p1 = advance(toks, pos);
        let p2 = skip_end(toks, p1, whitespace_pred());
        proof {
            lemma_skip_end_bounds(toks, p1, whitespace_pred());
        }
        if p2 == p1 {
            (err(ErrorKind::ExpectedWhitespaceAfterSection, Some(token)), p2)
        } else if p2 >= toks.len() {
            (err(ErrorKind::ExpectedSectionName, Some(token)), p2)
        } else if toks[p2].kind == token::Kind::EXPRESSION {
            let name = text_of(src, toks[p2].start as int, toks[p2].end as int);
            let p4 = skip_end(toks, p2 + 1, whitespace_pred());
            proof {
                lemma_skip_end_bounds(toks, p2 + 1, whitespace_pred());
            }
            if p4 < toks.len() && toks[p4].kind == token::Kind::OCURLYBRACKET {
                let o = within_spec(
                    src,
                    toks,
                    token::Kind::OCURLYBRACKET,
                    token::Kind::CCURLYBRACKET,
                    p4,
                    Kind::SECTION,
                    seq![],
                );
                match o.result {
                    Ok(b) => (Ok(BlockModel { name: Some(name), ..b }), o.pos),
                    Err(e) => (Err(e), o.pos),
                }
            } else {
                (err(ErrorKind::ExpectedOpenBrace, Some(token)), p4)
            }
        } else {
            (err(ErrorKind::ExpectedSectionName, Some(token)), p2)
        }
    }
}

/// A block between the delimiters `open` and `close`, the first of which is at `pos`.
pub open spec fn within_spec(
    src: Seq<u8>,
    toks: Seq<Token>,
    open: token::Kind,
    close: token::Kind,
    pos: int,
    kind: Kind,
    pending: Seq<Token>,
) -> Outcome
    decreases toks.len() - pos, 3int,
{
    let prev = earliest(toks, pos);
    if 0 <= pos < toks.len() && toks[pos].kind == open {
        within_loop(src, toks, open, close, pos + 1, 1, kind, pending, empty_model(None, Kind::UNKNOWN, seq![]), prev)
    } else {
        Outcome { result: err(ErrorKind::ExpectedOpeningDelimiter, prev), pos, pending }
    }
}

/// The end of a delimited block: the pending tokens make its last block; a
/// single block is the result itself.
pub open spec fn within_finish(
    src: Seq<u8>,
    pos: int,
    depth: int,
    kind: Kind,
    pending: Seq<Token>,
    result: BlockModel,
    prev: Option<Token>,
) -> Outcome {
    if depth != 0 {
        Outcome { result: err(ErrorKind::UnbalancedDelimiters, prev), pos, pending }
    } else {
        let r1 = match consume_spec(kind, pending, src) {
            Some(b) => push_block_model(result, b),
            None => result,
        };
        let p1 = consumed_pending(pending);
        if r1.blocks.len() == 0 {
            Outcome { result: err(ErrorKind::EmptyDelimitedBlock, prev), pos, pending: p1 }
        } else if r1.blocks.len() == 1 {
            Outcome { result: Ok(r1.blocks[0]), pos, pending: p1 }
        } else {
            Outcome { result: Ok(r1), pos, pending: p1 }
        }
    }
}

/// The loop of a delimited block at `pos`, `depth` delimiters deep.
pub open spec fn within_loop(
    src: Seq<u8>,
    toks: Seq<Token>,
    open: token::Kind,
    close: token::Kind,
    pos: int,
    depth: int,
    kind: Kind,
    pending: Seq<Token>,
    result: BlockModel,
    prev: Option<Token>,
) -> Outcome
    decreases toks.len() - pos, 2int,
{
    if !(0 <= pos < toks.len()) {
        within_finish(src, pos, depth, kind, pending, result, prev)
    } else {
        let t = toks[pos];
        if t.kind == open {
            within_loop(src, toks, open, close, pos + 1, depth + 1, kind, pending.push(t), result, prev)
        } else if t.kind == close {
            if depth - 1 == 0 {
                within_finish(src, pos + 1, 0, kind, pending, result, prev)
            } else {
                within_loop(src, toks, open, close, pos + 1, depth - 1, kind, pending.push(t), result, prev)
            }
        } else if t.kind == token::Kind::AT {
            if kind.spec_is_inlined_kind() {
                Outcome { result: err(ErrorKind::InlinedAtNotAllowed, Some(t)), pos, pending }
            } else {
                match switch_spec(kind, src, toks, pos) {
                    Ok((true, nk)) => {
                        let r1 = match consume_spec(kind, pending, src) {
                            Some(b) => push_block_model(result, b),
                            None => result,
                        };
                        let p1 = consumed_pending(pending);
                        let o = at_block_spec(src, toks, pos, nk, seq![]);
                        match o.result {
                            Err(e) => Outcome { result: Err(e), pos: o.pos, pending: p1 },
                            Ok(b) => if pos < o.pos <= toks.len() {
                                within_loop(src, toks, open, close, o.pos, depth, kind, p1, push_block_model(r1, b), prev)
                            } else {
                                // not reached: a block after `@` reads at least the `@`
                                Outcome { result: err(ErrorKind::UnbalancedDelimiters, prev), pos: o.pos, pending: p1 }
                            },
                        }
                    },
                    Ok((false, _)) => {
                        let np = if escaped_at(toks, pos) { pos + 2 } else { pos + 1 };
                        within_loop(src, toks, open, close, np, depth, kind, pending.push(t), result, prev)
                    },
                    Err(e) => Outcome { result: Err(e), pos, pending },
                }
            }
        } else {
            within_loop(src, toks, open, close, pos + 1, depth, kind, pending.push(t), result, prev)
        }
    }
}

/// Pending root tokens make a content block.
pub open spec fn root_consume(result: BlockModel, pending: Seq<Token>, src: Seq<u8>) -> BlockModel {
    match consume_spec(Kind::ROOT, pending, src) {
        Some(b) => push_block_model(result, BlockModel { kind: Kind::CONTENT, ..b }),
        None => result,
    }
}

pub open spec fn root_finish(src: Seq<u8>, pos: int, pending: Seq<Token>, result: BlockModel) -> (
    Result<BlockModel, CompileError>,
    int,
) {
    let r1 = root_consume(result, pending, src);
    if r1.blocks.len() > 0 {
        (Ok(r1), pos)
    } else {
        (err(ErrorKind::EmptyBlock, None), pos)
    }
}

/// The loop of the root block at `pos`.
pub open spec fn root_loop(src: Seq<u8>, toks: Seq<Token>, pos: int, pending: Seq<Token>, result: BlockModel) -> (
    Result<BlockModel, CompileError>,
    int,
)
    decreases toks.len() - pos,
{
    if !(0 <= pos < toks.len()) || toks[pos].kind == token::Kind::EOF {
        root_finish(src, pos, pending, result)
    } else {
        let t = toks[pos];
        if t.kind == token::Kind::AT {
            match switch_spec(Kind::ROOT, src, toks, pos) {
                Ok((true, nk)) => {
                    let r1 = root_consume(result, pending, src);
                    let p1 = consumed_pending(pending);
                    let o = at_block_spec(src, toks, pos, nk, seq![]);
                    match o.result {
                        Err(e) => (Err(e), o.pos),
                        Ok(b) => if pos < o.pos <= toks.len() {
                            root_loop(src, toks, o.pos, p1, push_block_model(r1, b))
                        } else {
                            // not reached: a block after `@` reads at least the `@`
                            (err(ErrorKind::EmptyBlock, None), o.pos)
                        },
                    }
                },
                Ok((false, _)) => {
                    let np = if escaped_at(toks, pos) { pos + 2 } else { pos + 1 };
                    root_loop(src, toks, np, pending.push(t), result)
                },
                Err(e) => (Err(e), pos),
            }
        } else if t.kind == token::Kind::NEWLINE {
            // line breaks between the blocks of the root are dropped
            root_loop(src, toks, pos + 1, pending, result)
        } else {
            root_loop(src, toks, pos + 1, pending.push(t), result)
        }
    }
}

/// A whole template from `pos`: leading whitespace and line breaks are skipped.
pub open spec fn parse_spec(src: Seq<u8>, toks: Seq<Token>, pos: int) -> (Result<BlockModel, CompileError>, int) {
    let p1 = skip_end(toks, pos, blank_pred());
    if !(0 <= p1 < toks.len()) {
        (err(ErrorKind::EmptyStream, None), p1)
    } else {
        root_loop(src, toks, p1, seq![], empty_model(None, Kind::ROOT, src))
    }
}

} // verus!

verus! {

/// A parse result and its model agree.
pub open spec fn result_is<'a>(r: Result<crate::template::block::Block<'a>, CompileError>, s: Result<BlockModel, CompileError>) -> bool {
    match s {
        Ok(m) => r matches Ok(b) && b.model() == m,
        Err(e) => r matches Err(re) && re == e,
    }
}

} // verus!
