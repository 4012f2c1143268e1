use crate::consts::{layout_directive, render_section_directive, section_directive, use_directive};
use crate::error::{CompileError, ErrorKind};
use crate::template::block::{empty_model, push_token_model, token_in, tokens_in, tokens_text, Block, BlockModel, Kind};
use crate::template::context::{nth_token_spec, stream_in, ParseContext};
use crate::template::grammar::{
    advance, at_block_spec, directive_loop, directive_spec, inlined_spec, render_loop,
    render_section_spec, result_is,
};
use crate::text::{all_whitespace, lemma_trim_empty, str_eq, substr, trim};
use crate::tokenizer::stream::{get_nth_token, whitespace_pred, skip_end, skip_whitespace, TokenStream};
use crate::tokenizer::token::{self, Token};
use vstd::prelude::*;
use vstd::string::{StringExecFns, StringSliceAdditionalSpecFns};

verus! {

impl<'a> Block<'a> {
    // @exp, @{}, @()
    pub fn parse_at_block(
        source: &'a str,
        token_stream: &mut TokenStream,
        context: &mut ParseContext,
    ) -> (r: Result<Block<'a>, CompileError>)
        requires
            stream_in(source.spec_bytes(), *old(token_stream)),
        ensures
            stream_in(source.spec_bytes(), *final(token_stream)),
            final(token_stream).tokens@ == old(token_stream).tokens@,
            final(context).kind == old(context).kind,
            ({
                let o = at_block_spec(
                    source.spec_bytes(),
                    old(token_stream).tokens@,
                    old(token_stream).offset as int,
                    old(context).kind,
                    old(context).tokens@,
                );
                &&& result_is(r, o.result)
                &&& final(token_stream).offset == o.pos
                &&& final(context).tokens@ == o.pending
            }),
            r is Ok ==> final(token_stream).offset > old(token_stream).offset,
            old(token_stream).offset <= final(token_stream).offset,
        decreases old(token_stream).tokens@.len() - old(token_stream).offset, 1int,
    {
        // first token must be '@'
        let start_token = match token_stream.peek_token() {
            Some(token) => {
                if token.kind() != token::Kind::AT {
                    return Err(CompileError::from_parser(None, ErrorKind::ExpectingAt));
                }
                token
            },
            _ => {
                return Err(CompileError::from_parser(None, ErrorKind::EmptyStreamExpectingAt));
            },
        };

        // consume @.
        token_stream.next_token();
        let token = match token_stream.peek_token() {
            None => {
                return Err(
                    CompileError::from_parser(Some(*start_token), ErrorKind::ExpectedContentAfterAt),
                );
            },
            Some(token) => token,
        };
        let ghost p = token_stream.offset as int;
        let mut block = match token.kind() {
            token::Kind::OPARENTHESIS => {
                // code part.
                match Self::parse_block_within_kinds(
                    source,
                    token::Kind::OPARENTHESIS,
                    token::Kind::CPARENTHESIS,
                    token_stream,
                    context,
                ) {
                    Ok(b) => b,
                    Err(e) => return Err(e),
                }
            },
            token::Kind::OCURLYBRACKET => {
                // code part.
                match Self::parse_block_within_kinds(
                    source,
                    token::Kind::OCURLYBRACKET,
                    token::Kind::CCURLYBRACKET,
                    token_stream,
                    context,
                ) {
                    Ok(b) => b,
                    Err(e) => return Err(e),
                }
            },
            token::Kind::EXPRESSION => {
                proof {
                    assert(token_in(source.spec_bytes(), token_stream.tokens@[token_stream.offset as int]));
                }
                let exp = substr(source, token.start, token.end);
                if str_eq(exp, layout_directive()) || str_eq(exp, use_directive()) {
                    match Self::parse_directive(source, token, token_stream, exp) {
                        Ok(b) => b,
                        Err(e) => return Err(e),
                    }
                } else if str_eq(exp, render_section_directive()) {
                    if context.is_code() {
                        match Self::parse_render_section(source, token, token_stream, exp) {
                            Ok(b) => b,
                            Err(e) => return Err(e),
                        }
                    } else {
                        return Err(
                            CompileError::from_parser(
                                Some(*token),
                                ErrorKind::RenderSectionNotAllowed,
                            ),
                        );
                    }
                } else if str_eq(exp, section_directive()) {
                    match Self::parse_section(source, token, token_stream) {
                        Ok(b) => b,
                        Err(e) => return Err(e),
                    }
                } else {
                    // an expression is one token.
                    let mut block = Self::create_inlined_code_block(source, token, token_stream);
                    block.with_kind(context.kind());
                    return Ok(block);
                }
            },
            token::Kind::ASTERISK => {
                // comment part.
                match Self::parse_comment(source, start_token, token_stream) {
                    Ok(b) => b,
                    Err(e) => return Err(e),
                }
            },
            _ => {
                return Err(
                    CompileError::from_parser(Some(*token), ErrorKind::ExpectedBlockAfterAt),
                );
            },
        };
        block.with_kind(context.kind());
        Ok(block)
    }

    pub fn create_inlined_code_block(
        source: &'a str,
        token: &Token,
        token_stream: &mut TokenStream,
    ) -> (r: Block<'a>)
        requires
            old(token_stream).wf(),
        ensures
            final(token_stream).wf(),
            final(token_stream).tokens@ == old(token_stream).tokens@,
            final(token_stream).offset == advance(
                old(token_stream).tokens@,
                old(token_stream).offset as int,
            ),
            r.model() == inlined_spec(source.spec_bytes(), *token),
    {
        let mut result = Block::new(None, Kind::INLINEDCODE, source);
        result.push_token(*token);

        // consume the expression token.
        token_stream.next_token();
        result
    }

    pub fn parse_directive(
        source: &'a str,
        token: &Token,
        token_stream: &mut TokenStream,
        directive: &str,
    ) -> (r: Result<Block<'a>, CompileError>)
        requires
            stream_in(source.spec_bytes(), *old(token_stream)),
        ensures
            stream_in(source.spec_bytes(), *final(token_stream)),
            final(token_stream).tokens@ == old(token_stream).tokens@,
            ({
                let d = directive_spec(
                    source.spec_bytes(),
                    old(token_stream).tokens@,
                    old(token_stream).offset as int,
                    *token,
                    directive@,
                );
                &&& result_is(r, d.0)
                &&& final(token_stream).offset == d.1
            }),
            old(token_stream).offset <= final(token_stream).offset,
    {
        let ghost src = source.spec_bytes();
        let ghost toks = token_stream.tokens@;
        // consume the directive token
        token_stream.next_token();
        let ghost p1 = token_stream.offset as int;

        // whitespace after directive token
        let skipped = skip_whitespace(token_stream);
        proof {
            crate::tokenizer::stream::lemma_skip_end_bounds(toks, p1, whitespace_pred());
        }
        if !skipped {
            return Err(
                CompileError::from_parser(Some(*token), ErrorKind::ExpectedWhitespaceAfterDirective),
            );
        }
        proof {
            crate::tokenizer::stream::lemma_skip_end_bounds(toks, p1, whitespace_pred());
        }

        // validate directive content.
        let no_content = match get_nth_token(token_stream, 0) {
            // the end of input is no content.
            Some(next_token) => next_token.kind() == token::Kind::EOF,
            None => true,
        };
        if no_content {
            return Err(CompileError::from_parser(Some(*token), ErrorKind::ExpectedDirectiveContent));
        }
        let mut result = Block::new(Some(String::from_str(directive)), Kind::DIRECTIVE, source);
        let ghost target = directive_loop(
            toks,
            token_stream.offset as int,
            empty_model(Some(directive@), Kind::DIRECTIVE, src),
        );
        loop
            invariant_except_break
                src == source.spec_bytes(),
                stream_in(src, *token_stream),
                token_stream.tokens@ == toks,
                toks == old(token_stream).tokens@,
                p1 <= token_stream.offset,
                directive_loop(toks, token_stream.offset as int, result.model()) == target,
                tokens_in(src, result.tokens@),
                result.source.spec_bytes() == src,
            ensures
                src == source.spec_bytes(),
                stream_in(src, *token_stream),
                token_stream.tokens@ == toks,
                toks == old(token_stream).tokens@,
                p1 <= token_stream.offset,
                (result.model(), token_stream.offset as int) == target,
                tokens_in(src, result.tokens@),
                result.source.spec_bytes() == src,
            decreases toks.len() - token_stream.offset,
        {
            let t = match token_stream.peek_token() {
                Some(t) => t,
                None => break,
            };
            match t.kind() {
                token::Kind::NEWLINE | token::Kind::SEMICOLON => {
                    // consume the end token.
                    token_stream.next_token();
                    break;
                },
                _ => {
                    proof {
                        assert(tokens_in(src, result.tokens@.push(*t))) by {
                            assert forall|i: int| 0 <= i < result.tokens@.len() + 1 implies #[trigger] token_in(
                                src,
                                result.tokens@.push(*t)[i],
                            ) by {
                                if i == result.tokens@.len() {
                                    assert(result.tokens@.push(*t)[i] == toks[token_stream.offset as int]);
                                }
                            }
                        }
                    }
                    result.push_token(*t);
                    token_stream.next_token();
                },
            }
        }

        let content = result.content();
        proof {
            lemma_trim_empty(content@);
        }
        if trim(content.as_str()).is_empty() {
            return Err(CompileError::from_parser(Some(*token), ErrorKind::ExpectedDirectiveContent));
        }
        Ok(result)
    }

    pub fn parse_render_section(
        source: &'a str,
        token: &Token,
        token_stream: &mut TokenStream,
        directive: &str,
    ) -> (r: Result<Block<'a>, CompileError>)
        requires
            old(token_stream).wf(),
        ensures
            final(token_stream).wf(),
            final(token_stream).tokens@ == old(token_stream).tokens@,
            ({
                let d = render_section_spec(
                    source.spec_bytes(),
                    old(token_stream).tokens@,
                    old(token_stream).offset as int,
                    *token,
                    directive@,
                );
                &&& result_is(r, d.0)
                &&& final(token_stream).offset == d.1
            }),
            old(token_stream).offset <= final(token_stream).offset,
    {
        let ghost toks = token_stream.tokens@;
        // the parameters within () stay in the directive block.
        // for now, just return the directive block.
        let mut result = Block::new(Some(String::from_str(directive)), Kind::INLINEDCODE, source);

        // consume the directive token
        result.push_token(*token);
        token_stream.next_token();
        let ghost p1 = token_stream.offset as int;
        let ghost target = render_loop(toks, p1, result.model());

        let mut closed = false;
        loop
            invariant_except_break
                token_stream.wf(),
                token_stream.tokens@ == toks,
                toks == old(token_stream).tokens@,
                p1 <= token_stream.offset,
                render_loop(toks, token_stream.offset as int, result.model()) == target,
                !closed,
            ensures
                token_stream.wf(),
                token_stream.tokens@ == toks,
                toks == old(token_stream).tokens@,
                p1 <= token_stream.offset,
                (result.model(), token_stream.offset as int, closed) == target,
            decreases toks.len() - token_stream.offset,
        {
            let t = match token_stream.peek_token() {
                Some(t) => t,
                None => break,
            };
            match t.kind() {
                token::Kind::EOF => {
                    break;
                },
                token::Kind::CPARENTHESIS => {
                    result.push_token(*t);
                    closed = true;
                    break;
                },
                _ => {
                    result.push_token(*t);
                    token_stream.next_token();
                },
            }
        }

        if !closed {
            return Err(CompileError::from_parser(Some(*token), ErrorKind::ExpectedCloseParenthesis));
        } else {
            // consume the end token.
            token_stream.next_token();
        }
        Ok(result)
    }
}

} // verus!
