use crate::error::{CompileError, ErrorKind};
use crate::template::block::{empty_model, push_token_model, Block, BlockModel, Kind};
use crate::template::context::{stream_in, ParseContext};
use crate::template::grammar::{comment_loop, comment_spec, result_is, section_spec};
use crate::text::substr;
use crate::tokenizer::stream::{whitespace_pred, lemma_skip_end_bounds, skip_whitespace, TokenStream};
use crate::tokenizer::token::{self, Token};
use vstd::prelude::*;
use vstd::string::StringSliceAdditionalSpecFns;

verus! {

impl<'a> Block<'a> {
    pub fn parse_section(
        source: &'a str,
        token: &Token,
        token_stream: &mut TokenStream,
    ) -> (r: Result<Block<'a>, CompileError>)
        requires
            stream_in(source.spec_bytes(), *old(token_stream)),
        ensures
            stream_in(source.spec_bytes(), *final(token_stream)),
            final(token_stream).tokens@ == old(token_stream).tokens@,
            ({
                let d = section_spec(
                    source.spec_bytes(),
                    old(token_stream).tokens@,
                    old(token_stream).offset as int,
                    *token,
                );
                &&& result_is(r, d.0)
                &&& final(token_stream).offset == d.1
            }),
            old(token_stream).offset <= final(token_stream).offset,
        decreases old(token_stream).tokens@.len() - old(token_stream).offset, 1int,
    {
        let ghost toks = token_stream.tokens@;
        // consume the section token
        token_stream.next_token();
        let ghost p1 = token_stream.offset as int;

        // whitespace after layout token
        let skipped = skip_whitespace(token_stream);
        proof {
            crate::tokenizer::stream::lemma_skip_end_bounds(toks, p1, whitespace_pred());
        }
        if !skipped {
            return Err(
                CompileError::from_parser(Some(*token), ErrorKind::ExpectedWhitespaceAfterSection),
            );
        }
        proof {
            lemma_skip_end_bounds(toks, p1, whitespace_pred());
        }
        let start_token = match token_stream.peek_token() {
            None => {
                return Err(CompileError::from_parser(Some(*token), ErrorKind::ExpectedSectionName));
            },
            Some(start_token) => start_token,
        };
        match start_token.kind() {
            token::Kind::EXPRESSION => {
                proof {
                    assert(crate::template::block::token_in(source.spec_bytes(), toks[token_stream.offset as int]));
                }
                let name = substr(source, start_token.start, start_token.end);
                // consume the expression token.
                token_stream.next_token();
                let ghost p3 = token_stream.offset as int;

                // whitespace after section name
                skip_whitespace(token_stream);
                proof {
                    lemma_skip_end_bounds(toks, p3, whitespace_pred());
                }
                match token_stream.peek_token() {
                    Some(brace_token) => {
                        if brace_token.kind() == token::Kind::OCURLYBRACKET {
                            let mut context = ParseContext::new(Kind::SECTION);
                            let mut block = match Self::parse_block_within_kinds(
                                source,
                                token::Kind::OCURLYBRACKET,
                                token::Kind::CCURLYBRACKET,
                                token_stream,
                                &mut context,
                            ) {
                                Ok(b) => b,
                                Err(e) => return Err(e),
                            };
                            block.with_name(name);
                            Ok(block)
                        } else {
                            Err(CompileError::from_parser(Some(*token), ErrorKind::ExpectedOpenBrace))
                        }
                    },
                    _ => Err(CompileError::from_parser(Some(*token), ErrorKind::ExpectedOpenBrace)),
                }
            },
            _ => Err(CompileError::from_parser(Some(*token), ErrorKind::ExpectedSectionName)),
        }
    }

    pub fn parse_comment(
        source: &'a str,
        token: &Token,
        token_stream: &mut TokenStream,
    ) -> (r: Result<Block<'a>, CompileError>)
        requires
            old(token_stream).wf(),
        ensures
            final(token_stream).wf(),
            final(token_stream).tokens@ == old(token_stream).tokens@,
            ({
                let d = comment_spec(
                    source.spec_bytes(),
                    old(token_stream).tokens@,
                    old(token_stream).offset as int,
                    *token,
                );
                &&& result_is(r, d.0)
                &&& final(token_stream).offset == d.1
            }),
            old(token_stream).offset <= final(token_stream).offset,
    {
        let ghost toks = token_stream.tokens@;
        let mut result = Block::new(None, Kind::COMMENT, source);
        result.push_token(*token);  // push '@' token

        // note: @ was consumed before calling this function.
        // the first is * token
        match token_stream.peek_token() {
            Some(t) => {
                if t.kind() == token::Kind::ASTERISK {
                    // consume the '*' token
                    result.push_token(*t);
                    token_stream.next_token();
                } else {
                    return Err(CompileError::from_parser(Some(*token), ErrorKind::ExpectedAsterisk));
                }
            },
            _ => {
                return Err(CompileError::from_parser(Some(*token), ErrorKind::ExpectedAsterisk));
            },
        }
        let ghost p1 = token_stream.offset as int;
        let ghost target = comment_loop(toks, p1, result.model(), *token);

        // Consume tokens until we find the closing '*@'
        let mut is_ended = false;
        loop
            invariant_except_break
                token_stream.wf(),
                token_stream.tokens@ == toks,
                toks == old(token_stream).tokens@,
                p1 <= token_stream.offset,
                comment_loop(toks, token_stream.offset as int, result.model(), *token) == target,
                target == comment_spec(
                    source.spec_bytes(),
                    old(token_stream).tokens@,
                    old(token_stream).offset as int,
                    *token,
                ),
                old(token_stream).offset <= p1,
                !is_ended,
            ensures
                token_stream.wf(),
                token_stream.tokens@ == toks,
                toks == old(token_stream).tokens@,
                p1 <= token_stream.offset,
                is_ended ==> target == (
                    Ok::<BlockModel, CompileError>(result.model()),
                    token_stream.offset as int,
                ),
                !is_ended ==> target == comment_loop(
                    toks,
                    token_stream.offset as int,
                    result.model(),
                    *token,
                ) && token_stream.offset >= toks.len(),
            decreases toks.len() - token_stream.offset,
        {
            let tok = match token_stream.peek_token() {
                Some(t) => t,
                None => break,
            };
            match tok.kind() {
                token::Kind::ASTERISK => {
                    // consume the '*' token
                    result.push_token(*tok);
                    token_stream.next_token();

                    // check next token
                    match token_stream.peek_token() {
                        Some(next_tok) => {
                            if next_tok.kind() == token::Kind::AT {
                                // Found the closing '@', consume '@' and exit the loop
                                result.push_token(*next_tok);
                                token_stream.next_token();  // consume '@'
                                is_ended = true;
                                break;
                            } else {
                                if next_tok.kind() != token::Kind::ASTERISK {
                                    // consume the token after '*' if it's not another '*'
                                    result.push_token(*next_tok);
                                    token_stream.next_token();
                                    continue;
                                }
                            }
                        },
                        None => {
                            // No more tokens after '*', unterminated comment
                            return Err(
                                CompileError::from_parser(
                                    Some(*token),
                                    ErrorKind::UnterminatedComment,
                                ),
                            );
                        },
                    }
                },
                _ => {
                    result.push_token(*tok);
                    token_stream.next_token();
                    continue;
                },
            }
        }

        if is_ended {
            Ok(result)
        } else {
            // If we reach here, we didn't find a closing '*@'
            Err(CompileError::from_parser(Some(*token), ErrorKind::UnterminatedComment))
        }
    }
}

} // verus!
