use crate::error::{CompileError, ErrorKind};
use crate::template::block::{empty_model, Block, BlockModel, Kind};
use crate::template::context::{stream_in, ParseContext};
use crate::template::grammar::{
    at_block_spec, parse_spec, result_is, root_finish, root_loop, within_finish, within_loop,
    within_spec,
};
use crate::template::util;
use crate::tokenizer::stream::{
    blank_pred, lemma_skip_end_bounds, skip_whitespace_and_newline, TokenStream,
};
use crate::tokenizer::token;
use vstd::prelude::*;
use vstd::string::StringSliceAdditionalSpecFns;

verus! {

impl<'a> Block<'a> {
    pub fn parse_block_within_kinds(
        source: &'a str,
        open_kind: token::Kind,
        close_kind: token::Kind,
        token_stream: &mut TokenStream,
        context: &mut ParseContext,
    ) -> (r: Result<Block<'a>, CompileError>)
        requires
            stream_in(source.spec_bytes(), *old(token_stream)),
        ensures
            stream_in(source.spec_bytes(), *final(token_stream)),
            final(token_stream).tokens@ == old(token_stream).tokens@,
            final(context).kind == old(context).kind,
            ({
                let o = within_spec(
                    source.spec_bytes(),
                    old(token_stream).tokens@,
                    open_kind,
                    close_kind,
                    old(token_stream).offset as int,
                    old(context).kind,
                    old(context).tokens@,
                );
                &&& result_is(r, o.result)
                &&& final(token_stream).offset == o.pos
                &&& final(context).tokens@ == o.pending
            }),
            r is Ok ==> final(token_stream).offset > old(token_stream).offset,
            old(token_stream).offset <= final(token_stream).offset,
        decreases old(token_stream).tokens@.len() - old(token_stream).offset, 3int,
    {
        let ghost src = source.spec_bytes();
        let ghost toks = token_stream.tokens@;
        let ghost kind = context.kind;
        let ghost target = within_spec(
            src,
            toks,
            open_kind,
            close_kind,
            token_stream.offset as int,
            context.kind,
            context.tokens@,
        );
        // validate, first token must be open_kind and consume the token.
        let previous_token = token_stream.earliest_read_token();
        match token_stream.peek_token() {
            Some(token) => {
                if token.kind() != open_kind {
                    return Err(
                        CompileError::from_parser(previous_token, ErrorKind::ExpectedOpeningDelimiter),
                    );
                } else {
                    token_stream.next_token();
                }
            },
            _ => {
                return Err(
                    CompileError::from_parser(previous_token, ErrorKind::ExpectedOpeningDelimiter),
                );
            },
        }

        let mut depth: usize = 1;
        let mut result = Block::default();
        loop
            invariant_except_break
                src == source.spec_bytes(),
                stream_in(src, *token_stream),
                token_stream.tokens@ == toks,
                toks == old(token_stream).tokens@,
                context.kind == kind,
                old(token_stream).offset < token_stream.offset,
                1 <= depth <= token_stream.offset,
                kind == old(context).kind,
                target == within_spec(
                    src,
                    toks,
                    open_kind,
                    close_kind,
                    old(token_stream).offset as int,
                    kind,
                    old(context).tokens@,
                ),
                within_loop(
                    src,
                    toks,
                    open_kind,
                    close_kind,
                    token_stream.offset as int,
                    depth as int,
                    kind,
                    context.tokens@,
                    result.model(),
                    previous_token,
                ) == target,
            ensures
                src == source.spec_bytes(),
                stream_in(src, *token_stream),
                token_stream.tokens@ == toks,
                toks == old(token_stream).tokens@,
                context.kind == kind,
                old(token_stream).offset < token_stream.offset,
                kind == old(context).kind,
                target == within_spec(
                    src,
                    toks,
                    open_kind,
                    close_kind,
                    old(token_stream).offset as int,
                    kind,
                    old(context).tokens@,
                ),
                within_finish(
                    src,
                    token_stream.offset as int,
                    depth as int,
                    kind,
                    context.tokens@,
                    result.model(),
                    previous_token,
                ) == target,
            decreases toks.len() - token_stream.offset,
        {
            let token = match token_stream.peek_token() {
                Some(t) => t,
                None => break,
            };
            if token.kind() == open_kind {
                context.push(*token);
                token_stream.next_token();
                depth = depth + 1;
            } else if token.kind() == close_kind {
                // should not push the closing delimiter to context.
                // ignore the closing delimiter.
                token_stream.next_token();
                depth = depth - 1;
                if depth == 0 {
                    break;
                } else {
                    context.push(*token);
                }
            } else if token.kind() == token::Kind::AT {
                if context.kind().is_inlined_kind() {
                    return Err(
                        CompileError::from_parser(Some(*token), ErrorKind::InlinedAtNotAllowed),
                    );
                }
                match context.switch_if_possible(source, token_stream) {
                    Ok((true, new_context)) => {
                        let mut new_context = new_context;
                        proof {
                            assert(new_context.tokens@ =~= Seq::<token::Token>::empty());
                        }
                        // 1. consume the current pending tokens belong to current context.
                        match context.consume(source) {
                            Some(block) => {
                                result.push_block(block);
                            },
                            _ => {
                                // no-op: as there is no pending tokens belong to current context.
                            },
                        }

                        // 2. switch context.
                        let block = match Block::parse_at_block(
                            source,
                            token_stream,
                            &mut new_context,
                        ) {
                            Ok(b) => b,
                            Err(e) => return Err(e),
                        };
                        result.push_block(block);
                    },
                    Ok((false, _)) => {
                        if util::is_token_escaped(token_stream) {
                            // consume 2 @ as one, only push one @ to context.
                            token_stream.next_token();
                        }
                        token_stream.next_token();
                        context.push(*token);
                    },
                    Err(e) => return Err(e),
                }
            } else {
                // consume and push to current context.
                token_stream.next_token();
                context.push(*token);
            }
        }

        // not balanced.
        if depth != 0 {
            return Err(CompileError::from_parser(previous_token, ErrorKind::UnbalancedDelimiters));
        }

        // consume the context.
        match context.consume(source) {
            Some(block) => {
                result.push_block(block);
            },
            None => {},
        }

        let n = result.blocks.len();
        if n == 0 {
            Err(CompileError::from_parser(previous_token, ErrorKind::EmptyDelimitedBlock))
        } else if n == 1 {
            let ghost m = result.model();
            let b = result.blocks.pop().unwrap();
            proof {
                assert(m.blocks[0] == b.model());
            }
            Ok(b)
        } else {
            Ok(result)
        }
    }

    pub fn parse(source: &'a str, token_stream: &mut TokenStream) -> (r: Result<
        Block<'a>,
        CompileError,
    >)
        requires
            stream_in(source.spec_bytes(), *old(token_stream)),
        ensures
            stream_in(source.spec_bytes(), *final(token_stream)),
            final(token_stream).tokens@ == old(token_stream).tokens@,
            ({
                let d = parse_spec(
                    source.spec_bytes(),
                    old(token_stream).tokens@,
                    old(token_stream).offset as int,
                );
                &&& result_is(r, d.0)
                &&& final(token_stream).offset == d.1
            }),
    {
        let ghost src = source.spec_bytes();
        let ghost toks = token_stream.tokens@;
        let ghost p0 = token_stream.offset as int;
        // skip leading whitespace and linefeeds.
        skip_whitespace_and_newline(token_stream);
        proof {
            lemma_skip_end_bounds(toks, p0, blank_pred());
        }
        if token_stream.peek_token().is_none() {
            return Err(CompileError::from_parser(None, ErrorKind::EmptyStream));
        }
        let mut context = ParseContext::new(Kind::ROOT);
        let mut result = Block::new(None, Kind::ROOT, source);
        let ghost target = root_loop(
            src,
            toks,
            token_stream.offset as int,
            seq![],
            empty_model(None, Kind::ROOT, src),
        );
        loop
            invariant_except_break
                src == source.spec_bytes(),
                stream_in(src, *token_stream),
                token_stream.tokens@ == toks,
                toks == old(token_stream).tokens@,
                context.kind == Kind::ROOT,
                parse_spec(src, toks, old(token_stream).offset as int) == target,
                root_loop(src, toks, token_stream.offset as int, context.tokens@, result.model())
                    == target,
            ensures
                src == source.spec_bytes(),
                stream_in(src, *token_stream),
                token_stream.tokens@ == toks,
                toks == old(token_stream).tokens@,
                context.kind == Kind::ROOT,
                root_finish(src, token_stream.offset as int, context.tokens@, result.model())
                    == target,
            decreases toks.len() - token_stream.offset,
        {
            let token = match token_stream.peek_token() {
                Some(t) => t,
                None => break,
            };
            match token.kind() {
                token::Kind::EOF => break,
                token::Kind::NEWLINE => {
                    // line breaks between the blocks of the root are dropped.
                    token_stream.next_token();
                },
                token::Kind::AT => {
                    match context.switch_if_possible(source, token_stream) {
                        Ok((true, new_context)) => {
                            let mut new_context = new_context;
                            proof {
                                assert(new_context.tokens@ =~= Seq::<token::Token>::empty());
                            }
                        proof {
                            assert(new_context.tokens@ =~= Seq::<token::Token>::empty());
                        }
                            // 1. consume the current pending tokens belong to current context.
                            let ghost old_pending = context.tokens@;
                            match context.consume(source) {
                                Some(block) => {
                                    let mut block = block;
                                    proof {
                                        crate::template::block::lemma_push_tokens_model(
                                            empty_model(None, Kind::ROOT, src),
                                            old_pending,
                                        );
                                    }
                                    // pending root tokens make a content block.
                                    if block.kind() == Kind::ROOT {
                                        block.with_kind(Kind::CONTENT);
                                    }
                                    result.push_block(block);
                                },
                                _ => {
                                    // no-op: as there is no pending tokens belong to current context.
                                },
                            }

                            // 2. switch context.
                            let block = match Block::parse_at_block(
                                source,
                                token_stream,
                                &mut new_context,
                            ) {
                                Ok(b) => b,
                                Err(e) => return Err(e),
                            };
                            result.push_block(block);
                        },
                        Ok((false, _)) => {
                            if util::is_token_escaped(token_stream) {
                                // consume 2 @ as one, only push one @ to context.
                                token_stream.next_token();
                            }
                            token_stream.next_token();
                            context.push(*token);
                        },
                        Err(e) => return Err(e),
                    }
                },
                _ => {
                    // consume and push to current context.
                        token_stream.next_token();
                    context.push(*token);
                },
            }
        }

        // consume the context.
        let ghost old_pending = context.tokens@;
        match context.consume(source) {
            Some(block) => {
                let mut block = block;
                proof {
                    crate::template::block::lemma_push_tokens_model(
                        empty_model(None, Kind::ROOT, src),
                        old_pending,
                    );
                }
                // pending root tokens make a content block.
                if block.kind() == Kind::ROOT {
                    block.with_kind(Kind::CONTENT);
                }
                result.push_block(block);
            },
            _ => { /* no-ops*/ },
        }

        if result.has_blocks() {
            Ok(result)
        } else {
            Err(CompileError::from_parser(None, ErrorKind::EmptyBlock))
        }
    }
}

} // verus!
