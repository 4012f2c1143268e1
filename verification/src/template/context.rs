use crate::consts::{
    layout_directive, layout_keyword, section_directive, section_keyword, use_directive,
    use_keyword,
};
use crate::error::{CompileError, ErrorKind};
use crate::template::block::{
    empty_model, push_tokens_model, push_token_model, tokens_in, Block, BlockModel, Kind,
};
use crate::text::{str_eq, substr, text_of};
use crate::tokenizer::stream::{get_nth_token, TokenStream};
use crate::tokenizer::token::{self, Token};
use vstd::prelude::*;
use vstd::string::StringSliceAdditionalSpecFns;

verus! {

/// The tokens of a stream are ranges of `src` with character boundaries at their ends.
pub open spec fn stream_in(src: Seq<u8>, s: TokenStream) -> bool {
    &&& s.wf()
    &&& tokens_in(src, s.tokens@)
}

/// The `n`-th token from `pos`, if there is one.
pub open spec fn nth_token_spec(toks: Seq<Token>, pos: int, n: int) -> Option<Token> {
    if 0 <= pos + n < toks.len() {
        Some(toks[pos + n])
    } else {
        None
    }
}

/// The context that an inlined `@` opens from a context of kind `kind`.
pub open spec fn inlined_kind(kind: Kind) -> Kind {
    if kind.spec_is_code_kind() {
        Kind::INLINEDCONTENT
    } else {
        Kind::INLINEDCODE
    }
}

/// Whether the `@` at `pos` switches from a context of kind `kind` to another
/// context, and of which kind; or the error that it is.
pub open spec fn switch_spec(kind: Kind, src: Seq<u8>, toks: Seq<Token>, pos: int) -> Result<
    (bool, Kind),
    CompileError,
> {
    if !(0 <= pos < toks.len()) {
        Err(CompileError { kind: ErrorKind::EmptyStreamExpectingAt, token: None })
    } else if toks[pos].kind != token::Kind::AT {
        Err(CompileError { kind: ErrorKind::ExpectingAt, token: None })
    } else {
        match nth_token_spec(toks, pos, 1) {
            None => Ok((false, kind)),
            Some(nt) => match nt.kind {
                token::Kind::AT => Ok((false, kind)),
                token::Kind::EXPRESSION => {
                    let exp = text_of(src, nt.start as int, nt.end as int);
                    if exp == use_keyword() {
                        if kind.spec_is_block_kind() && !kind.spec_is_code_kind() {
                            Ok((true, Kind::DIRECTIVE))
                        } else {
                            Err(CompileError { kind: ErrorKind::UseNotAllowed, token: Some(nt) })
                        }
                    } else if exp == layout_keyword() {
                        if kind == Kind::ROOT {
                            Ok((true, Kind::DIRECTIVE))
                        } else {
                            Err(CompileError { kind: ErrorKind::LayoutNotAllowed, token: Some(nt) })
                        }
                    } else if exp == section_keyword() {
                        if kind.spec_is_block_kind() && kind != Kind::SECTION {
                            Ok((true, Kind::SECTION))
                        } else {
                            Err(CompileError { kind: ErrorKind::SectionNotAllowed, token: Some(nt) })
                        }
                    } else {
                        Ok((true, inlined_kind(kind)))
                    }
                },
                token::Kind::OPARENTHESIS => Ok((true, inlined_kind(kind))),
                token::Kind::OCURLYBRACKET => if kind.spec_is_code_kind() {
                    Ok((true, Kind::CONTENT))
                } else {
                    Ok((true, Kind::CODE))
                },
                token::Kind::ASTERISK => if kind.spec_is_content_kind() {
                    Ok((true, Kind::COMMENT))
                } else {
                    Err(CompileError { kind: ErrorKind::CommentNotAllowed, token: Some(nt) })
                },
                _ => Ok((false, kind)),
            },
        }
    }
}

/// The block that the pending tokens of a context make, if they make one.
pub open spec fn consume_spec(kind: Kind, pending: Seq<Token>, src: Seq<u8>) -> Option<BlockModel> {
    if pending.len() == 0 || pending[0].kind == token::Kind::EOF {
        None
    } else {
        Some(push_tokens_model(empty_model(None, kind, src), pending))
    }
}

/// The tokens that a context holds after it was consumed.
pub open spec fn consumed_pending(pending: Seq<Token>) -> Seq<Token> {
    if pending.len() == 0 || pending[0].kind == token::Kind::EOF {
        pending
    } else {
        seq![]
    }
}

/// A parsing context: the kind of block being parsed, and the tokens read
/// for it that no block holds yet.
pub struct ParseContext {
    pub kind: Kind,
    pub tokens: Vec<Token>,
}

impl ParseContext {
    pub fn new(kind: Kind) -> (r: Self)
        ensures
            r.kind == kind,
            r.tokens@ == Seq::<Token>::empty(),
    {
        Self { kind: kind, tokens: Vec::new() }
    }

    pub fn kind(&self) -> (r: Kind)
        ensures
            r == self.kind,
    {
        self.kind
    }

    pub fn push(&mut self, token: Token)
        ensures
            final(self).kind == old(self).kind,
            final(self).tokens@ == old(self).tokens@.push(token),
    {
        self.tokens.push(token);
    }

    pub open spec fn spec_is_content(&self) -> bool {
        self.kind == Kind::CONTENT || self.kind == Kind::ROOT || self.kind == Kind::INLINEDCONTENT
    }

    pub open spec fn spec_is_code(&self) -> bool {
        self.kind == Kind::CODE || self.kind == Kind::FUNCTIONS || self.kind == Kind::DIRECTIVE
            || self.kind == Kind::INLINEDCODE
    }

    pub fn is_content(&self) -> (r: bool)
        ensures
            r == self.spec_is_content(),
    {
        self.kind == Kind::CONTENT || self.kind == Kind::ROOT || self.kind == Kind::INLINEDCONTENT
    }

    pub fn is_code(&self) -> (r: bool)
        ensures
            r == self.spec_is_code(),
    {
        self.kind == Kind::CODE || self.kind == Kind::FUNCTIONS || self.kind == Kind::DIRECTIVE
            || self.kind == Kind::INLINEDCODE
    }

    /// Turns the pending tokens into a block of the context's kind and
    /// clears them, unless there are none or the first is the end of input.
    pub fn consume<'a>(&mut self, source: &'a str) -> (r: Option<Block<'a>>)
        ensures
            final(self).kind == old(self).kind,
            final(self).tokens@ == consumed_pending(old(self).tokens@),
            match consume_spec(old(self).kind, old(self).tokens@, source.spec_bytes()) {
                Some(m) => r matches Some(b) && b.model() == m,
                None => r is None,
            },
    {
        // consume current tokens to create a block and destruct current data.
        if self.tokens.len() == 0 || self.tokens[0].kind() == token::Kind::EOF {
            return None;
        }
        let mut result = Block::new(None, self.kind(), source);
        let mut i: usize = 0;
        while i < self.tokens.len()
            invariant
                i <= self.tokens@.len(),
                self.tokens@ == old(self).tokens@,
                self.kind == old(self).kind,
                result.model() == push_tokens_model(
                    empty_model(None, self.kind, source.spec_bytes()),
                    self.tokens@.take(i as int),
                ),
            decreases self.tokens@.len() - i,
        {
            result.push_token(self.tokens[i]);
            proof {
                assert(self.tokens@.take(i + 1).drop_last() =~= self.tokens@.take(i as int));
            }
            i = i + 1;
        }
        proof {
            assert(self.tokens@.take(i as int) =~= self.tokens@);
        }
        self.tokens.clear();
        Some(result)
    }

    /// Whether the `@` that the stream is at switches to another context,
    /// and the new context; the stream is left as it is.
    pub fn switch_if_possible(&self, source: &str, token_stream: &mut TokenStream) -> (r: Result<
        (bool, Self),
        CompileError,
    >)
        requires
            stream_in(source.spec_bytes(), *old(token_stream)),
        ensures
            *final(token_stream) == *old(token_stream),
            match switch_spec(
                self.kind,
                source.spec_bytes(),
                old(token_stream).tokens@,
                old(token_stream).offset as int,
            ) {
                Ok((b, k)) => r matches Ok((rb, c)) && rb == b && c.kind == k && c.tokens@.len() == 0,
                Err(e) => r == Err::<(bool, Self), CompileError>(e),
            },
    {
        // first token must be '@'
        match token_stream.peek_token() {
            Some(token) => {
                if token.kind() != token::Kind::AT {
                    return Err(CompileError::from_parser(None, ErrorKind::ExpectingAt));
                }
            },
            _ => {
                return Err(CompileError::from_parser(None, ErrorKind::EmptyStreamExpectingAt));
            },
        };

        // check the next token after '@'
        let next_token = match get_nth_token(token_stream, 1) {
            // no token after '@', don't switch context
            None => return Ok((false, ParseContext::new(self.kind()))),
            Some(t) => t,
        };
        proof {
            assert(next_token == &token_stream.tokens@[token_stream.offset + 1]);
        }
        match next_token.kind() {
            token::Kind::AT => {
                // @@ to escape @, don't switch context
                Ok((false, ParseContext::new(self.kind())))
            },
            token::Kind::EXPRESSION => {
                proof {
                    assert(crate::template::block::token_in(
                        source.spec_bytes(),
                        token_stream.tokens@[token_stream.offset + 1],
                    ));
                }
                let exp = substr(source, next_token.start, next_token.end);
                if str_eq(exp, use_directive()) {
                    // block but not code kind.
                    if self.kind().is_block_kind() && !self.kind().is_code_kind() {
                        // switch to code context from root|content.
                        Ok((true, ParseContext::new(Kind::DIRECTIVE)))
                    } else {
                        Err(CompileError::from_parser(Some(*next_token), ErrorKind::UseNotAllowed))
                    }
                } else if str_eq(exp, layout_directive()) {
                    if self.kind() == Kind::ROOT {
                        // only allowed in root context.
                        Ok((true, ParseContext::new(Kind::DIRECTIVE)))
                    } else {
                        Err(
                            CompileError::from_parser(Some(*next_token), ErrorKind::LayoutNotAllowed),
                        )
                    }
                } else if str_eq(exp, section_directive()) {
                    if self.kind().is_block_kind() && self.kind() != Kind::SECTION {
                        Ok((true, ParseContext::new(Kind::SECTION)))
                    } else {
                        Err(
                            CompileError::from_parser(Some(*next_token), ErrorKind::SectionNotAllowed),
                        )
                    }
                } else {
                    // inlined
                    if self.kind().is_code_kind() {
                        Ok((true, ParseContext::new(Kind::INLINEDCONTENT)))
                    } else {
                        Ok((true, ParseContext::new(Kind::INLINEDCODE)))
                    }
                }
            },
            token::Kind::OPARENTHESIS => {
                // inlined
                if self.kind().is_code_kind() {
                    Ok((true, ParseContext::new(Kind::INLINEDCONTENT)))
                } else {
                    Ok((true, ParseContext::new(Kind::INLINEDCODE)))
                }
            },
            token::Kind::OCURLYBRACKET => {
                if self.kind().is_code_kind() {
                    Ok((true, ParseContext::new(Kind::CONTENT)))
                } else {
                    Ok((true, ParseContext::new(Kind::CODE)))
                }
            },
            token::Kind::ASTERISK => {
                if self.kind().is_content_kind() {
                    Ok((true, ParseContext::new(Kind::COMMENT)))
                } else {
                    Err(CompileError::from_parser(Some(*next_token), ErrorKind::CommentNotAllowed))
                }
            },
            _ => {
                // Don't switch context
                Ok((false, ParseContext::new(self.kind())))
            },
        }
    }
}

} // verus!
