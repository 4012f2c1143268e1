use crate::consts::{
    layout_directive, layout_keyword, section_directive, section_keyword, use_directive,
    use_keyword,
};
use crate::error::{CompileError, ErrorKind};
use crate::template::block::token_in;
use crate::template::context::{nth_token_spec, stream_in};
use crate::text::{str_eq, substr};
use crate::tokenizer::stream::TokenStream;
use crate::tokenizer::token::{token_text, Kind, Token};
use vstd::prelude::*;
use vstd::string::StringSliceAdditionalSpecFns;

verus! {

/// Whether a part of a template is markup or code.
#[derive(Copy, Clone, PartialEq, Eq, Structural, Debug)]
pub enum Context {
    Content,
    Code,
}

/// The other context: code for content, content for code.
pub open spec fn switched(from: Context) -> Context {
    if from == Context::Content {
        Context::Code
    } else {
        Context::Content
    }
}

/// The context after the `@` token `start`, which the stream is at or has
/// just read: `@` followed by an expression, `(` or `{` switches context; a
/// directive switches content to code and leaves code as it is; `@section`
/// and anything else leave the context as it is. An illegal sequence keeps
/// the context, to fail when it is compiled.
pub open spec fn context_at_spec(src: Seq<u8>, toks: Seq<Token>, pos: int, start: Token, from: Context) -> Result<
    Context,
    CompileError,
> {
    if start.kind != Kind::AT {
        Err(CompileError { kind: ErrorKind::ExpectedAtToStartContext, token: Some(start) })
    } else if !(0 <= pos < toks.len()) {
        Ok(from)
    } else {
        // the stream may still be at the '@'.
        let offset: int = if toks[pos].start == start.start && toks[pos].end == start.end {
            1
        } else {
            0
        };
        match nth_token_spec(toks, pos, offset) {
            None => Ok(from),
            Some(nt) => if nt.kind == Kind::EXPRESSION {
                let exp = token_text(src, nt);
                if exp == use_keyword() || exp == layout_keyword() {
                    if from == Context::Content {
                        Ok(Context::Code)
                    } else {
                        Ok(from)
                    }
                } else if exp == section_keyword() {
                    Ok(from)
                } else {
                    Ok(switched(from))
                }
            } else if nt.kind == Kind::OPARENTHESIS || nt.kind == Kind::OCURLYBRACKET {
                Ok(switched(from))
            } else {
                Ok(from)
            },
        }
    }
}

/// The context after the `@` token `start_token`.
pub fn get_context_at(source: &str, start_token: &Token, token_stream: &mut TokenStream, from_context: Context) -> (r:
    Result<Context, CompileError>)
    requires
        stream_in(source.spec_bytes(), *old(token_stream)),
    ensures
        *final(token_stream) == *old(token_stream),
        r == context_at_spec(
            source.spec_bytes(),
            old(token_stream).tokens@,
            old(token_stream).offset as int,
            *start_token,
            from_context,
        ),
{
    if start_token.kind() != Kind::AT {
        return Err(CompileError::from_parser(Some(*start_token), ErrorKind::ExpectedAtToStartContext));
    }
    let offset: usize = match token_stream.peek_token() {
        Some(token) => {
            if token.start == start_token.start && token.end == start_token.end {
                1
            } else {
                // already consumed '@' token
                0
            }
        },
        _ => {
            return Ok(from_context);
        },
    };

    // check the token after '@': switch the context only where that is legal,
    // else keep the context unchanged to fail at compilation stage.
    match token_stream.offset_at(offset) {
        Some(offset) => {
            if let Some(next_next_token) = token_stream.nth_token(offset) {
                match next_next_token.kind() {
                    Kind::EXPRESSION => {
                        proof {
                            assert(token_in(
                                source.spec_bytes(),
                                token_stream.tokens@[token_stream.offset + offset],
                            ));
                        }
                        let exp = substr(source, next_next_token.start, next_next_token.end);
                        if str_eq(exp, use_directive()) {
                            if from_context == Context::Content {
                                return Ok(Context::Code);
                            }
                        } else if str_eq(exp, layout_directive()) {
                            // layout can only be used in content context.
                            if from_context == Context::Content {
                                return Ok(Context::Code);
                            }
                        } else if str_eq(exp, section_directive()) {
                            // don't switch context
                            return Ok(from_context);
                        } else {
                            // inlined
                            if from_context == Context::Content {
                                return Ok(Context::Code);
                            } else {
                                return Ok(Context::Content);
                            }
                        }
                    },
                    Kind::OPARENTHESIS | Kind::OCURLYBRACKET => {
                        // @() inlined, @{} block.
                        if from_context == Context::Content {
                            return Ok(Context::Code);
                        } else {
                            return Ok(Context::Content);
                        }
                    },
                    _ => {
                        // don't switch context
                        return Ok(from_context);
                    },
                }
            }
        },
        _ => {
            // don't switch context
            return Ok(from_context);
        },
    }

    // don't switch context
    Ok(from_context)
}

} // verus!
