use crate::consts::{
    layout_directive, layout_keyword, section_directive, section_keyword, use_directive,
    use_keyword,
};
use crate::error::{CompileError, ErrorKind};
use crate::template::block::token_in;
use crate::template::context::{nth_token_spec, stream_in};
use crate::text::{str_eq, substr};
use crate::tokenizer::stream::{get_nth_token, TokenStream};
use crate::tokenizer::token::{self, token_text, Token};
use vstd::prelude::*;
use vstd::string::StringSliceAdditionalSpecFns;

verus! {

/// The kinds of the parts of a view document.
#[derive(Clone, Copy, PartialEq, Eq, Structural, Debug)]
pub enum Kind {
    KCODE,
    KCOMMENT,
    KCONTENT,
    KFUNCTIONS,
    KINLINEDCODE,
    KINLINEDCONTENT,
    KLAYOUT,
    KRENDER,
    KROOT,
    KSECTION,
    KUSE,
}

/// Code, content and the root are blocks.
pub open spec fn is_block_kind(k: Kind) -> bool {
    k == Kind::KCONTENT || k == Kind::KROOT || k == Kind::KCODE
}

/// The kinds whose text is markup.
pub open spec fn is_content_kind(k: Kind) -> bool {
    k == Kind::KCONTENT || k == Kind::KROOT || k == Kind::KINLINEDCONTENT
}

/// The kinds whose text is code.
pub open spec fn is_code_kind(k: Kind) -> bool {
    k == Kind::KCODE || k == Kind::KFUNCTIONS || k == Kind::KINLINEDCODE || k == Kind::KLAYOUT
        || k == Kind::KUSE
}

/// The inlined context that an `@` opens from a context of kind `k`.
pub open spec fn inlined_from(k: Kind) -> Kind {
    if is_code_kind(k) {
        Kind::KINLINEDCONTENT
    } else {
        Kind::KINLINEDCODE
    }
}

/// Whether the `@` at `pos` switches from a context of kind `kind` to
/// another context, and of which kind; or the error that it is.
pub open spec fn doc_switch_spec(kind: Kind, src: Seq<u8>, toks: Seq<Token>, pos: int) -> Result<
    (bool, Kind),
    CompileError,
> {
    if !(0 <= pos < toks.len()) {
        Err(CompileError { kind: ErrorKind::EmptyStreamExpectingAt, token: None })
    } else if toks[pos].kind != token::Kind::AT {
        Err(CompileError { kind: ErrorKind::ExpectingAt, token: None })
    } else {
        match nth_token_spec(toks, pos, 1) {
            None => Ok((false, kind)),
            Some(nt) => if nt.kind == token::Kind::AT {
                Ok((false, kind))
            } else if nt.kind == token::Kind::EXPRESSION {
                let exp = token_text(src, nt);
                if exp == use_keyword() {
                    if is_block_kind(kind) && !is_code_kind(kind) {
                        Ok((true, Kind::KUSE))
                    } else {
                        Err(CompileError { kind: ErrorKind::UseNotAllowed, token: Some(nt) })
                    }
                } else if exp == layout_keyword() {
                    if kind == Kind::KROOT {
                        Ok((true, Kind::KLAYOUT))
                    } else {
                        Err(CompileError { kind: ErrorKind::LayoutNotAllowed, token: Some(nt) })
                    }
                } else if exp == section_keyword() {
                    if is_block_kind(kind) && kind != Kind::KSECTION {
                        Ok((true, Kind::KSECTION))
                    } else {
                        Err(CompileError { kind: ErrorKind::SectionNotAllowed, token: Some(nt) })
                    }
                } else {
                    Ok((true, inlined_from(kind)))
                }
            } else if nt.kind == token::Kind::OPARENTHESIS {
                Ok((true, inlined_from(kind)))
            } else if nt.kind == token::Kind::OCURLYBRACKET {
                if is_code_kind(kind) {
                    Ok((true, Kind::KCONTENT))
                } else {
                    Ok((true, Kind::KCODE))
                }
            } else if nt.kind == token::Kind::ASTERISK {
                if is_content_kind(kind) {
                    Ok((true, Kind::KCOMMENT))
                } else {
                    Err(CompileError { kind: ErrorKind::CommentNotAllowed, token: Some(nt) })
                }
            } else {
                Ok((false, kind))
            },
        }
    }
}

/// In a view document, `@{` opens a content block from a code context and a
/// code block from any other, and `@(` opens inlined content from a code
/// context and inlined code from any other; the code contexts are code,
/// functions, inlined code, layout and use.
pub proof fn lemma_doc_at_block_switches(kind: Kind, src: Seq<u8>, toks: Seq<Token>, pos: int)
    requires
        0 <= pos,
        pos + 1 < toks.len(),
        toks[pos].kind == token::Kind::AT,
    ensures
        ({
            let code = kind == Kind::KCODE || kind == Kind::KFUNCTIONS || kind == Kind::KINLINEDCODE
                || kind == Kind::KLAYOUT || kind == Kind::KUSE;
            &&& toks[pos + 1].kind == token::Kind::OCURLYBRACKET ==> doc_switch_spec(kind, src, toks, pos)
                == Ok::<(bool, Kind), CompileError>((true, if code { Kind::KCONTENT } else { Kind::KCODE }))
            &&& toks[pos + 1].kind == token::Kind::OPARENTHESIS ==> doc_switch_spec(kind, src, toks, pos)
                == Ok::<(bool, Kind), CompileError>(
                (true, if code { Kind::KINLINEDCONTENT } else { Kind::KINLINEDCODE }),
            )
        }),
{
}

/// What an `@` does in a view-document context besides opening a block:
/// `@@`, a last `@` and an `@` before any other token do not switch; `@*`
/// opens a comment in content or the root and is refused elsewhere; `@use`
/// opens a use directive in content or the root; `@layout` only in the
/// root; `@section` opens a section in code, content or the root; any other
/// expression opens inlined content from a code context and inlined code
/// from any other. A refusal names the token after the `@`.
pub proof fn lemma_doc_at_rules(kind: Kind, src: Seq<u8>, toks: Seq<Token>, pos: int)
    requires
        0 <= pos < toks.len(),
        toks[pos].kind == token::Kind::AT,
    ensures
        pos + 1 == toks.len() ==> doc_switch_spec(kind, src, toks, pos) == Ok::<(bool, Kind), CompileError>((false, kind)),
        pos + 1 < toks.len() ==> ({
            let nt = toks[pos + 1];
            let exp = token_text(src, nt);
            let code = kind == Kind::KCODE || kind == Kind::KFUNCTIONS || kind == Kind::KINLINEDCODE
                || kind == Kind::KLAYOUT || kind == Kind::KUSE;
            let r = doc_switch_spec(kind, src, toks, pos);
            let refused = |e: ErrorKind| Err::<(bool, Kind), CompileError>(CompileError { kind: e, token: Some(nt) });
            &&& nt.kind == token::Kind::AT ==> r == Ok::<(bool, Kind), CompileError>((false, kind))
            &&& nt.kind == token::Kind::ASTERISK ==> r == if kind == Kind::KCONTENT || kind == Kind::KROOT || kind == Kind::KINLINEDCONTENT {
                Ok((true, Kind::KCOMMENT))
            } else {
                refused(ErrorKind::CommentNotAllowed)
            }
            &&& (nt.kind == token::Kind::EXPRESSION && exp == seq!['u', 's', 'e']) ==> r == if kind == Kind::KCONTENT || kind == Kind::KROOT {
                Ok((true, Kind::KUSE))
            } else {
                refused(ErrorKind::UseNotAllowed)
            }
            &&& (nt.kind == token::Kind::EXPRESSION && exp == seq!['l', 'a', 'y', 'o', 'u', 't']) ==> r == if kind == Kind::KROOT {
                Ok((true, Kind::KLAYOUT))
            } else {
                refused(ErrorKind::LayoutNotAllowed)
            }
            &&& (nt.kind == token::Kind::EXPRESSION && exp == seq!['s', 'e', 'c', 't', 'i', 'o', 'n']) ==> r == if kind == Kind::KCODE || kind == Kind::KCONTENT || kind == Kind::KROOT {
                Ok((true, Kind::KSECTION))
            } else {
                refused(ErrorKind::SectionNotAllowed)
            }
            &&& (nt.kind == token::Kind::EXPRESSION && exp != seq!['u', 's', 'e'] && exp != seq!['l', 'a', 'y', 'o', 'u', 't'] && exp != seq!['s', 'e', 'c', 't', 'i', 'o', 'n']) ==> r == Ok::<(bool, Kind), CompileError>(
                (true, if code { Kind::KINLINEDCONTENT } else { Kind::KINLINEDCODE }),
            )
            &&& (nt.kind != token::Kind::AT && nt.kind != token::Kind::EXPRESSION && nt.kind != token::Kind::OPARENTHESIS && nt.kind != token::Kind::OCURLYBRACKET && nt.kind != token::Kind::ASTERISK) ==> r == Ok::<(bool, Kind), CompileError>((false, kind))
        }),
{
}

/// A parsing context of a view document: the kind of part being parsed, and
/// the tokens read for it.
pub struct ParseContext {
    pub kind: Kind,
    pub tokens: Vec<Token>,
}

impl ParseContext {
    pub fn new(kind: Kind) -> (r: Self)
        ensures
            r.kind == kind,
            r.tokens@ == Seq::<Token>::empty(),
    {
        Self { kind: kind, tokens: Vec::new() }
    }

    pub fn kind(&self) -> (r: Kind)
        ensures
            r == self.kind,
    {
        self.kind
    }

    pub fn push(&mut self, token: Token)
        ensures
            final(self).kind == old(self).kind,
            final(self).tokens@ == old(self).tokens@.push(token),
    {
        self.tokens.push(token);
    }

    pub fn is_block(&self) -> (r: bool)
        ensures
            r == is_block_kind(self.kind),
    {
        matches!(self.kind, Kind::KCONTENT | Kind::KROOT | Kind::KCODE)
    }

    pub fn is_content(&self) -> (r: bool)
        ensures
            r == is_content_kind(self.kind),
    {
        matches!(self.kind, Kind::KCONTENT | Kind::KROOT | Kind::KINLINEDCONTENT)
    }

    pub fn is_code(&self) -> (r: bool)
        ensures
            r == is_code_kind(self.kind),
    {
        matches!(self.kind, Kind::KCODE | Kind::KFUNCTIONS | Kind::KINLINEDCODE | Kind::KLAYOUT | Kind::KUSE)
    }

    /// Whether the `@` that the stream is at switches to another context,
    /// and the new context; the stream is left as it is.
    pub fn switch_if_possible(&self, source: &str, token_stream: &mut TokenStream) -> (r: Result<
        (bool, Self),
        CompileError,
    >)
        requires
            stream_in(source.spec_bytes(), *old(token_stream)),
        ensures
            *final(token_stream) == *old(token_stream),
            match doc_switch_spec(
                self.kind,
                source.spec_bytes(),
                old(token_stream).tokens@,
                old(token_stream).offset as int,
            ) {
                Ok((b, k)) => r matches Ok((rb, c)) && rb == b && c.kind == k && c.tokens@.len() == 0,
                Err(e) => r == Err::<(bool, Self), CompileError>(e),
            },
    {
        // first token must be '@'
        match token_stream.peek_token() {
            Some(token) => {
                if token.kind() != token::Kind::AT {
                    return Err(CompileError::from_parser(None, ErrorKind::ExpectingAt));
                }
            },
            _ => {
                return Err(CompileError::from_parser(None, ErrorKind::EmptyStreamExpectingAt));
            },
        };

        // check the next token after '@'
        let next_token = match get_nth_token(token_stream, 1) {
            // no token after '@', don't switch context
            None => return Ok((false, ParseContext::new(self.kind()))),
            Some(t) => t,
        };
        proof {
            assert(next_token == &token_stream.tokens@[token_stream.offset + 1]);
        }
        match next_token.kind() {
            token::Kind::AT => {
                // @@ to escape @, don't switch context
                Ok((false, ParseContext::new(self.kind())))
            },
            token::Kind::EXPRESSION => {
                proof {
                    assert(token_in(source.spec_bytes(), token_stream.tokens@[token_stream.offset + 1]));
                }
                let exp = substr(source, next_token.start, next_token.end);
                if str_eq(exp, use_directive()) {
                    // block but not code kind.
                    if self.is_block() && !self.is_code() {
                        // switch to code context from root|content.
                        Ok((true, ParseContext::new(Kind::KUSE)))
                    } else {
                        Err(CompileError::from_parser(Some(*next_token), ErrorKind::UseNotAllowed))
                    }
                } else if str_eq(exp, layout_directive()) {
                    if self.kind() == Kind::KROOT {
                        // only allowed in root context.
                        Ok((true, ParseContext::new(Kind::KLAYOUT)))
                    } else {
                        Err(CompileError::from_parser(Some(*next_token), ErrorKind::LayoutNotAllowed))
                    }
                } else if str_eq(exp, section_directive()) {
                    if self.is_block() && self.kind() != Kind::KSECTION {
                        Ok((true, ParseContext::new(Kind::KSECTION)))
                    } else {
                        Err(CompileError::from_parser(Some(*next_token), ErrorKind::SectionNotAllowed))
                    }
                } else {
                    // inlined
                    if self.is_code() {
                        Ok((true, ParseContext::new(Kind::KINLINEDCONTENT)))
                    } else {
                        Ok((true, ParseContext::new(Kind::KINLINEDCODE)))
                    }
                }
            },
            token::Kind::OPARENTHESIS => {
                // inlined
                if self.is_code() {
                    Ok((true, ParseContext::new(Kind::KINLINEDCONTENT)))
                } else {
                    Ok((true, ParseContext::new(Kind::KINLINEDCODE)))
                }
            },
            token::Kind::OCURLYBRACKET => {
                if self.is_code() {
                    Ok((true, ParseContext::new(Kind::KCONTENT)))
                } else {
                    Ok((true, ParseContext::new(Kind::KCODE)))
                }
            },
            token::Kind::ASTERISK => {
                if self.is_content() {
                    Ok((true, ParseContext::new(Kind::KCOMMENT)))
                } else {
                    Err(CompileError::from_parser(Some(*next_token), ErrorKind::CommentNotAllowed))
                }
            },
            _ => {
                // Don't switch context
                Ok((false, ParseContext::new(self.kind())))
            },
        }
    }
}

} // verus!
