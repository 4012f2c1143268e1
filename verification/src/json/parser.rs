use crate::error::{CompileError, ErrorKind};
use crate::json::object::{is_open_empty_map, JObject};
use crate::tokenizer::stream::TokenStream;
use crate::tokenizer::token::{Kind, Token};
use crate::tokenizer::tokenizer::{tokens_of, Tokenizer};
use vstd::prelude::*;
use vstd::string::{StringExecFns, StringSliceAdditionalSpecFns};

verus! {

/// The states of the JSON reader.
#[derive(Clone, Copy, PartialEq, Eq, Structural, Debug)]
pub enum State {
    INIT,
    MAPSTART,
    ARRAYSTART,
    ITEMNAME,
    ITEMVALUE,
    ITEM,
    DONE,
}

/// The kinds of tokens that may stand where a JSON text starts: `{`, `"`,
/// whitespace and line breaks.
pub open spec fn is_json_start_kind(k: Kind) -> bool {
    k == Kind::OCURLYBRACKET || k == Kind::DQMARK || k == Kind::WHITESPACE || k == Kind::NEWLINE
}

/// The first token from index `i` on, before the end-of-input token, that
/// may not start a JSON text.
pub open spec fn first_illegal_token(toks: Seq<Token>, i: int) -> Option<Token>
    decreases toks.len() - i,
{
    if i < 0 || i >= toks.len() || toks[i].kind == Kind::EOF {
        None
    } else if !is_json_start_kind(toks[i].kind) {
        Some(toks[i])
    } else {
        first_illegal_token(toks, i + 1)
    }
}

/// What reading a JSON source gives: an open object with no members, or an
/// error at the first token that may not start a JSON text.
pub open spec fn json_result_is(src: Seq<u8>, r: Result<JObject, CompileError>) -> bool {
    match first_illegal_token(tokens_of(src), 0) {
        None => r matches Ok(o) && is_open_empty_map(o),
        Some(t) => r == Err::<JObject, CompileError>(
            CompileError { kind: ErrorKind::IllegalChar, token: Some(t) },
        ),
    }
}

/// The JSON reader: a state machine over the tokens of `source`.
pub struct StateMachine<'s> {
    /// Stack of the values being read.
    pub jobjs: Vec<JObject>,
    pub pending_name: String,
    pub source: &'s str,
    pub state: State,
}

impl<'s> StateMachine<'s> {
    /// The reader reads a text from its start: only its first state is ever entered.
    pub open spec fn wf(&self) -> bool {
        self.state == State::INIT
    }

    pub fn new(source: &'s str) -> (r: Self)
        ensures
            r.wf(),
            r.source == source,
            r.jobjs@.len() == 0,
            r.pending_name@.len() == 0,
    {
        proof {
            reveal_strlit("");
        }
        Self { jobjs: Vec::new(), pending_name: String::from_str(""), source: source, state: State::INIT }
    }

    /// Reads the whole source.
    pub fn process(&mut self) -> (r: Result<JObject, CompileError>)
        requires
            old(self).wf(),
        ensures
            *final(self) == *old(self),
            json_result_is(old(self).source.spec_bytes(), r),
    {
        let tokenizer = Tokenizer::new(self.source);
        let tokens = tokenizer.into_vec();
        let ghost toks = tokens@;
        let mut token_stream = TokenStream::new(tokens.as_slice());
        let mut object = JObject::default();
        loop
            invariant_except_break
                first_illegal_token(toks, 0) == first_illegal_token(
                    toks,
                    token_stream.offset as int,
                ),
            invariant
                token_stream.wf(),
                token_stream.tokens@ == toks,
                toks == tokens_of(self.source.spec_bytes()),
                self.wf(),
                *self == *old(self),
                is_open_empty_map(object),
            ensures
                first_illegal_token(toks, 0) is None,
            decreases toks.len() - token_stream.offset,
        {
            let token = match token_stream.peek_token() {
                Some(t) => t,
                None => break,
            };
            if token.kind() == Kind::EOF {
                self.transit_to(State::DONE, &mut object);
                break;
            }
            match self.state {
                State::INIT => {
                    match self.process_with_init(&mut token_stream, &mut object) {
                        Ok(()) => {},
                        Err(e) => return Err(e),
                    }
                },
                State::DONE => {
                    self.transit_to(State::DONE, &mut object);
                    break;
                },
                // not reached: `wf` keeps the reader in its first state.
                State::MAPSTART | State::ARRAYSTART | State::ITEMNAME | State::ITEMVALUE
                | State::ITEM => {
                    break;
                },
            }
        }
        Ok(object)
    }

    /// Moving to another state changes nothing yet.
    fn transit_to(&mut self, _state: State, _object: &mut JObject)
        ensures
            *final(self) == *old(self),
            *final(_object) == *old(_object),
    {
    }

    /// Reads one token where a JSON text starts.
    fn process_with_init(&mut self, token_stream: &mut TokenStream, object: &mut JObject) -> (r:
        Result<(), CompileError>)
        requires
            old(token_stream).wf(),
            old(token_stream).offset < old(token_stream).tokens@.len(),
        ensures
            *final(self) == *old(self),
            *final(object) == *old(object),
            final(token_stream).wf(),
            final(token_stream).tokens == old(token_stream).tokens,
            final(token_stream).offset == old(token_stream).offset + 1,
            ({
                let t = old(token_stream).tokens@[old(token_stream).offset as int];
                if is_json_start_kind(t.kind) {
                    r is Ok
                } else {
                    r == Err::<(), CompileError>(
                        CompileError { kind: ErrorKind::IllegalChar, token: Some(t) },
                    )
                }
            }),
    {
        // there is a token: the caller has checked.
        let token = match token_stream.peek_token() {
            Some(t) => t,
            None => return Ok(()),
        };
        match token.kind() {
            Kind::OCURLYBRACKET => {
                // consume '{'
                token_stream.next_token();
                self.transit_to(State::MAPSTART, object);
            },
            Kind::DQMARK => {
                token_stream.next_token();
                self.transit_to(State::ITEMNAME, object);
            },
            Kind::WHITESPACE | Kind::NEWLINE => {
                token_stream.next_token();
            },
            _ => {
                token_stream.next_token();
                return Err(CompileError::from_parser(Some(*token), ErrorKind::IllegalChar));
            },
        }
        Ok(())
    }
}

} // verus!
