use crate::span::{Location, Span};
use crate::tokenizer::stream::StrStream;
use crate::tokenizer::token::{self, lex, Kind, Token};
use vstd::prelude::*;
use vstd::string::StringSliceAdditionalSpecFns;

verus! {

/// The number of bytes of a UTF-8 byte order mark at the start of `b`.
pub open spec fn bom_len(b: Seq<u8>) -> int {
    if b.len() >= 3 && b[0] == 0xEFu8 && b[1] == 0xBBu8 && b[2] == 0xBFu8 {
        3
    } else {
        0
    }
}

/// The tokens of a whole source text: a byte order mark at its start is
/// skipped, lines and columns count from 0.
pub open spec fn tokens_of(b: Seq<u8>) -> Seq<Token> {
    lex(b, bom_len(b), Location { line: 0, column: 0 })
}

/// Splits a source text into tokens, one at a time.
pub struct Tokenizer<'a> {
    pub stream: StrStream<'a>,
    pub location: Location,
    pub eof: bool,
}

impl<'a> Tokenizer<'a> {
    pub open spec fn wf(&self) -> bool {
        &&& self.stream.wf()
        &&& self.location.line <= self.stream.offset
        &&& self.location.column <= self.stream.offset
    }

    /// The tokens that are still to come.
    pub open spec fn remaining(&self) -> Seq<Token> {
        if self.eof {
            seq![]
        } else {
            lex(self.stream.bytes@, self.stream.offset as int, self.location)
        }
    }

    pub open spec fn measure(&self) -> int {
        if self.eof {
            0
        } else {
            self.stream.bytes@.len() - self.stream.offset + 1
        }
    }

    pub fn new(input: &'a str) -> (r: Self)
        ensures
            r.wf(),
            r.remaining() == tokens_of(input.spec_bytes()),
            r.stream.bytes@ == input.spec_bytes(),
    {
        // skip BOM if present.
        let mut stream = StrStream::new(input);
        let bytes = stream.bytes;
        if bytes.len() >= 3 && bytes[0] == 0xEF && bytes[1] == 0xBB && bytes[2] == 0xBF {
            stream.next_slice(3);
        }
        Self { stream, location: Location::new(0, 0), eof: false }
    }

    /// The next token: the end-of-input token comes last, then nothing.
    pub fn next(&mut self) -> (r: Option<Token>)
        requires
            old(self).wf(),
        ensures
            final(self).wf(),
            final(self).stream.bytes == old(self).stream.bytes,
            old(self).remaining().len() == 0 ==> r is None && final(self).remaining().len() == 0,
            old(self).remaining().len() > 0 ==> {
                &&& r == Some(old(self).remaining()[0])
                &&& final(self).remaining() == old(self).remaining().drop_first()
                &&& final(self).measure() < old(self).measure()
            },
    {
        if self.eof {
            return None;
        }
        let token = token::tokenize(&mut self.stream, &mut self.location);
        proof {
            let b = self.stream.bytes@;
            if old(self).stream.offset < b.len() {
                token::lemma_token_end_progress(b, old(self).stream.offset as int);
            }
        }
        match token.kind() {
            Kind::EOF => {
                self.eof = true;
                Some(token)
            },
            _ => Some(token),
        }
    }

    /// All the tokens, the end-of-input token last.
    pub fn into_vec(self) -> (r: Vec<Token>)
        requires
            self.wf(),
        ensures
            r@ == self.remaining(),
    {
        let ghost all = self.remaining();
        let mut this = self;
        let mut tokens: Vec<Token> = Vec::new();
        loop
            invariant
                this.wf(),
                tokens@ + this.remaining() == all,
                all == self.remaining(),
            decreases this.measure(),
        {
            let ghost before = this.remaining();
            match this.next() {
                Some(t) => {
                    tokens.push(t);
                    assert(tokens@ + this.remaining() == all) by {
                        assert(before == seq![t] + before.drop_first());
                    }
                },
                None => {
                    assert(tokens@ + this.remaining() == tokens@);
                    assert(tokens@ == all);
                    return tokens;
                },
            }
        }
    }
}

} // verus!
