use crate::tokenizer::token::{Kind, Token};
use vstd::prelude::*;
use vstd::string::StringSliceAdditionalSpecFns;

verus! {

/// A byte stream over a source text that remembers how far it has been read:
/// `bytes` is the whole text and `offset` the position of the next byte.
pub struct StrStream<'a> {
    pub bytes: &'a [u8],
    pub offset: usize,
}

impl<'a> StrStream<'a> {
    pub open spec fn wf(&self) -> bool {
        &&& self.offset <= self.bytes@.len()
        &&& self.bytes@.len() == self.bytes.len()
    }

    /// A stream at the start of `input`.
    pub fn new(input: &'a str) -> (r: Self)
        ensures
            r.bytes@ == input.spec_bytes(),
            r.offset == 0,
            r.wf(),
    {
        StrStream { bytes: input.as_bytes(), offset: 0 }
    }

    /// The next byte, if any is left.
    pub fn peek_byte(&self) -> (r: Option<u8>)
        requires
            self.wf(),
        ensures
            self.offset < self.bytes@.len() ==> r == Some(self.bytes@[self.offset as int]),
            self.offset >= self.bytes@.len() ==> r is None,
    {
        if self.offset < self.bytes.len() {
            Some(self.bytes[self.offset])
        } else {
            None
        }
    }

    /// The byte `n` places after the next byte, if there is one.
    pub fn peek_nth_byte(&self, n: usize) -> (r: Option<u8>)
        requires
            self.wf(),
        ensures
            self.offset + n < self.bytes@.len() ==> r == Some(self.bytes@[self.offset + n]),
            self.offset + n >= self.bytes@.len() ==> r is None,
    {
        if n < self.bytes.len() - self.offset {
            Some(self.bytes[self.offset + n])
        } else {
            None
        }
    }

    /// The offset of the next byte from the start of the text.
    pub fn current_token_start(&self) -> (r: usize)
        ensures
            r == self.offset,
    {
        self.offset
    }

    /// The offset, from the start of the text, of the end of what was read.
    pub fn previous_token_end(&self) -> (r: usize)
        ensures
            r == self.offset,
    {
        self.offset
    }

    /// The number of bytes left.
    pub fn eof_offset(&self) -> (r: usize)
        requires
            self.wf(),
        ensures
            r == self.bytes@.len() - self.offset,
    {
        self.bytes.len() - self.offset
    }

    /// Reads `n` more bytes.
    pub fn next_slice(&mut self, n: usize)
        requires
            old(self).wf(),
            old(self).offset + n <= old(self).bytes@.len(),
        ensures
            final(self).wf(),
            final(self).bytes == old(self).bytes,
            final(self).offset == old(self).offset + n,
    {
        self.offset = self.offset + n;
    }
}

} // verus!

verus! {

/// A stream of tokens that remembers how many of them have been read:
/// `tokens` are all the tokens and `offset` the index of the next one.
pub struct TokenStream<'a> {
    pub tokens: &'a [Token],
    pub offset: usize,
}

impl<'a> TokenStream<'a> {
    pub open spec fn wf(&self) -> bool {
        &&& self.offset <= self.tokens@.len()
        &&& self.tokens@.len() == self.tokens.len()
    }

    /// The tokens that have not been read yet.
    pub open spec fn rest(&self) -> Seq<Token> {
        self.tokens@.subrange(self.offset as int, self.tokens@.len() as int)
    }

    pub fn new(tokens: &'a [Token]) -> (r: Self)
        ensures
            r.tokens == tokens,
            r.offset == 0,
            r.wf(),
    {
        TokenStream { tokens, offset: 0 }
    }

    /// The next token, which stays unread.
    pub fn peek_token(&self) -> (r: Option<&'a Token>)
        requires
            self.wf(),
        ensures
            self.offset < self.tokens@.len() ==> r == Some(&self.tokens@[self.offset as int]),
            self.offset >= self.tokens@.len() ==> r is None,
    {
        let tokens: &'a [Token] = self.tokens;
        if self.offset < tokens.len() {
            Some(&tokens[self.offset])
        } else {
            None
        }
    }

    /// Reads the next token.
    pub fn next_token(&mut self) -> (r: Option<&'a Token>)
        requires
            old(self).wf(),
        ensures
            final(self).wf(),
            final(self).tokens == old(self).tokens,
            old(self).offset < old(self).tokens@.len() ==> {
                &&& r == Some(&old(self).tokens@[old(self).offset as int])
                &&& final(self).offset == old(self).offset + 1
            },
            old(self).offset >= old(self).tokens@.len() ==> {
                &&& r is None
                &&& final(self).offset == old(self).offset
            },
    {
        let tokens: &'a [Token] = self.tokens;
        if self.offset < tokens.len() {
            let t = &tokens[self.offset];
            self.offset = self.offset + 1;
            Some(t)
        } else {
            None
        }
    }

    /// The `n`-th unread token (from 0), which stays unread.
    pub fn nth_token(&self, n: usize) -> (r: Option<&'a Token>)
        requires
            self.wf(),
        ensures
            self.offset + n < self.tokens@.len() ==> r == Some(
                &self.tokens@[self.offset + n],
            ),
            self.offset + n >= self.tokens@.len() ==> r is None,
    {
        let tokens: &'a [Token] = self.tokens;
        if n < tokens.len() - self.offset {
            Some(&tokens[self.offset + n])
        } else {
            None
        }
    }

    /// `n` when at least `n` tokens are unread.
    pub fn offset_at(&self, n: usize) -> (r: Option<usize>)
        requires
            self.wf(),
        ensures
            r == (if n <= self.tokens@.len() - self.offset {
                Some(n)
            } else {
                None::<usize>
            }),
    {
        if n <= self.tokens.len() - self.offset {
            Some(n)
        } else {
            None
        }
    }

    /// The earliest of the tokens read so far, if any was read.
    pub fn earliest_read_token(&self) -> (r: Option<Token>)
        requires
            self.wf(),
        ensures
            self.offset > 0 ==> r == Some(self.tokens@[0]),
            self.offset == 0 ==> r is None,
    {
        if self.offset > 0 {
            Some(self.tokens[0])
        } else {
            None
        }
    }
}

/// The index of the first token from `o` on whose kind does not satisfy `p`.
pub open spec fn skip_end(toks: Seq<Token>, o: int, p: spec_fn(Kind) -> bool) -> int
    decreases toks.len() - o,
{
    if 0 <= o < toks.len() && p(toks[o].kind) {
        skip_end(toks, o + 1, p)
    } else {
        o
    }
}

/// `skip_end` is the end of the run that satisfies `p` from `o`.
pub proof fn lemma_skip_end_is(toks: Seq<Token>, o: int, e: int, p: spec_fn(Kind) -> bool)
    requires
        0 <= o <= e <= toks.len(),
        forall|i: int| o <= i < e ==> p(#[trigger] toks[i].kind),
        e < toks.len() ==> !p(toks[e].kind),
    ensures
        skip_end(toks, o, p) == e,
    decreases e - o,
{
    if o < e {
        lemma_skip_end_is(toks, o + 1, e, p);
    }
}

pub open spec fn is_whitespace_kind(k: Kind) -> bool {
    k == Kind::WHITESPACE
}

/// Whitespace tokens.
pub open spec fn whitespace_pred() -> spec_fn(Kind) -> bool {
    |k: Kind| is_whitespace_kind(k)
}

/// Line break tokens.
pub open spec fn newline_pred() -> spec_fn(Kind) -> bool {
    |k: Kind| is_newline_kind(k)
}

/// Whitespace and line break tokens.
pub open spec fn blank_pred() -> spec_fn(Kind) -> bool {
    |k: Kind| is_blank_kind(k)
}

pub open spec fn is_newline_kind(k: Kind) -> bool {
    k == Kind::NEWLINE
}

pub open spec fn is_blank_kind(k: Kind) -> bool {
    k == Kind::WHITESPACE || k == Kind::NEWLINE
}

fn newline_token(k: Kind) -> (r: bool)
    ensures
        r == is_newline_kind(k),
{
    k == Kind::NEWLINE
}

fn whitespace_token(k: Kind) -> (r: bool)
    ensures
        r == is_whitespace_kind(k),
{
    k == Kind::WHITESPACE
}

fn blank_token(k: Kind) -> (r: bool)
    ensures
        r == is_blank_kind(k),
{
    k == Kind::WHITESPACE || k == Kind::NEWLINE
}

/// Reads the tokens while `pred` holds of their kind; says whether it read any.
pub fn skip_next_token_if<F: Fn(Kind) -> bool>(stream: &mut TokenStream, pred: F) -> (skipped: bool)
    requires
        old(stream).wf(),
        forall|k: Kind| pred.requires((k,)),
    ensures
        final(stream).wf(),
        final(stream).tokens@ == old(stream).tokens@,
        old(stream).offset <= final(stream).offset,
        forall|i: int|
            old(stream).offset <= i < final(stream).offset ==> pred.ensures(
                (#[trigger] final(stream).tokens@[i].kind,),
                true,
            ),
        final(stream).offset < final(stream).tokens@.len() ==> pred.ensures(
            (final(stream).tokens@[final(stream).offset as int].kind,),
            false,
        ),
        skipped == (final(stream).offset > old(stream).offset),
{
    let mut skipped = false;
    let ghost start = stream.offset;
    loop
        invariant_except_break
            stream.wf(),
            stream.tokens == old(stream).tokens,
            start == old(stream).offset,
            start <= stream.offset,
            forall|i: int|
                start <= i < stream.offset ==> pred.ensures((#[trigger] stream.tokens@[i].kind,), true),
            skipped == (stream.offset > start),
            forall|k: Kind| pred.requires((k,)),
        ensures
            stream.wf(),
            stream.tokens == old(stream).tokens,
            start <= stream.offset,
            forall|i: int|
                start <= i < stream.offset ==> pred.ensures((#[trigger] stream.tokens@[i].kind,), true),
            stream.offset < stream.tokens@.len() ==> pred.ensures(
                (stream.tokens@[stream.offset as int].kind,),
                false,
            ),
            skipped == (stream.offset > start),
        decreases stream.tokens@.len() - stream.offset,
    {
        let current_token = match stream.peek_token() {
            Some(t) => t,
            None => break,
        };
        if pred(current_token.kind()) {
            stream.next_token();
            skipped = true;
        } else {
            break;
        }
    }
    skipped
}

/// Reads line breaks; says whether it read any.
pub fn skip_newline(stream: &mut TokenStream) -> (skipped: bool)
    requires
        old(stream).wf(),
    ensures
        final(stream).wf(),
        final(stream).tokens@ == old(stream).tokens@,
        final(stream).offset == skip_end(
            old(stream).tokens@,
            old(stream).offset as int,
            newline_pred(),
        ),
        skipped == (final(stream).offset > old(stream).offset),
{
    let r = skip_next_token_if(
        stream,
        newline_token,
    );
    proof {
        lemma_skip_end_is(
            stream.tokens@,
            old(stream).offset as int,
            stream.offset as int,
            newline_pred(),
        );
    }
    r
}

/// Reads whitespace tokens; says whether it read any.
pub fn skip_whitespace(stream: &mut TokenStream) -> (skipped: bool)
    requires
        old(stream).wf(),
    ensures
        final(stream).wf(),
        final(stream).tokens@ == old(stream).tokens@,
        final(stream).offset == skip_end(
            old(stream).tokens@,
            old(stream).offset as int,
            whitespace_pred(),
        ),
        skipped == (final(stream).offset > old(stream).offset),
{
    let r = skip_next_token_if(
        stream,
        whitespace_token,
    );
    proof {
        lemma_skip_end_is(
            stream.tokens@,
            old(stream).offset as int,
            stream.offset as int,
            whitespace_pred(),
        );
    }
    r
}

/// Reads whitespace and line breaks; says whether it read any.
pub fn skip_whitespace_and_newline(stream: &mut TokenStream) -> (skipped: bool)
    requires
        old(stream).wf(),
    ensures
        final(stream).wf(),
        final(stream).tokens@ == old(stream).tokens@,
        final(stream).offset == skip_end(
            old(stream).tokens@,
            old(stream).offset as int,
            blank_pred(),
        ),
        skipped == (final(stream).offset > old(stream).offset),
{
    let r = skip_next_token_if(
        stream,
        blank_token,
    );
    proof {
        lemma_skip_end_is(
            stream.tokens@,
            old(stream).offset as int,
            stream.offset as int,
            blank_pred(),
        );
    }
    r
}

/// Reads the tokens, up to the end-of-input token, while `skip_pred` holds
/// of their kind; returns the next token, which stays unread.
pub fn get_next_token_if<'a, F: Fn(Kind) -> bool>(
    stream: &mut TokenStream<'a>,
    skip_pred: F,
) -> (r: Option<&'a Token>)
    requires
        old(stream).wf(),
        forall|k: Kind| skip_pred.requires((k,)),
    ensures
        final(stream).wf(),
        final(stream).tokens@ == old(stream).tokens@,
        old(stream).offset <= final(stream).offset,
        forall|i: int|
            old(stream).offset <= i < final(stream).offset ==> {
                &&& skip_pred.ensures((#[trigger] final(stream).tokens@[i].kind,), true)
                &&& final(stream).tokens@[i].kind != Kind::EOF
            },
        final(stream).offset < final(stream).tokens@.len() ==> {
            let k = final(stream).tokens@[final(stream).offset as int].kind;
            k == Kind::EOF || skip_pred.ensures((k,), false)
        },
        final(stream).offset < final(stream).tokens@.len() ==> r == Some(
            &final(stream).tokens@[final(stream).offset as int],
        ),
        final(stream).offset >= final(stream).tokens@.len() ==> r is None,
{
    let ghost start = stream.offset;
    loop
        invariant_except_break
            stream.wf(),
            stream.tokens == old(stream).tokens,
            start == old(stream).offset,
            start <= stream.offset,
            forall|i: int|
                start <= i < stream.offset ==> {
                    &&& skip_pred.ensures((#[trigger] stream.tokens@[i].kind,), true)
                    &&& stream.tokens@[i].kind != Kind::EOF
                },
            forall|k: Kind| skip_pred.requires((k,)),
        ensures
            stream.wf(),
            stream.tokens == old(stream).tokens,
            start <= stream.offset,
            forall|i: int|
                start <= i < stream.offset ==> {
                    &&& skip_pred.ensures((#[trigger] stream.tokens@[i].kind,), true)
                    &&& stream.tokens@[i].kind != Kind::EOF
                },
            stream.offset < stream.tokens@.len() ==> {
                let k = stream.tokens@[stream.offset as int].kind;
                k == Kind::EOF || skip_pred.ensures((k,), false)
            },
        decreases stream.tokens@.len() - stream.offset,
    {
        let current_token = match stream.peek_token() {
            Some(t) => t,
            None => break,
        };
        if skip_pred(current_token.kind()) && current_token.kind() != Kind::EOF {
            stream.next_token();
        } else {
            break;
        }
    }
    stream.peek_token()
}

/// Reads the tokens, up to the end-of-input token, until `pred` holds of
/// one; returns the next token, which stays unread.
pub fn get_next_token_util<'a, F: Fn(Kind) -> bool>(
    stream: &mut TokenStream<'a>,
    pred: F,
) -> (r: Option<&'a Token>)
    requires
        old(stream).wf(),
        forall|k: Kind| pred.requires((k,)),
    ensures
        final(stream).wf(),
        final(stream).tokens@ == old(stream).tokens@,
        old(stream).offset <= final(stream).offset,
        forall|i: int|
            old(stream).offset <= i < final(stream).offset ==> {
                &&& pred.ensures((#[trigger] final(stream).tokens@[i].kind,), false)
                &&& final(stream).tokens@[i].kind != Kind::EOF
            },
        final(stream).offset < final(stream).tokens@.len() ==> {
            let k = final(stream).tokens@[final(stream).offset as int].kind;
            k == Kind::EOF || pred.ensures((k,), true)
        },
        final(stream).offset < final(stream).tokens@.len() ==> r == Some(
            &final(stream).tokens@[final(stream).offset as int],
        ),
        final(stream).offset >= final(stream).tokens@.len() ==> r is None,
{
    let p = &pred;
    let negated = |k: Kind| -> (r: bool)
        requires
            p.requires((k,)),
        ensures
            exists|b: bool| p.ensures((k,), b) && r == !b,
        { !p(k) };
    get_next_token_if(stream, negated)
}

/// The `offset`-th unread token, counting from 0.
pub fn get_nth_token<'a>(stream: &TokenStream<'a>, offset: usize) -> (r: Option<&'a Token>)
    requires
        stream.wf(),
    ensures
        r == (if stream.offset + offset < stream.tokens@.len() {
            Some(&stream.tokens@[stream.offset + offset])
        } else {
            None::<&Token>
        }),
{
    stream.nth_token(offset)
}

} // verus!

verus! {

/// `skip_end` lies between `o` and the end of the tokens.
pub proof fn lemma_skip_end_bounds(toks: Seq<Token>, o: int, p: spec_fn(Kind) -> bool)
    requires
        0 <= o <= toks.len(),
    ensures
        o <= skip_end(toks, o, p) <= toks.len(),
        forall|i: int| o <= i < skip_end(toks, o, p) ==> p(#[trigger] toks[i].kind),
        skip_end(toks, o, p) < toks.len() ==> !p(toks[skip_end(toks, o, p)].kind),
    decreases toks.len() - o,
{
    if o < toks.len() && p(toks[o].kind) {
        lemma_skip_end_bounds(toks, o + 1, p);
    }
}

} // verus!
