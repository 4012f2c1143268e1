use crate::span::{Location, Span};
use crate::tokenizer::stream::StrStream;
use crate::text::{decimal, text_of, usize_to_string};
use vstd::string::StringExecFns;
use vstd::prelude::*;

verus! {

/// The kinds of tokens that the tokenizer produces.
#[derive(Copy, Clone, PartialEq, Eq, Structural, PartialOrd, Ord, Hash, Debug)]
pub enum Kind {
    NEWLINE,
    EXPRESSION,
    EOF,
    AT,
    EQUALS,
    EXCLAMATION,
    HYPHEN,
    LESSTHAN,
    GREATTHAN,
    CPARENTHESIS,
    OPARENTHESIS,
    CCURLYBRACKET,
    OCURLYBRACKET,
    SLASH,
    ASTERISK,
    WHITESPACE,
    COLON,
    SEMICOLON,
    COMMA,
    DQMARK,
    SQMAERK,
}

/// A token: a byte range of the source text, with its kind and location.
pub type Token = Span<Kind>;

/// The text of a token of `src`.
pub open spec fn token_text(src: Seq<u8>, t: Token) -> Seq<char> {
    text_of(src, t.start as int, t.end as int)
}

/// The kind of a single-byte symbol token, if `c` is one.
pub open spec fn symbol_kind(c: u8) -> Option<Kind> {
    if c == 64u8 { Some(Kind::AT) }
    else if c == 61u8 { Some(Kind::EQUALS) }
    else if c == 33u8 { Some(Kind::EXCLAMATION) }
    else if c == 45u8 { Some(Kind::HYPHEN) }
    else if c == 60u8 { Some(Kind::LESSTHAN) }
    else if c == 62u8 { Some(Kind::GREATTHAN) }
    else if c == 41u8 { Some(Kind::CPARENTHESIS) }
    else if c == 40u8 { Some(Kind::OPARENTHESIS) }
    else if c == 125u8 { Some(Kind::CCURLYBRACKET) }
    else if c == 123u8 { Some(Kind::OCURLYBRACKET) }
    else if c == 47u8 { Some(Kind::SLASH) }
    else if c == 42u8 { Some(Kind::ASTERISK) }
    else if c == 58u8 { Some(Kind::COLON) }
    else if c == 59u8 { Some(Kind::SEMICOLON) }
    else if c == 44u8 { Some(Kind::COMMA) }
    else if c == 34u8 { Some(Kind::DQMARK) }
    else if c == 39u8 { Some(Kind::SQMAERK) }
    else { None }
}

/// Bytes that continue a whitespace token: space and tab.
pub open spec fn is_blank_byte(c: u8) -> bool {
    c == 32u8 || c == 9u8
}

/// Bytes that end an expression token: every symbol, the space, CR and LF.
pub open spec fn is_token_start_byte(c: u8) -> bool {
    symbol_kind(c) is Some || c == 32u8 || c == 13u8 || c == 10u8
}

/// The end of the run of blanks that starts at `p`.
pub open spec fn blank_end(b: Seq<u8>, p: int) -> int
    decreases b.len() - p,
{
    if 0 <= p < b.len() && is_blank_byte(b[p]) {
        blank_end(b, p + 1)
    } else {
        p
    }
}

/// The end of the run of bytes that are not token starts, from `p`.
pub open spec fn expression_end(b: Seq<u8>, p: int) -> int
    decreases b.len() - p,
{
    if 0 <= p < b.len() && !is_token_start_byte(b[p]) {
        expression_end(b, p + 1)
    } else {
        p
    }
}

/// A line break is one byte, or two where the byte after it is LF.
pub open spec fn newline_end(b: Seq<u8>, p: int) -> int {
    if p + 1 < b.len() && b[p + 1] == 10u8 {
        p + 2
    } else {
        p + 1
    }
}

/// The kind of the token that starts at `p < b.len()`.
pub open spec fn token_kind_at(b: Seq<u8>, p: int) -> Kind {
    let c = b[p];
    match symbol_kind(c) {
        Some(k) => k,
        None => if c == 32u8 {
            Kind::WHITESPACE
        } else if c == 13u8 || c == 10u8 {
            Kind::NEWLINE
        } else {
            Kind::EXPRESSION
        },
    }
}

/// The end of the token that starts at `p < b.len()`.
pub open spec fn token_end_at(b: Seq<u8>, p: int) -> int {
    let c = b[p];
    if symbol_kind(c) is Some {
        p + 1
    } else if c == 32u8 {
        blank_end(b, p)
    } else if c == 13u8 || c == 10u8 {
        newline_end(b, p)
    } else {
        expression_end(b, p)
    }
}

/// The location of a token that starts at byte `p`, on the line described by `loc`.
pub open spec fn location_at(p: int, loc: Location) -> Location {
    Location { line: loc.line, column: (p - loc.column) as usize }
}

/// The token that starts at `p < b.len()`.
pub open spec fn token_at(b: Seq<u8>, p: int, loc: Location) -> Token {
    Span {
        kind: token_kind_at(b, p),
        start: p as usize,
        end: token_end_at(b, p) as usize,
        location: location_at(p, loc),
    }
}

/// The end-of-input token at `p`.
pub open spec fn eof_token(p: int, loc: Location) -> Token {
    Span { kind: Kind::EOF, start: p as usize, end: p as usize, location: location_at(p, loc) }
}

/// The line state after the token at `p`: a line break starts a new line
/// whose first byte is the end of the break.
pub open spec fn location_after(b: Seq<u8>, p: int, loc: Location) -> Location {
    if token_kind_at(b, p) == Kind::NEWLINE {
        Location { line: (loc.line + 1) as usize, column: token_end_at(b, p) as usize }
    } else {
        loc
    }
}

/// Every token ends after it starts, except at the end of input.
pub proof fn lemma_token_end_progress(b: Seq<u8>, p: int)
    requires
        0 <= p < b.len(),
    ensures
        p < token_end_at(b, p) <= b.len(),
{
    lemma_blank_end_bounds(b, p);
    lemma_expression_end_bounds(b, p);
}

pub proof fn lemma_blank_end_bounds(b: Seq<u8>, p: int)
    requires
        0 <= p <= b.len(),
    ensures
        p <= blank_end(b, p) <= b.len(),
        forall|i: int| p <= i < blank_end(b, p) ==> is_blank_byte(#[trigger] b[i]),
        blank_end(b, p) < b.len() ==> !is_blank_byte(b[blank_end(b, p)]),
    decreases b.len() - p,
{
    if p < b.len() && is_blank_byte(b[p]) {
        lemma_blank_end_bounds(b, p + 1);
    }
}

pub proof fn lemma_expression_end_bounds(b: Seq<u8>, p: int)
    requires
        0 <= p <= b.len(),
    ensures
        p <= expression_end(b, p) <= b.len(),
        forall|i: int| p <= i < expression_end(b, p) ==> !is_token_start_byte(#[trigger] b[i]),
        expression_end(b, p) < b.len() ==> is_token_start_byte(b[expression_end(b, p)]),
    decreases b.len() - p,
{
    if p < b.len() && !is_token_start_byte(b[p]) {
        lemma_expression_end_bounds(b, p + 1);
    }
}

/// The tokens of `b` from byte `p` on, the last one being the end-of-input token.
pub open spec fn lex(b: Seq<u8>, p: int, loc: Location) -> Seq<Token>
    decreases b.len() - p,
{
    if p < 0 || p >= b.len() {
        seq![eof_token(p, loc)]
    } else {
        proof {
            lemma_token_end_progress(b, p);
        }
        seq![token_at(b, p, loc)] + lex(b, token_end_at(b, p), location_after(b, p, loc))
    }
}

} // verus!

verus! {

/// Whether `c` ends an expression token.
pub fn is_token_start(c: u8) -> (r: bool)
    ensures
        r == is_token_start_byte(c),
{
    c == 64 || c == 61 || c == 33 || c == 45 || c == 60 || c == 62 || c == 40 || c == 41
        || c == 123 || c == 125 || c == 47 || c == 42 || c == 44 || c == 59 || c == 32
        || c == 58 || c == 34 || c == 39 || c == 13 || c == 10
}

/// Reads the next token of `stream`; `location` holds the current line and
/// the offset of its first byte, and moves to the next line after a line break.
pub fn tokenize(stream: &mut StrStream<'_>, location: &mut Location) -> (token: Token)
    requires
        old(stream).wf(),
        old(location).line <= old(stream).offset,
        old(location).column <= old(stream).offset,
    ensures
        final(stream).bytes == old(stream).bytes,
        final(stream).wf(),
        final(location).line <= final(stream).offset,
        final(location).column <= final(stream).offset,
        old(stream).offset >= old(stream).bytes@.len() ==> {
            &&& token == eof_token(old(stream).offset as int, *old(location))
            &&& final(stream).offset == old(stream).offset
            &&& *final(location) == *old(location)
        },
        old(stream).offset < old(stream).bytes@.len() ==> {
            &&& token == token_at(old(stream).bytes@, old(stream).offset as int, *old(location))
            &&& final(stream).offset == token.end
            &&& *final(location) == location_after(
                old(stream).bytes@,
                old(stream).offset as int,
                *old(location),
            )
        },
{
    let peeked = match stream.peek_byte() {
        Some(b) => b,
        None => {
            let start = stream.current_token_start();
            let loc = Location::new(location.line, start - location.column);
            return Span::new(Kind::EOF, start, start, loc);
        },
    };
    let ghost loc0 = *location;
    let token = match peeked {
        64 => tokenize_symbol(stream, Kind::AT, location),
        61 => tokenize_symbol(stream, Kind::EQUALS, location),
        33 => tokenize_symbol(stream, Kind::EXCLAMATION, location),
        45 => tokenize_symbol(stream, Kind::HYPHEN, location),
        60 => tokenize_symbol(stream, Kind::LESSTHAN, location),
        62 => tokenize_symbol(stream, Kind::GREATTHAN, location),
        41 => tokenize_symbol(stream, Kind::CPARENTHESIS, location),
        40 => tokenize_symbol(stream, Kind::OPARENTHESIS, location),
        125 => tokenize_symbol(stream, Kind::CCURLYBRACKET, location),
        123 => tokenize_symbol(stream, Kind::OCURLYBRACKET, location),
        47 => tokenize_symbol(stream, Kind::SLASH, location),
        42 => tokenize_symbol(stream, Kind::ASTERISK, location),
        58 => tokenize_symbol(stream, Kind::COLON, location),
        59 => tokenize_symbol(stream, Kind::SEMICOLON, location),
        44 => tokenize_symbol(stream, Kind::COMMA, location),
        34 => tokenize_symbol(stream, Kind::DQMARK, location),
        39 => tokenize_symbol(stream, Kind::SQMAERK, location),
        32 => tokenize_whitespace(stream, location),
        13 => tokenize_newline(stream, location),
        10 => tokenize_newline(stream, location),
        _ => tokenize_expression(stream, location),
    };
    proof {
        lemma_token_end_progress(stream.bytes@, token.start as int);
    }
    token
}

/// A one-byte symbol token.
fn tokenize_symbol(stream: &mut StrStream<'_>, token_type: Kind, location: &Location) -> (token: Token)
    requires
        old(stream).wf(),
        old(stream).offset < old(stream).bytes@.len(),
        location.column <= old(stream).offset,
    ensures
        final(stream).bytes == old(stream).bytes,
        final(stream).offset == old(stream).offset + 1,
        token == (Span {
            kind: token_type,
            start: old(stream).offset,
            end: (old(stream).offset + 1) as usize,
            location: location_at(old(stream).offset as int, *location),
        }),
{
    let start = stream.current_token_start();
    stream.next_slice(1);
    let end = stream.previous_token_end();
    let loc = Location::new(location.line, start - location.column);
    Span::new(token_type, start, end, loc)
}

/// A run of spaces and tabs, starting with a space.
fn tokenize_whitespace(stream: &mut StrStream<'_>, location: &Location) -> (token: Token)
    requires
        old(stream).wf(),
        old(stream).offset < old(stream).bytes@.len(),
        location.column <= old(stream).offset,
    ensures
        final(stream).bytes == old(stream).bytes,
        final(stream).offset == blank_end(old(stream).bytes@, old(stream).offset as int),
        token == (Span {
            kind: Kind::WHITESPACE,
            start: old(stream).offset,
            end: blank_end(old(stream).bytes@, old(stream).offset as int) as usize,
            location: location_at(old(stream).offset as int, *location),
        }),
{
    let start = stream.current_token_start();
    let bytes = stream.bytes;
    let mut offset: usize = 0;
    let remaining = stream.eof_offset();
    while offset < remaining && (bytes[start + offset] == 32 || bytes[start + offset] == 9)
        invariant
            stream.wf(),
            stream.offset == start,
            bytes == stream.bytes,
            remaining == stream.bytes@.len() - start,
            offset <= remaining,
            blank_end(stream.bytes@, start as int) == blank_end(stream.bytes@, start + offset),
        decreases remaining - offset,
    {
        offset = offset + 1;
    }
    stream.next_slice(offset);
    let end = stream.previous_token_end();
    let loc = Location::new(location.line, start - location.column);
    Span::new(Kind::WHITESPACE, start, end, loc)
}

/// A line break: CR or LF, together with an LF that follows it.
fn tokenize_newline(stream: &mut StrStream<'_>, location: &mut Location) -> (token: Token)
    requires
        old(stream).wf(),
        old(stream).offset < old(stream).bytes@.len(),
        old(location).column <= old(stream).offset,
        old(location).line <= old(stream).offset,
    ensures
        final(stream).bytes == old(stream).bytes,
        final(stream).offset == newline_end(old(stream).bytes@, old(stream).offset as int),
        token == (Span {
            kind: Kind::NEWLINE,
            start: old(stream).offset,
            end: newline_end(old(stream).bytes@, old(stream).offset as int) as usize,
            location: location_at(old(stream).offset as int, *old(location)),
        }),
        *final(location) == (Location {
            line: (old(location).line + 1) as usize,
            column: newline_end(old(stream).bytes@, old(stream).offset as int) as usize,
        }),
{
    let start = stream.current_token_start();
    let mut offset: usize = 1;
    let has_lf = stream.peek_nth_byte(1) == Some(10u8);
    if has_lf {
        offset = offset + 1;
    }
    stream.next_slice(offset);
    let end = stream.previous_token_end();
    let loc = Location::new(location.line, start - location.column);
    location.line = location.line + 1;
    location.column = end;
    Span::new(Kind::NEWLINE, start, end, loc)
}

/// A run of bytes up to the next token start or the end of input.
fn tokenize_expression(stream: &mut StrStream<'_>, location: &Location) -> (token: Token)
    requires
        old(stream).wf(),
        old(stream).offset < old(stream).bytes@.len(),
        location.column <= old(stream).offset,
    ensures
        final(stream).bytes == old(stream).bytes,
        final(stream).offset == expression_end(old(stream).bytes@, old(stream).offset as int),
        token == (Span {
            kind: Kind::EXPRESSION,
            start: old(stream).offset,
            end: expression_end(old(stream).bytes@, old(stream).offset as int) as usize,
            location: location_at(old(stream).offset as int, *location),
        }),
{
    let start = stream.current_token_start();
    let bytes = stream.bytes;
    let mut offset: usize = 0;
    let remaining = stream.eof_offset();
    while offset < remaining && !is_token_start(bytes[start + offset])
        invariant
            stream.wf(),
            stream.offset == start,
            bytes == stream.bytes,
            remaining == stream.bytes@.len() - start,
            offset <= remaining,
            expression_end(stream.bytes@, start as int) == expression_end(
                stream.bytes@,
                start + offset,
            ),
        decreases remaining - offset,
    {
        offset = offset + 1;
    }
    stream.next_slice(offset);
    let end = stream.previous_token_end();
    let loc = Location::new(location.line, start - location.column);
    Span::new(Kind::EXPRESSION, start, end, loc)
}

} // verus!

verus! {

/// The name of a token kind, as it is written in the source code.
pub open spec fn kind_name(k: Kind) -> Seq<char> {
    match k {
        Kind::NEWLINE => "NEWLINE"@,
        Kind::EXPRESSION => "EXPRESSION"@,
        Kind::EOF => "EOF"@,
        Kind::AT => "AT"@,
        Kind::EQUALS => "EQUALS"@,
        Kind::EXCLAMATION => "EXCLAMATION"@,
        Kind::HYPHEN => "HYPHEN"@,
        Kind::LESSTHAN => "LESSTHAN"@,
        Kind::GREATTHAN => "GREATTHAN"@,
        Kind::CPARENTHESIS => "CPARENTHESIS"@,
        Kind::OPARENTHESIS => "OPARENTHESIS"@,
        Kind::CCURLYBRACKET => "CCURLYBRACKET"@,
        Kind::OCURLYBRACKET => "OCURLYBRACKET"@,
        Kind::SLASH => "SLASH"@,
        Kind::ASTERISK => "ASTERISK"@,
        Kind::WHITESPACE => "WHITESPACE"@,
        Kind::COLON => "COLON"@,
        Kind::SEMICOLON => "SEMICOLON"@,
        Kind::COMMA => "COMMA"@,
        Kind::DQMARK => "DQMARK"@,
        Kind::SQMAERK => "SQMAERK"@,
    }
}

impl Kind {
    pub fn name(&self) -> (r: &'static str)
        ensures
            r@ == kind_name(*self),
    {
        match self {
            Kind::NEWLINE => "NEWLINE",
            Kind::EXPRESSION => "EXPRESSION",
            Kind::EOF => "EOF",
            Kind::AT => "AT",
            Kind::EQUALS => "EQUALS",
            Kind::EXCLAMATION => "EXCLAMATION",
            Kind::HYPHEN => "HYPHEN",
            Kind::LESSTHAN => "LESSTHAN",
            Kind::GREATTHAN => "GREATTHAN",
            Kind::CPARENTHESIS => "CPARENTHESIS",
            Kind::OPARENTHESIS => "OPARENTHESIS",
            Kind::CCURLYBRACKET => "CCURLYBRACKET",
            Kind::OCURLYBRACKET => "OCURLYBRACKET",
            Kind::SLASH => "SLASH",
            Kind::ASTERISK => "ASTERISK",
            Kind::WHITESPACE => "WHITESPACE",
            Kind::COLON => "COLON",
            Kind::SEMICOLON => "SEMICOLON",
            Kind::COMMA => "COMMA",
            Kind::DQMARK => "DQMARK",
            Kind::SQMAERK => "SQMAERK",
        }
    }
}

/// How a token is displayed: `Token(KIND, start, end)`.
pub open spec fn token_display(t: Token) -> Seq<char> {
    "Token("@ + kind_name(t.kind) + ", "@ + decimal(t.start as nat) + ", "@ + decimal(
        t.end as nat,
    ) + ")"@
}

impl Span<Kind> {
    /// The token as `Token(KIND, start, end)`.
    pub fn to_string(&self) -> (r: String)
        ensures
            r@ == token_display(*self),
    {
        let mut r = String::new();
        r.append("Token(");
        r.append(self.kind.name());
        r.append(", ");
        r.append(usize_to_string(self.start).as_str());
        r.append(", ");
        r.append(usize_to_string(self.end).as_str());
        r.append(")");
        r
    }
}

} // verus!
