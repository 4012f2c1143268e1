use crate::span::Location;
use crate::text::{
    is_text_range, lemma_boundary_after_ascii, lemma_boundary_at_ascii, lemma_boundary_in_suffix, text_of,
};
use crate::tokenizer::token::{
    eof_token, is_blank_byte, is_token_start_byte, lemma_blank_end_bounds, lemma_expression_end_bounds,
    lemma_token_end_progress, lex, location_after, symbol_kind, token_at, token_end_at, Kind, Token,
};
use crate::tokenizer::tokenizer::{bom_len, tokens_of};
use vstd::prelude::*;
use vstd::utf8::*;

verus! {

/// What a token of kind `t.kind` is made of, and where it must stop.
pub open spec fn token_matches(b: Seq<u8>, t: Token) -> bool {
    let s = t.start as int;
    let e = t.end as int;
    match t.kind {
        Kind::EOF => s == e == b.len(),
        Kind::WHITESPACE => {
            &&& s < e <= b.len()
            &&& b[s] == 32u8
            &&& forall|i: int| s <= i < e ==> is_blank_byte(#[trigger] b[i])
            &&& (e == b.len() || !is_blank_byte(b[e]))
        },
        Kind::NEWLINE => {
            &&& s < e <= b.len()
            &&& (b[s] == 13u8 || b[s] == 10u8)
            &&& (e == s + 1 || (e == s + 2 && b[s + 1] == 10u8))
            &&& (e == s + 1 ==> (e == b.len() || b[e] != 10u8))
        },
        Kind::EXPRESSION => {
            &&& s < e <= b.len()
            &&& forall|i: int| s <= i < e ==> !is_token_start_byte(#[trigger] b[i])
            &&& (e == b.len() || is_token_start_byte(b[e]))
        },
        _ => {
            &&& e == s + 1 <= b.len()
            &&& symbol_kind(b[s]) == Some(t.kind)
        },
    }
}

/// `toks` cuts `b` from `p` to its end into consecutive tokens, each of
/// which is what its kind says, the end-of-input token last and only there.
pub open spec fn is_segmentation(b: Seq<u8>, toks: Seq<Token>, p: int) -> bool {
    &&& toks.len() >= 1
    &&& toks[0].start == p
    &&& toks.last().kind == Kind::EOF
    &&& forall|i: int| 0 <= i < toks.len() ==> token_matches(b, #[trigger] toks[i])
    &&& forall|i: int| 0 <= i < toks.len() - 1 ==> (#[trigger] toks[i]).kind != Kind::EOF
    &&& forall|i: int| 0 <= i < toks.len() - 1 ==> (#[trigger] toks[i]).end == toks[i + 1].start
}

/// The bytes that the tokens cover, one after the other.
pub open spec fn covered_bytes(b: Seq<u8>, toks: Seq<Token>) -> Seq<u8>
    decreases toks.len(),
{
    if toks.len() == 0 {
        seq![]
    } else {
        b.subrange(toks[0].start as int, toks[0].end as int) + covered_bytes(b, toks.drop_first())
    }
}

proof fn lemma_token_at_matches(b: Seq<u8>, p: int, loc: Location)
    requires
        0 <= p < b.len() <= usize::MAX,
    ensures
        token_matches(b, token_at(b, p, loc)),
        token_at(b, p, loc).kind != Kind::EOF,
        token_at(b, p, loc).start == p,
        token_at(b, p, loc).end == token_end_at(b, p),
        p < token_end_at(b, p) <= b.len(),
{
    lemma_token_end_progress(b, p);
    lemma_blank_end_bounds(b, p);
    lemma_expression_end_bounds(b, p);
}

#[verifier::spinoff_prover]
#[verifier::rlimit(40)]
proof fn lemma_lex_segmentation(b: Seq<u8>, p: int, loc: Location)
    requires
        0 <= p <= b.len() <= usize::MAX,
    ensures
        is_segmentation(b, lex(b, p, loc), p),
        covered_bytes(b, lex(b, p, loc)) == b.subrange(p, b.len() as int),
    decreases b.len() - p,
{
    let toks = lex(b, p, loc);
    if p == b.len() {
        assert(toks == seq![eof_token(p, loc)]);
        assert(covered_bytes(b, toks.drop_first()) == Seq::<u8>::empty());
        assert(b.subrange(p, p) =~= b.subrange(p, b.len() as int));
    } else {
        lemma_token_at_matches(b, p, loc);
        let e = token_end_at(b, p);
        let rest = lex(b, e, location_after(b, p, loc));
        lemma_lex_segmentation(b, e, location_after(b, p, loc));
        let t = token_at(b, p, loc);
        assert(toks == seq![t] + rest);
        assert(toks.drop_first() == rest);
        assert forall|i: int| 0 <= i < toks.len() implies token_matches(b, #[trigger] toks[i]) by {
            if i > 0 {
                assert(toks[i] == rest[i - 1]);
            }
        }
        assert forall|i: int| 0 <= i < toks.len() - 1 implies (#[trigger] toks[i]).kind
            != Kind::EOF by {
            if i > 0 {
                assert(toks[i] == rest[i - 1]);
            }
        }
        assert forall|i: int| 0 <= i < toks.len() - 1 implies (#[trigger] toks[i]).end == toks[i
            + 1].start by {
            if i > 0 {
                assert(toks[i] == rest[i - 1]);
                assert(toks[i + 1] == rest[i]);
            } else {
                assert(toks[1] == rest[0]);
            }
        }
        assert(toks.last() == rest.last());
        assert(b.subrange(p, e) + b.subrange(e, b.len() as int) =~= b.subrange(
            p,
            b.len() as int,
        ));
    }
}

/// The tokens of a text cut it, after its byte order mark, into consecutive
/// tokens: each token is what its kind says (a symbol is its one byte, a
/// whitespace token a maximal run of spaces and tabs that starts with a
/// space, an expression a maximal run without token-start bytes, a line
/// break CR or LF with an LF that follows), and the end-of-input token
/// comes last, at the end of the text, and nowhere else.
pub proof fn lemma_tokens_segment_source(b: Seq<u8>)
    requires
        b.len() <= usize::MAX,
    ensures
        is_segmentation(b, tokens_of(b), bom_len(b)),
{
    lemma_lex_segmentation(b, bom_len(b), Location { line: 0, column: 0 });
}

/// Joining the bytes of all tokens, in order, gives back the text after its
/// byte order mark.
pub proof fn lemma_tokens_cover_source(b: Seq<u8>)
    requires
        b.len() <= usize::MAX,
    ensures
        covered_bytes(b, tokens_of(b)) == b.subrange(bom_len(b), b.len() as int),
{
    lemma_lex_segmentation(b, bom_len(b), Location { line: 0, column: 0 });
}

#[verifier::spinoff_prover]
#[verifier::rlimit(40)]
proof fn lemma_lex_boundaries(b: Seq<u8>, p: int, loc: Location)
    requires
        valid_utf8(b),
        0 <= p <= b.len() <= usize::MAX,
        is_char_boundary(b, p),
    ensures
        forall|i: int|
            0 <= i < lex(b, p, loc).len() ==> is_text_range(
                b,
                (#[trigger] lex(b, p, loc)[i]).start as int,
                lex(b, p, loc)[i].end as int,
            ),
    decreases b.len() - p,
{
    let toks = lex(b, p, loc);
    if p == b.len() {
        assert(toks == seq![eof_token(p, loc)]);
    } else {
        lemma_token_at_matches(b, p, loc);
        let e = token_end_at(b, p);
        let t = token_at(b, p, loc);
        // the token ends at a boundary
        if e == b.len() {
            is_char_boundary_start_end_of_seq(b);
        } else if t.kind == Kind::EXPRESSION {
            lemma_expression_end_bounds(b, p);
            lemma_boundary_at_ascii(b, e);
        } else {
            lemma_blank_end_bounds(b, p);
            assert(b[e - 1] <= 0x7fu8);
            lemma_boundary_after_ascii(b, e);
        }
        lemma_lex_boundaries(b, e, location_after(b, p, loc));
        let rest = lex(b, e, location_after(b, p, loc));
        assert(toks == seq![t] + rest);
        assert forall|i: int| 0 <= i < toks.len() implies is_text_range(
            b,
            (#[trigger] toks[i]).start as int,
            toks[i].end as int,
        ) by {
            if i > 0 {
                assert(toks[i] == rest[i - 1]);
            }
        }
    }
}

/// In a valid UTF-8 text every token starts and ends on a character
/// boundary, so that its text can be cut out of the source.
pub proof fn lemma_tokens_on_char_boundaries(b: Seq<u8>)
    requires
        valid_utf8(b),
        b.len() <= usize::MAX,
    ensures
        forall|i: int|
            0 <= i < tokens_of(b).len() ==> is_text_range(
                b,
                (#[trigger] tokens_of(b)[i]).start as int,
                tokens_of(b)[i].end as int,
            ),
{
    if bom_len(b) == 3 {
        if b.len() == 3 {
            is_char_boundary_start_end_of_seq(b);
        } else {
            // the byte order mark is one three-byte character
            assert(valid_first_scalar(b));
            assert(length_of_first_scalar(b) == 3);
            assert(is_char_boundary(b, 3)) by {
                reveal_with_fuel(is_char_boundary, 2);
                is_char_boundary_start_end_of_seq(pop_first_scalar(b));
            }
        }
    } else {
        is_char_boundary_start_end_of_seq(b);
    }
    lemma_lex_boundaries(b, bom_len(b), Location { line: 0, column: 0 });
}

} // verus!

verus! {

/// The texts of the tokens, one after the other.
pub open spec fn joined_text(b: Seq<u8>, toks: Seq<Token>) -> Seq<char>
    decreases toks.len(),
{
    if toks.len() == 0 {
        seq![]
    } else {
        text_of(b, toks[0].start as int, toks[0].end as int) + joined_text(b, toks.drop_first())
    }
}

#[verifier::spinoff_prover]
#[verifier::rlimit(40)]
proof fn lemma_lex_text(b: Seq<u8>, p: int, loc: Location)
    requires
        valid_utf8(b),
        0 <= p <= b.len() <= usize::MAX,
        is_char_boundary(b, p),
    ensures
        joined_text(b, lex(b, p, loc)) == decode_utf8(b.subrange(p, b.len() as int)),
    decreases b.len() - p,
{
    let toks = lex(b, p, loc);
    if p == b.len() {
        assert(toks == seq![eof_token(p, loc)]);
        assert(toks.drop_first() =~= Seq::<Token>::empty());
        assert(b.subrange(p, p) =~= Seq::<u8>::empty());
        assert(joined_text(b, toks.drop_first()) == Seq::<char>::empty());
        assert(decode_utf8(Seq::<u8>::empty()) =~= Seq::<char>::empty());
        assert(text_of(b, toks[0].start as int, toks[0].end as int) == decode_utf8(b.subrange(p, p)));
    } else {
        lemma_token_at_matches(b, p, loc);
        let e = token_end_at(b, p);
        let t = token_at(b, p, loc);
        lemma_lex_boundaries(b, p, loc);
        let rest = lex(b, e, location_after(b, p, loc));
        assert(toks == seq![t] + rest);
        assert(toks.drop_first() =~= rest);
        assert(toks[0] == t);
        assert(is_text_range(b, t.start as int, t.end as int));
        lemma_lex_text(b, e, location_after(b, p, loc));
        // split the rest of the text at the token's end.
        let s = b.subrange(p, b.len() as int);
        lemma_boundary_in_suffix(b, p, e);
        decode_utf8_split(s, e - p);
        assert(s.subrange(0, e - p) =~= b.subrange(p, e));
        assert(s.subrange(e - p, s.len() as int) =~= b.subrange(e, b.len() as int));
        assert(joined_text(b, toks) == text_of(b, p, e) + joined_text(b, rest));
    }
}

/// Joining the texts of all tokens, in order, gives back the text after its
/// byte order mark.
pub proof fn lemma_tokens_text_is_source(b: Seq<u8>)
    requires
        valid_utf8(b),
        b.len() <= usize::MAX,
    ensures
        joined_text(b, tokens_of(b)) == decode_utf8(b.subrange(bom_len(b), b.len() as int)),
{
    lemma_tokens_on_char_boundaries(b);
    assert(is_text_range(b, tokens_of(b)[0].start as int, tokens_of(b)[0].end as int));
    lemma_lex_segmentation(b, bom_len(b), Location { line: 0, column: 0 });
    lemma_lex_text(b, bom_len(b), Location { line: 0, column: 0 });
}

} // verus!

verus! {

/// The number of line breaks among the first `i` tokens.
pub open spec fn breaks_before(toks: Seq<Token>, i: int) -> int
    decreases i,
{
    if i <= 0 {
        0
    } else {
        breaks_before(toks, i - 1) + if toks[i - 1].kind == Kind::NEWLINE {
            1int
        } else {
            0int
        }
    }
}

/// Where the line of token `i` starts: the end of the last line break
/// before it, or `first` if there is none.
pub open spec fn line_start(toks: Seq<Token>, i: int, first: int) -> int
    decreases i,
{
    if i <= 0 {
        first
    } else if toks[i - 1].kind == Kind::NEWLINE {
        toks[i - 1].end as int
    } else {
        line_start(toks, i - 1, first)
    }
}

proof fn lemma_breaks_prefix(t: Token, rest: Seq<Token>, i: int, first: int)
    requires
        1 <= i <= rest.len() + 1,
    ensures
        breaks_before(seq![t] + rest, i) == (if t.kind == Kind::NEWLINE {
            1int
        } else {
            0int
        }) + breaks_before(rest, i - 1),
        line_start(seq![t] + rest, i, first) == line_start(
            rest,
            i - 1,
            if t.kind == Kind::NEWLINE {
                t.end as int
            } else {
                first
            },
        ),
    decreases i,
{
    let s = seq![t] + rest;
    let f2 = if t.kind == Kind::NEWLINE {
        t.end as int
    } else {
        first
    };
    if i > 1 {
        lemma_breaks_prefix(t, rest, i - 1, first);
        assert(s[i - 1] == rest[i - 2]);
        assert(breaks_before(s, i) == breaks_before(s, i - 1) + if s[i - 1].kind == Kind::NEWLINE {
            1int
        } else {
            0int
        });
        assert(breaks_before(rest, i - 1) == breaks_before(rest, i - 2) + if rest[i - 2].kind
            == Kind::NEWLINE {
            1int
        } else {
            0int
        });
        assert(line_start(rest, i - 1, f2) == if rest[i - 2].kind == Kind::NEWLINE {
            rest[i - 2].end as int
        } else {
            line_start(rest, i - 2, f2)
        });
    } else {
        assert(s[0] == t);
        assert(breaks_before(s, 0) == 0);
        assert(line_start(s, 0, first) == first);
        assert(breaks_before(rest, 0) == 0);
        assert(line_start(rest, 0, f2) == f2);
    }
}

#[verifier::spinoff_prover]
#[verifier::rlimit(40)]
proof fn lemma_lex_locations(b: Seq<u8>, p: int, loc: Location)
    requires
        0 <= p <= b.len() <= usize::MAX,
        loc.line <= p,
        loc.column <= p,
    ensures
        forall|i: int|
            0 <= i < lex(b, p, loc).len() ==> {
                &&& (#[trigger] lex(b, p, loc)[i]).location.line == loc.line + breaks_before(
                    lex(b, p, loc),
                    i,
                )
                &&& lex(b, p, loc)[i].location.column == lex(b, p, loc)[i].start - line_start(
                    lex(b, p, loc),
                    i,
                    loc.column as int,
                )
            },
    decreases b.len() - p,
{
    let toks = lex(b, p, loc);
    if p == b.len() {
        assert(toks == seq![eof_token(p, loc)]);
    } else {
        lemma_token_at_matches(b, p, loc);
        let e = token_end_at(b, p);
        let t = token_at(b, p, loc);
        let loc2 = location_after(b, p, loc);
        lemma_lex_locations(b, e, loc2);
        let rest = lex(b, e, loc2);
        assert(toks == seq![t] + rest);
        assert forall|i: int| 0 <= i < toks.len() implies {
            &&& (#[trigger] toks[i]).location.line == loc.line + breaks_before(toks, i)
            &&& toks[i].location.column == toks[i].start - line_start(toks, i, loc.column as int)
        } by {
            if i > 0 {
                assert(toks[i] == rest[i - 1]);
                lemma_breaks_prefix(t, rest, i, loc.column as int);
            }
        }
    }
}

/// Every token's location holds its line, the number of line breaks before
/// it (from 0), and its column, its byte offset from the end of the last
/// line break before it or from the start of the text.
pub proof fn lemma_token_locations(b: Seq<u8>)
    requires
        b.len() <= usize::MAX,
    ensures
        forall|i: int|
            0 <= i < tokens_of(b).len() ==> {
                &&& (#[trigger] tokens_of(b)[i]).location.line == breaks_before(tokens_of(b), i)
                &&& tokens_of(b)[i].location.column == tokens_of(b)[i].start - line_start(
                    tokens_of(b),
                    i,
                    0,
                )
            },
{
    lemma_lex_locations(b, bom_len(b), Location { line: 0, column: 0 });
}

} // verus!
