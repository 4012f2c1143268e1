use crate::template::block::Kind as BlockKind;
use crate::template::context::{stream_in, switch_spec, ParseContext};
use crate::template::grammar::escaped_at;
use crate::tokenizer::stream::{get_nth_token, TokenStream};
use crate::tokenizer::token::{Kind, Token};
use vstd::prelude::*;
use vstd::string::StringSliceAdditionalSpecFns;

verus! {

/// check if the token is @@escaped in the source string
pub fn is_token_escaped(stream: &TokenStream) -> (r: bool)
    requires
        stream.wf(),
    ensures
        r == escaped_at(stream.tokens@, stream.offset as int),
{
    let first = get_nth_token(stream, 0);
    let send = get_nth_token(stream, 1);
    match (first, send) {
        (Some(first), Some(send)) => first.kind() == Kind::AT && send.kind() == Kind::AT,
        _ => false,
    }
}

/// The `@` at `i` does not switch a context of kind `kind`.
pub open spec fn stays_at(kind: BlockKind, src: Seq<u8>, toks: Seq<Token>, i: int) -> bool {
    switch_spec(kind, src, toks, i) matches Ok((false, _))
}

/// Where reading goes after an `@` that does not switch: past it, and past
/// a second `@` that escapes it.
pub open spec fn after_at(toks: Seq<Token>, i: int) -> int {
    if escaped_at(toks, i) {
        i + 2
    } else {
        i + 1
    }
}

/// Reading from `i` to `end` skips only tokens that `pred` skips and `@`s
/// that do not switch the context, with their escaping `@`.
pub open spec fn skips_to<F: Fn(Kind) -> bool>(
    kind: BlockKind,
    src: Seq<u8>,
    toks: Seq<Token>,
    i: int,
    end: int,
    pred: F,
) -> bool
    decreases toks.len() - i,
{
    if i >= end {
        i == end
    } else if !(0 <= i < toks.len()) || toks[i].kind == Kind::EOF {
        false
    } else if toks[i].kind == Kind::AT {
        stays_at(kind, src, toks, i) && skips_to(kind, src, toks, after_at(toks, i), end, pred)
    } else {
        pred.ensures((toks[i].kind,), true) && skips_to(kind, src, toks, i + 1, end, pred)
    }
}

/// Reading stops at `end`: at the end of input, at an `@` that switches the
/// context or is illegal there, or at a token that `pred` does not skip.
pub open spec fn stops_at<F: Fn(Kind) -> bool>(
    kind: BlockKind,
    src: Seq<u8>,
    toks: Seq<Token>,
    end: int,
    pred: F,
) -> bool {
    ||| end >= toks.len()
    ||| toks[end].kind == Kind::EOF
    ||| (toks[end].kind == Kind::AT && !stays_at(kind, src, toks, end))
    ||| (toks[end].kind != Kind::AT && pred.ensures((toks[end].kind,), false))
}

/// A reading that reaches `end` and goes one more step reaches `end2`.
proof fn lemma_skips_to_extend<F: Fn(Kind) -> bool>(
    kind: BlockKind,
    src: Seq<u8>,
    toks: Seq<Token>,
    i: int,
    end: int,
    end2: int,
    pred: F,
)
    requires
        skips_to(kind, src, toks, i, end, pred),
        end < end2,
        skips_to(kind, src, toks, end, end2, pred),
    ensures
        skips_to(kind, src, toks, i, end2, pred),
    decreases toks.len() - i,
{
    if i < end {
        if toks[i].kind == Kind::AT {
            lemma_skips_to_extend(kind, src, toks, after_at(toks, i), end, end2, pred);
        } else {
            lemma_skips_to_extend(kind, src, toks, i + 1, end, end2, pred);
        }
    }
}

/// Reads tokens that `skip_pred` skips, and `@`s that do not switch the
/// context with their escaping `@`, up to the end of input, an `@` that
/// switches the context, or a token that is not skipped; that token is
/// returned and stays unread. An illegal `@` is left to the caller.
pub fn get_token_before_transfer<'a, F: Fn(Kind) -> bool>(
    source: &str,
    stream: &mut TokenStream<'a>,
    parser_context: &ParseContext,
    skip_pred: F,
) -> (r: Option<&'a Token>)
    requires
        stream_in(source.spec_bytes(), *old(stream)),
        forall|k: Kind| skip_pred.requires((k,)),
    ensures
        stream_in(source.spec_bytes(), *final(stream)),
        final(stream).tokens == old(stream).tokens,
        old(stream).offset <= final(stream).offset,
        skips_to(
            parser_context.kind,
            source.spec_bytes(),
            old(stream).tokens@,
            old(stream).offset as int,
            final(stream).offset as int,
            skip_pred,
        ),
        stops_at(
            parser_context.kind,
            source.spec_bytes(),
            old(stream).tokens@,
            final(stream).offset as int,
            skip_pred,
        ),
        final(stream).offset < final(stream).tokens@.len() ==> r == Some(
            &final(stream).tokens@[final(stream).offset as int],
        ),
        final(stream).offset >= final(stream).tokens@.len() ==> r is None,
{
    let ghost src = source.spec_bytes();
    let ghost toks = stream.tokens@;
    let ghost start = stream.offset as int;
    let ghost kind = parser_context.kind;
    loop
        invariant
            stream_in(src, *stream),
            stream.tokens == old(stream).tokens,
            toks == old(stream).tokens@,
            src == source.spec_bytes(),
            kind == parser_context.kind,
            start == old(stream).offset,
            start <= stream.offset,
            skips_to(kind, src, toks, start, stream.offset as int, skip_pred),
            forall|k: Kind| skip_pred.requires((k,)),
        ensures
            stops_at(kind, src, toks, stream.offset as int, skip_pred),
        decreases toks.len() - stream.offset,
    {
        let ghost e = stream.offset as int;
        let token = match stream.peek_token() {
            Some(t) => t,
            None => break,
        };
        match token.kind() {
            // the end of input is returned.
            Kind::EOF => break,
            Kind::AT => {
                match parser_context.switch_if_possible(source, stream) {
                    Ok((false, _)) => {
                        let escaped = crate::template::util::is_token_escaped(stream);
                        // consume first @.
                        stream.next_token();
                        if escaped {
                            // @@, consume the second @.
                            stream.next_token();
                        }
                        proof {
                            assert(skips_to(kind, src, toks, stream.offset as int, stream.offset as int, skip_pred));
                            assert(skips_to(kind, src, toks, e, stream.offset as int, skip_pred));
                            lemma_skips_to_extend(kind, src, toks, start, e, stream.offset as int, skip_pred);
                        }
                    },
                    Ok((true, _)) => break,
                    Err(_) => {
                        // delay the error handling to the caller.
                        break;
                    },
                }
            },
            kind_now => {
                if skip_pred(kind_now) {
                    stream.next_token();
                    proof {
                        assert(skips_to(kind, src, toks, e + 1, e + 1, skip_pred));
                        assert(skips_to(kind, src, toks, e, e + 1, skip_pred));
                        lemma_skips_to_extend(kind, src, toks, start, e, e + 1, skip_pred);
                    }
                } else {
                    break;
                }
            },
        }
    }
    stream.peek_token()
}

} // verus!
