use crate::error::CompileError;
use crate::template::block::{empty_model, push_block_model, token_in, Block, BlockModel, Kind};
use crate::template::context::{consume_spec, consumed_pending, switch_spec};
use crate::template::grammar::{
    at_block_spec, earliest, escaped_at, parse_spec, result_is, root_consume, root_loop, within_loop,
    within_spec,
};
use crate::tokenizer::token::{self, Token};
use crate::text::lemma_str_bytes;
use crate::tokenizer::laws::lemma_tokens_on_char_boundaries;
use crate::tokenizer::stream::{blank_pred, skip_end, skip_whitespace_and_newline, TokenStream};
use crate::tokenizer::tokenizer::{tokens_of, Tokenizer};
use vstd::prelude::*;
use vstd::string::StringSliceAdditionalSpecFns;

verus! {

/// What a template source parses to: its root block, or the first error.
pub open spec fn template_spec(src: Seq<u8>) -> Result<BlockModel, CompileError> {
    let toks = tokens_of(src);
    parse_spec(src, toks, skip_end(toks, 0, blank_pred())).0
}

/// A parsed template: its namespace and its root block.
pub struct Template<'a> {
    pub namespace: Option<String>,
    pub block: Block<'a>,
}

impl<'a> Template<'a> {
    pub fn new(namespace: Option<String>, block: Block<'a>) -> (r: Self)
        ensures
            r.namespace == namespace,
            r.block == block,
    {
        Template { namespace, block }
    }

    /// Tokenizes and parses a template source.
    pub fn from(source: &'a str, namespace: Option<String>) -> (r: Result<Self, CompileError>)
        ensures
            match template_spec(source.spec_bytes()) {
                Ok(m) => r matches Ok(t) && t.block.model() == m && t.namespace == namespace,
                Err(e) => r matches Err(re) && re == e,
            },
    {
        let tokenizer = Tokenizer::new(source);
        let ghost n = tokenizer.stream.bytes@.len();
        let tokens = tokenizer.into_vec();
        proof {
            lemma_str_bytes(source);
            let b = source.spec_bytes();
            assert(b.len() == n);
            lemma_tokens_on_char_boundaries(b);
            assert forall|i: int| 0 <= i < tokens@.len() implies #[trigger] token_in(b, tokens@[i]) by {
                assert(tokens@[i] == tokens_of(b)[i]);
            }
        }
        let mut token_stream = TokenStream::new(tokens.as_slice());

        // skip leading whitespace and newlines.
        skip_whitespace_and_newline(&mut token_stream);
        let block = match Block::parse(source, &mut token_stream) {
            Ok(b) => b,
            Err(e) => return Err(e),
        };
        let template = Template::new(namespace, block);
        Ok(template)
    }

    pub fn namespace(&self) -> (r: Option<&String>)
        ensures
            (r is Some) == (self.namespace is Some),
            r matches Some(s) ==> *s == self.namespace->0,
    {
        self.namespace.as_ref()
    }

    pub fn block(&self) -> (r: &Block<'a>)
        ensures
            *r == self.block,
    {
        &self.block
    }
}

} // verus!

verus! {

/// No child of a root block is itself a root.
pub open spec fn no_root_child(m: BlockModel) -> bool {
    forall|i: int| 0 <= i < m.blocks.len() ==> (#[trigger] m.blocks[i]).kind != Kind::ROOT
}

/// A block after `@` that parses has the kind of the context that it opens.
proof fn lemma_at_block_kind(src: Seq<u8>, toks: Seq<Token>, pos: int, kind: Kind, pending: Seq<Token>)
    ensures
        at_block_spec(src, toks, pos, kind, pending).result matches Ok(b) ==> b.kind == kind,
{
}

/// The root loop keeps a root block with no root among its children, and
/// succeeds only with a block in it.
proof fn lemma_root_loop_blocks(src: Seq<u8>, toks: Seq<Token>, pos: int, pending: Seq<Token>, result: BlockModel)
    requires
        result.kind == Kind::ROOT,
        no_root_child(result),
    ensures
        root_loop(src, toks, pos, pending, result).0 matches Ok(m) ==> m.kind == Kind::ROOT
            && m.blocks.len() > 0 && no_root_child(m),
    decreases toks.len() - pos,
{
    if !(0 <= pos < toks.len()) || toks[pos].kind == token::Kind::EOF {
        let r1 = root_consume(result, pending, src);
        assert(no_root_child(r1)) by {
            assert forall|i: int| 0 <= i < r1.blocks.len() implies (#[trigger] r1.blocks[i]).kind
                != Kind::ROOT by {
                if i < result.blocks.len() {
                    assert(r1.blocks[i] == result.blocks[i]);
                }
            }
        }
    } else {
        let t = toks[pos];
        if t.kind == token::Kind::AT {
            match switch_spec(Kind::ROOT, src, toks, pos) {
                Ok((true, nk)) => {
                    let r1 = root_consume(result, pending, src);
                    let o = at_block_spec(src, toks, pos, nk, seq![]);
                    lemma_at_block_kind(src, toks, pos, nk, seq![]);
                    match o.result {
                        Ok(b) => if pos < o.pos <= toks.len() {
                            let r2 = push_block_model(r1, b);
                            assert(no_root_child(r2)) by {
                                assert forall|i: int| 0 <= i < r2.blocks.len() implies (
                                #[trigger] r2.blocks[i]).kind != Kind::ROOT by {
                                    if i < result.blocks.len() {
                                        assert(r1.blocks[i] == result.blocks[i]);
                                    }
                                }
                            }
                            lemma_root_loop_blocks(src, toks, o.pos, consumed_pending(pending), r2);
                        },
                        Err(_) => {},
                    }
                },
                Ok((false, _)) => {
                    let np = if escaped_at(toks, pos) { pos + 2 } else { pos + 1 };
                    lemma_root_loop_blocks(src, toks, np, pending.push(t), result);
                },
                Err(_) => {},
            }
        } else if t.kind == token::Kind::NEWLINE {
            lemma_root_loop_blocks(src, toks, pos + 1, pending, result);
        } else {
            lemma_root_loop_blocks(src, toks, pos + 1, pending.push(t), result);
        }
    }
}

/// A root block that parses, from any position, holds at least one block,
/// and none of its children is a root.
pub proof fn lemma_parse_root_children(src: Seq<u8>, toks: Seq<Token>, pos: int)
    ensures
        parse_spec(src, toks, pos).0 matches Ok(m) ==> m.kind == Kind::ROOT && m.blocks.len() > 0
            && no_root_child(m),
{
    let p1 = skip_end(toks, pos, blank_pred());
    lemma_root_loop_blocks(src, toks, p1, seq![], empty_model(None, Kind::ROOT, src));
}

/// A template that parses has a root block with at least one block in it,
/// none of which is a root.
pub proof fn lemma_template_has_blocks(src: Seq<u8>)
    ensures
        template_spec(src) matches Ok(m) ==> m.kind == Kind::ROOT && m.blocks.len() > 0
            && no_root_child(m),
{
    let toks = tokens_of(src);
    lemma_parse_root_children(src, toks, skip_end(toks, 0, blank_pred()));
}

/// A delimited loop at depth at least one that succeeds ends right after a
/// closing delimiter that it reached.
proof fn lemma_within_loop_ends_at_close(
    src: Seq<u8>,
    toks: Seq<Token>,
    open: token::Kind,
    close: token::Kind,
    pos: int,
    depth: int,
    kind: Kind,
    pending: Seq<Token>,
    result: BlockModel,
    prev: Option<Token>,
)
    requires
        depth >= 1,
    ensures
        ({
            let o = within_loop(src, toks, open, close, pos, depth, kind, pending, result, prev);
            o.result is Ok ==> pos < o.pos <= toks.len() && toks[o.pos - 1].kind == close
        }),
    decreases toks.len() - pos,
{
    if 0 <= pos < toks.len() {
        let t = toks[pos];
        if t.kind == open {
            lemma_within_loop_ends_at_close(src, toks, open, close, pos + 1, depth + 1, kind, pending.push(t), result, prev);
        } else if t.kind == close {
            if depth - 1 != 0 {
                lemma_within_loop_ends_at_close(src, toks, open, close, pos + 1, depth - 1, kind, pending.push(t), result, prev);
            }
        } else if t.kind == token::Kind::AT {
            if !kind.spec_is_inlined_kind() {
                match switch_spec(kind, src, toks, pos) {
                    Ok((true, nk)) => {
                        let r1 = match consume_spec(kind, pending, src) {
                            Some(b) => push_block_model(result, b),
                            None => result,
                        };
                        let o = at_block_spec(src, toks, pos, nk, seq![]);
                        match o.result {
                            Ok(b) => if pos < o.pos <= toks.len() {
                                lemma_within_loop_ends_at_close(src, toks, open, close, o.pos, depth, kind, consumed_pending(pending), push_block_model(r1, b), prev);
                            },
                            Err(_) => {},
                        }
                    },
                    Ok((false, _)) => {
                        let np = if escaped_at(toks, pos) { pos + 2 } else { pos + 1 };
                        lemma_within_loop_ends_at_close(src, toks, open, close, np, depth, kind, pending.push(t), result, prev);
                    },
                    Err(_) => {},
                }
            }
        } else {
            lemma_within_loop_ends_at_close(src, toks, open, close, pos + 1, depth, kind, pending.push(t), result, prev);
        }
    }
}

/// A delimited block that parses starts at its opening delimiter and ends
/// right after a closing delimiter that comes after it: what it holds lies
/// between the two.
pub proof fn lemma_delimited_block_bounds(
    src: Seq<u8>,
    toks: Seq<Token>,
    open: token::Kind,
    close: token::Kind,
    pos: int,
    kind: Kind,
    pending: Seq<Token>,
)
    ensures
        ({
            let o = within_spec(src, toks, open, close, pos, kind, pending);
            o.result is Ok ==> {
                &&& 0 <= pos < o.pos - 1 < toks.len()
                &&& toks[pos].kind == open
                &&& toks[o.pos - 1].kind == close
            }
        }),
{
    if 0 <= pos < toks.len() && toks[pos].kind == open {
        lemma_within_loop_ends_at_close(
            src,
            toks,
            open,
            close,
            pos + 1,
            1,
            kind,
            pending,
            empty_model(None, Kind::UNKNOWN, seq![]),
            earliest(toks, pos),
        );
    }
}

} // verus!
