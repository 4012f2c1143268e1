use crate::span::Span;
use crate::text::{is_text_range, substr, text_of};
use crate::tokenizer::token::Token;
use vstd::prelude::*;
use vstd::string::{StringExecFns, StringSliceAdditionalSpecFns};

verus! {

/// The kinds of template blocks.
#[derive(Copy, Clone, PartialEq, Eq, Structural, PartialOrd, Ord, Hash, Debug)]
pub enum Kind {
    CODE,
    COMMENT,
    INLINEDCODE,
    CONTENT,
    // layout, use.
    DIRECTIVE,
    INLINEDCONTENT,
    FUNCTIONS,
    SECTION,
    ROOT,
    // intermediate kind.
    UNKNOWN,
}

impl Kind {
    pub open spec fn spec_is_block_kind(self) -> bool {
        self == Kind::CODE || self == Kind::CONTENT || self == Kind::ROOT || self == Kind::FUNCTIONS
    }

    pub open spec fn spec_is_inlined_kind(self) -> bool {
        self == Kind::INLINEDCODE || self == Kind::INLINEDCONTENT
    }

    pub open spec fn spec_is_code_kind(self) -> bool {
        self == Kind::CODE || self == Kind::FUNCTIONS || self == Kind::INLINEDCODE
    }

    pub open spec fn spec_is_content_kind(self) -> bool {
        self == Kind::CONTENT || self == Kind::INLINEDCONTENT || self == Kind::ROOT
    }

    pub fn is_block_kind(&self) -> (r: bool)
        ensures
            r == self.spec_is_block_kind(),
    {
        matches!(self, Kind::CODE | Kind::CONTENT | Kind::ROOT | Kind::FUNCTIONS)
    }

    pub fn is_inlined_kind(&self) -> (r: bool)
        ensures
            r == self.spec_is_inlined_kind(),
    {
        matches!(self, Kind::INLINEDCODE | Kind::INLINEDCONTENT)
    }

    pub fn is_code_kind(&self) -> (r: bool)
        ensures
            r == self.spec_is_code_kind(),
    {
        matches!(self, Kind::CODE | Kind::FUNCTIONS | Kind::INLINEDCODE)
    }

    pub fn is_content_kind(&self) -> (r: bool)
        ensures
            r == self.spec_is_content_kind(),
    {
        matches!(self, Kind::CONTENT | Kind::INLINEDCONTENT | Kind::ROOT)
    }

    pub fn is_directive_kind(&self) -> (r: bool)
        ensures
            r == (*self == Kind::DIRECTIVE),
    {
        matches!(self, Kind::DIRECTIVE)
    }
}

/// What a block is: its name, kind, nested blocks, the bytes of the source
/// it was cut from, its byte span and its tokens.
pub struct BlockModel {
    pub name: Option<Seq<char>>,
    pub kind: Kind,
    pub blocks: Seq<BlockModel>,
    pub source: Seq<u8>,
    pub span: (usize, usize),
    pub tokens: Seq<Token>,
}

/// A block with nothing in it yet.
pub open spec fn empty_model(name: Option<Seq<char>>, kind: Kind, source: Seq<u8>) -> BlockModel {
    BlockModel { name, kind, blocks: seq![], source, span: (0, 0), tokens: seq![] }
}

/// A token added to a block: the first one gives the span, later ones extend it.
pub open spec fn push_token_model(m: BlockModel, t: Token) -> BlockModel {
    BlockModel {
        span: if m.tokens.len() == 0 {
            (t.start, t.end)
        } else {
            (m.span.0, t.end)
        },
        tokens: m.tokens.push(t),
        ..m
    }
}

/// Tokens added to a block one after the other.
pub open spec fn push_tokens_model(m: BlockModel, ts: Seq<Token>) -> BlockModel
    decreases ts.len(),
{
    if ts.len() == 0 {
        m
    } else {
        push_token_model(push_tokens_model(m, ts.drop_last()), ts.last())
    }
}

/// Adding tokens changes only a block's tokens and span.
pub proof fn lemma_push_tokens_model(m: BlockModel, ts: Seq<Token>)
    ensures
        push_tokens_model(m, ts).kind == m.kind,
        push_tokens_model(m, ts).name == m.name,
        push_tokens_model(m, ts).source == m.source,
        push_tokens_model(m, ts).blocks == m.blocks,
        push_tokens_model(m, ts).tokens == m.tokens + ts,
    decreases ts.len(),
{
    if ts.len() > 0 {
        lemma_push_tokens_model(m, ts.drop_last());
        assert(m.tokens + ts == (m.tokens + ts.drop_last()).push(ts.last()));
    } else {
        assert(m.tokens + ts == m.tokens);
    }
}

/// A block added to a block. A block of unknown kind takes the span of the
/// block added, and its kind if that is code or content; any other block
/// extends its span to the end of the block added.
pub open spec fn push_block_model(m: BlockModel, b: BlockModel) -> BlockModel {
    BlockModel {
        kind: if m.kind == Kind::UNKNOWN && (b.kind == Kind::CODE || b.kind == Kind::CONTENT) {
            b.kind
        } else {
            m.kind
        },
        span: if m.kind == Kind::UNKNOWN {
            b.span
        } else {
            (m.span.0, b.span.1)
        },
        blocks: m.blocks.push(b),
        ..m
    }
}

/// The text of a block: the texts of its tokens, one after the other.
pub open spec fn tokens_text(src: Seq<u8>, ts: Seq<Token>) -> Seq<char>
    decreases ts.len(),
{
    if ts.len() == 0 {
        seq![]
    } else {
        tokens_text(src, ts.drop_last()) + text_of(src, ts.last().start as int, ts.last().end as int)
    }
}

/// The token is a range of `src` with character boundaries at its ends.
pub open spec fn token_in(src: Seq<u8>, t: Token) -> bool {
    is_text_range(src, t.start as int, t.end as int)
}

/// Every token is a range of `src` with character boundaries at its ends.
pub open spec fn tokens_in(src: Seq<u8>, ts: Seq<Token>) -> bool {
    forall|i: int| 0 <= i < ts.len() ==> #[trigger] token_in(src, ts[i])
}

pub open spec fn name_model(name: Option<String>) -> Option<Seq<char>> {
    match name {
        Some(s) => Some(s@),
        None => None,
    }
}

/// A block of a template: code, content, a directive, a comment, a section...
/// Its text is cut from `source` by its tokens; container blocks hold blocks.
#[derive(Debug)]
pub struct Block<'a> {
    // block like use, section could have name.
    pub name: Option<String>,
    pub kind: Kind,
    pub blocks: Vec<Block<'a>>,
    // block content will be generated from source with tokens.
    pub source: &'a str,
    pub span: core::ops::Range<usize>,
    pub tokens: Vec<Token>,
}

impl<'a> Block<'a> {
    pub open spec fn model(&self) -> BlockModel
        decreases self,
    {
        BlockModel {
            name: name_model(self.name),
            kind: self.kind,
            blocks: Seq::new(
                self.blocks@.len(),
                |i: int|
                    if 0 <= i < self.blocks@.len() {
                        proof {
                            assert(decreases_to!(self => self.blocks));
                            assert(decreases_to!(self.blocks => self.blocks@));
                            assert(decreases_to!(self.blocks@ => self.blocks@[i]));
                        }
                        self.blocks@[i].model()
                    } else {
                        empty_model(None, Kind::UNKNOWN, seq![])
                    },
            ),
            source: self.source.spec_bytes(),
            span: (self.span.start, self.span.end),
            tokens: self.tokens@,
        }
    }
}

} // verus!

verus! {

impl<'a> Block<'a> {
    pub fn new(name: Option<String>, kind: Kind, source: &'a str) -> (r: Self)
        ensures
            r.model() == empty_model(name_model(name), kind, source.spec_bytes()),
    {
        let r = Self { name, kind, blocks: Vec::new(), source, span: 0..0, tokens: Vec::new() };
        proof {
            assert(r.model().blocks =~= Seq::<BlockModel>::empty());
        }
        r
    }

    pub fn kind(&self) -> (r: Kind)
        ensures
            r == self.kind,
    {
        self.kind
    }

    /// The text of the block: the source text of its tokens, in order.
    pub fn content(&self) -> (r: String)
        requires
            tokens_in(self.source.spec_bytes(), self.tokens@),
        ensures
            r@ == tokens_text(self.source.spec_bytes(), self.tokens@),
    {
        let mut content = String::new();
        let mut i: usize = 0;
        while i < self.tokens.len()
            invariant
                i <= self.tokens@.len(),
                tokens_in(self.source.spec_bytes(), self.tokens@),
                content@ == tokens_text(self.source.spec_bytes(), self.tokens@.take(i as int)),
            decreases self.tokens@.len() - i,
        {
            let token = self.tokens[i];
            proof {
                assert(token_in(self.source.spec_bytes(), self.tokens@[i as int]));
            }
            content.append(substr(self.source, token.start, token.end));
            proof {
                assert(self.tokens@.take(i + 1).drop_last() =~= self.tokens@.take(i as int));
            }
            i = i + 1;
        }
        proof {
            assert(self.tokens@.take(i as int) =~= self.tokens@);
        }
        content
    }

    pub fn name(&self) -> (r: Option<&String>)
        ensures
            (r is Some) == (self.name is Some),
            r matches Some(s) ==> *s == self.name->0,
    {
        self.name.as_ref()
    }

    pub fn blocks(&self) -> (r: &Vec<Block<'a>>)
        ensures
            *r == self.blocks,
    {
        &self.blocks
    }

    pub fn span(&self) -> (r: core::ops::Range<usize>)
        ensures
            r.start == self.span.start,
            r.end == self.span.end,
    {
        self.span.start..self.span.end
    }

    pub fn has_blocks(&self) -> (r: bool)
        ensures
            r == (self.blocks@.len() > 0),
    {
        !self.blocks.is_empty()
    }

    pub fn with_kind(&mut self, kind: Kind) -> (r: &mut Self)
        ensures
            r.model() == (BlockModel { kind, ..old(self).model() }),
            *final(self) == *final(r),
    {
        self.kind = kind;
        proof {
            assert(self.model().blocks =~= old(self).model().blocks);
        }
        self
    }

    pub fn with_name(&mut self, name: &str) -> (r: &mut Self)
        ensures
            r.model() == (BlockModel { name: Some(name@), ..old(self).model() }),
            *final(self) == *final(r),
    {
        self.name = Some(String::from_str(name));
        proof {
            assert(self.model().blocks =~= old(self).model().blocks);
        }
        self
    }

    pub fn push_block(&mut self, block: Block<'a>) -> (r: &mut Self)
        ensures
            r.model() == push_block_model(old(self).model(), block.model()),
            *final(self) == *final(r),
    {
        // update container kind with first block.
        if matches!(self.kind(), Kind::UNKNOWN) {
            match block.kind() {
                Kind::CODE => {
                    self.kind = Kind::CODE;
                },
                Kind::CONTENT => {
                    self.kind = Kind::CONTENT;
                },
                _ => { /* no-op */ },
            }
            self.span.start = block.span.start;
            self.span.end = block.span.end;
        } else {
            self.span.end = block.span.end;
        }
        let ghost bm = block.model();
        self.blocks.push(block);
        proof {
            assert(self.model().blocks =~= old(self).model().blocks.push(bm));
        }
        self
    }

    pub fn push_token(&mut self, token: Token) -> (r: &mut Self)
        ensures
            r.model() == push_token_model(old(self).model(), token),
            *final(self) == *final(r),
    {
        if self.tokens.is_empty() {
            self.span = token.start..token.end;
        } else {
            self.span.end = token.end;
        }
        self.tokens.push(token);
        proof {
            assert(self.model().blocks =~= old(self).model().blocks);
        }
        self
    }
}

impl<'a> Default for Block<'a> {
    fn default() -> (r: Self)
        ensures
            r.model() == empty_model(None, Kind::UNKNOWN, seq![]),
    {
        let source = "";
        proof {
            reveal_strlit("");
            assert(source.spec_bytes() =~= Seq::<u8>::empty());
        }
        let r = Self {
            name: None,
            kind: Kind::UNKNOWN,
            blocks: Vec::new(),
            source,
            span: 0..0,
            tokens: Vec::new(),
        };
        proof {
            assert(r.model().blocks =~= Seq::<BlockModel>::empty());
        }
        r
    }
}

} // verus!
