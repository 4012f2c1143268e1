use crate::html::doc::{doc_html, DocModel};
use crate::html::machine::{is_void_lower, is_void_name, run, transit, unwind, without_last, Machine, State};
use crate::text::lowercase;
use crate::html::node::{
    attributes_html, children_html, is_doctype_kind, node_html, NodeModel, TagKind,
};
use crate::html::parser::{html_spec, start_machine};
use crate::tokenizer::laws::{
    is_segmentation, joined_text, lemma_tokens_segment_source, lemma_tokens_text_is_source,
    token_matches,
};
use crate::tokenizer::token::{Kind, Token};
use crate::tokenizer::tokenizer::{bom_len, tokens_of};
use vstd::prelude::*;
use vstd::utf8::*;

verus! {

/// A text node holding `text`.
pub open spec fn text_node(text: Seq<char>) -> NodeModel {
    NodeModel {
        kind: TagKind::Text,
        attributes: seq![],
        children: seq![],
        wellformed: true,
        closed: true,
        text,
    }
}

/// Reading text up to the end of input puts one text node, holding all of
/// it, into the document.
proof fn lemma_text_run(src: Seq<u8>, toks: Seq<Token>, pos: int, acc: Seq<char>, pending: Seq<char>)
    requires
        0 <= pos < toks.len(),
        toks.last().kind == Kind::EOF,
        toks.last().start == toks.last().end,
        toks.last().end <= src.len(),
        forall|i: int| 0 <= i < toks.len() - 1 ==> (#[trigger] toks[i]).kind != Kind::EOF,
        forall|i: int| 0 <= i < toks.len() ==> (#[trigger] toks[i]).kind != Kind::LESSTHAN,
    ensures
        run(
            Machine {
                nodes: seq![text_node(acc)],
                pending,
                state: State::TEXT,
                dom: DocModel { nodes: seq![], closed: true },
            },
            src,
            toks,
            pos,
        ) == Ok::<Machine, crate::error::CompileError>(
            Machine {
                nodes: seq![],
                pending,
                state: State::DONE,
                dom: DocModel {
                    nodes: seq![text_node(acc + joined_text(src, toks.subrange(pos, toks.len() as int)))],
                    closed: true,
                },
            },
        ),
    decreases toks.len() - pos,
{
    let m = Machine {
        nodes: seq![text_node(acc)],
        pending,
        state: State::TEXT,
        dom: DocModel { nodes: seq![], closed: true },
    };
    let rest = toks.subrange(pos, toks.len() as int);
    assert(rest[0] == toks[pos]);
    assert(rest.drop_first() =~= toks.subrange(pos + 1, toks.len() as int));
    if toks[pos].kind == Kind::EOF {
        assert(pos == toks.len() - 1);
        assert(rest.drop_first() =~= Seq::<Token>::empty());
        assert(src.subrange(toks[pos].start as int, toks[pos].end as int) =~= Seq::<u8>::empty());
        assert(decode_utf8(Seq::<u8>::empty()) =~= Seq::<char>::empty());
        assert(acc + joined_text(src, rest) =~= acc);
        assert(m.nodes.drop_last() =~= Seq::<NodeModel>::empty());
    } else {
        let t = toks[pos];
        let text = crate::tokenizer::token::token_text(src, t);
        let m2 = Machine {
            nodes: seq![text_node(acc + text)],
            pending,
            state: State::TEXT,
            dom: DocModel { nodes: seq![], closed: true },
        };
        assert(m.nodes.update(0, NodeModel { text: acc + text, ..m.nodes.last() }) =~= m2.nodes);
        lemma_text_run(src, toks, pos + 1, acc + text, pending);
        assert(acc + text + joined_text(src, toks.subrange(pos + 1, toks.len() as int)) =~= acc
            + joined_text(src, rest));
    }
}

/// A fragment without markup, one that holds no `<` and no byte order mark,
/// is read as one text and written back as it is.
pub proof fn lemma_text_fragment_kept(src: Seq<u8>)
    requires
        valid_utf8(src),
        src.len() <= usize::MAX,
        bom_len(src) == 0,
        forall|i: int| 0 <= i < src.len() ==> src[i] != 60u8,
    ensures
        html_spec(src) matches Ok(d) && doc_html(d.nodes) == decode_utf8(src),
{
    let toks = tokens_of(src);
    lemma_tokens_segment_source(src);
    lemma_tokens_text_is_source(src);
    assert(src.subrange(0, src.len() as int) =~= src);
    assert(is_segmentation(src, toks, 0));
    assert forall|i: int| 0 <= i < toks.len() implies (#[trigger] toks[i]).kind != Kind::LESSTHAN by {
        assert(token_matches(src, toks[i]));
    }
    assert(token_matches(src, toks.last()));
    assert(token_matches(src, toks[0]));
    let m0 = start_machine(seq![], seq![], State::INIT);
    if src.len() == 0 {
        assert(toks[0].kind == Kind::EOF);
        assert(decode_utf8(src) =~= Seq::<char>::empty());
    } else {
        assert(toks[0].kind != Kind::EOF);
        lemma_text_run(src, toks, 0, seq![], seq![]);
        assert(toks.subrange(0, toks.len() as int) =~= toks);
        assert(Seq::<char>::empty() + joined_text(src, toks) =~= joined_text(src, toks));
    }
}

/// The end of the start tag of a void element, such as `<br>`, finishes the
/// element and closes it, as XHTML writes it.
pub proof fn lemma_void_element_closes(m: Machine)
    requires
        m.nodes.len() > 0,
        m.nodes.last().kind matches TagKind::Element(t) && is_void_name(t),
        !m.nodes.last().closed,
    ensures
        transit(m, State::INIT) == (Machine {
            state: State::INIT,
            ..unwind(
                without_last(m),
                NodeModel { wellformed: true, closed: true, ..m.nodes.last() },
            )
        }),
{
}

/// A closed element whose start tag was ended and whose content prints as
/// nothing closes itself: `<t .../>`.
pub proof fn lemma_empty_element_closes_itself(n: NodeModel, parent: Option<NodeModel>)
    requires
        n.kind matches TagKind::Element(t) && !is_doctype_kind(n.kind),
        n.wellformed,
        n.closed,
        children_html(n, n.children.len() as int).len() == 0,
    ensures
        node_html(n, parent) == "<"@ + n.kind->Element_0 + attributes_html(n.attributes) + "/>"@,
{
    assert(Seq::<char>::empty() + "/>"@ =~= "/>"@);
}

/// Comments are not written.
pub proof fn lemma_comments_not_written(n: NodeModel, parent: Option<NodeModel>)
    requires
        n.kind is Comment,
    ensures
        node_html(n, parent) == Seq::<char>::empty(),
{
}

/// The void elements of HTML: the elements that have no content and no close tag.
pub open spec fn html_void_element(l: Seq<char>) -> bool {
    ||| l == "area"@
    ||| l == "base"@
    ||| l == "br"@
    ||| l == "col"@
    ||| l == "embed"@
    ||| l == "hr"@
    ||| l == "img"@
    ||| l == "input"@
    ||| l == "link"@
    ||| l == "meta"@
    ||| l == "param"@
    ||| l == "source"@
    ||| l == "track"@
    ||| l == "wbr"@
}

/// The names that the reader closes at the end of their start tag are
/// exactly the void elements of HTML.
pub proof fn lemma_void_names(l: Seq<char>)
    ensures
        is_void_lower(l) <==> html_void_element(l),
{
}

/// The end of the start tag of an element whose lower-case name is a void
/// element of HTML, such as `<img src="a.png">`, finishes the element as a
/// well-formed, closed node, which goes to its parent or to the document;
/// it stays on the stack of open nodes no longer.
pub proof fn lemma_void_start_tag_closes(m: Machine)
    requires
        m.nodes.len() > 0,
        m.nodes.last().kind matches TagKind::Element(t) && html_void_element(lowercase(t)),
        !m.nodes.last().closed,
    ensures
        ({
            let n = NodeModel { wellformed: true, closed: true, ..m.nodes.last() };
            let m2 = transit(m, State::INIT);
            &&& m2.nodes.len() == m.nodes.len() - 1
            &&& if m.nodes.len() > 1 {
                &&& m2.nodes.last().children == m.nodes[m.nodes.len() - 2].children.push(n)
                &&& m2.dom == m.dom
            } else {
                m2.dom.nodes == m.dom.nodes.push(n)
            }
        }),
{
    if m.nodes.len() > 1 {
        assert(m.nodes.drop_last().last() == m.nodes[m.nodes.len() - 2]);
    }
}

} // verus!
