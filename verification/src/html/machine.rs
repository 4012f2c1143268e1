use crate::error::{CompileError, ErrorKind};
use crate::html::doc::{doc_push, DocModel};
use crate::html::node::{bare_node, NodeModel, TagKind};
use crate::index_map::insert_entry;
use crate::text::{lowercase, trim_spec};
use crate::tokenizer::token::{token_text, Kind, Token};
use vstd::prelude::*;

verus! {

/// The states of the HTML reader.
#[derive(Clone, Copy, PartialEq, Eq, Structural, Debug)]
pub enum State {
    INIT,
    TAGOPEN,
    TAGNAME,
    ATTRS,
    ATTRNAME,
    ATTRVAL,
    TEXT,
    TAGCLOSE,
    /// After `<!`: a doctype or a comment.
    INSTSTART,
    COMMENT,
    DONE,
}

/// What the HTML reader holds: the nodes being read, innermost last; the
/// part of a name read so far; its state; and the document read so far.
pub struct Machine {
    pub nodes: Seq<NodeModel>,
    pub pending: Seq<char>,
    pub state: State,
    pub dom: DocModel,
}

/// A tag's name may hold any token but whitespace and line breaks.
pub open spec fn is_name_kind(k: Kind) -> bool {
    k != Kind::WHITESPACE && k != Kind::NEWLINE
}

/// The lower-case names of the void elements of HTML, which have no content
/// and no close tag.
pub open spec fn is_void_lower(l: Seq<char>) -> bool {
    ||| l == "area"@
    ||| l == "base"@
    ||| l == "br"@
    ||| l == "col"@
    ||| l == "embed"@
    ||| l == "hr"@
    ||| l == "img"@
    ||| l == "input"@
    ||| l == "link"@
    ||| l == "meta"@
    ||| l == "param"@
    ||| l == "source"@
    ||| l == "track"@
    ||| l == "wbr"@
}

/// A void element's name, in any case.
pub open spec fn is_void_name(t: Seq<char>) -> bool {
    is_void_lower(lowercase(t))
}

/// `p` with `c` added as its last child.
pub open spec fn push_child(p: NodeModel, c: NodeModel) -> NodeModel {
    NodeModel { children: p.children.push(c), ..p }
}

/// A finished node goes to the innermost node being read, or to the document.
pub open spec fn unwind(m: Machine, n: NodeModel) -> Machine {
    if m.nodes.len() > 0 {
        Machine { nodes: m.nodes.update(m.nodes.len() - 1, push_child(m.nodes.last(), n)), ..m }
    } else {
        Machine { dom: doc_push(m.dom, n), ..m }
    }
}

/// The machine without its innermost node.
pub open spec fn without_last(m: Machine) -> Machine {
    Machine { nodes: m.nodes.drop_last(), ..m }
}

/// The document with `ns` added, first to last.
pub open spec fn push_all(d: DocModel, ns: Seq<NodeModel>) -> DocModel
    decreases ns.len(),
{
    if ns.len() == 0 {
        d
    } else {
        doc_push(push_all(d, ns.drop_last()), ns.last())
    }
}

/// The machine after entering state `st`. On `DONE` every node goes to the
/// document, the innermost into its parent. On `INIT`, after a `>`: an
/// element's start tag is done, and a closed or void element is finished; a
/// close tag finishes its parent element if the names match, is dropped if
/// they do not, and goes to the document where there is no parent element;
/// a comment is finished. On `TAGOPEN`, after a `<`, a text is finished. On
/// `TEXT` a text node starts.
pub open spec fn transit(m: Machine, st: State) -> Machine {
    let m1 = match st {
        State::DONE => {
            let m2 = if m.nodes.len() > 0 {
                unwind(without_last(m), m.nodes.last())
            } else {
                m
            };
            Machine { nodes: seq![], dom: push_all(m2.dom, m2.nodes), ..m2 }
        },
        State::INIT => if m.nodes.len() == 0 {
            m
        } else {
            let n = m.nodes.last();
            let rest = without_last(m);
            match n.kind {
                TagKind::Element(t) => {
                    let n1 = NodeModel { wellformed: true, ..n };
                    if n.closed {
                        unwind(rest, n1)
                    } else if is_void_name(t) {
                        unwind(rest, NodeModel { closed: true, ..n1 })
                    } else {
                        Machine { nodes: m.nodes.update(m.nodes.len() - 1, n1), ..m }
                    }
                },
                TagKind::CloseElement(c) => {
                    let n1 = NodeModel { wellformed: true, ..n };
                    if rest.nodes.len() > 0 && rest.nodes.last().kind is Element {
                        let p = rest.nodes.last();
                        if p.kind == TagKind::Element(c) {
                            unwind(without_last(rest), NodeModel { closed: true, ..p })
                        } else {
                            rest
                        }
                    } else {
                        Machine { dom: doc_push(rest.dom, n1), ..rest }
                    }
                },
                TagKind::Comment => unwind(rest, NodeModel { wellformed: true, closed: true, ..n }),
                TagKind::Text => m,
            }
        },
        State::TAGOPEN => if m.nodes.len() > 0 && m.nodes.last().kind is Text {
            unwind(without_last(m), m.nodes.last())
        } else {
            m
        },
        State::TEXT => Machine { nodes: m.nodes.push(bare_node(TagKind::Text, true, true)), ..m },
        _ => m,
    };
    Machine { state: st, ..m1 }
}

/// `n` with an attribute added: its value trimmed, dropped if both its name
/// and its trimmed value are empty.
pub open spec fn node_with_attr(n: NodeModel, name: Seq<char>, value: Seq<char>) -> NodeModel {
    NodeModel {
        attributes: if name.len() > 0 || trim_spec(value).len() > 0 {
            insert_entry(n.attributes, name, trim_spec(value))
        } else {
            n.attributes
        },
        ..n
    }
}

/// The innermost of `ns` gets an attribute.
pub open spec fn with_attr(ns: Seq<NodeModel>, name: Seq<char>, value: Seq<char>) -> Seq<NodeModel> {
    if ns.len() > 0 {
        ns.update(ns.len() - 1, node_with_attr(ns.last(), name, value))
    } else {
        ns
    }
}

/// The innermost node gets an attribute, and the pending name is cleared.
pub open spec fn add_attr(m: Machine, name: Seq<char>, value: Seq<char>) -> Machine {
    Machine { nodes: with_attr(m.nodes, name, value), pending: seq![], ..m }
}

/// The innermost of `ns` gets more text.
pub open spec fn with_text(ns: Seq<NodeModel>, text: Seq<char>) -> Seq<NodeModel> {
    if ns.len() > 0 {
        ns.update(ns.len() - 1, NodeModel { text: ns.last().text + text, ..ns.last() })
    } else {
        ns
    }
}

/// The innermost node gets more text.
pub open spec fn add_text(m: Machine, text: Seq<char>) -> Machine {
    Machine { nodes: with_text(m.nodes, text), ..m }
}

/// A node is pushed as the innermost one.
pub open spec fn add_node(m: Machine, n: NodeModel) -> Machine {
    Machine { nodes: m.nodes.push(n), ..m }
}

/// The pending name becomes an element, and is cleared.
pub open spec fn add_element(m: Machine) -> Machine {
    Machine { nodes: m.nodes.push(bare_node(TagKind::Element(m.pending), false, false)), pending: seq![], ..m }
}

/// A quoted string from `p` on, after its opening quote `mark`: the text of
/// its tokens but line breaks, up to the closing quote, which is read, or
/// up to a `<`, which is not.
pub open spec fn quoted_rest(src: Seq<u8>, toks: Seq<Token>, p: int, mark: Kind, acc: Seq<char>) -> (
    Seq<char>,
    int,
)
    decreases toks.len() - p,
{
    if p < 0 || p >= toks.len() {
        (acc, p)
    } else {
        let t = toks[p];
        if t.kind == mark {
            (acc, p + 1)
        } else if t.kind == Kind::LESSTHAN {
            (acc, p)
        } else if t.kind != Kind::NEWLINE {
            quoted_rest(src, toks, p + 1, mark, acc + token_text(src, t))
        } else {
            quoted_rest(src, toks, p + 1, mark, acc)
        }
    }
}

/// A quoted string at `p`, if the token there is the quote `mark`, and where reading ends.
pub open spec fn quoted(src: Seq<u8>, toks: Seq<Token>, p: int, mark: Kind) -> (Seq<char>, int) {
    if 0 <= p < toks.len() && toks[p].kind == mark {
        quoted_rest(src, toks, p + 1, mark, seq![])
    } else {
        (seq![], p)
    }
}

/// The quote character of a quote token kind.
pub open spec fn quote_char(mark: Kind) -> Seq<char> {
    if mark == Kind::DQMARK {
        seq!['"']
    } else {
        seq!['\'']
    }
}

/// One step in state `INIT`.
pub open spec fn step_init(m: Machine, t: Token, pos: int) -> (Machine, int) {
    if t.kind == Kind::LESSTHAN {
        (transit(m, State::TAGOPEN), pos + 1)
    } else {
        (transit(m, State::TEXT), pos)
    }
}

/// One step in state `TAGOPEN`, after `<`.
pub open spec fn step_tag_open(m: Machine, t: Token, pos: int) -> (Machine, int) {
    if t.kind == Kind::EXCLAMATION {
        (transit(m, State::INSTSTART), pos + 1)
    } else if t.kind == Kind::SLASH {
        (transit(m, State::TAGCLOSE), pos + 1)
    } else if is_name_kind(t.kind) {
        (transit(m, State::TAGNAME), pos)
    } else {
        (transit(m, State::TAGOPEN), pos + 1)
    }
}

/// One step in state `TAGNAME`.
pub open spec fn step_tag_name(m: Machine, src: Seq<u8>, t: Token, pos: int) -> (Machine, int) {
    if t.kind == Kind::GREATTHAN {
        (transit(add_element(m), State::INIT), pos + 1)
    } else if t.kind == Kind::WHITESPACE || t.kind == Kind::NEWLINE {
        (transit(add_element(m), State::ATTRS), pos + 1)
    } else {
        (Machine { pending: m.pending + token_text(src, t), ..m }, pos + 1)
    }
}

/// One step in state `ATTRS`.
pub open spec fn step_attrs(m: Machine, t: Token, pos: int) -> (Machine, int) {
    if t.kind == Kind::GREATTHAN {
        (transit(m, State::INIT), pos + 1)
    } else if is_name_kind(t.kind) {
        (transit(m, State::ATTRNAME), pos)
    } else {
        (m, pos + 1)
    }
}

/// One step in state `ATTRNAME`. A quoted attribute name, as in a doctype,
/// keeps its quotes.
pub open spec fn step_attr_name(m: Machine, src: Seq<u8>, toks: Seq<Token>, pos: int) -> (
    Machine,
    int,
) {
    let t = toks[pos];
    if t.kind == Kind::EQUALS {
        (transit(m, State::ATTRVAL), pos + 1)
    } else if t.kind == Kind::GREATTHAN {
        (transit(add_attr(m, m.pending, seq![]), State::INIT), pos + 1)
    } else if t.kind == Kind::WHITESPACE || t.kind == Kind::NEWLINE {
        (add_attr(m, m.pending, seq![]), pos + 1)
    } else if t.kind == Kind::DQMARK || t.kind == Kind::SQMAERK {
        let (s, p2) = quoted(src, toks, pos, t.kind);
        let q = quote_char(t.kind);
        (transit(add_attr(m, q + s + q, seq![]), State::ATTRNAME), p2)
    } else {
        (Machine { pending: m.pending + token_text(src, t), ..m }, pos + 1)
    }
}

/// One step in state `ATTRVAL`, after `=`.
pub open spec fn step_attr_value(m: Machine, src: Seq<u8>, toks: Seq<Token>, pos: int) -> (
    Machine,
    int,
) {
    let t = toks[pos];
    if t.kind == Kind::DQMARK || t.kind == Kind::SQMAERK {
        let (s, p2) = quoted(src, toks, pos, t.kind);
        (transit(add_attr(m, m.pending, s), State::ATTRNAME), p2)
    } else if t.kind == Kind::GREATTHAN {
        (transit(m, State::INIT), pos + 1)
    } else {
        (transit(m, State::ATTRNAME), pos + 1)
    }
}

/// One step in state `TEXT`.
pub open spec fn step_text(m: Machine, src: Seq<u8>, t: Token, pos: int) -> (Machine, int) {
    if t.kind == Kind::LESSTHAN {
        (transit(m, State::TAGOPEN), pos + 1)
    } else if t.kind == Kind::EOF {
        (transit(m, State::DONE), pos)
    } else {
        (add_text(m, token_text(src, t)), pos + 1)
    }
}

/// One step in state `TAGCLOSE`, after `</`.
pub open spec fn step_tag_close(m: Machine, src: Seq<u8>, t: Token, pos: int) -> (Machine, int) {
    if t.kind == Kind::GREATTHAN {
        (transit(m, State::INIT), pos + 1)
    } else if is_name_kind(t.kind) {
        (add_node(m, bare_node(TagKind::CloseElement(token_text(src, t)), false, false)), pos + 1)
    } else {
        (m, pos + 1)
    }
}

/// One step in state `INSTSTART`, after `<!`.
pub open spec fn step_inst_start(m: Machine, t: Token, pos: int) -> Result<(Machine, int), CompileError> {
    if t.kind == Kind::HYPHEN {
        Ok((transit(add_node(m, bare_node(TagKind::Comment, false, false)), State::COMMENT), pos))
    } else if t.kind == Kind::GREATTHAN {
        Ok((transit(m, State::INIT), pos + 1))
    } else if is_name_kind(t.kind) {
        Ok((transit(m, State::TAGNAME), pos))
    } else {
        Err(CompileError { kind: ErrorKind::IllegalChar, token: Some(t) })
    }
}

/// One step in state `COMMENT`.
pub open spec fn step_comment(m: Machine, src: Seq<u8>, t: Token, pos: int) -> (Machine, int) {
    if t.kind == Kind::GREATTHAN {
        (transit(m, State::INIT), pos + 1)
    } else {
        (add_text(m, token_text(src, t)), pos + 1)
    }
}

/// One step of the reader at token `pos`.
pub open spec fn step(m: Machine, src: Seq<u8>, toks: Seq<Token>, pos: int) -> Result<
    (Machine, int),
    CompileError,
> {
    let t = toks[pos];
    match m.state {
        State::INIT => Ok(step_init(m, t, pos)),
        State::TAGOPEN => Ok(step_tag_open(m, t, pos)),
        State::TAGNAME => Ok(step_tag_name(m, src, t, pos)),
        State::ATTRS => Ok(step_attrs(m, t, pos)),
        State::ATTRNAME => Ok(step_attr_name(m, src, toks, pos)),
        State::ATTRVAL => Ok(step_attr_value(m, src, toks, pos)),
        State::TEXT => Ok(step_text(m, src, t, pos)),
        State::TAGCLOSE => Ok(step_tag_close(m, src, t, pos)),
        State::INSTSTART => step_inst_start(m, t, pos),
        State::COMMENT => Ok(step_comment(m, src, t, pos)),
        State::DONE => Ok((m, pos)),
    }
}

/// States that may be left without reading a token.
pub open spec fn rank(s: State) -> int {
    match s {
        State::INIT | State::TAGOPEN | State::ATTRS | State::INSTSTART => 1,
        _ => 0,
    }
}

/// The reader from token `pos` on: it steps until the end-of-input token,
/// where every node goes to the document.
pub open spec fn run(m: Machine, src: Seq<u8>, toks: Seq<Token>, pos: int) -> Result<
    Machine,
    CompileError,
>
    decreases toks.len() - pos, rank(m.state),
{
    if pos < 0 || pos >= toks.len() {
        Ok(m)
    } else if toks[pos].kind == Kind::EOF || m.state == State::DONE {
        Ok(transit(m, State::DONE))
    } else {
        match step(m, src, toks, pos) {
            Err(e) => Err(e),
            Ok((m2, p2)) => if (pos < p2 <= toks.len()) || (p2 == pos && rank(m2.state) < rank(
                m.state,
            )) {
                run(m2, src, toks, p2)
            } else {
                // not reached: every step reads a token or leaves a state of rank 1
                Ok(m2)
            },
        }
    }
}


/// The reader's state where `run` stops: at the end of input, or at the step
/// that fails, which changes nothing.
pub open spec fn run_final(m: Machine, src: Seq<u8>, toks: Seq<Token>, pos: int) -> Machine
    decreases toks.len() - pos, rank(m.state),
{
    if pos < 0 || pos >= toks.len() {
        m
    } else if toks[pos].kind == Kind::EOF || m.state == State::DONE {
        transit(m, State::DONE)
    } else {
        match step(m, src, toks, pos) {
            Err(_) => m,
            Ok((m2, p2)) => if (pos < p2 <= toks.len()) || (p2 == pos && rank(m2.state) < rank(
                m.state,
            )) {
                run_final(m2, src, toks, p2)
            } else {
                m2
            },
        }
    }
}

} // verus!

verus! {

/// A quoted string ends at or after where it starts, and within the tokens.
pub proof fn lemma_quoted_rest_bounds(src: Seq<u8>, toks: Seq<Token>, p: int, mark: Kind, acc: Seq<char>)
    requires
        0 <= p <= toks.len(),
    ensures
        p <= quoted_rest(src, toks, p, mark, acc).1 <= toks.len(),
    decreases toks.len() - p,
{
    if p < toks.len() {
        let t = toks[p];
        if t.kind != mark && t.kind != Kind::LESSTHAN {
            if t.kind != Kind::NEWLINE {
                lemma_quoted_rest_bounds(src, toks, p + 1, mark, acc + token_text(src, t));
            } else {
                lemma_quoted_rest_bounds(src, toks, p + 1, mark, acc);
            }
        }
    }
}

/// Every step before the end of input reads a token, or leaves a state of rank 1
/// for one of rank 0.
pub proof fn lemma_step_progress(m: Machine, src: Seq<u8>, toks: Seq<Token>, pos: int)
    requires
        0 <= pos < toks.len(),
        toks[pos].kind != Kind::EOF,
        m.state != State::DONE,
        step(m, src, toks, pos) is Ok,
    ensures
        ({
            let (m2, p2) = step(m, src, toks, pos)->Ok_0;
            (pos < p2 <= toks.len()) || (p2 == pos && rank(m2.state) < rank(m.state))
        }),
{
    let t = toks[pos];
    if t.kind == Kind::DQMARK || t.kind == Kind::SQMAERK {
        lemma_quoted_rest_bounds(src, toks, pos + 1, t.kind, seq![]);
    }
}

} // verus!
