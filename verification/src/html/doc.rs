use crate::html::node::{is_pre_kind, node_html, nodes_model, Node, NodeKind, NodeModel, TagKind};
use crate::error::CompileError;
use crate::html::parser::{doc_result_is, html_spec, StateMachine};
use crate::text::{trim_end, trim_end_spec, trim_start, trim_start_spec};
use vstd::string::StringSliceAdditionalSpecFns;
use vstd::prelude::*;

verus! {

/// What a document is: its top-level nodes, and whether it ends outside any element.
pub struct DocModel {
    pub nodes: Seq<NodeModel>,
    pub closed: bool,
}

/// A document after a node is added last: it stays closed unless the node
/// is an element that is not closed, or a close tag.
pub open spec fn doc_push(d: DocModel, n: NodeModel) -> DocModel {
    DocModel {
        nodes: d.nodes.push(n),
        closed: d.closed && !((n.kind is Element && !n.closed) || n.kind is CloseElement),
    }
}

/// The HTML of node `c` followed by node `n` in a document: whitespace at
/// the end of a text before a node, and at the start of a text after a node
/// other than a `pre` element, is dropped. Only the last pair gives `n` too.
pub open spec fn pair_html(c: NodeModel, n: NodeModel, last: bool) -> Seq<char> {
    let hc = node_html(c, None);
    if last {
        let hn = node_html(n, None);
        if c.kind is Text {
            trim_end_spec(hc) + hn
        } else if n.kind is Text {
            hc + if c.kind is Element && is_pre_kind(c.kind) {
                hn
            } else {
                trim_start_spec(hn)
            }
        } else {
            hc + hn
        }
    } else if c.kind is Text {
        trim_end_spec(hc)
    } else {
        hc
    }
}

/// The HTML of the first `k` pairs of neighbouring nodes of `ns`.
pub open spec fn pairs_html(ns: Seq<NodeModel>, k: int) -> Seq<char>
    decreases k,
{
    if k <= 0 {
        seq![]
    } else {
        pairs_html(ns, k - 1) + pair_html(ns[k - 1], ns[k], k == ns.len() - 1)
    }
}

/// The HTML of a document's nodes. A single node has no neighbours whose
/// context would let its whitespace be dropped.
pub open spec fn doc_html(ns: Seq<NodeModel>) -> Seq<char> {
    if ns.len() == 0 {
        seq![]
    } else if ns.len() == 1 {
        node_html(ns[0], None)
    } else {
        pairs_html(ns, ns.len() - 1)
    }
}

/// An HTML fragment: its top-level nodes, and whether it ends outside any element.
#[derive(Debug)]
pub struct HtmlDocument {
    pub nodes: Vec<Node>,
    pub is_closed: bool,
}

impl HtmlDocument {
    pub open spec fn model(&self) -> DocModel {
        DocModel {
            nodes: nodes_model(self.nodes@),
            closed: self.is_closed,
        }
    }
}

impl Default for HtmlDocument {
    /// A document without nodes.
    fn default() -> (r: Self)
        ensures
            r.model() == (DocModel { nodes: seq![], closed: true }),
    {
        let r = Self { nodes: Vec::new(), is_closed: true };
        proof {
            assert(r.model().nodes =~= Seq::<NodeModel>::empty());
        }
        r
    }
}

impl HtmlDocument {
    /// The HTML of the fragment, as short as its unknown context allows.
    pub fn to_string(&self) -> (r: String)
        ensures
            r@ == doc_html(self.model().nodes),
    {
        let ghost ns = self.model().nodes;
        let count = self.nodes.len();
        if count == 0 {
            return String::new();
        } else if count == 1 {
            // no context with only one node.
            return self.nodes[0].to_string(None);
        }
        // at least 2 nodes: each pair of neighbours gives the context of its nodes.
        let last_index = count - 2;
        let mut html = String::new();
        let mut index: usize = 0;
        while index < count - 1
            invariant
                ns == self.model().nodes,
                count == self.nodes@.len(),
                count >= 2,
                last_index == count - 2,
                index <= count - 1,
                html@ == pairs_html(ns, index as int),
            decreases count - 1 - index,
        {
            let c = &self.nodes[index];
            let n = &self.nodes[index + 1];
            proof {
                assert(ns[index as int] == c.model());
                assert(ns[index + 1] == n.model());
            }
            let c_content = c.to_string(None);
            if index == last_index {
                let n_content = n.to_string(None);
                match (c.kind(), n.kind()) {
                    (NodeKind::KELEMENT(_), NodeKind::KTEXT) => {
                        html.append(c_content.as_str());
                        let content = if c.is_pre() {
                            n_content.as_str()
                        } else {
                            trim_start(n_content.as_str())
                        };
                        if !content.is_empty() {
                            html.append(content);
                        }
                    },
                    (NodeKind::KTEXT, NodeKind::KCELEMENT(_)) => {
                        let content = if c.is_pre() {
                            c_content.as_str()
                        } else {
                            trim_end(c_content.as_str())
                        };
                        if !content.is_empty() {
                            html.append(content);
                        }
                        html.append(n_content.as_str());
                    },
                    (NodeKind::KTEXT, _) => {
                        let content = trim_end(c_content.as_str());
                        if !content.is_empty() {
                            html.append(content);
                        }
                        html.append(n_content.as_str());
                    },
                    (_, NodeKind::KTEXT) => {
                        html.append(c_content.as_str());
                        let content = trim_start(n_content.as_str());
                        if !content.is_empty() {
                            html.append(content);
                        }
                    },
                    (_, _) => {
                        html.append(c_content.as_str());
                        html.append(n_content.as_str());
                    },
                }
            } else {
                match (c.kind(), n.kind()) {
                    (NodeKind::KTEXT, NodeKind::KCELEMENT(_)) => {
                        let content = if c.is_pre() {
                            c_content.as_str()
                        } else {
                            trim_end(c_content.as_str())
                        };
                        if !content.is_empty() {
                            html.append(content);
                        }
                    },
                    (NodeKind::KTEXT, _) => {
                        let content = trim_end(c_content.as_str());
                        if !content.is_empty() {
                            html.append(content);
                        }
                    },
                    (_, _) => {
                        html.append(c_content.as_str());
                    },
                }
            }
            index = index + 1;
        }
        html
    }

    /// Reads an HTML fragment.
    pub fn parse(source: &str) -> (r: Result<HtmlDocument, CompileError>)
        ensures
            doc_result_is(r, html_spec(source.spec_bytes())),
    {
        let mut state_machine = StateMachine::new(source);
        proof {
            assert(nodes_model(state_machine.nodes@) =~= Seq::<NodeModel>::empty());
            assert(state_machine.pending_name@ =~= Seq::<char>::empty());
        }
        state_machine.process()
    }

    /// Adds a node last.
    pub fn push_node(&mut self, node: Node)
        ensures
            final(self).model() == doc_push(old(self).model(), node.model()),
    {
        if self.is_closed {
            match node.kind() {
                NodeKind::KELEMENT(_) => {
                    if !node.is_closed() {
                        self.is_closed = false;
                    }
                },
                NodeKind::KCELEMENT(_) => self.is_closed = false,
                _ => {},
            }
        }
        let ghost n = node;
        self.nodes.push(node);
        proof {
            assert(self.model().nodes =~= old(self).model().nodes.push(n.model()));
        }
    }
}

} // verus!
