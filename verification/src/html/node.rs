use crate::index_map::{
    insert_entry, insert_string, new_string_map, string_entries, string_entry_at, string_map_len,
};
use crate::text::{lowercase, str_eq, to_lowercase, trim, trim_spec, trim_start, trim_start_spec};
use indexmap::IndexMap;
use vstd::prelude::*;
use vstd::string::StringExecFns;

verus! {

/// The kinds of HTML nodes.
#[derive(Debug)]
pub enum NodeKind {
    /// An element, from its start tag on: `<div ...>`.
    KELEMENT(String),
    /// A close tag that closes no element read before it: `</div>`.
    KCELEMENT(String),
    /// Text.
    KTEXT,
    /// A comment, `<!-- ... -->`.
    KCOMMENT,
}

/// The kind of a node, with its tag name as text.
pub enum TagKind {
    Element(Seq<char>),
    CloseElement(Seq<char>),
    Text,
    Comment,
}

impl View for NodeKind {
    type V = TagKind;

    open spec fn view(&self) -> TagKind {
        match self {
            NodeKind::KELEMENT(t) => TagKind::Element(t@),
            NodeKind::KCELEMENT(t) => TagKind::CloseElement(t@),
            NodeKind::KTEXT => TagKind::Text,
            NodeKind::KCOMMENT => TagKind::Comment,
        }
    }
}

/// What a node is: its kind, its attributes in order, its children, whether
/// its start tag was ended by `>`, whether it is closed, and its text.
pub struct NodeModel {
    pub kind: TagKind,
    pub attributes: Seq<(Seq<char>, Seq<char>)>,
    pub children: Seq<NodeModel>,
    pub wellformed: bool,
    pub closed: bool,
    pub text: Seq<char>,
}

/// A node with no attributes, children or text.
pub open spec fn bare_node(kind: TagKind, wellformed: bool, closed: bool) -> NodeModel {
    NodeModel {
        kind,
        attributes: seq![],
        children: seq![],
        wellformed,
        closed,
        text: seq![],
    }
}

/// An HTML node.
#[derive(Debug)]
pub struct Node {
    pub kind: NodeKind,
    pub attributes: IndexMap<String, String>,
    pub children: Vec<Node>,
    pub is_wellformed: bool,
    pub is_closed: bool,
    pub text: String,
}

impl Node {
    pub open spec fn model(&self) -> NodeModel
        decreases self,
    {
        NodeModel {
            kind: self.kind@,
            attributes: string_entries(self.attributes),
            children: Seq::new(
                self.children@.len(),
                |i: int|
                    if 0 <= i < self.children@.len() {
                        proof {
                            assert(decreases_to!(self => self.children));
                            assert(decreases_to!(self.children => self.children@));
                            assert(decreases_to!(self.children@ => self.children@[i]));
                        }
                        self.children@[i].model()
                    } else {
                        bare_node(TagKind::Text, true, true)
                    },
            ),
            wellformed: self.is_wellformed,
            closed: self.is_closed,
            text: self.text@,
        }
    }
}

/// The models of a sequence of nodes.
pub open spec fn nodes_model(ns: Seq<Node>) -> Seq<NodeModel> {
    Seq::new(ns.len(), |i: int| ns[i].model())
}

/// Nodes with the same children have children with the same models.
pub proof fn lemma_same_children(a: Node, b: Node)
    requires
        a.children@ == b.children@,
    ensures
        a.model().children == b.model().children,
{
    assert(a.model().children =~= b.model().children);
}

/// A lower-case tag name is `pre`.
pub open spec fn is_pre_name(t: Seq<char>) -> bool {
    lowercase(t) == "pre"@
}

/// An element or close tag named `pre`, in any case.
pub open spec fn is_pre_kind(k: TagKind) -> bool {
    match k {
        TagKind::Element(t) => is_pre_name(t),
        TagKind::CloseElement(t) => is_pre_name(t),
        _ => false,
    }
}

/// An element named `doctype`, in any case.
pub open spec fn is_doctype_kind(k: TagKind) -> bool {
    k matches TagKind::Element(t) && lowercase(t) == "doctype"@
}

/// An attribute in a start tag: ` name="value"`, or ` name` when the value is empty.
pub open spec fn attribute_html(e: (Seq<char>, Seq<char>)) -> Seq<char> {
    if e.1.len() == 0 {
        " "@ + e.0
    } else {
        " "@ + e.0 + "=\""@ + e.1 + "\""@
    }
}

/// The attributes in a start tag, in order.
pub open spec fn attributes_html(a: Seq<(Seq<char>, Seq<char>)>) -> Seq<char>
    decreases a.len(),
{
    if a.len() == 0 {
        seq![]
    } else {
        attributes_html(a.drop_last()) + attribute_html(a.last())
    }
}

/// A text as the child of `parent`: kept as it is in `pre` and where it has
/// no parent; trimmed in a closed element; only its start trimmed in an
/// element that is not closed, whose end is not known.
pub open spec fn text_html(text: Seq<char>, parent: Option<NodeModel>) -> Seq<char> {
    match parent {
        Some(p) => if p.kind matches TagKind::Element(t) && is_pre_name(t) {
            text
        } else if p.closed {
            trim_spec(text)
        } else {
            trim_start_spec(text)
        },
        None => text,
    }
}

/// The HTML of a node whose parent is `parent`. Comments give nothing; an
/// element gives its start tag, its children and, when closed, its close
/// tag; a closed element without content closes itself, `<br/>`.
pub open spec fn node_html(n: NodeModel, parent: Option<NodeModel>) -> Seq<char>
    decreases n, n.children.len() + 1,
{
    match n.kind {
        TagKind::Text => text_html(n.text, parent),
        TagKind::Comment => seq![],
        TagKind::Element(t) => {
            let open = if is_doctype_kind(n.kind) {
                "<!"@ + t
            } else {
                "<"@ + t
            };
            let head = open + attributes_html(n.attributes) + if is_doctype_kind(n.kind) {
                n.text
            } else {
                seq![]
            };
            let inner = children_html(n, n.children.len() as int);
            head + if n.wellformed {
                if inner.len() == 0 && n.closed {
                    "/>"@
                } else {
                    ">"@ + inner + if n.closed {
                        "</"@ + t + ">"@
                    } else {
                        seq![]
                    }
                }
            } else {
                seq![]
            }
        },
        TagKind::CloseElement(t) => "</"@ + t + ">"@,
    }
}

/// The HTML of the first `k` children of `n`.
pub open spec fn children_html(n: NodeModel, k: int) -> Seq<char>
    decreases n, k,
{
    if k <= 0 || k > n.children.len() {
        seq![]
    } else {
        proof {
            assert(decreases_to!(n => n.children));
            assert(decreases_to!(n.children => n.children[k - 1]));
        }
        children_html(n, k - 1) + node_html(n.children[k - 1], Some(n))
    }
}

/// The model of an optional node.
pub open spec fn parent_model(p: Option<&Node>) -> Option<NodeModel> {
    match p {
        Some(n) => Some(n.model()),
        None => None,
    }
}

impl Default for Node {
    /// An element with an empty name.
    fn default() -> (r: Self)
        ensures
            r.model() == bare_node(TagKind::Element(seq![]), false, false),
    {
        let r = Self {
            kind: NodeKind::KELEMENT(String::new()),
            attributes: new_string_map(),
            children: Vec::new(),
            is_wellformed: false,
            is_closed: false,
            text: String::new(),
        };
        proof {
            assert(r.model().children =~= Seq::<NodeModel>::empty());
        }
        r
    }
}

impl NodeKind {
    /// A copy of the kind.
    pub fn copy(&self) -> (r: NodeKind)
        ensures
            r@ == self@,
    {
        match self {
            NodeKind::KELEMENT(t) => NodeKind::KELEMENT(t.clone()),
            NodeKind::KCELEMENT(t) => NodeKind::KCELEMENT(t.clone()),
            NodeKind::KTEXT => NodeKind::KTEXT,
            NodeKind::KCOMMENT => NodeKind::KCOMMENT,
        }
    }
}

impl Node {
    /// A node of `kind` with no attributes, children or text.
    fn bare(kind: NodeKind, wellformed: bool, closed: bool) -> (r: Self)
        ensures
            r.model() == bare_node(kind@, wellformed, closed),
    {
        let r = Node {
            kind,
            attributes: new_string_map(),
            children: Vec::new(),
            is_wellformed: wellformed,
            is_closed: closed,
            text: String::new(),
        };
        proof {
            assert(r.model().children =~= Seq::<NodeModel>::empty());
        }
        r
    }

    pub fn kind(&self) -> (r: NodeKind)
        ensures
            r@ == self.kind@,
    {
        self.kind.copy()
    }

    pub fn set_wellformed(&mut self)
        ensures
            final(self).model() == (NodeModel { wellformed: true, ..old(self).model() }),
    {
        self.is_wellformed = true;
        proof {
            lemma_same_children(*old(self), *self);
        }
    }

    pub fn is_wellformed(&self) -> (r: bool)
        ensures
            r == self.model().wellformed,
    {
        self.is_wellformed
    }

    /// Whether the node is an element or a close tag named `pre`, in any case.
    pub fn is_pre(&self) -> (r: bool)
        ensures
            r == is_pre_kind(self.model().kind),
    {
        match &self.kind {
            NodeKind::KELEMENT(tag_name) => str_eq(to_lowercase(tag_name.as_str()).as_str(), "pre"),
            NodeKind::KCELEMENT(tag_name) => str_eq(
                to_lowercase(tag_name.as_str()).as_str(),
                "pre",
            ),
            _ => false,
        }
    }

    /// Whether the node is an element named `doctype`, in any case.
    pub fn is_doctype(&self) -> (r: bool)
        ensures
            r == is_doctype_kind(self.model().kind),
    {
        match &self.kind {
            NodeKind::KELEMENT(tag_name) => str_eq(
                to_lowercase(tag_name.as_str()).as_str(),
                "doctype",
            ),
            _ => false,
        }
    }

    pub fn close(&mut self)
        ensures
            final(self).model() == (NodeModel { closed: true, ..old(self).model() }),
    {
        self.is_closed = true;
        proof {
            lemma_same_children(*old(self), *self);
        }
    }

    pub fn is_closed(&self) -> (r: bool)
        ensures
            r == self.model().closed,
    {
        self.is_closed
    }

    pub fn new_element(name: &str) -> (r: Self)
        ensures
            r.model() == bare_node(TagKind::Element(name@), false, false),
    {
        Node::bare(NodeKind::KELEMENT(String::from_str(name)), false, false)
    }

    pub fn new_text() -> (r: Self)
        ensures
            r.model() == bare_node(TagKind::Text, true, true),
    {
        Node::bare(NodeKind::KTEXT, true, true)
    }

    pub fn new_comment() -> (r: Self)
        ensures
            r.model() == bare_node(TagKind::Comment, false, false),
    {
        Node::bare(NodeKind::KCOMMENT, false, false)
    }

    pub fn push_text(&mut self, text: &str)
        ensures
            final(self).model() == (NodeModel { text: old(self).model().text + text@, ..old(self).model() }),
    {
        self.text.append(text);
        proof {
            lemma_same_children(*old(self), *self);
        }
    }

    pub fn new_close_element(name: &str) -> (r: Self)
        ensures
            r.model() == bare_node(TagKind::CloseElement(name@), false, false),
    {
        Node::bare(NodeKind::KCELEMENT(String::from_str(name)), false, false)
    }

    /// Adds an attribute with its value trimmed; an attribute whose name and
    /// trimmed value are both empty is dropped.
    pub fn push_attr(&mut self, attr_name: &str, attr_value: &str)
        ensures
            final(self).model() == (NodeModel {
                attributes: if attr_name@.len() > 0 || trim_spec(attr_value@).len() > 0 {
                    insert_entry(old(self).model().attributes, attr_name@, trim_spec(attr_value@))
                } else {
                    old(self).model().attributes
                },
                ..old(self).model()
            }),
    {
        let attr_value = trim(attr_value);
        if !attr_name.is_empty() || !attr_value.is_empty() {
            insert_string(&mut self.attributes, String::from_str(attr_name), String::from_str(attr_value));
        }
        proof {
            lemma_same_children(*old(self), *self);
        }
    }

    pub fn push_node(&mut self, node: Node)
        ensures
            final(self).model() == (NodeModel { children: old(self).model().children.push(node.model()), ..old(self).model() }),
    {
        let ghost n = node;
        self.children.push(node);
        proof {
            assert(self.model().children =~= old(self).model().children.push(n.model()));
        }
    }

    /// The HTML of the node as the child of `parent`.
    pub fn to_string(&self, parent: Option<&Node>) -> (r: String)
        ensures
            r@ == node_html(self.model(), parent_model(parent)),
        decreases self,
    {
        let mut content = String::new();
        match &self.kind {
            NodeKind::KTEXT => match parent {
                Some(p) => {
                    let in_pre = match &p.kind {
                        NodeKind::KELEMENT(tag_name) => str_eq(
                            to_lowercase(tag_name.as_str()).as_str(),
                            "pre",
                        ),
                        _ => false,
                    };
                    if in_pre {
                        content.append(self.text.as_str());
                    } else if p.is_closed() {
                        content.append(trim(self.text.as_str()));
                    } else {
                        // the end of an element that is not closed is not known.
                        content.append(trim_start(self.text.as_str()));
                    }
                },
                None => content.append(self.text.as_str()),
            },
            NodeKind::KCOMMENT => {
                // no string for comment.
            },
            NodeKind::KELEMENT(tag_name) => {
                let doctype = self.is_doctype();
                if doctype {
                    content.append("<!");
                } else {
                    content.append("<");
                }
                content.append(tag_name.as_str());
                let ghost head = content@;
                let ghost entries = string_entries(self.attributes);
                let count = string_map_len(&self.attributes);
                let mut i: usize = 0;
                while i < count
                    invariant
                        count == entries.len(),
                        entries == string_entries(self.attributes),
                        i <= count,
                        content@ == head + attributes_html(entries.take(i as int)),
                    decreases count - i,
                {
                    match string_entry_at(&self.attributes, i) {
                        Some((attr_name, attr_value)) => {
                            content.append(" ");
                            content.append(attr_name.as_str());
                            if !attr_value.as_str().is_empty() {
                                content.append("=\"");
                                content.append(attr_value.as_str());
                                content.append("\"");
                            }
                        },
                        None => {},
                    }
                    proof {
                        assert(entries.take(i + 1).drop_last() =~= entries.take(i as int));
                    }
                    i = i + 1;
                }
                proof {
                    assert(entries.take(count as int) =~= entries);
                }
                if doctype {
                    content.append(self.text.as_str());
                }
                // children.
                let ghost m = self.model();
                let mut c_content = String::new();
                let mut j: usize = 0;
                while j < self.children.len()
                    invariant
                        m == self.model(),
                        j <= self.children@.len(),
                        c_content@ == children_html(m, j as int),
                    decreases self.children@.len() - j,
                {
                    proof {
                        assert(decreases_to!(self => self.children));
                        assert(decreases_to!(self.children => self.children@));
                        assert(decreases_to!(self.children@ => self.children@[j as int]));
                        assert(m.children[j as int] == self.children@[j as int].model());
                    }
                    let node_content = self.children[j].to_string(Some(self));
                    c_content.append(node_content.as_str());
                    j = j + 1;
                }
                // a node that is not wellformed has no children.
                if self.is_wellformed() {
                    if c_content.as_str().is_empty() && self.is_closed() {
                        content.append("/>");
                    } else {
                        content.append(">");
                        content.append(c_content.as_str());
                        if self.is_closed() {
                            content.append("</");
                            content.append(tag_name.as_str());
                            content.append(">");
                        }
                    }
                }
            },
            NodeKind::KCELEMENT(tag_name) => {
                content.append("</");
                content.append(tag_name.as_str());
                content.append(">");
            },
        }
        content
    }
}

} // verus!
