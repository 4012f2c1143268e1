use crate::error::{CompileError, ErrorKind};
use crate::html::doc::{doc_push, DocModel, HtmlDocument};
use crate::html::machine::{
    add_attr, add_element, add_node, add_text, is_name_kind, is_void_lower, is_void_name, push_all, push_child, quoted,
    quoted_rest, run, step, step_attr_name, step_attr_value, step_attrs, step_comment, step_init,
    step_inst_start, step_tag_close, step_tag_name, step_tag_open, step_text, transit, unwind,
    without_last, with_attr, with_text, quote_char, rank, run_final, lemma_step_progress, Machine, State,
};
use crate::html::node::{bare_node, nodes_model, Node, NodeKind, NodeModel, TagKind};
use crate::template::block::{token_in, tokens_in};
use crate::text::{str_eq, substr, to_lowercase};
use crate::tokenizer::stream::TokenStream;
use crate::tokenizer::token::{token_text, Kind, Token};
use crate::tokenizer::tokenizer::{tokens_of, Tokenizer};
use crate::tokenizer::laws::lemma_tokens_on_char_boundaries;
use crate::text::lemma_str_bytes;
use vstd::prelude::*;
use vstd::string::{StringExecFns, StringSliceAdditionalSpecFns};

verus! {

/// The HTML reader: a state machine over the tokens of `source`.
pub struct StateMachine<'s> {
    /// Stack of the nodes being read.
    pub nodes: Vec<Node>,
    pub pending_name: String,
    pub source: &'s str,
    pub state: State,
}

impl<'s> StateMachine<'s> {
    /// The reader together with the document that it fills.
    pub open spec fn machine(&self, dom: HtmlDocument) -> Machine {
        Machine {
            nodes: nodes_model(self.nodes@),
            pending: self.pending_name@,
            state: self.state,
            dom: dom.model(),
        }
    }

    /// A finished node goes to the innermost node being read, or to the document.
    fn push_to_dom_or_unwind(&mut self, node: Node, dom: &mut HtmlDocument)
        ensures
            final(self).source == old(self).source,
            final(self).machine(*final(dom)) == unwind(old(self).machine(*old(dom)), node.model()),
    {
        let ghost nm = node.model();
        let n = self.nodes.len();
        if n > 0 {
            match self.nodes.pop() {
                Some(parent) => {
                    let mut parent = parent;
                    parent.push_node(node);
                    self.nodes.push(parent);
                    proof {
                        assert(nodes_model(self.nodes@) =~= nodes_model(old(self).nodes@).update(
                            n - 1,
                            push_child(nodes_model(old(self).nodes@).last(), nm),
                        ));
                    }
                },
                None => {},
            }
        } else {
            dom.push_node(node);
        }
    }

    /// After a `>`: the innermost node's start tag, close tag or comment is done.
    #[verifier::spinoff_prover]
    fn on_tag_end(&mut self, dom: &mut HtmlDocument)
        ensures
            final(self).source == old(self).source,
            final(self).machine(*final(dom)) == (Machine {
                state: old(self).state,
                ..transit(old(self).machine(*old(dom)), State::INIT)
            }),
    {
        let ghost m0 = old(self).machine(*old(dom));
        let n = self.nodes.len();
        if n == 0 {
            return;
        }
        let node = match self.nodes.pop() {
            Some(x) => x,
            None => return,
        };
        proof {
            assert(nodes_model(self.nodes@) =~= m0.nodes.drop_last());
            assert(node.model() == m0.nodes.last());
        }
        let mut node = node;
        match node.kind() {
            NodeKind::KELEMENT(tag_name) => {
                // a closed or void element is done; a void element closes itself.
                node.set_wellformed();
                let tag_name = to_lowercase(tag_name.as_str());
                if node.is_closed() {
                    self.push_to_dom_or_unwind(node, dom);
                } else if is_void_tag(tag_name.as_str()) {
                    // a close tag after a void element is left to the browser.
                    node.close();
                    self.push_to_dom_or_unwind(node, dom);
                } else {
                    let ghost nm = node.model();
                    self.nodes.push(node);
                    proof {
                        assert(nodes_model(self.nodes@) =~= m0.nodes.update(n - 1, nm));
                    }
                }
            },
            NodeKind::KCELEMENT(c_name) => {
                node.set_wellformed();
                let m = self.nodes.len();
                let parent_is_element = m > 0 && matches!(self.nodes[m - 1].kind, NodeKind::KELEMENT(_));
                proof {
                    if m > 0 {
                        assert(nodes_model(self.nodes@).last() == self.nodes@[m - 1].model());
                    }
                }
                if parent_is_element {
                    let same = match &self.nodes[m - 1].kind {
                        NodeKind::KELEMENT(p_name) => str_eq(c_name.as_str(), p_name.as_str()),
                        _ => false,
                    };
                    if same {
                        match self.nodes.pop() {
                            Some(parent) => {
                                proof {
                                    assert(nodes_model(self.nodes@) =~= m0.nodes.drop_last().drop_last());
                                }
                                let mut parent = parent;
                                parent.close();
                                self.push_to_dom_or_unwind(parent, dom);
                            },
                            None => {},
                        }
                    }
                    // a close tag whose name does not match, as in <div>test</a>, is dropped.
                } else {
                    // a close tag without an element before it goes to the document.
                    dom.push_node(node);
                }
            },
            NodeKind::KCOMMENT => {
                // a comment ends with '>', closed or not.
                node.set_wellformed();
                node.close();
                self.push_to_dom_or_unwind(node, dom);
            },
            NodeKind::KTEXT => {
                // not reached: a '>' in a text is read as text.
                self.nodes.push(node);
                proof {
                    assert(nodes_model(self.nodes@) =~= m0.nodes);
                }
            },
        }
    }

    /// After a `<`: a text that is being read is done.
    fn on_tag_open(&mut self, dom: &mut HtmlDocument)
        ensures
            final(self).source == old(self).source,
            final(self).machine(*final(dom)) == (Machine {
                state: old(self).state,
                ..transit(old(self).machine(*old(dom)), State::TAGOPEN)
            }),
    {
        let ghost m0 = old(self).machine(*old(dom));
        let n = self.nodes.len();
        proof {
            if n > 0 {
                assert(m0.nodes.last() == self.nodes@[n - 1].model());
            }
        }
        if n > 0 && matches!(self.nodes[n - 1].kind, NodeKind::KTEXT) {
            match self.nodes.pop() {
                Some(node) => {
                    proof {
                        assert(nodes_model(self.nodes@) =~= m0.nodes.drop_last());
                    }
                    self.push_to_dom_or_unwind(node, dom);
                },
                None => {},
            }
        }
    }

    /// At the end: the innermost node goes to its parent, then every node to
    /// the document, the outermost first.
    fn on_done(&mut self, dom: &mut HtmlDocument)
        ensures
            final(self).source == old(self).source,
            final(self).machine(*final(dom)) == (Machine {
                state: old(self).state,
                ..transit(old(self).machine(*old(dom)), State::DONE)
            }),
    {
        let ghost m0 = old(self).machine(*old(dom));
        // unwind last one.
        let current_node = self.nodes.pop();
        if let Some(node) = current_node {
            proof {
                assert(nodes_model(self.nodes@) =~= m0.nodes.drop_last());
            }
            self.push_to_dom_or_unwind(node, dom);
        }
        let ghost m2 = self.machine(*dom);
        let ghost rest = nodes_model(self.nodes@);
        let ghost d0 = dom.model();
        // push all remaining nodes, the outermost first.
        let ghost mut k: int = 0;
        while self.nodes.len() > 0
            invariant
                self.source == old(self).source,
                self.state == old(self).state,
                self.pending_name@ == m2.pending,
                0 <= k <= rest.len(),
                nodes_model(self.nodes@) == rest.skip(k),
                dom.model() == push_all(d0, rest.take(k)),
            decreases self.nodes@.len(),
        {
            let ghost before = self.nodes@;
            proof {
                assert(nodes_model(before).len() == before.len());
                assert(k < rest.len());
                assert(nodes_model(before)[0] == rest.skip(k)[0]);
            }
            let node = self.nodes.remove(0);
            proof {
                assert(node.model() == rest[k]);
                assert(nodes_model(self.nodes@) =~= rest.skip(k + 1)) by {
                    assert forall|i: int| 0 <= i < self.nodes@.len() implies nodes_model(self.nodes@)[i]
                        == rest.skip(k + 1)[i] by {
                        assert(self.nodes@[i] == before[i + 1]);
                        assert(nodes_model(before)[i + 1] == rest.skip(k)[i + 1]);
                    }
                }
            }
            dom.push_node(node);
            proof {
                assert(rest.take(k + 1).drop_last() =~= rest.take(k));
                k = k + 1;
            }
        }
        proof {
            assert(rest.take(k) =~= rest);
            assert(nodes_model(self.nodes@) =~= Seq::<NodeModel>::empty());
        }
    }

    /// Enters state `state`.
    fn transit_to(&mut self, state: State, dom: &mut HtmlDocument)
        ensures
            final(self).source == old(self).source,
            final(self).machine(*final(dom)) == transit(old(self).machine(*old(dom)), state),
    {
        match state {
            State::DONE => self.on_done(dom),
            State::INIT => self.on_tag_end(dom),
            State::TAGOPEN => self.on_tag_open(dom),
            State::TEXT => {
                let ghost m0 = self.machine(*dom);
                let node = Node::new_text();
                self.nodes.push(node);
                proof {
                    assert(nodes_model(self.nodes@) =~= m0.nodes.push(bare_node(TagKind::Text, true, true)));
                }
            },
            _ => {},
        }
        self.state = state;
    }
}

/// The reader may read the next token of `ts`, a token of `src`.
pub open spec fn can_step(src: Seq<u8>, ts: TokenStream) -> bool {
    &&& ts.wf()
    &&& ts.offset < ts.tokens@.len()
    &&& tokens_in(src, ts.tokens@)
}

/// The stream after a step: the same tokens.
pub open spec fn stream_kept(ts0: TokenStream, ts1: TokenStream) -> bool {
    &&& ts1.wf()
    &&& ts1.tokens == ts0.tokens
}

impl<'s> StateMachine<'s> {
    /// The innermost node gets an attribute, and the pending name is cleared.
    fn add_attribute(&mut self, name: &str, value: &str)
        ensures
            final(self).source == old(self).source,
            final(self).state == old(self).state,
            nodes_model(final(self).nodes@) == with_attr(nodes_model(old(self).nodes@), name@, value@),
            final(self).pending_name@ == Seq::<char>::empty(),
    {
        let ghost ns = nodes_model(old(self).nodes@);
        let n = self.nodes.len();
        if n > 0 {
            match self.nodes.pop() {
                Some(node) => {
                    let mut node = node;
                    node.push_attr(name, value);
                    self.nodes.push(node);
                    proof {
                        assert(nodes_model(self.nodes@) =~= with_attr(ns, name@, value@));
                    }
                },
                None => {},
            }
        }
        self.pending_name = String::new();
    }

    /// The innermost node gets more text.
    fn add_text(&mut self, text: &str)
        ensures
            final(self).source == old(self).source,
            final(self).state == old(self).state,
            final(self).pending_name == old(self).pending_name,
            nodes_model(final(self).nodes@) == with_text(nodes_model(old(self).nodes@), text@),
    {
        let ghost ns = nodes_model(old(self).nodes@);
        let n = self.nodes.len();
        if n > 0 {
            match self.nodes.pop() {
                Some(node) => {
                    let mut node = node;
                    node.push_text(text);
                    self.nodes.push(node);
                    proof {
                        assert(nodes_model(self.nodes@) =~= with_text(ns, text@));
                    }
                },
                None => {},
            }
        }
    }

    /// A node is pushed as the innermost one.
    fn push(&mut self, node: Node)
        ensures
            final(self).source == old(self).source,
            final(self).state == old(self).state,
            final(self).pending_name == old(self).pending_name,
            nodes_model(final(self).nodes@) == nodes_model(old(self).nodes@).push(node.model()),
    {
        let ghost nm = node.model();
        self.nodes.push(node);
        proof {
            assert(nodes_model(self.nodes@) =~= nodes_model(old(self).nodes@).push(nm));
        }
    }

    /// One step in state `INIT`.
    fn process_with_init(&mut self, token_stream: &mut TokenStream, dom: &mut HtmlDocument)
        requires
            can_step(old(self).source.spec_bytes(), *old(token_stream)),
        ensures
            final(self).source == old(self).source,
            stream_kept(*old(token_stream), *final(token_stream)),
            (final(self).machine(*final(dom)), final(token_stream).offset as int) == step_init(
                old(self).machine(*old(dom)),
                old(token_stream).tokens@[old(token_stream).offset as int],
                old(token_stream).offset as int,
            ),
    {
        // there is a token: the caller has checked.
        let token = match token_stream.peek_token() {
            Some(t) => t,
            None => return,
        };
        match token.kind() {
            Kind::LESSTHAN => {
                // consume '<'
                token_stream.next_token();
                self.transit_to(State::TAGOPEN, dom);
            },
            _ => {
                self.transit_to(State::TEXT, dom);
            },
        }
    }

    /// One step in state `TAGOPEN`.
    fn process_with_tag_open(&mut self, token_stream: &mut TokenStream, dom: &mut HtmlDocument)
        requires
            can_step(old(self).source.spec_bytes(), *old(token_stream)),
        ensures
            final(self).source == old(self).source,
            stream_kept(*old(token_stream), *final(token_stream)),
            (final(self).machine(*final(dom)), final(token_stream).offset as int) == step_tag_open(
                old(self).machine(*old(dom)),
                old(token_stream).tokens@[old(token_stream).offset as int],
                old(token_stream).offset as int,
            ),
    {
        if let Some(token) = token_stream.peek_token() {
            match token.kind() {
                Kind::EXCLAMATION => {
                    // doctype or comment
                    token_stream.next_token();
                    self.transit_to(State::INSTSTART, dom);
                },
                Kind::SLASH => {
                    token_stream.next_token();
                    self.transit_to(State::TAGCLOSE, dom);
                },
                _ => {
                    if is_valid_name_token(token) {
                        self.transit_to(State::TAGNAME, dom);
                    } else {
                        token_stream.next_token();
                        self.transit_to(State::TAGOPEN, dom);
                    }
                },
            }
        } else {
            self.transit_to(State::DONE, dom);
        }
    }

    /// One step in state `TAGNAME`.
    fn process_with_tag_name(&mut self, token_stream: &mut TokenStream, dom: &mut HtmlDocument) -> (r:
        Result<(), CompileError>)
        requires
            can_step(old(self).source.spec_bytes(), *old(token_stream)),
        ensures
            r is Ok,
            final(self).source == old(self).source,
            stream_kept(*old(token_stream), *final(token_stream)),
            (final(self).machine(*final(dom)), final(token_stream).offset as int) == step_tag_name(
                old(self).machine(*old(dom)),
                old(self).source.spec_bytes(),
                old(token_stream).tokens@[old(token_stream).offset as int],
                old(token_stream).offset as int,
            ),
    {
        let ghost src = self.source.spec_bytes();
        if let Some(token) = token_stream.peek_token() {
            proof {
                assert(token_in(src, token_stream.tokens@[token_stream.offset as int]));
            }
            match token.kind() {
                Kind::GREATTHAN | Kind::WHITESPACE | Kind::NEWLINE => {
                    let ghost m0 = self.machine(*dom);
                    let node = Node::new_element(self.pending_name.as_str());
                    self.push(node);
                    self.pending_name = String::new();
                    proof {
                        assert(self.machine(*dom) == add_element(m0));
                    }
                    token_stream.next_token();
                    if token.kind() == Kind::GREATTHAN {
                        self.transit_to(State::INIT, dom);
                    } else {
                        self.transit_to(State::ATTRS, dom);
                    }
                },
                _ => {
                    if is_valid_name_token(token) {
                        let name_part = substr(self.source, token.start, token.end);
                        self.pending_name.append(name_part);
                        token_stream.next_token();
                    } else {
                        // not reached: every other token is part of a name.
                        return Err(CompileError::from_parser(Some(*token), ErrorKind::IllegalChar));
                    }
                },
            }
        } else {
            self.transit_to(State::DONE, dom);
        }
        Ok(())
    }

    /// One step in state `ATTRS`.
    fn process_with_attributes(&mut self, token_stream: &mut TokenStream, dom: &mut HtmlDocument)
        requires
            can_step(old(self).source.spec_bytes(), *old(token_stream)),
        ensures
            final(self).source == old(self).source,
            stream_kept(*old(token_stream), *final(token_stream)),
            (final(self).machine(*final(dom)), final(token_stream).offset as int) == step_attrs(
                old(self).machine(*old(dom)),
                old(token_stream).tokens@[old(token_stream).offset as int],
                old(token_stream).offset as int,
            ),
    {
        if let Some(token) = token_stream.peek_token() {
            match token.kind() {
                Kind::GREATTHAN => {
                    token_stream.next_token();
                    self.transit_to(State::INIT, dom);
                },
                _ => {
                    if is_valid_name_token(token) {
                        self.transit_to(State::ATTRNAME, dom);
                    } else {
                        token_stream.next_token();
                    }
                },
            }
        } else {
            self.transit_to(State::DONE, dom);
        }
    }
}

impl<'s> StateMachine<'s> {
    /// One step in state `ATTRNAME`.
    #[verifier::spinoff_prover]
    fn process_with_attr_name(&mut self, token_stream: &mut TokenStream, dom: &mut HtmlDocument)
        requires
            can_step(old(self).source.spec_bytes(), *old(token_stream)),
        ensures
            final(self).source == old(self).source,
            stream_kept(*old(token_stream), *final(token_stream)),
            (final(self).machine(*final(dom)), final(token_stream).offset as int) == step_attr_name(
                old(self).machine(*old(dom)),
                old(self).source.spec_bytes(),
                old(token_stream).tokens@,
                old(token_stream).offset as int,
            ),
    {
        let ghost src = self.source.spec_bytes();
        let ghost m0 = self.machine(*dom);
        if let Some(token) = token_stream.peek_token() {
            proof {
                assert(token_in(src, token_stream.tokens@[token_stream.offset as int]));
            }
            match token.kind() {
                Kind::EQUALS => {
                    token_stream.next_token();
                    self.transit_to(State::ATTRVAL, dom);
                },
                Kind::GREATTHAN => {
                    let name = self.pending_name.clone();
                    self.add_attribute(name.as_str(), "");
                    proof {
                        reveal_strlit("");
                        assert(""@ =~= Seq::<char>::empty());
                        assert(self.machine(*dom) == add_attr(m0, m0.pending, seq![]));
                    }
                    token_stream.next_token();
                    self.transit_to(State::INIT, dom);
                },
                Kind::WHITESPACE | Kind::NEWLINE => {
                    let name = self.pending_name.clone();
                    self.add_attribute(name.as_str(), "");
                    proof {
                        reveal_strlit("");
                        assert(""@ =~= Seq::<char>::empty());
                        assert(self.machine(*dom) == add_attr(m0, m0.pending, seq![]));
                    }
                    // keep the state for the next name.
                    token_stream.next_token();
                },
                // a doctype's attribute name may be quoted.
                Kind::DQMARK | Kind::SQMAERK => {
                    let mark = token.kind();
                    let attr_name = get_possible_quotated_string_from_stream(
                        self.source,
                        token_stream,
                        mark,
                    );
                    let mut quoted_name = String::new();
                    if mark == Kind::DQMARK {
                        quoted_name.append("\"");
                        quoted_name.append(attr_name.as_str());
                        quoted_name.append("\"");
                    } else {
                        quoted_name.append("'");
                        quoted_name.append(attr_name.as_str());
                        quoted_name.append("'");
                    }
                    proof {
                        reveal_strlit("\"");
                        reveal_strlit("'");
                        reveal_strlit("");
                        assert(quoted_name@ =~= quote_char(mark) + attr_name@ + quote_char(mark));
                    }
                    self.add_attribute(quoted_name.as_str(), "");
                    proof {
                        assert(""@ =~= Seq::<char>::empty());
                    }
                    self.transit_to(State::ATTRNAME, dom);
                },
                _ => {
                    if is_valid_name_token(token) {
                        let attr_name = substr(self.source, token.start, token.end);
                        self.pending_name.append(attr_name);
                        token_stream.next_token();
                    } else {
                        // not reached: whitespace and line breaks are read above.
                        token_stream.next_token();
                    }
                },
            }
        } else {
            self.transit_to(State::DONE, dom);
        }
    }

    /// One step in state `ATTRVAL`.
    #[verifier::spinoff_prover]
    fn process_with_attr_value(&mut self, token_stream: &mut TokenStream, dom: &mut HtmlDocument)
        requires
            can_step(old(self).source.spec_bytes(), *old(token_stream)),
        ensures
            final(self).source == old(self).source,
            stream_kept(*old(token_stream), *final(token_stream)),
            (final(self).machine(*final(dom)), final(token_stream).offset as int) == step_attr_value(
                old(self).machine(*old(dom)),
                old(self).source.spec_bytes(),
                old(token_stream).tokens@,
                old(token_stream).offset as int,
            ),
    {
        if let Some(token) = token_stream.peek_token() {
            match token.kind() {
                Kind::DQMARK | Kind::SQMAERK => {
                    let attr_value = get_possible_quotated_string_from_stream(
                        self.source,
                        token_stream,
                        token.kind(),
                    );
                    let name = self.pending_name.clone();
                    self.add_attribute(name.as_str(), attr_value.as_str());
                    self.transit_to(State::ATTRNAME, dom);
                },
                Kind::GREATTHAN => {
                    token_stream.next_token();
                    self.transit_to(State::INIT, dom);
                },
                _ => {
                    token_stream.next_token();
                    self.transit_to(State::ATTRNAME, dom);
                },
            }
        } else {
            self.transit_to(State::DONE, dom);
        }
    }

    /// One step in state `TEXT`.
    fn process_with_text(&mut self, token_stream: &mut TokenStream, dom: &mut HtmlDocument)
        requires
            can_step(old(self).source.spec_bytes(), *old(token_stream)),
        ensures
            final(self).source == old(self).source,
            stream_kept(*old(token_stream), *final(token_stream)),
            (final(self).machine(*final(dom)), final(token_stream).offset as int) == step_text(
                old(self).machine(*old(dom)),
                old(self).source.spec_bytes(),
                old(token_stream).tokens@[old(token_stream).offset as int],
                old(token_stream).offset as int,
            ),
    {
        let ghost src = self.source.spec_bytes();
        if let Some(token) = token_stream.peek_token() {
            proof {
                assert(token_in(src, token_stream.tokens@[token_stream.offset as int]));
            }
            match token.kind() {
                Kind::LESSTHAN => {
                    // consume '<'
                    token_stream.next_token();
                    self.transit_to(State::TAGOPEN, dom);
                },
                Kind::EOF => {
                    self.transit_to(State::DONE, dom);
                },
                _ => {
                    // save text.
                    token_stream.next_token();
                    let part = substr(self.source, token.start, token.end);
                    self.add_text(part);
                },
            }
        } else {
            self.transit_to(State::DONE, dom);
        }
    }

    /// One step in state `TAGCLOSE`.
    fn process_with_tag_close(&mut self, token_stream: &mut TokenStream, dom: &mut HtmlDocument)
        requires
            can_step(old(self).source.spec_bytes(), *old(token_stream)),
        ensures
            final(self).source == old(self).source,
            stream_kept(*old(token_stream), *final(token_stream)),
            (final(self).machine(*final(dom)), final(token_stream).offset as int) == step_tag_close(
                old(self).machine(*old(dom)),
                old(self).source.spec_bytes(),
                old(token_stream).tokens@[old(token_stream).offset as int],
                old(token_stream).offset as int,
            ),
    {
        let ghost src = self.source.spec_bytes();
        if let Some(token) = token_stream.peek_token() {
            proof {
                assert(token_in(src, token_stream.tokens@[token_stream.offset as int]));
            }
            match token.kind() {
                Kind::GREATTHAN => {
                    // closed
                    token_stream.next_token();
                    self.transit_to(State::INIT, dom);
                },
                _ => {
                    if is_valid_name_token(token) {
                        let tag_name = substr(self.source, token.start, token.end);
                        let node = Node::new_close_element(tag_name);
                        self.push(node);
                        token_stream.next_token();
                    } else {
                        token_stream.next_token();
                    }
                },
            }
        } else {
            self.transit_to(State::DONE, dom);
        }
    }

    /// One step in state `INSTSTART`, after `<!`.
    fn process_with_instruction_start(&mut self, token_stream: &mut TokenStream, dom: &mut HtmlDocument) -> (r:
        Result<(), CompileError>)
        requires
            can_step(old(self).source.spec_bytes(), *old(token_stream)),
        ensures
            final(self).source == old(self).source,
            stream_kept(*old(token_stream), *final(token_stream)),
            match step_inst_start(
                old(self).machine(*old(dom)),
                old(token_stream).tokens@[old(token_stream).offset as int],
                old(token_stream).offset as int,
            ) {
                Ok(s) => r is Ok && (final(self).machine(*final(dom)), final(token_stream).offset as int) == s,
                Err(e) => {
                    &&& r == Err::<(), CompileError>(e)
                    &&& final(self).machine(*final(dom)) == old(self).machine(*old(dom))
                },
            },
    {
        if let Some(token) = token_stream.peek_token() {
            match token.kind() {
                Kind::HYPHEN => {
                    // comment.
                    let node = Node::new_comment();
                    self.push(node);
                    self.transit_to(State::COMMENT, dom);
                },
                Kind::GREATTHAN => {
                    // closed
                    token_stream.next_token();
                    self.transit_to(State::INIT, dom);
                },
                _ => {
                    if is_valid_name_token(token) {
                        self.transit_to(State::TAGNAME, dom);
                    } else {
                        return Err(CompileError::from_parser(Some(*token), ErrorKind::IllegalChar));
                    }
                },
            }
        } else {
            self.transit_to(State::DONE, dom);
        }
        Ok(())
    }

    /// One step in state `COMMENT`.
    fn process_with_comment(&mut self, token_stream: &mut TokenStream, dom: &mut HtmlDocument)
        requires
            can_step(old(self).source.spec_bytes(), *old(token_stream)),
        ensures
            final(self).source == old(self).source,
            stream_kept(*old(token_stream), *final(token_stream)),
            (final(self).machine(*final(dom)), final(token_stream).offset as int) == step_comment(
                old(self).machine(*old(dom)),
                old(self).source.spec_bytes(),
                old(token_stream).tokens@[old(token_stream).offset as int],
                old(token_stream).offset as int,
            ),
    {
        let ghost src = self.source.spec_bytes();
        if let Some(token) = token_stream.peek_token() {
            proof {
                assert(token_in(src, token_stream.tokens@[token_stream.offset as int]));
            }
            match token.kind() {
                Kind::GREATTHAN => {
                    // closed
                    token_stream.next_token();
                    self.transit_to(State::INIT, dom);
                },
                _ => {
                    let parts = substr(self.source, token.start, token.end);
                    self.add_text(parts);
                    token_stream.next_token();
                },
            }
        } else {
            self.transit_to(State::DONE, dom);
        }
    }
}

/// Reads a quoted string: when the next token is the quote `mark`, the text
/// of the tokens after it but line breaks, up to the closing quote, which is
/// read, or up to a `<`, which is not.
fn get_possible_quotated_string_from_stream(source: &str, token_stream: &mut TokenStream, mark_kind: Kind) -> (r:
    String)
    requires
        old(token_stream).wf(),
        tokens_in(source.spec_bytes(), old(token_stream).tokens@),
    ensures
        stream_kept(*old(token_stream), *final(token_stream)),
        (r@, final(token_stream).offset as int) == quoted(
            source.spec_bytes(),
            old(token_stream).tokens@,
            old(token_stream).offset as int,
            mark_kind,
        ),
{
    let ghost src = source.spec_bytes();
    let ghost toks = token_stream.tokens@;
    let mut content = String::new();
    if let Some(token) = token_stream.peek_token() {
        if token.kind() != mark_kind {
            return content;
        }
        token_stream.next_token();
        let ghost target = quoted(src, toks, old(token_stream).offset as int, mark_kind);
        loop
            invariant_except_break
                quoted_rest(src, toks, token_stream.offset as int, mark_kind, content@) == target,
            invariant
                token_stream.wf(),
                token_stream.tokens@ == toks,
                token_stream.tokens == old(token_stream).tokens,
                toks == old(token_stream).tokens@,
                src == source.spec_bytes(),
                tokens_in(src, toks),
            ensures
                (content@, token_stream.offset as int) == target,
            decreases toks.len() - token_stream.offset,
        {
            let token = match token_stream.peek_token() {
                Some(t) => t,
                None => break,
            };
            proof {
                assert(token_in(src, toks[token_stream.offset as int]));
            }
            if token.kind() == mark_kind {
                token_stream.next_token();
                break;
            } else if token.kind() == Kind::LESSTHAN {
                // don't consume.
                break;
            } else if token.kind() != Kind::NEWLINE {
                let part = substr(source, token.start, token.end);
                content.append(part);
            }
            token_stream.next_token();
        }
    }
    content
}

/// The reader as it starts on a document without nodes.
pub open spec fn start_machine(nodes: Seq<NodeModel>, pending: Seq<char>, state: State) -> Machine {
    Machine { nodes, pending, state, dom: DocModel { nodes: seq![], closed: true } }
}

/// The document of a finished reader, or its error.
pub open spec fn result_dom(r: Result<Machine, CompileError>) -> Result<DocModel, CompileError> {
    match r {
        Ok(m) => Ok(m.dom),
        Err(e) => Err(e),
    }
}

/// What the reader makes of a whole source, from a fresh start: the document,
/// or the first error.
pub open spec fn html_spec(src: Seq<u8>) -> Result<DocModel, CompileError> {
    result_dom(run(start_machine(seq![], seq![], State::INIT), src, tokens_of(src), 0))
}

/// A document result and its model agree.
pub open spec fn doc_result_is(r: Result<HtmlDocument, CompileError>, s: Result<DocModel, CompileError>) -> bool {
    match s {
        Ok(d) => r matches Ok(doc) && doc.model() == d,
        Err(e) => r == Err::<HtmlDocument, CompileError>(e),
    }
}

impl<'s> StateMachine<'s> {
    pub fn new(source: &'s str) -> (r: Self)
        ensures
            r.source == source,
            r.nodes@.len() == 0,
            r.pending_name@.len() == 0,
            r.state == State::INIT,
    {
        Self { nodes: Vec::new(), pending_name: String::new(), source: source, state: State::INIT }
    }

    /// Reads the whole source.
    #[verifier::spinoff_prover]
    pub fn process(&mut self) -> (r: Result<HtmlDocument, CompileError>)
        ensures
            final(self).source == old(self).source,
            ({
                let m = run_final(
                    start_machine(nodes_model(old(self).nodes@), old(self).pending_name@, old(self).state),
                    old(self).source.spec_bytes(),
                    tokens_of(old(self).source.spec_bytes()),
                    0,
                );
                &&& nodes_model(final(self).nodes@) == m.nodes
                &&& final(self).pending_name@ == m.pending
                &&& final(self).state == m.state
            }),
            doc_result_is(
                r,
                result_dom(
                    run(
                        start_machine(nodes_model(old(self).nodes@), old(self).pending_name@, old(self).state),
                        old(self).source.spec_bytes(),
                        tokens_of(old(self).source.spec_bytes()),
                        0,
                    ),
                ),
            ),
    {
        let ghost src = self.source.spec_bytes();
        let tokenizer = Tokenizer::new(self.source);
        let ghost n = tokenizer.stream.bytes@.len();
        let tokens = tokenizer.into_vec();
        let ghost toks = tokens@;
        proof {
            lemma_str_bytes(self.source);
            assert(src.len() == n);
            lemma_tokens_on_char_boundaries(src);
            assert forall|i: int| 0 <= i < toks.len() implies #[trigger] token_in(src, toks[i]) by {
                assert(toks[i] == tokens_of(src)[i]);
            }
        }
        let mut token_stream = TokenStream::new(tokens.as_slice());
        let mut dom = HtmlDocument::default();
        let ghost target = run(
            start_machine(nodes_model(old(self).nodes@), old(self).pending_name@, old(self).state),
            src,
            toks,
            0,
        );
        let ghost final_target = run_final(
            start_machine(nodes_model(old(self).nodes@), old(self).pending_name@, old(self).state),
            src,
            toks,
            0,
        );
        proof {
            assert(self.machine(dom) == start_machine(nodes_model(old(self).nodes@), old(self).pending_name@, old(self).state));
        }
        loop
            invariant_except_break
                run(self.machine(dom), src, toks, token_stream.offset as int) == target,
                run_final(self.machine(dom), src, toks, token_stream.offset as int) == final_target,
            invariant
                final_target == run_final(
                    start_machine(nodes_model(old(self).nodes@), old(self).pending_name@, old(self).state),
                    src,
                    toks,
                    0,
                ),
                target == run(
                    start_machine(nodes_model(old(self).nodes@), old(self).pending_name@, old(self).state),
                    src,
                    toks,
                    0,
                ),
                token_stream.wf(),
                token_stream.tokens@ == toks,
                toks == tokens_of(src),
                tokens_in(src, toks),
                src == self.source.spec_bytes(),
                self.source == old(self).source,
            ensures
                target == Ok::<Machine, CompileError>(self.machine(dom)),
                final_target == self.machine(dom),
            decreases toks.len() - token_stream.offset, rank(self.state),
        {
            let ghost m0 = self.machine(dom);
            let ghost p0 = token_stream.offset as int;
            let token = match token_stream.peek_token() {
                Some(t) => t,
                None => break,
            };
            if token.kind() == Kind::EOF {
                self.transit_to(State::DONE, &mut dom);
                break;
            }
            match self.state {
                State::INIT => self.process_with_init(&mut token_stream, &mut dom),
                State::TAGOPEN => self.process_with_tag_open(&mut token_stream, &mut dom),
                State::TAGNAME => {
                    match self.process_with_tag_name(&mut token_stream, &mut dom) {
                        Ok(()) => {},
                        Err(e) => return Err(e),
                    }
                },
                State::ATTRS => self.process_with_attributes(&mut token_stream, &mut dom),
                State::ATTRNAME => self.process_with_attr_name(&mut token_stream, &mut dom),
                State::ATTRVAL => self.process_with_attr_value(&mut token_stream, &mut dom),
                State::TEXT => self.process_with_text(&mut token_stream, &mut dom),
                State::TAGCLOSE => self.process_with_tag_close(&mut token_stream, &mut dom),
                State::INSTSTART => {
                    match self.process_with_instruction_start(&mut token_stream, &mut dom) {
                        Ok(()) => {},
                        Err(e) => {
                            proof {
                                assert(step(m0, src, toks, p0) == Err::<(Machine, int), CompileError>(e));
                                assert(run(m0, src, toks, p0) == Err::<Machine, CompileError>(e));
                                assert(result_dom(target) == Err::<DocModel, CompileError>(e));
                            }
                            return Err(e);
                        },
                    }
                },
                State::COMMENT => self.process_with_comment(&mut token_stream, &mut dom),
                State::DONE => {
                    self.transit_to(State::DONE, &mut dom);
                    break;
                },
            }
            proof {
                lemma_step_progress(m0, src, toks, p0);
            }
        }
        Ok(dom)
    }
}

/// Whether a lower-case tag name is that of a void element.
pub fn is_void_tag(tag_name: &str) -> (r: bool)
    ensures
        r == is_void_lower(tag_name@),
        r == crate::html::laws::html_void_element(tag_name@),
{
    str_eq(tag_name, "area") || str_eq(tag_name, "base") || str_eq(tag_name, "br") || str_eq(
        tag_name,
        "col",
    ) || str_eq(tag_name, "embed") || str_eq(tag_name, "hr") || str_eq(tag_name, "img")
        || str_eq(tag_name, "input") || str_eq(tag_name, "link") || str_eq(tag_name, "meta")
        || str_eq(tag_name, "param") || str_eq(tag_name, "source") || str_eq(tag_name, "track")
        || str_eq(tag_name, "wbr")
}

/// A tag's name may hold any token but whitespace and line breaks: what is
/// a name is left to the browser.
pub fn is_valid_name_token(token: &Token) -> (r: bool)
    ensures
        r == is_name_kind(token.kind),
{
    token.kind() != Kind::WHITESPACE && token.kind() != Kind::NEWLINE
}

} // verus!
