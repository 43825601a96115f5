//! Builds an element tree from markup tokens, one token at a time.
use vstd::prelude::*;

use crate::error::DecodeError;
use crate::xml::{blank, is_blank, lemma_elem_view, ElemModel, NodeModel, XmlElement, XmlNode};

verus! {

/// A markup token: an open tag, a close tag or a piece of character data.
pub ghost enum Token {
    Open(Seq<char>),
    Close(Seq<char>),
    Chars(Seq<char>),
}

/// The state of building a tree: the open elements, outermost first; the
/// finished document element; whether the tokens so far are ill-nested.
pub ghost struct BuildState {
    pub open: Seq<ElemModel>,
    pub root: Option<ElemModel>,
    pub failed: bool,
}

pub open spec fn initial_state() -> BuildState {
    BuildState { open: Seq::empty(), root: None, failed: false }
}

pub open spec fn failed_state(s: BuildState) -> BuildState {
    BuildState { failed: true, ..s }
}

/// `e` with one more child at the end.
pub open spec fn with_child(e: ElemModel, n: NodeModel) -> ElemModel {
    ElemModel { name: e.name, children: e.children.push(n) }
}

/// How one token changes the state. An open tag after the document element,
/// character data other than whitespace outside every element, and a close
/// tag that does not match the innermost open element make the tokens
/// ill-nested. Empty character data, and whitespace outside every element,
/// are dropped.
pub open spec fn step(s: BuildState, t: Token) -> BuildState {
    if s.failed {
        s
    } else {
        match t {
            Token::Open(n) => if s.root is Some {
                failed_state(s)
            } else {
                BuildState { open: s.open.push(ElemModel { name: n, children: Seq::empty() }), ..s }
            },
            Token::Chars(c) => if c.len() == 0 {
                s
            } else if s.open.len() == 0 {
                if is_blank(c) {
                    s
                } else {
                    failed_state(s)
                }
            } else {
                BuildState {
                    open: s.open.drop_last().push(with_child(s.open.last(), NodeModel::Text(c))),
                    ..s
                }
            },
            Token::Close(n) => if s.open.len() == 0 || s.open.last().name != n {
                failed_state(s)
            } else {
                let top = s.open.last();
                let rest = s.open.drop_last();
                if rest.len() == 0 {
                    BuildState { open: rest, root: Some(top), failed: false }
                } else {
                    BuildState {
                        open: rest.drop_last().push(with_child(rest.last(), NodeModel::Element(top))),
                        ..s
                    }
                }
            },
        }
    }
}

/// The state after a sequence of tokens.
pub open spec fn steps(s: BuildState, ts: Seq<Token>) -> BuildState
    decreases ts.len(),
{
    if ts.len() == 0 {
        s
    } else {
        step(steps(s, ts.drop_last()), ts.last())
    }
}

/// The tree that a token sequence writes out, if it is well nested and
/// closes its document element.
pub open spec fn tree_of_tokens(ts: Seq<Token>) -> Option<ElemModel> {
    let s = steps(initial_state(), ts);
    if !s.failed {
        s.root
    } else {
        None
    }
}

pub proof fn lemma_steps_append(s: BuildState, a: Seq<Token>, b: Seq<Token>)
    ensures
        steps(s, a + b) == steps(steps(s, a), b),
    decreases b.len(),
{
    if b.len() == 0 {
        assert(a + b =~= a);
    } else {
        lemma_steps_append(s, a, b.drop_last());
        assert((a + b).drop_last() =~= a + b.drop_last());
        assert((a + b).last() == b.last());
    }
}

pub proof fn lemma_steps_failed(s: BuildState, b: Seq<Token>)
    requires
        s.failed,
    ensures
        steps(s, b).failed,
    decreases b.len(),
{
    if b.len() > 0 {
        lemma_steps_failed(s, b.drop_last());
    }
}

/// An element tree under construction from a stream of markup tokens.
pub struct TreeBuilder {
    open: Vec<XmlElement>,
    root: Option<XmlElement>,
}

impl View for TreeBuilder {
    type V = BuildState;

    closed spec fn view(&self) -> BuildState {
        BuildState {
            open: self.open@.map_values(|e: XmlElement| e@),
            root: match self.root {
                Some(r) => Some(r@),
                None => None,
            },
            failed: false,
        }
    }
}

proof fn lemma_push_child(old_e: XmlElement, new_e: XmlElement, n: XmlNode)
    requires
        new_e.name == old_e.name,
        new_e.children@ == old_e.children@.push(n),
    ensures
        new_e@ == with_child(old_e@, n@),
{
    lemma_elem_view(old_e);
    lemma_elem_view(new_e);
    assert(new_e@.children =~= old_e@.children.push(n@));
}

impl TreeBuilder {
    pub closed spec fn wf(&self) -> bool {
        self.root is Some ==> self.open@.len() == 0
    }

    pub fn new() -> (r: Self)
        ensures
            r.wf(),
            r@ == initial_state(),
    {
        let r = TreeBuilder { open: Vec::new(), root: None };
        assert(r@.open =~= Seq::<ElemModel>::empty());
        r
    }

    /// Opens an element; fails once the document element is closed.
    pub fn open_element(&mut self, name: String) -> (r: Result<(), DecodeError>)
        requires
            old(self).wf(),
        ensures
            r is Ok <==> !step(old(self)@, Token::Open(name@)).failed,
            r is Ok ==> final(self).wf() && final(self)@ == step(old(self)@, Token::Open(name@)),
            r matches Err(e) ==> !e.is_schema(),
    {
        if self.root.is_some() {
            return Err(DecodeError::Syntax("content after the document element".to_owned()));
        }
        let e = XmlElement { name, children: Vec::new() };
        proof {
            lemma_elem_view(e);
            assert(e@.children =~= Seq::<NodeModel>::empty());
        }
        self.open.push(e);
        assert(self@.open =~= old(self)@.open.push(e@));
        Ok(())
    }

    /// Adds character data to the innermost open element. Empty text, and
    /// whitespace outside every element, are dropped; other text outside
    /// every element fails.
    pub fn add_text(&mut self, text: String) -> (r: Result<(), DecodeError>)
        requires
            old(self).wf(),
        ensures
            r is Ok <==> !step(old(self)@, Token::Chars(text@)).failed,
            r is Ok ==> final(self).wf() && final(self)@ == step(old(self)@, Token::Chars(text@)),
            r matches Err(e) ==> !e.is_schema(),
    {
        if text == String::new() {
            assert(text@.len() == 0);
            return Ok(());
        }
        assert(text@.len() > 0) by {
            if text@.len() == 0 {
                assert(text@ =~= Seq::<char>::empty());
            }
        }
        if self.open.len() == 0 {
            if blank(text.as_str()) {
                return Ok(());
            }
            return Err(DecodeError::Syntax("text outside the document element".to_owned()));
        }
        let ghost s = self.open@;
        let top = self.open.pop().unwrap();
        let ghost old_top = top;
        let mut top = top;
        let node = XmlNode::Text(text);
        let ghost t = node;
        top.children.push(node);
        proof {
            lemma_push_child(old_top, top, t);
        }
        self.open.push(top);
        proof {
            assert(s =~= s.drop_last().push(old_top));
            assert(self@.open =~= old(self)@.open.drop_last().push(
                with_child(old(self)@.open.last(), NodeModel::Text(text@)),
            ));
        }
        Ok(())
    }

    /// Closes the innermost open element, which must be named `name`.
    pub fn close_element(&mut self, name: &String) -> (r: Result<(), DecodeError>)
        requires
            old(self).wf(),
        ensures
            r is Ok <==> !step(old(self)@, Token::Close(name@)).failed,
            r is Ok ==> final(self).wf() && final(self)@ == step(old(self)@, Token::Close(name@)),
            r matches Err(e) ==> !e.is_schema(),
    {
        if self.open.len() == 0 {
            return Err(DecodeError::Syntax("closing tag without an open element".to_owned()));
        }
        if self.open[self.open.len() - 1].name != *name {
            proof {
                lemma_elem_view(self.open@.last());
            }
            return Err(DecodeError::Syntax("closing tag does not match".to_owned()));
        }
        proof {
            lemma_elem_view(self.open@.last());
        }
        let ghost s = self.open@;
        let top = self.open.pop().unwrap();
        proof {
            assert(s =~= s.drop_last().push(top));
        }
        proof {
            assert(old(self)@.open.last() == top@);
            assert(old(self)@.open.drop_last() =~= self.open@.map_values(|e: XmlElement| e@));
        }
        if self.open.len() == 0 {
            self.root = Some(top);
            assert(self@.open =~= Seq::<ElemModel>::empty());
            assert(old(self)@.open.drop_last() =~= Seq::<ElemModel>::empty());
        } else {
            let ghost rest = self.open@;
            let parent = self.open.pop().unwrap();
            let ghost old_parent = parent;
            let mut parent = parent;
            let node = XmlNode::Element(top);
            let ghost x = node;
            parent.children.push(node);
            proof {
                lemma_push_child(old_parent, parent, x);
                assert(rest =~= rest.drop_last().push(old_parent));
            }
            self.open.push(parent);
            proof {
                let os = old(self)@.open;
                assert(os.drop_last() =~= rest.map_values(|e: XmlElement| e@));
                assert(self@.open =~= os.drop_last().drop_last().push(
                    with_child(os.drop_last().last(), NodeModel::Element(top@)),
                ));
            }
        }
        Ok(())
    }

    /// The finished tree: available once the document element is closed.
    pub fn finish(self) -> (r: Result<XmlElement, DecodeError>)
        requires
            self.wf(),
        ensures
            r is Ok <==> self@.root is Some,
            r matches Ok(root) ==> self@.root == Some(root@),
            r matches Err(e) ==> !e.is_schema(),
    {
        match self.root {
            Some(root) => Ok(root),
            None => Err(DecodeError::Syntax("the document element is not complete".to_owned())),
        }
    }
}

} // verus!
