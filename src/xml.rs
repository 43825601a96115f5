//! A generic XML element tree and the lookups that the schema mapping uses.
use vstd::prelude::*;

verus! {

/// A node below an element: a child element or a piece of character data.
#[derive(Debug, PartialEq, Eq)]
pub enum XmlNode {
    Element(XmlElement),
    Text(String),
}

/// An element with its name and its children in document order.
#[derive(Debug, PartialEq, Eq)]
pub struct XmlElement {
    pub name: String,
    pub children: Vec<XmlNode>,
}

/// The mathematical model of an element: its name and its children.
pub ghost struct ElemModel {
    pub name: Seq<char>,
    pub children: Seq<NodeModel>,
}

/// The mathematical model of a node.
pub ghost enum NodeModel {
    Element(ElemModel),
    Text(Seq<char>),
}

pub open spec fn node_view(n: XmlNode) -> NodeModel
    decreases n, 2nat,
{
    match n {
        XmlNode::Element(e) => NodeModel::Element(elem_view(e)),
        XmlNode::Text(t) => NodeModel::Text(t@),
    }
}

pub open spec fn elem_view(e: XmlElement) -> ElemModel
    decreases e, 1nat,
{
    ElemModel { name: e.name@, children: children_view(e, e.children@.len() as int) }
}

/// The models of the first `n` children of `e`.
pub open spec fn children_view(e: XmlElement, n: int) -> Seq<NodeModel>
    decreases e, 0nat, n,
{
    if n <= 0 || n > e.children@.len() {
        Seq::empty()
    } else {
        proof {
            broadcast use vstd::std_specs::vec::axiom_vec_decreases_to_view;
            assert(decreases_to!(e => e.children@[n - 1]));
        }
        children_view(e, n - 1).push(node_view(e.children@[n - 1]))
    }
}

impl View for XmlElement {
    type V = ElemModel;

    open spec fn view(&self) -> ElemModel {
        elem_view(*self)
    }
}

impl View for XmlNode {
    type V = NodeModel;

    open spec fn view(&self) -> NodeModel {
        node_view(*self)
    }
}

proof fn lemma_children_view(e: XmlElement, n: int)
    requires
        0 <= n <= e.children@.len(),
    ensures
        children_view(e, n).len() == n,
        forall|i: int| 0 <= i < n ==> children_view(e, n)[i] == node_view(e.children@[i]),
    decreases n,
{
    if n > 0 {
        lemma_children_view(e, n - 1);
    }
}

/// The model of an element lists the models of its children, in order.
pub proof fn lemma_elem_view(e: XmlElement)
    ensures
        e@.name == e.name@,
        e@.children.len() == e.children@.len(),
        forall|i: int| 0 <= i < e.children@.len() ==> #[trigger] e@.children[i] == e.children@[i]@,
{
    lemma_children_view(e, e.children@.len() as int);
}

/// The child elements named `tag`, in document order.
pub open spec fn elems_named(nodes: Seq<NodeModel>, tag: Seq<char>) -> Seq<ElemModel>
    decreases nodes.len(),
{
    if nodes.len() == 0 {
        Seq::empty()
    } else {
        let rest = elems_named(nodes.drop_last(), tag);
        match nodes.last() {
            NodeModel::Element(e) => if e.name == tag {
                rest.push(e)
            } else {
                rest
            },
            NodeModel::Text(_) => rest,
        }
    }
}

/// The character data directly below an element, pieces joined in order.
pub open spec fn text_of(nodes: Seq<NodeModel>) -> Seq<char>
    decreases nodes.len(),
{
    if nodes.len() == 0 {
        Seq::empty()
    } else {
        let rest = text_of(nodes.drop_last());
        match nodes.last() {
            NodeModel::Text(t) => rest + t,
            NodeModel::Element(_) => rest,
        }
    }
}

/// The whitespace characters of XML: space, tab, line feed, carriage return.
pub open spec fn is_xml_space(c: char) -> bool {
    c == ' ' || c == '\t' || c == '\n' || c == '\r'
}

/// Whether `t` holds only whitespace.
pub open spec fn is_blank(t: Seq<char>) -> bool {
    forall|i: int| 0 <= i < t.len() ==> is_xml_space(#[trigger] t[i])
}

/// `t` without its leading whitespace.
pub open spec fn trim_start(t: Seq<char>) -> Seq<char>
    decreases t.len(),
{
    if t.len() > 0 && is_xml_space(t[0]) {
        trim_start(t.drop_first())
    } else {
        t
    }
}

/// `t` without its trailing whitespace.
pub open spec fn trim_end(t: Seq<char>) -> Seq<char>
    decreases t.len(),
{
    if t.len() > 0 && is_xml_space(t.last()) {
        trim_end(t.drop_last())
    } else {
        t
    }
}

/// `t` without leading and trailing whitespace.
pub open spec fn trim(t: Seq<char>) -> Seq<char> {
    trim_end(trim_start(t))
}

/// The content of an element: its character data, pieces joined in order,
/// with whitespace at both ends removed.
pub open spec fn content_of(e: ElemModel) -> Seq<char> {
    trim(text_of(e.children))
}

/// The first child element of `e` named `tag`.
pub open spec fn child(e: ElemModel, tag: Seq<char>) -> Option<ElemModel> {
    let all = elems_named(e.children, tag);
    if all.len() > 0 {
        Some(all[0])
    } else {
        None
    }
}

/// The text of the first child element of `e` named `tag`.
pub open spec fn child_text(e: ElemModel, tag: Seq<char>) -> Option<Seq<char>> {
    match child(e, tag) {
        Some(c) => Some(content_of(c)),
        None => None,
    }
}

proof fn lemma_elems_named_single(n: NodeModel, tag: Seq<char>)
    ensures
        elems_named(seq![n], tag) == (match n {
            NodeModel::Element(e) => if e.name == tag {
                seq![e]
            } else {
                Seq::empty()
            },
            NodeModel::Text(_) => Seq::empty(),
        }),
{
    let s = seq![n];
    assert(s.drop_last() =~= Seq::<NodeModel>::empty());
    assert(s.last() == n);
    assert(elems_named(Seq::<NodeModel>::empty(), tag) == Seq::<ElemModel>::empty());
    match n {
        NodeModel::Element(e) => {
            assert(Seq::<ElemModel>::empty().push(e) =~= seq![e]);
        },
        NodeModel::Text(_) => {},
    }
}

proof fn lemma_elems_named_push(nodes: Seq<NodeModel>, n: NodeModel, tag: Seq<char>)
    ensures
        elems_named(nodes.push(n), tag) == elems_named(nodes, tag) + elems_named(seq![n], tag),
{
    assert(nodes.push(n).drop_last() =~= nodes);
    lemma_elems_named_single(n, tag);
    match n {
        NodeModel::Element(e) => {
            if e.name == tag {
                assert(elems_named(nodes, tag) + seq![e] =~= elems_named(nodes, tag).push(e));
            } else {
                assert(elems_named(nodes, tag) + Seq::<ElemModel>::empty() =~= elems_named(nodes, tag));
            }
        },
        NodeModel::Text(_) => {
            assert(elems_named(nodes, tag) + Seq::<ElemModel>::empty() =~= elems_named(nodes, tag));
        },
    }
}

proof fn lemma_elems_named_append(a: Seq<NodeModel>, b: Seq<NodeModel>, tag: Seq<char>)
    ensures
        elems_named(a + b, tag) == elems_named(a, tag) + elems_named(b, tag),
    decreases b.len(),
{
    if b.len() == 0 {
        assert(a + b =~= a);
        assert(elems_named(a, tag) + elems_named(b, tag) =~= elems_named(a, tag));
    } else {
        let bl = b.drop_last();
        let n = b.last();
        lemma_elems_named_append(a, bl, tag);
        assert(a + b =~= (a + bl).push(n));
        assert(b =~= bl.push(n));
        lemma_elems_named_push(a + bl, n, tag);
        lemma_elems_named_push(bl, n, tag);
        assert(elems_named(a, tag) + elems_named(bl, tag) + elems_named(seq![n], tag)
            =~= elems_named(a, tag) + (elems_named(bl, tag) + elems_named(seq![n], tag)));
    }
}

/// Whether the element is named `tag`.
pub fn is_named(e: &XmlElement, tag: &str) -> (r: bool)
    ensures
        r == (e@.name == tag@),
{
    proof {
        lemma_elem_view(*e);
    }
    let t = tag.to_owned();
    e.name == t
}

/// The first child element named `tag`, if any.
pub fn find_child<'a>(e: &'a XmlElement, tag: &str) -> (r: Option<&'a XmlElement>)
    ensures
        match r {
            Some(c) => child(e@, tag@) == Some(c@),
            None => child(e@, tag@) is None,
        },
{
    proof {
        lemma_elem_view(*e);
    }
    let ghost m = e@.children;
    let nodes = &e.children;
    let mut i: usize = 0;
    while i < nodes.len()
        invariant
            i <= nodes@.len(),
            nodes@ == e.children@,
            m == e@.children,
            m.len() == nodes@.len(),
            forall|k: int| 0 <= k < nodes@.len() ==> #[trigger] m[k] == nodes@[k]@,
            elems_named(m.subrange(0, i as int), tag@).len() == 0,
        decreases nodes@.len() - i,
    {
        let ghost pre = m.subrange(0, i as int);
        assert(m.subrange(0, i + 1) =~= pre.push(m[i as int]));
        proof {
            lemma_elems_named_push(pre, m[i as int], tag@);
            lemma_elems_named_single(m[i as int], tag@);
        }
        match &nodes[i] {
            XmlNode::Element(c) => {
                if is_named(c, tag) {
                    proof {
                        assert(m[i as int] == NodeModel::Element(c@));
                        assert(m =~= m.subrange(0, i + 1) + m.subrange(i + 1, m.len() as int));
                        lemma_elems_named_append(
                            m.subrange(0, i + 1),
                            m.subrange(i + 1, m.len() as int),
                            tag@,
                        );
                        assert(elems_named(m.subrange(0, i + 1), tag@) =~= seq![c@]);
                        assert(elems_named(m, tag@)[0] == c@);
                    }
                    return Some(c);
                }
            },
            XmlNode::Text(_) => {},
        }
        i = i + 1;
    }
    assert(m.subrange(0, i as int) =~= m);
    None
}

/// The child elements named `tag`, in document order.
pub fn children_named<'a>(e: &'a XmlElement, tag: &str) -> (r: Vec<&'a XmlElement>)
    ensures
        r@.len() == elems_named(e@.children, tag@).len(),
        forall|i: int| 0 <= i < r@.len() ==> r@[i]@ == elems_named(e@.children, tag@)[i],
{
    proof {
        lemma_elem_view(*e);
    }
    let ghost m = e@.children;
    let nodes = &e.children;
    let mut out: Vec<&'a XmlElement> = Vec::new();
    let mut i: usize = 0;
    while i < nodes.len()
        invariant
            i <= nodes@.len(),
            nodes@ == e.children@,
            m == e@.children,
            m.len() == nodes@.len(),
            forall|k: int| 0 <= k < nodes@.len() ==> #[trigger] m[k] == nodes@[k]@,
            out@.len() == elems_named(m.subrange(0, i as int), tag@).len(),
            forall|k: int|
                0 <= k < out@.len() ==> out@[k]@ == elems_named(m.subrange(0, i as int), tag@)[k],
        decreases nodes@.len() - i,
    {
        let ghost pre = m.subrange(0, i as int);
        proof {
            assert(m.subrange(0, i + 1) =~= pre.push(m[i as int]));
            lemma_elems_named_push(pre, m[i as int], tag@);
            lemma_elems_named_single(m[i as int], tag@);
        }
        match &nodes[i] {
            XmlNode::Element(c) => {
                assert(m[i as int] == NodeModel::Element(c@));
                if is_named(c, tag) {
                    out.push(c);
                }
            },
            XmlNode::Text(t) => {
                assert(m[i as int] == NodeModel::Text(t@));
            },
        }
        i = i + 1;
    }
    assert(m.subrange(0, i as int) =~= m);
    out
}

/// `a` followed by `b`.
pub fn join(a: &str, b: &str) -> (r: String)
    ensures
        r@ == a@ + b@,
{
    let mut out = a.to_owned();
    out.append(b);
    out
}

/// The character data directly below `e`, pieces joined in order.
fn joined_text(e: &XmlElement) -> (r: String)
    ensures
        r@ == text_of(e@.children),
{
    proof {
        lemma_elem_view(*e);
    }
    let ghost m = e@.children;
    let nodes = &e.children;
    let mut out = String::new();
    let mut i: usize = 0;
    while i < nodes.len()
        invariant
            i <= nodes@.len(),
            nodes@ == e.children@,
            m == e@.children,
            m.len() == nodes@.len(),
            forall|k: int| 0 <= k < nodes@.len() ==> #[trigger] m[k] == nodes@[k]@,
            out@ == text_of(m.subrange(0, i as int)),
        decreases nodes@.len() - i,
    {
        proof {
            let pre = m.subrange(0, i as int);
            assert(m.subrange(0, i + 1).drop_last() =~= pre);
        }
        match &nodes[i] {
            XmlNode::Text(t) => {
                assert(m[i as int] == NodeModel::Text(t@));
                out.append(t.as_str());
            },
            XmlNode::Element(c) => {
                assert(m[i as int] == NodeModel::Element(c@));
            },
        }
        i = i + 1;
    }
    assert(m.subrange(0, i as int) =~= m);
    out
}

/// Whether `c` is XML whitespace.
pub fn is_space_char(c: char) -> (r: bool)
    ensures
        r == is_xml_space(c),
{
    c == ' ' || c == '\t' || c == '\n' || c == '\r'
}

/// Relies on `String::push`: the character is appended at the end.
#[verifier::external_body]
pub(crate) fn push_char(s: &mut String, c: char)
    ensures
        final(s)@ == old(s)@.push(c),
{
    s.push(c)
}

/// The characters of `s`, in order.
fn chars_of(s: &str) -> (r: Vec<char>)
    ensures
        r@ == s@,
{
    let mut out: Vec<char> = Vec::new();
    for c in it: s.chars()
        invariant
            it.seq() == s@,
            out@ == s@.subrange(0, it.index() as int),
    {
        proof {
            assert(s@.subrange(0, it.index() + 1) =~= out@.push(c));
        }
        out.push(c);
    }
    assert(s@.subrange(0, s@.len() as int) =~= s@);
    out
}

/// Whether `s` holds only whitespace.
pub fn blank(s: &str) -> (r: bool)
    ensures
        r == is_blank(s@),
{
    let v = chars_of(s);
    let mut i: usize = 0;
    while i < v.len()
        invariant
            i <= v@.len(),
            v@ == s@,
            forall|k: int| 0 <= k < i ==> is_xml_space(#[trigger] v@[k]),
        decreases v@.len() - i,
    {
        if !is_space_char(v[i]) {
            return false;
        }
        i = i + 1;
    }
    true
}

/// `s` without leading and trailing whitespace.
pub fn trim_text(s: &str) -> (r: String)
    ensures
        r@ == trim(s@),
{
    let v = chars_of(s);
    let ghost t = s@;
    let len = v.len();
    let mut start: usize = 0;
    assert(t.subrange(0, len as int) =~= t);
    while start < len && is_space_char(v[start])
        invariant
            start <= len,
            len == t.len(),
            v@ == t,
            trim_start(t) == trim_start(t.subrange(start as int, len as int)),
        decreases len - start,
    {
        proof {
            let u = t.subrange(start as int, len as int);
            assert(u.drop_first() =~= t.subrange(start + 1, len as int));
        }
        start = start + 1;
    }
    proof {
        assert(t.subrange(0, len as int) =~= t);
    }
    let ghost u = t.subrange(start as int, len as int);
    let mut end: usize = len;
    while end > start && is_space_char(v[end - 1])
        invariant
            start <= end <= len,
            len == t.len(),
            v@ == t,
            u == t.subrange(start as int, len as int),
            trim_end(u) == trim_end(t.subrange(start as int, end as int)),
        decreases end - start,
    {
        proof {
            let w = t.subrange(start as int, end as int);
            assert(w.drop_last() =~= t.subrange(start as int, end - 1));
            assert(w.last() == t[end - 1]);
        }
        end = end - 1;
    }
    let mut out = String::new();
    let mut i: usize = start;
    while i < end
        invariant
            start <= i <= end <= len,
            len == t.len(),
            v@ == t,
            out@ == t.subrange(start as int, i as int),
        decreases end - i,
    {
        push_char(&mut out, v[i]);
        proof {
            assert(out@ =~= t.subrange(start as int, i + 1));
        }
        i = i + 1;
    }
    proof {
        let w = t.subrange(start as int, end as int);
        assert(trim_end(w) == w);
        assert(trim_start(u) == u);
    }
    out
}

/// The content of `e`: its character data, joined and trimmed.
pub fn element_text(e: &XmlElement) -> (r: String)
    ensures
        r@ == content_of(e@),
{
    let raw = joined_text(e);
    trim_text(raw.as_str())
}

/// The text of the first child element named `tag`, if any.
pub fn find_child_text(e: &XmlElement, tag: &str) -> (r: Option<String>)
    ensures
        match r {
            Some(t) => child_text(e@, tag@) == Some(t@),
            None => child_text(e@, tag@) is None,
        },
{
    match find_child(e, tag) {
        Some(c) => Some(element_text(c)),
        None => None,
    }
}

} // verus!
