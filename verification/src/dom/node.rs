//! DOM nodes: Document, Element and Text, linked into a tree.
//!
//! The tree lives in an arena: a `Window` owns a vector of nodes, and every
//! link (parent, first child, last child, siblings) is the index of another
//! node in that vector.  Nodes are only ever appended, and links obey a
//! direction discipline — child and sibling links point at strictly larger
//! indices, parent and previous-sibling links at strictly smaller ones — so
//! every walk along child or sibling links terminates.

use vstd::prelude::*;

use crate::html::attribute::AttrV;
use crate::html::attribute::attrs_view;
use crate::html::attribute::Attribute;
use crate::strutil::str_eq;

verus! {

/// The supported element names.  Construction from any other name fails.
#[derive(Debug, Copy, Clone, PartialEq, Eq, Structural)]
pub enum ElementKind {
    Html,
    Head,
    Style,
    Script,
    Body,
    P,
    H1,
    H2,
    A,
}

/// The element kind a tag name denotes, if it is one of the supported names.
pub open spec fn spec_kind_of_tag(s: Seq<char>) -> Option<ElementKind> {
    if s == "html"@ {
        Some(ElementKind::Html)
    } else if s == "head"@ {
        Some(ElementKind::Head)
    } else if s == "style"@ {
        Some(ElementKind::Style)
    } else if s == "script"@ {
        Some(ElementKind::Script)
    } else if s == "body"@ {
        Some(ElementKind::Body)
    } else if s == "p"@ {
        Some(ElementKind::P)
    } else if s == "h1"@ {
        Some(ElementKind::H1)
    } else if s == "h2"@ {
        Some(ElementKind::H2)
    } else if s == "a"@ {
        Some(ElementKind::A)
    } else {
        None
    }
}

/// The tag name an element kind denotes.
pub open spec fn spec_tag_name(k: ElementKind) -> Seq<char> {
    match k {
        ElementKind::Html => "html"@,
        ElementKind::Head => "head"@,
        ElementKind::Style => "style"@,
        ElementKind::Script => "script"@,
        ElementKind::Body => "body"@,
        ElementKind::P => "p"@,
        ElementKind::H1 => "h1"@,
        ElementKind::H2 => "h2"@,
        ElementKind::A => "a"@,
    }
}

impl ElementKind {
    /// Parses a tag name; exactly the nine supported names succeed.
    pub fn from_str(s: &str) -> (r: Result<ElementKind, String>)
        ensures
            match r {
                Ok(k) => spec_kind_of_tag(s@) == Some(k),
                Err(_) => spec_kind_of_tag(s@) is None,
            },
    {
        let owned = s.to_owned();
        if str_eq(&owned, "html") {
            Ok(ElementKind::Html)
        } else if str_eq(&owned, "head") {
            Ok(ElementKind::Head)
        } else if str_eq(&owned, "style") {
            Ok(ElementKind::Style)
        } else if str_eq(&owned, "script") {
            Ok(ElementKind::Script)
        } else if str_eq(&owned, "body") {
            Ok(ElementKind::Body)
        } else if str_eq(&owned, "p") {
            Ok(ElementKind::P)
        } else if str_eq(&owned, "h1") {
            Ok(ElementKind::H1)
        } else if str_eq(&owned, "h2") {
            Ok(ElementKind::H2)
        } else if str_eq(&owned, "a") {
            Ok(ElementKind::A)
        } else {
            Err("unimplemented element name".to_owned())
        }
    }

    /// The tag name: the inverse of `from_str` on the supported names.
    pub fn tag_name(&self) -> (r: String)
        ensures
            r@ == spec_tag_name(*self),
    {
        let s: &str = match self {
            ElementKind::Html => "html",
            ElementKind::Head => "head",
            ElementKind::Style => "style",
            ElementKind::Script => "script",
            ElementKind::Body => "body",
            ElementKind::P => "p",
            ElementKind::H1 => "h1",
            ElementKind::H2 => "h2",
            ElementKind::A => "a",
        };
        s.to_owned()
    }
}

/// The first value among `attrs` stored under `name`, if any.
pub open spec fn spec_get_attribute(attrs: Seq<AttrV>, name: Seq<char>) -> Option<Seq<char>>
    decreases attrs.len(),
{
    if attrs.len() == 0 {
        None
    } else if attrs[0].name == name {
        Some(attrs[0].value)
    } else {
        spec_get_attribute(attrs.skip(1), name)
    }
}

/// The mathematical value of an element: its kind and attribute values.
pub ghost struct ElemV {
    pub kind: ElementKind,
    pub attributes: Seq<AttrV>,
}

/// An element: a supported kind plus its attributes in source order.
#[derive(Debug, Clone)]
pub struct Element {
    pub kind: ElementKind,
    pub attributes: Vec<Attribute>,
}

impl View for Element {
    type V = ElemV;

    open spec fn view(&self) -> ElemV {
        ElemV { kind: self.kind, attributes: attrs_view(self.attributes@) }
    }
}

impl PartialEq for Element {
    fn eq(&self, other: &Self) -> (r: bool) {
        let ke = self.kind == other.kind;
        let ae = self.attributes == other.attributes;
        proof {
            if ae {
                assert(attrs_view(self.attributes@) =~= attrs_view(other.attributes@));
            }
            if attrs_view(self.attributes@) =~= attrs_view(other.attributes@) {
                assert forall|i: int|
                    0 <= i < self.attributes@.len() implies #[trigger] self.attributes@[i]@
                    == other.attributes@[i]@ by {
                    assert(attrs_view(self.attributes@)[i] == self.attributes@[i]@);
                    assert(attrs_view(other.attributes@)[i] == other.attributes@[i]@);
                }
                assert forall|i: int|
                    0 <= i < self.attributes@.len()
                    implies vstd::std_specs::cmp::PartialEqSpec::eq_spec(
                    &self.attributes@[i],
                    #[trigger] &other.attributes@[i],
                ) by {
                    assert(self.attributes@[i]@ == other.attributes@[i]@);
                }
                assert(ae);
            }
        }
        ke && ae
    }
}

impl vstd::std_specs::cmp::PartialEqSpecImpl for Element {
    open spec fn obeys_eq_spec() -> bool {
        true
    }

    open spec fn eq_spec(&self, other: &Element) -> bool {
        self.kind == other.kind && attrs_view(self.attributes@) =~= attrs_view(other.attributes@)
    }
}

impl Element {
    /// Builds an element from a supported tag name and its attributes.
    pub fn new(element_name: &str, attributes: Vec<Attribute>) -> (r: Self)
        requires
            spec_kind_of_tag(element_name@) is Some,
        ensures
            Some(r.kind) == spec_kind_of_tag(element_name@),
            r.attributes == attributes,
    {
        let kind = match ElementKind::from_str(element_name) {
            Ok(k) => k,
            Err(_) => ElementKind::Html,  // unreachable: the name is supported
        };
        Self { kind, attributes }
    }

    /// The element's kind.
    pub fn kind(&self) -> (r: ElementKind)
        ensures
            r == self.kind,
    {
        self.kind
    }

    /// All attributes, in source order.
    pub fn attributes(&self) -> (r: Vec<Attribute>)
        ensures
            attrs_view(r@) == attrs_view(self.attributes@),
    {
        let mut out: Vec<Attribute> = Vec::new();
        let mut i: usize = 0;
        while i < self.attributes.len()
            invariant
                i <= self.attributes.len(),
                out@.len() == i,
                forall|j: int| 0 <= j < i ==> (#[trigger] out@[j])@ == self.attributes@[j]@,
            decreases self.attributes.len() - i,
        {
            let a = &self.attributes[i];
            out.push(Attribute { name: a.name.clone(), value: a.value.clone() });
            i = i + 1;
        }
        proof {
            assert(attrs_view(out@) =~= attrs_view(self.attributes@));
        }
        out
    }

    /// The value of the first attribute called `name`, if there is one.
    pub fn get_attribute(&self, name: &str) -> (r: Option<String>)
        ensures
            match r {
                Some(v) => spec_get_attribute(attrs_view(self.attributes@), name@) == Some(v@),
                None => spec_get_attribute(attrs_view(self.attributes@), name@) is None,
            },
    {
        let ghost all: Seq<AttrV> = attrs_view(self.attributes@);
        let name_owned = name.to_owned();
        let mut i: usize = 0;
        proof {
            assert(all.skip(0) =~= all);
        }
        while i < self.attributes.len()
            invariant
                i <= self.attributes.len(),
                all == attrs_view(self.attributes@),
                name_owned@ == name@,
                spec_get_attribute(all, name@) == spec_get_attribute(all.skip(i as int), name@),
            decreases self.attributes.len() - i,
        {
            proof {
                assert(all.skip(i as int)[0] == all[i as int]);
                assert(all.skip(i as int).skip(1) =~= all.skip(i + 1));
            }
            if str_eq(&self.attributes[i].name, name_owned.as_str()) {
                return Some(self.attributes[i].value());
            }
            i = i + 1;
        }
        None
    }

    /// Whether the element flows as a block by default: body, h1, h2 and p do.
    pub fn is_block_element(&self) -> (r: bool)
        ensures
            r == matches!(
                self.kind,
                ElementKind::Body | ElementKind::H1 | ElementKind::H2 | ElementKind::P
            ),
    {
        match self.kind {
            ElementKind::Body | ElementKind::H1 | ElementKind::H2 | ElementKind::P => true,
            _ => false,
        }
    }
}


/// The mathematical value of a node kind.
pub ghost enum NodeKindV {
    Document,
    Element(ElemV),
    Text(Seq<char>),
}

/// What a node is: the document root, an element, or a run of text.
#[derive(Debug, Clone)]
pub enum NodeKind {
    Document,
    Element(Element),
    Text(String),
}

impl View for NodeKind {
    type V = NodeKindV;

    open spec fn view(&self) -> NodeKindV {
        match self {
            NodeKind::Document => NodeKindV::Document,
            NodeKind::Element(e) => NodeKindV::Element(e@),
            NodeKind::Text(s) => NodeKindV::Text(s@),
        }
    }
}

/// Node-kind equality compares shapes only: two elements are equal when
/// their kinds are, whatever their attributes; any two texts are equal.
pub open spec fn kind_like(a: NodeKind, b: NodeKind) -> bool {
    match (a, b) {
        (NodeKind::Document, NodeKind::Document) => true,
        (NodeKind::Element(e1), NodeKind::Element(e2)) => e1.kind == e2.kind,
        (NodeKind::Text(_), NodeKind::Text(_)) => true,
        _ => false,
    }
}

impl PartialEq for NodeKind {
    fn eq(&self, other: &Self) -> (r: bool) {
        match (self, other) {
            (NodeKind::Document, NodeKind::Document) => true,
            (NodeKind::Element(e1), NodeKind::Element(e2)) => e1.kind == e2.kind,
            (NodeKind::Text(_), NodeKind::Text(_)) => true,
            _ => false,
        }
    }
}

impl vstd::std_specs::cmp::PartialEqSpecImpl for NodeKind {
    open spec fn obeys_eq_spec() -> bool {
        true
    }

    open spec fn eq_spec(&self, other: &NodeKind) -> bool {
        kind_like(*self, *other)
    }
}

impl NodeKind {
    /// An owned copy with the same value.
    pub fn duplicate(&self) -> (r: NodeKind)
        ensures
            r@ == self@,
    {
        match self {
            NodeKind::Document => NodeKind::Document,
            NodeKind::Element(e) => NodeKind::Element(
                Element { kind: e.kind, attributes: e.attributes() },
            ),
            NodeKind::Text(s) => NodeKind::Text(s.clone()),
        }
    }
}

/// One DOM node.  Links are arena indices: `first_child`, `last_child` and
/// `next_sibling` point forward (to larger indices), `parent` and
/// `previous_sibling` point backward.
#[derive(Debug, Clone)]
pub struct Node {
    pub kind: NodeKind,
    pub parent: Option<usize>,
    pub first_child: Option<usize>,
    pub last_child: Option<usize>,
    pub previous_sibling: Option<usize>,
    pub next_sibling: Option<usize>,
}

impl PartialEq for Node {
    fn eq(&self, other: &Self) -> (r: bool) {
        self.kind == other.kind
    }
}

impl vstd::std_specs::cmp::PartialEqSpecImpl for Node {
    open spec fn obeys_eq_spec() -> bool {
        true
    }

    open spec fn eq_spec(&self, other: &Node) -> bool {
        kind_like(self.kind, other.kind)
    }
}

/// The value of one node: its kind's value and its links.
pub ghost struct NodeV {
    pub kind: NodeKindV,
    pub parent: Option<usize>,
    pub first_child: Option<usize>,
    pub last_child: Option<usize>,
    pub previous_sibling: Option<usize>,
    pub next_sibling: Option<usize>,
}

/// The value of a node.
pub open spec fn node_view(n: Node) -> NodeV {
    NodeV {
        kind: n.kind@,
        parent: n.parent,
        first_child: n.first_child,
        last_child: n.last_child,
        previous_sibling: n.previous_sibling,
        next_sibling: n.next_sibling,
    }
}

/// The values of an arena of nodes.
pub open spec fn nodes_view(s: Seq<Node>) -> Seq<NodeV> {
    s.map_values(|n: Node| node_view(n))
}

impl Node {
    /// The value `Node::new` builds, usable in contracts.
    pub open spec fn new_spec(kind: NodeKind) -> Node {
        Node {
            kind,
            parent: None,
            first_child: None,
            last_child: None,
            previous_sibling: None,
            next_sibling: None,
        }
    }

    /// A fresh node of the given kind, with no links.
    pub fn new(kind: NodeKind) -> (r: Self)
        ensures
            r == Node::new_spec(kind),
    {
        Self {
            kind,
            parent: None,
            first_child: None,
            last_child: None,
            previous_sibling: None,
            next_sibling: None,
        }
    }

    /// Sets the parent link.
    pub fn set_parent(&mut self, parent: Option<usize>)
        ensures
            *final(self) == (Node { parent, ..*old(self) }),
    {
        self.parent = parent;
    }

    /// The parent link.
    pub fn parent(&self) -> (r: Option<usize>)
        ensures
            r == self.parent,
    {
        self.parent
    }

    /// Sets the first-child link.
    pub fn set_first_child(&mut self, first_child: Option<usize>)
        ensures
            *final(self) == (Node { first_child, ..*old(self) }),
    {
        self.first_child = first_child;
    }

    /// The first-child link.
    pub fn first_child(&self) -> (r: Option<usize>)
        ensures
            r == self.first_child,
    {
        self.first_child
    }

    /// Sets the last-child link.
    pub fn set_last_child(&mut self, last_child: Option<usize>)
        ensures
            *final(self) == (Node { last_child, ..*old(self) }),
    {
        self.last_child = last_child;
    }

    /// The last-child link.
    pub fn last_child(&self) -> (r: Option<usize>)
        ensures
            r == self.last_child,
    {
        self.last_child
    }

    /// Sets the previous-sibling link.
    pub fn set_previous_sibling(&mut self, previous_sibling: Option<usize>)
        ensures
            *final(self) == (Node { previous_sibling, ..*old(self) }),
    {
        self.previous_sibling = previous_sibling;
    }

    /// The previous-sibling link.
    pub fn previous_sibling(&self) -> (r: Option<usize>)
        ensures
            r == self.previous_sibling,
    {
        self.previous_sibling
    }

    /// Sets the next-sibling link.
    pub fn set_next_sibling(&mut self, next_sibling: Option<usize>)
        ensures
            *final(self) == (Node { next_sibling, ..*old(self) }),
    {
        self.next_sibling = next_sibling;
    }

    /// The next-sibling link.
    pub fn next_sibling(&self) -> (r: Option<usize>)
        ensures
            r == self.next_sibling,
    {
        self.next_sibling
    }

    /// The node's kind.
    pub fn kind(&self) -> (r: NodeKind)
        ensures
            r@ == self.kind@,
    {
        self.kind.duplicate()
    }

    /// The element data, when the node is an element.
    pub fn get_element(&self) -> (r: Option<Element>)
        ensures
            match self.kind {
                NodeKind::Element(e) => r matches Some(re) && re@ == e@,
                _ => r is None,
            },
    {
        match &self.kind {
            NodeKind::Document => None,
            NodeKind::Text(_) => None,
            NodeKind::Element(e) => Some(Element { kind: e.kind, attributes: e.attributes() }),
        }
    }

    /// The element's kind, when the node is an element.
    pub fn element_kind(&self) -> (r: Option<ElementKind>)
        ensures
            match self.kind {
                NodeKind::Element(e) => r == Some(e.kind),
                _ => r is None,
            },
    {
        match &self.kind {
            NodeKind::Document => None,
            NodeKind::Text(_) => None,
            NodeKind::Element(e) => Some(e.kind),
        }
    }
}

/// Direction discipline of one node's links at index `i` in an arena of
/// `len` nodes: forward links go to larger indices, backward links to
/// smaller ones, and all stay in bounds.
pub open spec fn node_links_ok(n: Node, i: int, len: int) -> bool {
    &&& (n.parent matches Some(p) ==> p < i)
    &&& (n.previous_sibling matches Some(p) ==> p < i)
    &&& (n.first_child matches Some(c) ==> i < c < len)
    &&& (n.last_child matches Some(c) ==> i < c < len)
    &&& (n.next_sibling matches Some(c) ==> i < c < len)
}

/// The arena that owns a document tree.  `nodes[0]` is the Document.
#[derive(Debug, Clone)]
pub struct Window {
    pub nodes: Vec<Node>,
}

impl Window {
    /// Well-formedness: non-empty, a Document at the root, and every link
    /// obeying the direction discipline.
    pub open spec fn wf(&self) -> bool {
        &&& 1 <= self.nodes.len()
        &&& self.nodes[0].kind is Document
        &&& forall|i: int|
            0 <= i < self.nodes.len() ==> node_links_ok(
                #[trigger] self.nodes[i],
                i,
                self.nodes@.len() as int,
            )
    }

    /// A window holding an empty document.
    pub fn new() -> (r: Self)
        ensures
            r.wf(),
            r.nodes@.len() == 1,
            r.nodes[0].kind is Document,
            r.nodes[0].first_child is None,
            r.nodes@ == seq![Node::new_spec(NodeKind::Document)],
    {
        let mut nodes: Vec<Node> = Vec::new();
        nodes.push(Node::new(NodeKind::Document));
        Self { nodes }
    }

    /// The handle of the document root.
    pub fn document(&self) -> (r: usize)
        ensures
            r == 0,
    {
        0
    }

    /// A borrow of the node at `i`.
    pub fn node(&self, i: usize) -> (r: &Node)
        requires
            i < self.nodes@.len(),
        ensures
            *r == self.nodes[i as int],
    {
        &self.nodes[i]
    }

    /// Appends a fresh, unlinked node and returns its handle.
    pub fn create_node(&mut self, kind: NodeKind) -> (r: usize)
        requires
            old(self).wf(),
        ensures
            final(self).wf(),
            r == old(self).nodes@.len(),
            final(self).nodes@ == old(self).nodes@.push(Node::new_spec(kind)),
    {
        let r = self.nodes.len();
        self.nodes.push(Node::new(kind));
        proof {
            assert forall|i: int| 0 <= i < self.nodes.len() implies node_links_ok(
                #[trigger] self.nodes[i],
                i,
                self.nodes@.len() as int,
            ) by {
                if i < old(self).nodes@.len() {
                    assert(node_links_ok(old(self).nodes[i], i, old(self).nodes@.len() as int));
                }
            }
        }
        r
    }

    /// Sets the first-child link of node `i` to `c`.
    pub fn set_first_child_of(&mut self, i: usize, c: usize)
        requires
            old(self).wf(),
            i < c < old(self).nodes@.len(),
        ensures
            final(self).wf(),
            final(self).nodes@ == old(self).nodes@.update(
                i as int,
                (Node { first_child: Some(c), ..old(self).nodes@[i as int] }),
            ),
    {
        self.nodes[i].set_first_child(Some(c));
        proof {
            self.lemma_links_preserved(*old(self), i as int);
        }
    }

    /// Sets the last-child link of node `i` to `c`.
    pub fn set_last_child_of(&mut self, i: usize, c: usize)
        requires
            old(self).wf(),
            i < c < old(self).nodes@.len(),
        ensures
            final(self).wf(),
            final(self).nodes@ == old(self).nodes@.update(
                i as int,
                (Node { last_child: Some(c), ..old(self).nodes@[i as int] }),
            ),
    {
        self.nodes[i].set_last_child(Some(c));
        proof {
            self.lemma_links_preserved(*old(self), i as int);
        }
    }

    /// Sets the next-sibling link of node `i` to `c`.
    pub fn set_next_sibling_of(&mut self, i: usize, c: usize)
        requires
            old(self).wf(),
            i < c < old(self).nodes@.len(),
        ensures
            final(self).wf(),
            final(self).nodes@ == old(self).nodes@.update(
                i as int,
                (Node { next_sibling: Some(c), ..old(self).nodes@[i as int] }),
            ),
    {
        self.nodes[i].set_next_sibling(Some(c));
        proof {
            self.lemma_links_preserved(*old(self), i as int);
        }
    }

    /// Sets the previous-sibling link of node `i` to `p`.
    pub fn set_previous_sibling_of(&mut self, i: usize, p: usize)
        requires
            old(self).wf(),
            p < i < old(self).nodes@.len(),
            1 <= i,
        ensures
            final(self).wf(),
            final(self).nodes@ == old(self).nodes@.update(
                i as int,
                (Node { previous_sibling: Some(p), ..old(self).nodes@[i as int] }),
            ),
    {
        self.nodes[i].set_previous_sibling(Some(p));
        proof {
            self.lemma_links_preserved(*old(self), i as int);
        }
    }

    /// Sets the parent link of node `i` to `p`.
    pub fn set_parent_of(&mut self, i: usize, p: usize)
        requires
            old(self).wf(),
            p < i < old(self).nodes@.len(),
        ensures
            final(self).wf(),
            final(self).nodes@ == old(self).nodes@.update(
                i as int,
                (Node { parent: Some(p), ..old(self).nodes@[i as int] }),
            ),
    {
        self.nodes[i].set_parent(Some(p));
        proof {
            self.lemma_links_preserved(*old(self), i as int);
        }
    }

    /// Appends one character to the text of a Text node.
    pub fn push_text_char(&mut self, i: usize, c: char)
        requires
            old(self).wf(),
            i < old(self).nodes@.len(),
            old(self).nodes@[i as int].kind is Text,
        ensures
            final(self).wf(),
            final(self).nodes@.len() == old(self).nodes@.len(),
            forall|j: int|
                0 <= j < old(self).nodes@.len() && j != i ==> final(self).nodes@[j]
                    == old(self).nodes@[j],
            final(self).nodes@[i as int] == (Node {
                kind: final(self).nodes@[i as int].kind,
                ..old(self).nodes@[i as int]
            }),
            old(self).nodes@[i as int].kind matches NodeKind::Text(s)
                ==> (final(self).nodes@[i as int].kind matches NodeKind::Text(s2)
                && s2@ == s@.push(c)),
    {
        let n = &self.nodes[i];
        let replacement: Node = match &n.kind {
            NodeKind::Text(s) => {
                let mut s2 = s.clone();
                crate::strutil::push_char(&mut s2, c);
                Node {
                    kind: NodeKind::Text(s2),
                    parent: n.parent,
                    first_child: n.first_child,
                    last_child: n.last_child,
                    previous_sibling: n.previous_sibling,
                    next_sibling: n.next_sibling,
                }
            },
            _ => {
                return ;
            },
        };
        self.nodes[i] = replacement;
        proof {
            self.lemma_links_preserved(*old(self), i as int);
        }
    }

    /// After one node's non-link fields or forward links were rewritten in
    /// a way that keeps its own discipline, the whole arena stays
    /// well-formed.
    proof fn lemma_links_preserved(&self, prev: Window, i: int)
        requires
            prev.wf(),
            self.nodes@.len() == prev.nodes@.len(),
            forall|j: int| 0 <= j < prev.nodes@.len() && j != i ==> self.nodes@[j] == prev.nodes@[j],
            0 <= i < prev.nodes@.len(),
            node_links_ok(self.nodes@[i], i, self.nodes@.len() as int),
            i == 0 ==> self.nodes@[0].kind is Document,
        ensures
            self.wf(),
    {
        assert forall|j: int| 0 <= j < self.nodes.len() implies node_links_ok(
            #[trigger] self.nodes[j],
            j,
            self.nodes@.len() as int,
        ) by {
            if j != i {
                assert(self.nodes@[j] == prev.nodes@[j]);
                assert(node_links_ok(prev.nodes[j], j, prev.nodes@.len() as int));
            }
        }
    }
}

} // verus!
