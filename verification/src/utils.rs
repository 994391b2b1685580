//! A debugging aid: the DOM tree as an indented, human-readable string.

use vstd::prelude::*;

use crate::dom::api::walk_measure;
use crate::dom::node::NodeKind;
use crate::dom::node::Window;
use crate::dom::node::spec_tag_name;
use crate::strutil::push_char;

verus! {

/// The label of one node: its kind, and for an element its tag name, for a
/// text its content.
pub open spec fn spec_node_label(kind: NodeKind) -> Seq<char> {
    match kind {
        NodeKind::Document => "Document"@,
        NodeKind::Element(e) => "Element "@ + spec_tag_name(e.kind),
        NodeKind::Text(s) => "Text "@ + s@,
    }
}

/// The dump of the tree under `node`: the node's label behind `depth`
/// levels of indent, its children one level deeper, then its siblings.
pub open spec fn spec_dom_string(w: &Window, node: Option<usize>, depth: int) -> Seq<char>
    decreases walk_measure(w, node),
    when w.wf() && (node matches Some(i) ==> i < w.nodes@.len())
{
    match node {
        None => Seq::<char>::empty(),
        Some(i) => spec_indent(depth) + spec_node_label(w.nodes@[i as int].kind) + seq!['\n']
            + spec_dom_string(w, w.nodes@[i as int].first_child, depth + 1) + spec_dom_string(
            w,
            w.nodes@[i as int].next_sibling,
            depth,
        ),
    }
}

/// Two spaces per level.
pub open spec fn spec_indent(depth: int) -> Seq<char>
    decreases depth,
{
    if depth <= 0 {
        Seq::<char>::empty()
    } else {
        spec_indent(depth - 1) + "  "@
    }
}

/// The whole document, one node per line, children indented: a leading
/// newline, then the dump of the root.
pub fn convert_dom_to_string(w: &Window, root: Option<usize>) -> (r: String)
    requires
        w.wf(),
        root matches Some(i) ==> i < w.nodes@.len(),
    ensures
        r@ == seq!['\n'] + spec_dom_string(w, root, 0),
{
    let mut result = String::new();
    push_char(&mut result, '\n');
    let rest = dom_string_internal(w, root, 0);
    result.append(rest.as_str());
    result
}

/// The dump of one subtree.
fn dom_string_internal(w: &Window, node: Option<usize>, depth: usize) -> (r: String)
    requires
        w.wf(),
        node matches Some(i) ==> i < w.nodes@.len() && depth <= i,
    ensures
        r@ == spec_dom_string(w, node, depth as int),
    decreases walk_measure(w, node),
{
    let n = match node {
        Some(n) => n,
        None => {
            return String::new();
        },
    };
    let mut result = indent(depth);
    let label: String = match &w.node(n).kind {
        NodeKind::Document => "Document".to_owned(),
        NodeKind::Element(e) => {
            let mut s = "Element ".to_owned();
            s.append(e.kind.tag_name().as_str());
            s
        },
        NodeKind::Text(t) => {
            let mut s = "Text ".to_owned();
            s.append(t.as_str());
            s
        },
    };
    result.append(label.as_str());
    push_char(&mut result, '\n');
    let first_child = w.node(n).first_child;
    let children = dom_string_internal(w, first_child, depth + 1);
    result.append(children.as_str());
    let next_sibling = w.node(n).next_sibling;
    let siblings = dom_string_internal(w, next_sibling, depth);
    result.append(siblings.as_str());
    proof {
        assert(result@ =~= spec_dom_string(w, node, depth as int));
    }
    result
}

/// `depth` levels of two-space indent.
fn indent(depth: usize) -> (r: String)
    ensures
        r@ == spec_indent(depth as int),
{
    let mut s = String::new();
    let mut i: usize = 0;
    while i < depth
        invariant
            i <= depth,
            s@ == spec_indent(i as int),
        decreases depth - i,
    {
        push_char(&mut s, ' ');
        push_char(&mut s, ' ');
        proof {
            reveal_strlit("  ");
            assert(s@ =~= spec_indent(i as int) + "  "@);
        }
        i = i + 1;
    }
    s
}

} // verus!
