//! Searches over the DOM tree: by `id` attribute, by element kind, and the
//! extraction of the first style and script payloads.
//!
//! Every search is a depth-first walk that prefers the current node, then
//! its children, then its siblings.  Each executable function is proved
//! equal to a specification function of the same shape.

use vstd::prelude::*;

use crate::dom::node::ElementKind;
use crate::dom::node::NodeKind;
use crate::dom::node::Window;
use crate::html::attribute::attrs_view;
use crate::html::attribute::AttrV;
use crate::strutil::str_eq;

verus! {

/// Whether some attribute in `attrs` is an `id` with the given value.
pub open spec fn spec_has_id(attrs: Seq<AttrV>, id: Seq<char>) -> bool {
    exists|k: int| 0 <= k < attrs.len() && attrs[k].name == "id"@ && (#[trigger] attrs[k]).value == id
}

/// The recursion measure of a walk that starts at `node`.
pub open spec fn walk_measure(w: &Window, node: Option<usize>) -> int {
    match node {
        Some(i) => w.nodes@.len() - i,
        None => 0,
    }
}

/// The handle of the first node, in depth-first order from `node`, that is
/// an element carrying an `id` attribute equal to `id`.
pub open spec fn spec_get_element_by_id(w: &Window, node: Option<usize>, id: Seq<char>) -> Option<
    usize,
>
    decreases walk_measure(w, node),
    when w.wf() && (node matches Some(i) ==> i < w.nodes@.len())
{
    match node {
        None => None,
        Some(i) => {
            let n = w.nodes[i as int];
            if n.kind matches NodeKind::Element(e) && spec_has_id(attrs_view(e.attributes@), id) {
                Some(i)
            } else {
                let r1 = spec_get_element_by_id(w, n.first_child, id);
                if r1 is None {
                    spec_get_element_by_id(w, n.next_sibling, id)
                } else {
                    r1
                }
            }
        },
    }
}

/// Finds the first element, in depth-first order from `node`, whose `id`
/// attribute equals `id_name`.
pub fn get_element_by_id(w: &Window, node: Option<usize>, id_name: &String) -> (r: Option<usize>)
    requires
        w.wf(),
        node matches Some(i) ==> i < w.nodes@.len(),
    ensures
        r == spec_get_element_by_id(w, node, id_name@),
        r matches Some(j) ==> j < w.nodes@.len(),
    decreases walk_measure(w, node),
{
    match node {
        None => None,
        Some(i) => {
            let n = w.node(i);
            let found = match &n.kind {
                NodeKind::Element(e) => {
                    let ghost attrs = attrs_view(e.attributes@);
                    let mut k: usize = 0;
                    let mut hit = false;
                    while k < e.attributes.len()
                        invariant
                            k <= e.attributes.len(),
                            attrs == attrs_view(e.attributes@),
                            hit == exists|m: int|
                                0 <= m < k && attrs[m].name == "id"@ && (#[trigger] attrs[m]).value
                                    == id_name@,
                        decreases e.attributes.len() - k,
                    {
                        if !hit && str_eq(&e.attributes[k].name, "id") && str_eq(
                            &e.attributes[k].value,
                            id_name.as_str(),
                        ) {
                            hit = true;
                            proof {
                                assert(attrs[k as int].name == "id"@ && attrs[k as int].value
                                    == id_name@);
                            }
                        }
                        k = k + 1;
                    }
                    proof {
                        assert(hit == spec_has_id(attrs, id_name@));
                    }
                    hit
                },
                _ => false,
            };
            if found {
                return Some(i);
            }
            let first_child = n.first_child;
            let next_sibling = n.next_sibling;
            let r1 = get_element_by_id(w, first_child, id_name);
            match r1 {
                Some(j) => Some(j),
                None => get_element_by_id(w, next_sibling, id_name),
            }
        },
    }
}

/// The handle of the first node, in depth-first order from `node`, that is
/// an element of kind `ek`.
pub open spec fn spec_get_target_element_node(
    w: &Window,
    node: Option<usize>,
    ek: ElementKind,
) -> Option<usize>
    decreases walk_measure(w, node),
    when w.wf() && (node matches Some(i) ==> i < w.nodes@.len())
{
    match node {
        None => None,
        Some(i) => {
            let n = w.nodes[i as int];
            if n.kind matches NodeKind::Element(e) && e.kind == ek {
                Some(i)
            } else {
                let r1 = spec_get_target_element_node(w, n.first_child, ek);
                if r1 is None {
                    spec_get_target_element_node(w, n.next_sibling, ek)
                } else {
                    r1
                }
            }
        },
    }
}

/// Finds the first element of kind `element_kind`, in depth-first order
/// from `node`.
pub fn get_target_element_node(w: &Window, node: Option<usize>, element_kind: ElementKind) -> (r:
    Option<usize>)
    requires
        w.wf(),
        node matches Some(i) ==> i < w.nodes@.len(),
    ensures
        r == spec_get_target_element_node(w, node, element_kind),
        r matches Some(j) ==> j < w.nodes@.len() && (w.nodes[j as int].kind matches NodeKind::Element(e)
            && e.kind == element_kind),
    decreases walk_measure(w, node),
{
    match node {
        None => None,
        Some(i) => {
            let n = w.node(i);
            let found = match &n.kind {
                NodeKind::Element(e) => {
                    let k = e.kind;
                    k == element_kind
                },
                _ => false,
            };
            if found {
                return Some(i);
            }
            let first_child = n.first_child;
            let next_sibling = n.next_sibling;
            let r1 = get_target_element_node(w, first_child, element_kind);
            match r1 {
                Some(j) => Some(j),
                None => get_target_element_node(w, next_sibling, element_kind),
            }
        },
    }
}

/// The text payload under the first element of kind `ek`: the content of
/// its first child when that child is a Text node, otherwise empty.
pub open spec fn spec_text_content_of_first(w: &Window, ek: ElementKind) -> Seq<char> {
    match spec_get_target_element_node(w, Some(0), ek) {
        None => Seq::<char>::empty(),
        Some(i) => match w.nodes[i as int].first_child {
            None => Seq::<char>::empty(),
            Some(c) => match w.nodes[c as int].kind {
                NodeKind::Text(s) => s@,
                _ => Seq::<char>::empty(),
            },
        },
    }
}

/// The text inside the first `<style>` element, or empty when there is none.
pub fn get_style_content(w: &Window, root: usize) -> (r: String)
    requires
        w.wf(),
        root == 0,
    ensures
        r@ == spec_text_content_of_first(w, ElementKind::Style),
{
    text_content_of_first(w, root, ElementKind::Style)
}

/// The text inside the first `<script>` element, or empty when there is none.
pub fn get_js_content(w: &Window, root: usize) -> (r: String)
    requires
        w.wf(),
        root == 0,
    ensures
        r@ == spec_text_content_of_first(w, ElementKind::Script),
{
    text_content_of_first(w, root, ElementKind::Script)
}

/// Shared body of the style and script extractors.
fn text_content_of_first(w: &Window, root: usize, ek: ElementKind) -> (r: String)
    requires
        w.wf(),
        root == 0,
    ensures
        r@ == spec_text_content_of_first(w, ek),
{
    let target = match get_target_element_node(w, Some(root), ek) {
        Some(node) => node,
        None => {
            return String::new();
        },
    };
    let child = match w.node(target).first_child {
        Some(node) => node,
        None => {
            return String::new();
        },
    };
    proof {
        assert(child < w.nodes@.len());
    }
    match &w.node(child).kind {
        NodeKind::Text(s) => s.clone(),
        _ => String::new(),
    }
}

} // verus!
