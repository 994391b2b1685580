//! The layout view: builds the layout tree from the DOM and the CSSOM,
//! sizes and positions it, paints it into a display list, and answers hit
//! tests.
//!
//! Three facts hold of every view as built:
//! no layout object exists for a node whose final display is `none`;
//! every object's position is non-negative in both coordinates; and a hit
//! test that comes back empty means no object of the tree contains the
//! point, while a hit always names an object whose rectangle contains it.

use vstd::prelude::*;

use crate::constants::CONTENT_AREA_WIDTH;
use crate::css::cssom::StyleSheet;
use crate::display_item::DisplayItem;
use crate::dom::node::ElementKind;
use crate::dom::node::Window;
use crate::dom::api::get_target_element_node;
use crate::layout::computed_style::ComputedStyle;
use crate::layout::computed_style::DisplayType;
use crate::layout::layout_object::LayoutObject;
use crate::layout::layout_object::LayoutObjectKind;
use crate::layout::layout_object::LayoutPoint;
use crate::layout::layout_object::LayoutSize;
use crate::layout::layout_object::create_layout_object;

verus! {

/// The measure of a walk of the layout arena starting at `node`.
pub open spec fn lwalk_measure(objects: Seq<LayoutObject>, node: Option<usize>) -> int {
    match node {
        Some(i) => objects.len() - i,
        None => 0,
    }
}

/// Link discipline of one layout object at index `i`: child and sibling
/// links point forward and stay in bounds, the parent link points backward.
pub open spec fn lobj_links_ok(o: LayoutObject, i: int, len: int) -> bool {
    &&& (o.first_child matches Some(c) ==> i < c < len)
    &&& (o.next_sibling matches Some(c) ==> i < c < len)
    &&& (o.parent matches Some(p) ==> p < i)
}

/// The rectangle of `o` contains the point `(x, y)`.
pub open spec fn spec_contains(o: LayoutObject, x: i64, y: i64) -> bool {
    &&& o.point.x <= x <= crate::strutil::spec_sat_add(o.point.x, o.size.width)
    &&& o.point.y <= y <= crate::strutil::spec_sat_add(o.point.y, o.size.height)
}

/// Whether `j` belongs to the tree hanging off `node`: it is `node`
/// itself, under its first child, or under a later sibling.
pub open spec fn in_subtree(objects: Seq<LayoutObject>, node: Option<usize>, j: int) -> bool
    decreases lwalk_measure(objects, node),
    when (node matches Some(i) ==> i < objects.len()) && (forall|k: int|
        0 <= k < objects.len() ==> lobj_links_ok(#[trigger] objects[k], k, objects.len() as int))
{
    match node {
        None => false,
        Some(i) => j == i || in_subtree(objects, objects[i as int].first_child, j) || in_subtree(
            objects,
            objects[i as int].next_sibling,
            j,
        ),
    }
}

/// The drawing commands of a subtree, in pre-order: the node's own, then
/// its children's, then its siblings'.
pub open spec fn spec_paint_tree(objects: Seq<LayoutObject>, node: Option<usize>) -> Seq<
    crate::display_item::DispV,
>
    decreases lwalk_measure(objects, node),
    when (node matches Some(i) ==> i < objects.len()) && (forall|k: int|
        0 <= k < objects.len() ==> lobj_links_ok(#[trigger] objects[k], k, objects.len() as int))
{
    match node {
        None => Seq::empty(),
        Some(n) => crate::layout::layout_object::spec_paint_obj(objects[n as int])
            + spec_paint_tree(objects, objects[n as int].first_child) + spec_paint_tree(
            objects,
            objects[n as int].next_sibling,
        ),
    }
}

/// The value of one layout object, geometry aside: its flow kind, its DOM
/// node and that node's kind, its links, and its style.
pub ghost struct LObjV {
    pub kind: LayoutObjectKind,
    pub node: usize,
    pub node_kind: crate::dom::node::NodeKindV,
    pub first_child: Option<usize>,
    pub next_sibling: Option<usize>,
    pub parent: Option<usize>,
    pub style: crate::layout::computed_style::StyleV,
}

/// The value of a layout object, geometry aside.
pub open spec fn lobj_view(o: LayoutObject) -> LObjV {
    LObjV {
        kind: o.kind,
        node: o.node,
        node_kind: o.node_kind@,
        first_child: o.first_child,
        next_sibling: o.next_sibling,
        parent: o.parent,
        style: o.style@,
    }
}

/// The values of an arena of layout objects.
pub open spec fn lobjs_view(s: Seq<LayoutObject>) -> Seq<LObjV> {
    s.map_values(|o: LayoutObject| lobj_view(o))
}

/// The object one DOM node yields under the stylesheet, if its final
/// display is not `none`: fresh links, the cascaded and defaulted style,
/// and the flow kind the node and its display give.
pub open spec fn spec_create_obj(
    window: Window,
    n: usize,
    parent_obj: Option<usize>,
    pstyle: Option<crate::layout::computed_style::StyleV>,
    rules: Seq<crate::css::cssom::QualifiedRule>,
) -> Option<LObjV> {
    if crate::layout::layout_object::spec_final_display(window.nodes@[n as int].kind, rules)
        == DisplayType::DisplayNone {
        None
    } else {
        let style = crate::layout::layout_object::spec_defaulted(
            crate::layout::layout_object::spec_cascade_rules(
                crate::layout::layout_object::spec_empty_style(),
                window.nodes@[n as int].kind,
                rules,
            ),
            window.nodes@[n as int].kind@,
            pstyle,
        );
        Some(
            LObjV {
                kind: match window.nodes@[n as int].kind {
                    crate::dom::node::NodeKind::Text(_) => LayoutObjectKind::Text,
                    _ => match style.display {
                        Some(DisplayType::Block) => LayoutObjectKind::Block,
                        Some(DisplayType::Inline) => LayoutObjectKind::Inline,
                        _ => LayoutObjectKind::Block,
                    },
                },
                node: n,
                node_kind: window.nodes@[n as int].kind@,
                first_child: None,
                next_sibling: None,
                parent: parent_obj,
                style,
            },
        )
    }
}

/// The arena grown by building the layout subtree for `node` and its
/// siblings, and the handle of the first object built, if any: the first
/// node of the chain whose final display is not `none` becomes an object,
/// its children and later siblings are built recursively and linked in,
/// and a `display: none` node is skipped together with its whole subtree.
pub open spec fn spec_build(
    window: Window,
    node: Option<usize>,
    parent_obj: Option<usize>,
    pstyle: Option<crate::layout::computed_style::StyleV>,
    rules: Seq<crate::css::cssom::QualifiedRule>,
    acc: Seq<LObjV>,
) -> (Seq<LObjV>, Option<usize>)
    decreases crate::dom::api::walk_measure(&window, node),
    when window.wf() && (node matches Some(n) ==> n < window.nodes@.len())
{
    match node {
        None => (acc, None),
        Some(n) => match spec_create_obj(window, n, parent_obj, pstyle, rules) {
            None => spec_build(
                window,
                window.nodes@[n as int].next_sibling,
                parent_obj,
                pstyle,
                rules,
                acc,
            ),
            Some(o) => {
                let idx = acc.len() as usize;
                let r1 = spec_build(
                    window,
                    window.nodes@[n as int].first_child,
                    Some(idx),
                    Some(o.style),
                    rules,
                    acc.push(o),
                );
                let r2 = spec_build(
                    window,
                    window.nodes@[n as int].next_sibling,
                    None,
                    None,
                    rules,
                    r1.0,
                );
                (
                    r2.0.update(
                        idx as int,
                        LObjV { first_child: r1.1, next_sibling: r2.1, ..r2.0[idx as int] },
                    ),
                    Some(idx),
                )
            },
        },
    }
}

/// The tie between a layout object and the document: the object stands
/// for a DOM node whose final display is not `none`, carries that node's
/// kind, and its style is exactly the cascade of the matching rules onto
/// an empty style, defaulted against its layout parent's style (or against
/// nothing at the top of its sibling chain).
pub open spec fn obj_matches_dom(
    objects: Seq<LayoutObject>,
    k: int,
    window: &Window,
    rules: Seq<crate::css::cssom::QualifiedRule>,
) -> bool {
    let o = objects[k];
    &&& o.node < window.nodes@.len()
    &&& o.node_kind@ == window.nodes@[o.node as int].kind@
    &&& crate::layout::layout_object::spec_final_display(
        window.nodes@[o.node as int].kind,
        rules,
    ) != DisplayType::DisplayNone
    &&& o.style@ == crate::layout::layout_object::spec_defaulted(
        crate::layout::layout_object::spec_cascade_rules(
            crate::layout::layout_object::spec_empty_style(),
            window.nodes@[o.node as int].kind,
            rules,
        ),
        window.nodes@[o.node as int].kind@,
        match o.parent {
            Some(p) => if 0 <= p < objects.len() {
                Some(objects[p as int].style@)
            } else {
                None
            },
            None => None,
        },
    )
}

/// The handle the hit-test walk answers with: children first, then
/// siblings, then the node itself when its rectangle contains the point.
pub open spec fn spec_find_node(
    objects: Seq<LayoutObject>,
    node: Option<usize>,
    x: i64,
    y: i64,
) -> Option<usize>
    decreases lwalk_measure(objects, node),
    when (node matches Some(i) ==> i < objects.len()) && (forall|k: int|
        0 <= k < objects.len() ==> lobj_links_ok(#[trigger] objects[k], k, objects.len() as int))
{
    match node {
        None => None,
        Some(n) => {
            let r1 = spec_find_node(objects, objects[n as int].first_child, x, y);
            if r1 is Some {
                r1
            } else {
                let r2 = spec_find_node(objects, objects[n as int].next_sibling, x, y);
                if r2 is Some {
                    r2
                } else if spec_contains(objects[n as int], x, y) {
                    Some(n)
                } else {
                    None
                }
            }
        },
    }
}

/// The layout tree: objects in an arena, and the handle of the root (the
/// object standing for the `<body>`), when there is one.
#[derive(Debug)]
pub struct LayoutView {
    pub objects: Vec<LayoutObject>,
    pub root: Option<usize>,
}

impl LayoutView {
    /// Well-formedness: every link obeys the direction discipline, every
    /// object's style is fully resolved and is not `display: none`, and
    /// the root, if any, is a valid handle.
    pub open spec fn wf(&self) -> bool {
        &&& forall|k: int|
            0 <= k < self.objects@.len() ==> lobj_links_ok(
                #[trigger] self.objects@[k],
                k,
                self.objects@.len() as int,
            )
        &&& forall|k: int|
            0 <= k < self.objects@.len() ==> (#[trigger] self.objects@[k]).style.is_defaulted()
        &&& forall|k: int|
            0 <= k < self.objects@.len() ==> (#[trigger] self.objects@[k]).style.display.unwrap()
                != DisplayType::DisplayNone
        &&& (self.root matches Some(r) ==> r < self.objects@.len())
    }

    /// Builds the layout tree for the document in `window` under `cssom`:
    /// the tree hangs off the `<body>` element, nodes whose final display
    /// is `none` are left out together with their subtrees, and sizes and
    /// positions are computed.
    ///
    /// Every object of the view has a display other than `none`, sits at
    /// non-negative coordinates with a non-negative size, and belongs to
    /// the tree under the root.
    pub fn new(window: &Window, cssom: &StyleSheet) -> (r: Self)
        requires
            window.wf(),
        ensures
            r.wf(),
            forall|k: int|
                0 <= k < r.objects@.len() ==> (#[trigger] r.objects@[k]).style.display.unwrap()
                    != DisplayType::DisplayNone,
            forall|k: int|
                0 <= k < r.objects@.len() ==> (#[trigger] r.objects@[k]).point.x >= 0
                    && r.objects@[k].point.y >= 0,
            forall|k: int|
                0 <= k < r.objects@.len() ==> (#[trigger] r.objects@[k]).size.width >= 0
                    && r.objects@[k].size.height >= 0,
            forall|k: int|
                0 <= k < r.objects@.len() ==> obj_matches_dom(r.objects@, k, window, cssom.rules@),
            r.root is None ==> r.objects@.len() == 0,
            (window.nodes@.len() == 1 && window.nodes@[0].first_child is None) ==> r.root is None,
            ({
                let gr = spec_build(
                    *window,
                    crate::dom::api::spec_get_target_element_node(
                        window,
                        Some(0usize),
                        ElementKind::Body,
                    ),
                    None,
                    None,
                    cssom.rules@,
                    Seq::empty(),
                );
                lobjs_view(r.objects@) == gr.0 && r.root == gr.1
            }),
    {
        let body_root = get_target_element_node(window, Some(window.document()), ElementKind::Body);
        proof {
            if window.nodes@.len() == 1 && window.nodes@[0].first_child is None {
                assert(crate::dom::api::spec_get_target_element_node(
                    window,
                    window.nodes@[0].first_child,
                    ElementKind::Body,
                ) is None);
                assert(crate::dom::api::spec_get_target_element_node(
                    window,
                    window.nodes@[0].next_sibling,
                    ElementKind::Body,
                ) is None);
                assert(body_root is None);
            }
        }

        let mut objects: Vec<LayoutObject> = Vec::new();
        proof {
            assert(lobjs_view(objects@) =~= Seq::<LObjV>::empty());
            assert(crate::layout::layout_object::opt_style_v(None) is None);
        }
        let root = build_layout_tree(window, body_root, None, None, cssom, &mut objects);
        let ghost built = objects@;

        let mut tree = Self { objects, root };
        tree.update_layout();
        proof {
            assert forall|k: int| 0 <= k < tree.objects@.len() implies lobjs_view(tree.objects@)[k]
                == lobjs_view(built)[k] by {
                assert(lobjs_view(tree.objects@)[k] == lobj_view(tree.objects@[k]));
                assert(lobjs_view(built)[k] == lobj_view(built[k]));
            }
            assert(lobjs_view(tree.objects@) =~= lobjs_view(built));
            assert forall|k: int| 0 <= k < tree.objects@.len() implies obj_matches_dom(
                tree.objects@,
                k,
                window,
                cssom.rules@,
            ) by {
                assert(obj_matches_dom(built, k, window, cssom.rules@));
                assert(tree.objects@[k].style == built[k].style);
                assert(tree.objects@[k].node == built[k].node);
                assert(tree.objects@[k].node_kind == built[k].node_kind);
                assert(tree.objects@[k].parent == built[k].parent);
                match built[k].parent {
                    Some(p) => {
                        if 0 <= p < built.len() {
                            assert(tree.objects@[p as int].style == built[p as int].style);
                        }
                    },
                    None => {},
                }
            }
        }
        tree
    }

    /// Recomputes all sizes (content width seeds the root), then all
    /// positions (the origin seeds the root).
    fn update_layout(&mut self)
        requires
            old(self).wf(),
            forall|k: int|
                0 <= k < old(self).objects@.len() ==> (#[trigger] old(self).objects@[k]).point.x
                    >= 0 && old(self).objects@[k].point.y >= 0,
            forall|k: int|
                0 <= k < old(self).objects@.len() ==> (#[trigger] old(self).objects@[k]).size.width
                    >= 0 && old(self).objects@[k].size.height >= 0,
        ensures
            final(self).wf(),
            final(self).root == old(self).root,
            final(self).objects@.len() == old(self).objects@.len(),
            forall|k: int|
                0 <= k < final(self).objects@.len() ==> (#[trigger] final(self).objects@[k]).point.x
                    >= 0 && final(self).objects@[k].point.y >= 0,
            forall|k: int|
                0 <= k < final(self).objects@.len()
                    ==> (#[trigger] final(self).objects@[k]).size.width >= 0
                    && final(self).objects@[k].size.height >= 0,
            forall|k: int|
                0 <= k < old(self).objects@.len() ==> #[trigger] final(self).objects@[k]
                    == (LayoutObject {
                    point: final(self).objects@[k].point,
                    size: final(self).objects@[k].size,
                    ..old(self).objects@[k]
                }),
    {
        let root = self.root;
        calculate_node_size(&mut self.objects, root, LayoutSize::new(CONTENT_AREA_WIDTH, 0));
        calculate_node_position(
            &mut self.objects,
            root,
            LayoutPoint::new(0, 0),
            LayoutObjectKind::Block,
            None,
            None,
        );
    }

    /// The handle of the innermost object whose rectangle contains the
    /// point, children preferred over siblings and siblings over the
    /// current node.  Nothing comes back only when no object of the tree
    /// contains the point.
    pub fn find_node_by_position(&self, position: (i64, i64)) -> (r: Option<usize>)
        requires
            self.wf(),
        ensures
            r == spec_find_node(self.objects@, self.root, position.0, position.1),
            r matches Some(i) ==> i < self.objects@.len() && spec_contains(
                self.objects@[i as int],
                position.0,
                position.1,
            ),
            r is None ==> forall|j: int|
                #![auto]
                in_subtree(self.objects@, self.root, j) ==> !spec_contains(
                    self.objects@[j],
                    position.0,
                    position.1,
                ),
    {
        find_node_by_position_internal(&self.objects, self.root, position)
    }

    /// Paints the whole tree, in pre-order: the drawing commands of each
    /// object, then its children's, then its siblings'.
    pub fn paint(&self) -> (r: Vec<DisplayItem>)
        requires
            self.wf(),
        ensures
            crate::display_item::items_view(r@) == spec_paint_tree(self.objects@, self.root),
            self.root is None ==> r@.len() == 0,
    {
        let mut display_items: Vec<DisplayItem> = Vec::new();
        paint_node(&self.objects, self.root, &mut display_items);
        proof {
            assert(crate::display_item::items_view(Seq::<DisplayItem>::empty()) =~= Seq::<
                crate::display_item::DispV,
            >::empty());
        }
        display_items
    }

    /// The handle of the root object, when there is one.
    pub fn root(&self) -> (r: Option<usize>)
        ensures
            r == self.root,
    {
        self.root
    }

    /// A borrow of the object at `i`.
    pub fn obj(&self, i: usize) -> (r: &LayoutObject)
        requires
            i < self.objects@.len(),
        ensures
            *r == self.objects@[i as int],
    {
        &self.objects[i]
    }
}

/// Builds the layout subtree for `node` and its siblings: the first node
/// of the chain whose final display is not `none` becomes an object, its
/// children and later siblings are built recursively and linked in.
#[verifier::rlimit(100)]
fn build_layout_tree(
    window: &Window,
    node: Option<usize>,
    parent_obj: Option<usize>,
    parent_style: Option<ComputedStyle>,
    cssom: &StyleSheet,
    objects: &mut Vec<LayoutObject>,
) -> (r: Option<usize>)
    requires
        window.wf(),
        node matches Some(n) ==> n < window.nodes@.len(),
        parent_style matches Some(p) ==> p.is_defaulted(),
        parent_obj matches Some(p) ==> p < old(objects)@.len(),
        parent_obj matches Some(p) ==> (parent_style matches Some(st) && st@ == old(
            objects,
        )@[p as int].style@),
        parent_obj is None ==> parent_style is None,
    ensures
        node is None ==> r is None,
        ({
            let gr = spec_build(
                *window,
                node,
                parent_obj,
                crate::layout::layout_object::opt_style_v(parent_style),
                cssom.rules@,
                lobjs_view(old(objects)@),
            );
            lobjs_view(final(objects)@) == gr.0 && r == gr.1
        }),
        old(objects)@.len() <= final(objects)@.len(),
        final(objects)@.take(old(objects)@.len() as int) == old(objects)@,
        r is None ==> final(objects)@ == old(objects)@,
        r matches Some(i) ==> i == old(objects)@.len() && i < final(objects)@.len(),
        forall|k: int|
            old(objects)@.len() <= k < final(objects)@.len() ==> ({
                &&& (#[trigger] final(objects)@[k]).style.is_defaulted()
                &&& final(objects)@[k].style.display.unwrap() != DisplayType::DisplayNone
                &&& (final(objects)@[k].first_child matches Some(c) ==> k < c
                    < final(objects)@.len())
                &&& (final(objects)@[k].next_sibling matches Some(c) ==> k < c
                    < final(objects)@.len())
                &&& (final(objects)@[k].parent matches Some(p) ==> p < k)
                &&& final(objects)@[k].point == (LayoutPoint { x: 0, y: 0 })
                &&& final(objects)@[k].size == (LayoutSize { width: 0, height: 0 })
                &&& obj_matches_dom(final(objects)@, k, window, cssom.rules@)
            }),
    decreases crate::dom::api::walk_measure(window, node),
{
    let ghost psv = crate::layout::layout_object::opt_style_v(parent_style);
    let ghost acc0 = lobjs_view(old(objects)@);
    let mut target_node = node;
    let mut layout_object = create_layout_object(
        window,
        target_node,
        parent_obj,
        clone_opt_style(&parent_style),
        cssom,
    );
    while layout_object.is_none()
        invariant
            window.wf(),
            target_node matches Some(n) ==> n < window.nodes@.len(),
            psv == crate::layout::layout_object::opt_style_v(parent_style),
            acc0 == lobjs_view(old(objects)@),
            spec_build(*window, node, parent_obj, psv, cssom.rules@, acc0) == spec_build(
                *window,
                target_node,
                parent_obj,
                psv,
                cssom.rules@,
                acc0,
            ),
            layout_object is None ==> (target_node matches Some(n) ==> spec_create_obj(
                *window,
                n,
                parent_obj,
                psv,
                cssom.rules@,
            ) is None),
            layout_object matches Some(o) ==> (target_node matches Some(tn) && spec_create_obj(
                *window,
                tn,
                parent_obj,
                psv,
                cssom.rules@,
            ) == Some(lobj_view(o))),
            layout_object is None ==> (crate::dom::api::walk_measure(window, target_node)
                <= crate::dom::api::walk_measure(window, node)),
            crate::dom::api::walk_measure(window, target_node) <= crate::dom::api::walk_measure(
                window,
                node,
            ),
            layout_object is Some ==> target_node is Some,
            layout_object matches Some(o) ==> ({
                &&& o.style.is_defaulted()
                &&& o.style.display.unwrap() != DisplayType::DisplayNone
                &&& o.first_child is None
                &&& o.next_sibling is None
                &&& o.parent == parent_obj
                &&& o.point == (LayoutPoint { x: 0, y: 0 })
                &&& o.size == (LayoutSize { width: 0, height: 0 })
                &&& (target_node matches Some(t) && o.node == t && o.node_kind@
                    == window.nodes@[t as int].kind@)
                &&& crate::layout::layout_object::spec_final_display(
                    window.nodes@[o.node as int].kind,
                    cssom.rules@,
                ) != DisplayType::DisplayNone
                &&& o.style@ == crate::layout::layout_object::spec_defaulted(
                    crate::layout::layout_object::spec_cascade_rules(
                        crate::layout::layout_object::spec_empty_style(),
                        window.nodes@[o.node as int].kind,
                        cssom.rules@,
                    ),
                    window.nodes@[o.node as int].kind@,
                    crate::layout::layout_object::opt_style_v(parent_style),
                )
            }),
            parent_obj matches Some(p) ==> p < objects@.len(),
            objects@ == old(objects)@,
            parent_style matches Some(p) ==> p.is_defaulted(),
        decreases crate::dom::api::walk_measure(window, target_node),
    {
        match target_node {
            Some(n) => {
                proof {
                    assert(spec_create_obj(*window, n, parent_obj, psv, cssom.rules@) is None);
                    assert(spec_build(*window, Some(n), parent_obj, psv, cssom.rules@, acc0)
                        == spec_build(
                        *window,
                        window.nodes@[n as int].next_sibling,
                        parent_obj,
                        psv,
                        cssom.rules@,
                        acc0,
                    ));
                }
                target_node = window.node(n).next_sibling;
                layout_object = create_layout_object(
                    window,
                    target_node,
                    parent_obj,
                    clone_opt_style(&parent_style),
                    cssom,
                );
            },
            None => {
                return None;
            },
        }
    }

    let t = match target_node {
        Some(t) => t,
        None => {
            return None;
        },
    };
    let obj = match layout_object {
        Some(o) => o,
        None => {
            return None;
        },
    };
    let ghost l0 = old(objects)@.len() as int;
    let idx = objects.len();
    let my_style = obj.style.duplicate();
    objects.push(obj);
    let ghost s1 = objects@;

    let dom_first_child = window.node(t).first_child;
    let dom_next_sibling = window.node(t).next_sibling;

    let first_child = build_layout_tree(
        window,
        dom_first_child,
        Some(idx),
        Some(my_style),
        cssom,
        objects,
    );
    let ghost s2 = objects@;
    let next_sibling = build_layout_tree(
        window,
        dom_next_sibling,
        None,
        None,
        cssom,
        objects,
    );
    let ghost s3 = objects@;

    match first_child {
        Some(c) => {
            objects[idx].set_first_child(Some(c));
        },
        None => {},
    }
    match next_sibling {
        Some(c) => {
            objects[idx].set_next_sibling(Some(c));
        },
        None => {},
    }
    proof {
        assert forall|j: int| 0 <= j < s1.len() implies s3[j] == s1[j] by {
            assert(s2.take(s1.len() as int) == s1);
            assert(s2.take(s1.len() as int)[j] == s2[j]);
            assert(s3.take(s2.len() as int) == s2);
            assert(s3.take(s2.len() as int)[j] == s3[j]);
        }
        assert forall|j: int| 0 <= j < l0 implies objects@[j] == old(objects)@[j] by {
            assert(s3[j] == s1[j]);
            assert(s1[j] == old(objects)@[j]);
            assert(objects@[j] == s3[j]);
        }
        assert(objects@.take(l0) =~= old(objects)@);

        let fin = objects@;
        assert forall|k: int| l0 <= k < fin.len() implies ({
            &&& (#[trigger] fin[k]).style.is_defaulted()
            &&& fin[k].style.display.unwrap() != DisplayType::DisplayNone
            &&& (fin[k].first_child matches Some(c) ==> k < c < fin.len())
            &&& (fin[k].next_sibling matches Some(c) ==> k < c < fin.len())
            &&& (fin[k].parent matches Some(p) ==> p < k)
            &&& fin[k].point == (LayoutPoint { x: 0, y: 0 })
            &&& fin[k].size == (LayoutSize { width: 0, height: 0 })
            &&& obj_matches_dom(fin, k, window, cssom.rules@)
        }) by {
            assert forall|p: int| 0 <= p < s3.len() implies (#[trigger] fin[p]).style
                == s3[p].style && fin[p].node == s3[p].node && fin[p].parent == s3[p].parent by {
                if p != l0 {
                    assert(fin[p] == s3[p]);
                }
            }
            if k == l0 {
                assert(s3[l0] == s1[l0]);
                assert(s1[l0] == obj);
                match parent_obj {
                    Some(p) => {
                        assert(fin[p as int].style == old(objects)@[p as int].style);
                    },
                    None => {},
                }
            } else if k < s2.len() {
                assert(s3.take(s2.len() as int) == s2);
                assert(s3.take(s2.len() as int)[k] == s3[k]);
                assert(s3[k] == s2[k]);
                assert(fin[k] == s3[k]);
                assert(obj_matches_dom(s2, k, window, cssom.rules@));
                match s2[k].parent {
                    Some(p) => {
                        assert(fin[p as int].style == s2[p as int].style);
                    },
                    None => {},
                }
            } else {
                assert(fin[k] == s3[k]);
                assert(obj_matches_dom(s3, k, window, cssom.rules@));
                match s3[k].parent {
                    Some(p) => {
                        assert(fin[p as int].style == s3[p as int].style);
                    },
                    None => {},
                }
            }
        }

        let osp = lobj_view(s1[l0]);
        assert(spec_create_obj(*window, t, parent_obj, psv, cssom.rules@) == Some(osp));
        assert forall|j: int| 0 <= j < s1.len() implies lobjs_view(s1)[j] == acc0.push(osp)[j] by {
            assert(lobjs_view(s1)[j] == lobj_view(s1[j]));
            if j < l0 {
                assert(acc0[j] == lobj_view(old(objects)@[j]));
                assert(s1[j] == old(objects)@[j]);
            }
        }
        assert(lobjs_view(s1) =~= acc0.push(osp));
        let r1s = spec_build(
            *window,
            window.nodes@[t as int].first_child,
            Some((l0 as usize)),
            Some(osp.style),
            cssom.rules@,
            acc0.push(osp),
        );
        assert(lobjs_view(s2) == r1s.0 && first_child == r1s.1);
        let r2s = spec_build(
            *window,
            window.nodes@[t as int].next_sibling,
            None,
            None,
            cssom.rules@,
            r1s.0,
        );
        assert(lobjs_view(s3) == r2s.0 && next_sibling == r2s.1);
        assert(r2s.0[l0] == lobj_view(s3[l0]));
        let upd = r2s.0.update(l0, LObjV { first_child: r1s.1, next_sibling: r2s.1, ..r2s.0[l0] });
        assert forall|j: int| 0 <= j < objects@.len() implies lobjs_view(objects@)[j] == upd[j] by {
            assert(lobjs_view(objects@)[j] == lobj_view(objects@[j]));
            if j != l0 {
                assert(objects@[j] == s3[j]);
                assert(r2s.0[j] == lobj_view(s3[j]));
            } else {
                assert(s3[l0] == s1[l0]);
            }
        }
        assert(lobjs_view(objects@) =~= upd);
        assert(spec_build(*window, Some(t), parent_obj, psv, cssom.rules@, acc0) == (
            lobjs_view(objects@),
            Some((l0 as usize)),
        ));
    }
    Some(idx)
}

/// An owned copy of an optional style.
fn clone_opt_style(s: &Option<ComputedStyle>) -> (r: Option<ComputedStyle>)
    ensures
        crate::layout::layout_object::opt_style_v(r)
            == crate::layout::layout_object::opt_style_v(*s),
        (r matches Some(p) ==> p.is_defaulted()) == (*s matches Some(p) ==> p.is_defaulted()),
{
    match s {
        Some(st) => {
            let d = st.duplicate();
            Some(d)
        },
        None => None,
    }
}

/// Sizes every object of the subtree: a block's width is fixed before its
/// children are sized, and its height after; the final pass settles each
/// node once its children are known.
fn calculate_node_size(objects: &mut Vec<LayoutObject>, node: Option<usize>, parent_size: LayoutSize)
    requires
        node matches Some(n) ==> n < old(objects)@.len(),
        forall|k: int|
            0 <= k < old(objects)@.len() ==> lobj_links_ok(
                #[trigger] old(objects)@[k],
                k,
                old(objects)@.len() as int,
            ),
        forall|k: int|
            0 <= k < old(objects)@.len() ==> (#[trigger] old(objects)@[k]).style.is_defaulted(),
        parent_size.width >= 0,
        forall|k: int|
            0 <= k < old(objects)@.len() ==> (#[trigger] old(objects)@[k]).size.width >= 0
                && old(objects)@[k].size.height >= 0,
    ensures
        final(objects)@.len() == old(objects)@.len(),
        forall|k: int|
            0 <= k < old(objects)@.len() ==> #[trigger] final(objects)@[k] == (LayoutObject {
                size: final(objects)@[k].size,
                ..old(objects)@[k]
            }),
        forall|k: int|
            0 <= k < final(objects)@.len() ==> (#[trigger] final(objects)@[k]).size.width >= 0
                && final(objects)@[k].size.height >= 0,
    decreases lwalk_measure(old(objects)@, node),
{
    let n = match node {
        Some(n) => n,
        None => {
            return ;
        },
    };

    if objects[n].kind == LayoutObjectKind::Block {
        let children = collect_child_sizes(objects, n);
        objects[n].compute_size(parent_size, &children);
        proof {
            lemma_nonneg_block_height(children@, LayoutObjectKind::Block, 0);
        }
    }

    let first_child = objects[n].first_child;
    let my_size = objects[n].size;
    calculate_node_size(objects, first_child, my_size);

    let next_sibling = objects[n].next_sibling;
    calculate_node_size(objects, next_sibling, parent_size);

    let children = collect_child_sizes(objects, n);
    objects[n].compute_size(parent_size, &children);
    proof {
        lemma_nonneg_block_height(children@, LayoutObjectKind::Block, 0);
        lemma_nonneg_sums(children@, 0);
    }
}

/// The kinds and sizes of the children of `n`, in order.
fn collect_child_sizes(objects: &Vec<LayoutObject>, n: usize) -> (r: Vec<
    (LayoutObjectKind, LayoutSize),
>)
    requires
        n < objects@.len(),
        forall|k: int|
            0 <= k < objects@.len() ==> lobj_links_ok(
                #[trigger] objects@[k],
                k,
                objects@.len() as int,
            ),
        forall|k: int|
            0 <= k < objects@.len() ==> (#[trigger] objects@[k]).size.width >= 0
                && objects@[k].size.height >= 0,
    ensures
        forall|k: int|
            0 <= k < r@.len() ==> (#[trigger] r@[k]).1.width >= 0 && r@[k].1.height >= 0,
{
    let mut out: Vec<(LayoutObjectKind, LayoutSize)> = Vec::new();
    let mut child = objects[n].first_child;
    while child.is_some()
        invariant
            n < objects@.len(),
            child matches Some(c) ==> n < c < objects@.len(),
            forall|k: int|
                0 <= k < objects@.len() ==> lobj_links_ok(
                    #[trigger] objects@[k],
                    k,
                    objects@.len() as int,
                ),
            forall|k: int|
                0 <= k < objects@.len() ==> (#[trigger] objects@[k]).size.width >= 0
                    && objects@[k].size.height >= 0,
            forall|k: int|
                0 <= k < out@.len() ==> (#[trigger] out@[k]).1.width >= 0 && out@[k].1.height >= 0,
        decreases lwalk_measure(objects@, child),
    {
        let c = match child {
            Some(c) => c,
            None => {
                break ;
            },
        };
        out.push((objects[c].kind, objects[c].size));
        child = objects[c].next_sibling;
    }
    out
}

/// A block's height over non-negative child heights is at least the
/// accumulator.
proof fn lemma_nonneg_block_height(
    children: Seq<(LayoutObjectKind, LayoutSize)>,
    prev: LayoutObjectKind,
    acc: i64,
)
    requires
        acc >= 0,
        forall|k: int|
            0 <= k < children.len() ==> (#[trigger] children[k]).1.width >= 0
                && children[k].1.height >= 0,
    ensures
        crate::layout::layout_object::spec_block_height(children, prev, acc) >= 0,
    decreases children.len(),
{
    if children.len() > 0 {
        let (k, sz) = children[0];
        let acc2 = if prev == LayoutObjectKind::Block || k == LayoutObjectKind::Block {
            crate::strutil::spec_sat_add(acc, sz.height)
        } else {
            acc
        };
        assert(children.skip(1) =~= children.subrange(1, children.len() as int));
        assert(forall|m: int|
            0 <= m < children.skip(1).len() ==> (#[trigger] children.skip(1)[m]).1.width >= 0
                && children.skip(1)[m].1.height >= 0);
        lemma_nonneg_block_height(children.skip(1), k, acc2);
    }
}

/// Sums of non-negative widths and heights stay non-negative.
proof fn lemma_nonneg_sums(children: Seq<(LayoutObjectKind, LayoutSize)>, acc: i64)
    requires
        acc >= 0,
        forall|k: int|
            0 <= k < children.len() ==> (#[trigger] children[k]).1.width >= 0
                && children[k].1.height >= 0,
    ensures
        crate::layout::layout_object::spec_sum_widths(children, acc) >= 0,
        crate::layout::layout_object::spec_sum_heights(children, acc) >= 0,
    decreases children.len(),
{
    if children.len() > 0 {
        assert(forall|m: int|
            0 <= m < children.skip(1).len() ==> (#[trigger] children.skip(1)[m]).1.width >= 0
                && children.skip(1)[m].1.height >= 0);
        lemma_nonneg_sums(
            children.skip(1),
            crate::strutil::spec_sat_add(acc, children[0].1.width),
        );
        lemma_nonneg_sums(
            children.skip(1),
            crate::strutil::spec_sat_add(acc, children[0].1.height),
        );
    }
}

/// Positions every object of the subtree: each node from its parent's
/// corner and its previous sibling, its children under it, its next
/// sibling beside it.
fn calculate_node_position(
    objects: &mut Vec<LayoutObject>,
    node: Option<usize>,
    parent_point: LayoutPoint,
    previous_sibling_kind: LayoutObjectKind,
    previous_sibling_point: Option<LayoutPoint>,
    previous_sibling_size: Option<LayoutSize>,
)
    requires
        node matches Some(n) ==> n < old(objects)@.len(),
        forall|k: int|
            0 <= k < old(objects)@.len() ==> lobj_links_ok(
                #[trigger] old(objects)@[k],
                k,
                old(objects)@.len() as int,
            ),
        parent_point.x >= 0,
        parent_point.y >= 0,
        previous_sibling_point matches Some(p) ==> p.x >= 0 && p.y >= 0,
        previous_sibling_size matches Some(s) ==> s.width >= 0 && s.height >= 0,
        forall|k: int|
            0 <= k < old(objects)@.len() ==> (#[trigger] old(objects)@[k]).size.width >= 0
                && old(objects)@[k].size.height >= 0,
        forall|k: int|
            0 <= k < old(objects)@.len() ==> (#[trigger] old(objects)@[k]).point.x >= 0
                && old(objects)@[k].point.y >= 0,
    ensures
        final(objects)@.len() == old(objects)@.len(),
        forall|k: int|
            0 <= k < old(objects)@.len() ==> #[trigger] final(objects)@[k] == (LayoutObject {
                point: final(objects)@[k].point,
                ..old(objects)@[k]
            }),
        forall|k: int|
            0 <= k < final(objects)@.len() ==> (#[trigger] final(objects)@[k]).point.x >= 0
                && final(objects)@[k].point.y >= 0,
    decreases lwalk_measure(old(objects)@, node),
{
    let n = match node {
        Some(n) => n,
        None => {
            return ;
        },
    };

    objects[n].compute_position(
        parent_point,
        previous_sibling_kind,
        previous_sibling_point,
        previous_sibling_size,
    );

    let my_point = objects[n].point;
    let first_child = objects[n].first_child;
    calculate_node_position(objects, first_child, my_point, LayoutObjectKind::Block, None, None);

    let next_sibling = objects[n].next_sibling;
    let my_kind = objects[n].kind;
    let my_size = objects[n].size;
    calculate_node_position(
        objects,
        next_sibling,
        parent_point,
        my_kind,
        Some(my_point),
        Some(my_size),
    );
}

/// Collects the drawing commands of the subtree, in pre-order.
fn paint_node(objects: &Vec<LayoutObject>, node: Option<usize>, display_items: &mut Vec<
    DisplayItem,
>)
    requires
        node matches Some(n) ==> n < objects@.len(),
        forall|k: int|
            0 <= k < objects@.len() ==> lobj_links_ok(
                #[trigger] objects@[k],
                k,
                objects@.len() as int,
            ),
        forall|k: int|
            0 <= k < objects@.len() ==> (#[trigger] objects@[k]).style.is_defaulted(),
    ensures
        crate::display_item::items_view(final(display_items)@) == crate::display_item::items_view(
            old(display_items)@,
        ) + spec_paint_tree(objects@, node),
    decreases lwalk_measure(objects@, node),
{
    let n = match node {
        Some(n) => n,
        None => {
            proof {
                assert(crate::display_item::items_view(display_items@) =~= crate::display_item::items_view(
                    display_items@,
                ) + spec_paint_tree(objects@, node));
            }
            return ;
        },
    };
    let mut items = objects[n].paint();
    let ghost own = crate::display_item::items_view(items@);
    proof {
        crate::display_item::lemma_items_view_concat(display_items@, items@);
    }
    display_items.append(&mut items);
    let ghost after_own = crate::display_item::items_view(display_items@);
    let first_child = objects[n].first_child;
    paint_node(objects, first_child, display_items);
    let ghost after_children = crate::display_item::items_view(display_items@);
    let next_sibling = objects[n].next_sibling;
    paint_node(objects, next_sibling, display_items);
    proof {
        assert(crate::display_item::items_view(display_items@) =~= crate::display_item::items_view(
            old(display_items)@,
        ) + spec_paint_tree(objects@, node));
    }
}

/// The hit-test walk: children first, then siblings, then the node itself.
fn find_node_by_position_internal(
    objects: &Vec<LayoutObject>,
    node: Option<usize>,
    position: (i64, i64),
) -> (r: Option<usize>)
    requires
        node matches Some(n) ==> n < objects@.len(),
        forall|k: int|
            0 <= k < objects@.len() ==> lobj_links_ok(
                #[trigger] objects@[k],
                k,
                objects@.len() as int,
            ),
    ensures
        r == spec_find_node(objects@, node, position.0, position.1),
        r matches Some(i) ==> i < objects@.len() && spec_contains(
            objects@[i as int],
            position.0,
            position.1,
        ),
        r is None ==> forall|j: int|
            #![auto]
            in_subtree(objects@, node, j) ==> !spec_contains(objects@[j], position.0, position.1),
    decreases lwalk_measure(objects@, node),
{
    let n = match node {
        Some(n) => n,
        None => {
            return None;
        },
    };

    let first_child = objects[n].first_child;
    let result1 = find_node_by_position_internal(objects, first_child, position);
    if result1.is_some() {
        return result1;
    }

    let next_sibling = objects[n].next_sibling;
    let result2 = find_node_by_position_internal(objects, next_sibling, position);
    if result2.is_some() {
        return result2;
    }

    let o = &objects[n];
    let xmax = crate::strutil::sat_add(o.point.x(), o.size.width());
    let ymax = crate::strutil::sat_add(o.point.y(), o.size.height());
    if o.point.x() <= position.0 && position.0 <= xmax && o.point.y() <= position.1 && position.1
        <= ymax {
        return Some(n);
    }
    proof {
        assert forall|j: int| #![auto]
            in_subtree(objects@, node, j) implies !spec_contains(
            objects@[j],
            position.0,
            position.1,
        ) by {
            assert(j == n as int || in_subtree(objects@, objects@[n as int].first_child, j)
                || in_subtree(objects@, objects@[n as int].next_sibling, j));
        }
    }
    None
}

} // verus!
