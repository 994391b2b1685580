//! Display items: the flat drawing commands a shell consumes.

use vstd::prelude::*;

use crate::layout::computed_style::ComputedStyle;
use crate::layout::computed_style::StyleV;
use crate::layout::layout_object::LayoutPoint;
use crate::layout::layout_object::LayoutSize;

verus! {

/// The value of one drawing command.
pub ghost enum DispV {
    Rect { style: StyleV, layout_point: LayoutPoint, layout_size: LayoutSize },
    Text { text: Seq<char>, style: StyleV, layout_point: LayoutPoint },
}

/// The values of a vector of drawing commands.
pub open spec fn items_view(s: Seq<DisplayItem>) -> Seq<DispV> {
    s.map_values(|d: DisplayItem| d@)
}

/// Splitting a list of drawing commands splits its values.
pub proof fn lemma_items_view_concat(a: Seq<DisplayItem>, b: Seq<DisplayItem>)
    ensures
        items_view(a + b) =~= items_view(a) + items_view(b),
{
}

/// One drawing command: a filled rectangle, or a run of text.
#[derive(Debug, Clone)]
pub enum DisplayItem {
    /// A rectangle with its style, position and size.
    Rect { style: ComputedStyle, layout_point: LayoutPoint, layout_size: LayoutSize },
    /// One line of text with its style and position.
    Text { text: String, style: ComputedStyle, layout_point: LayoutPoint },
}

impl View for DisplayItem {
    type V = DispV;

    open spec fn view(&self) -> DispV {
        match self {
            DisplayItem::Rect { style, layout_point, layout_size } => DispV::Rect {
                style: style@,
                layout_point: *layout_point,
                layout_size: *layout_size,
            },
            DisplayItem::Text { text, style, layout_point } => DispV::Text {
                text: text@,
                style: style@,
                layout_point: *layout_point,
            },
        }
    }
}

impl PartialEq for DisplayItem {
    fn eq(&self, other: &Self) -> (r: bool) {
        match (self, other) {
            (
                DisplayItem::Rect { style: s1, layout_point: p1, layout_size: z1 },
                DisplayItem::Rect { style: s2, layout_point: p2, layout_size: z2 },
            ) => *s1 == *s2 && p1 == p2 && z1 == z2,
            (
                DisplayItem::Text { text: t1, style: s1, layout_point: p1 },
                DisplayItem::Text { text: t2, style: s2, layout_point: p2 },
            ) => { let te = { let a = t1; let b = t2; *a == *b }; te && *s1 == *s2 && p1 == p2 },
            _ => false,
        }
    }
}

impl vstd::std_specs::cmp::PartialEqSpecImpl for DisplayItem {
    open spec fn obeys_eq_spec() -> bool {
        true
    }

    open spec fn eq_spec(&self, other: &DisplayItem) -> bool {
        match (self, other) {
            (
                DisplayItem::Rect { style: s1, layout_point: p1, layout_size: z1 },
                DisplayItem::Rect { style: s2, layout_point: p2, layout_size: z2 },
            ) => s1@ == s2@ && p1 == p2 && z1 == z2,
            (
                DisplayItem::Text { text: t1, style: s1, layout_point: p1 },
                DisplayItem::Text { text: t2, style: s2, layout_point: p2 },
            ) => t1@ == t2@ && s1@ == s2@ && p1 == p2,
            _ => false,
        }
    }
}

} // verus!
