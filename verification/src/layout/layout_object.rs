//! Layout objects: the nodes of the layout tree, their style resolution
//! (cascading, then defaulting), their sizes and their positions.
//!
//! Like the DOM, the layout tree lives in an arena: child and sibling links
//! are indices that point forward, the parent link points backward.

use vstd::prelude::*;

use crate::constants::CHAR_HEIGHT_WITH_PADDING;
use crate::constants::CHAR_WIDTH;
use crate::constants::CONTENT_AREA_WIDTH;
use crate::constants::WINDOW_PADDING;
use crate::constants::WINDOW_WIDTH;
use crate::css::cssom::Declaration;
use crate::css::cssom::Selector;
use crate::css::cssom::StyleSheet;
use crate::display_item::DisplayItem;
use crate::dom::node::NodeKind;
use crate::dom::node::Window;
use crate::layout::computed_style::Color;
use crate::layout::computed_style::ColorV;
use crate::layout::computed_style::ComputedStyle;
use crate::layout::computed_style::DisplayType;
use crate::layout::computed_style::FontSize;
use crate::layout::computed_style::StyleV;
use crate::layout::computed_style::spec_color_code_of_name;
use crate::layout::computed_style::spec_color_name_of_code;
use crate::layout::computed_style::spec_default_display;
use crate::layout::computed_style::spec_display_of_keyword;
use crate::layout::computed_style::spec_white;
use crate::layout::computed_style::spec_black;
use crate::css::token::CssToken;
use crate::strutil::push_char;
use crate::strutil::sat_add;
use crate::strutil::spec_sat_add;
use crate::strutil::str_eq;
use crate::strutil::string_to_chars;

verus! {

/// A position in content-area pixels.
#[derive(Debug, Clone, Copy, PartialEq, Eq, Structural)]
pub struct LayoutPoint {
    pub x: i64,
    pub y: i64,
}

impl LayoutPoint {
    /// A point.
    pub fn new(x: i64, y: i64) -> (r: Self)
        ensures
            r.x == x,
            r.y == y,
    {
        Self { x, y }
    }

    /// The horizontal coordinate.
    pub fn x(&self) -> (r: i64)
        ensures
            r == self.x,
    {
        self.x
    }

    /// The vertical coordinate.
    pub fn y(&self) -> (r: i64)
        ensures
            r == self.y,
    {
        self.y
    }

    /// Sets the horizontal coordinate.
    pub fn set_x(&mut self, x: i64)
        ensures
            *final(self) == (LayoutPoint { x, ..*old(self) }),
    {
        self.x = x;
    }

    /// Sets the vertical coordinate.
    pub fn set_y(&mut self, y: i64)
        ensures
            *final(self) == (LayoutPoint { y, ..*old(self) }),
    {
        self.y = y;
    }
}

/// An extent in pixels.
#[derive(Debug, Clone, Copy, PartialEq, Eq, Structural)]
pub struct LayoutSize {
    pub width: i64,
    pub height: i64,
}

impl LayoutSize {
    /// A size.
    pub fn new(width: i64, height: i64) -> (r: Self)
        ensures
            r.width == width,
            r.height == height,
    {
        Self { width, height }
    }

    /// The width.
    pub fn width(&self) -> (r: i64)
        ensures
            r == self.width,
    {
        self.width
    }

    /// The height.
    pub fn height(&self) -> (r: i64)
        ensures
            r == self.height,
    {
        self.height
    }

    /// Sets the width.
    pub fn set_width(&mut self, width: i64)
        ensures
            *final(self) == (LayoutSize { width, ..*old(self) }),
    {
        self.width = width;
    }

    /// Sets the height.
    pub fn set_height(&mut self, height: i64)
        ensures
            *final(self) == (LayoutSize { height, ..*old(self) }),
    {
        self.height = height;
    }
}

/// How a layout object flows: as a block, inline, or as text.
#[derive(Debug, Copy, Clone, PartialEq, Eq, Structural)]
pub enum LayoutObjectKind {
    Block,
    Inline,
    Text,
}

/// The index of the space at which a line breaks: the rightmost space
/// strictly left of `m + 1`, scanning down from `m`.
pub open spec fn spec_break_scan(s: Seq<char>, m: int) -> Option<int>
    decreases m + 1,
{
    if m < 0 {
        None
    } else if s[m] == ' ' {
        Some(m)
    } else {
        spec_break_scan(s, m - 1)
    }
}

/// Finds the rightmost space left of `max_index`; without one, the break
/// falls at `max_index` itself.
pub fn find_index_for_line_break(line: &Vec<char>, max_index: usize) -> (r: usize)
    requires
        max_index <= line@.len(),
    ensures
        r == (match spec_break_scan(line@, max_index - 1) {
            Some(i) => i,
            None => max_index as int,
        }),
        r <= max_index,
{
    let mut i: usize = max_index;
    while i > 0
        invariant
            i <= max_index <= line@.len(),
            spec_break_scan(line@, max_index - 1) == spec_break_scan(line@, i - 1),
        decreases i,
    {
        i = i - 1;
        if line[i] == ' ' {
            return i;
        }
    }
    max_index
}

/// The first index at or after `i` that is not a space.
pub open spec fn spec_skip_spaces(s: Seq<char>, i: int) -> int
    decreases s.len() - i,
{
    if 0 <= i < s.len() && s[i] == ' ' {
        spec_skip_spaces(s, i + 1)
    } else {
        i
    }
}

/// The end of the non-space content in `[lo, hi)`: spaces at the right
/// edge are shed.
pub open spec fn spec_shed_right(s: Seq<char>, lo: int, hi: int) -> int
    decreases hi,
{
    if hi > lo && 0 < hi <= s.len() && s[hi - 1] == ' ' {
        spec_shed_right(s, lo, hi - 1)
    } else {
        hi
    }
}

/// The characters from `from` on, with leading and trailing spaces shed.
pub open spec fn spec_trim_tail(s: Seq<char>, from: int) -> Seq<char> {
    let lo = spec_skip_spaces(s, from);
    let hi = spec_shed_right(s, lo, s.len() as int);
    s.subrange(lo, hi)
}

/// The index `spec_skip_spaces` stops at is past `from` whenever a space
/// sits there, and the trimmed tail is never longer than the raw one.
pub proof fn lemma_trim_tail_len(s: Seq<char>, from: int)
    requires
        0 <= from <= s.len(),
    ensures
        from <= spec_skip_spaces(s, from) <= s.len(),
        spec_trim_tail(s, from).len() <= s.len() - from,
        (from < s.len() && s[from] == ' ') ==> spec_trim_tail(s, from).len() < s.len() - from,
    decreases s.len() - from,
{
    lemma_skip_spaces_bounds(s, from);
    lemma_shed_right_bounds(s, spec_skip_spaces(s, from), s.len() as int);
}

/// Bounds of the leading-space scan.
proof fn lemma_skip_spaces_bounds(s: Seq<char>, i: int)
    requires
        0 <= i <= s.len(),
    ensures
        i <= spec_skip_spaces(s, i) <= s.len(),
        (i < s.len() && s[i] == ' ') ==> spec_skip_spaces(s, i) > i,
    decreases s.len() - i,
{
    if i < s.len() && s[i] == ' ' {
        lemma_skip_spaces_bounds(s, i + 1);
    }
}

/// Bounds of the trailing-space scan.
proof fn lemma_shed_right_bounds(s: Seq<char>, lo: int, hi: int)
    requires
        0 <= lo <= hi <= s.len(),
    ensures
        lo <= spec_shed_right(s, lo, hi) <= hi,
    decreases hi,
{
    if hi > lo && s[hi - 1] == ' ' {
        lemma_shed_right_bounds(s, lo, hi - 1);
    }
}

/// The normalisation fold: newlines become spaces, a run of spaces between
/// words collapses to one, and no space is emitted before the first word
/// or after the last.
pub open spec fn spec_normalize(s: Seq<char>, out: Seq<char>, pending: bool) -> Seq<char>
    decreases s.len(),
{
    if s.len() == 0 {
        out
    } else {
        let d = if s[0] == '\n' {
            ' '
        } else {
            s[0]
        };
        if d == ' ' {
            spec_normalize(
                s.skip(1),
                out,
                if out.len() > 0 {
                    true
                } else {
                    pending
                },
            )
        } else if pending {
            spec_normalize(s.skip(1), out.push(' ').push(d), false)
        } else {
            spec_normalize(s.skip(1), out.push(d), false)
        }
    }
}

/// The views of a vector of strings.
pub open spec fn strings_view(s: Seq<String>) -> Seq<Seq<char>> {
    s.map_values(|x: String| x@)
}

/// The word-wrap of a line at glyph width `cw`: while the line is wider
/// than the limit it is cut at the break index (the rightmost space under
/// the limit, or the limit itself), the head is emitted, and the tail is
/// wrapped with its edge spaces shed.
pub open spec fn spec_split_text(line: Seq<char>, cw: int) -> Seq<Seq<char>>
    decreases line.len(),
    when 1 <= cw <= WINDOW_WIDTH + WINDOW_PADDING
    via spec_split_text_decreases
{
    let maxi = (WINDOW_WIDTH + WINDOW_PADDING) as int / cw;
    if line.len() > maxi {
        let k = match spec_break_scan(line, maxi - 1) {
            Some(i) => i,
            None => maxi,
        };
        seq![line.take(k)] + spec_split_text(spec_trim_tail(line, k), cw)
    } else {
        seq![line]
    }
}

/// The wrap terminates: every emitted head is followed by a strictly
/// shorter tail.
#[via_fn]
proof fn spec_split_text_decreases(line: Seq<char>, cw: int) {
    let maxi = (WINDOW_WIDTH + WINDOW_PADDING) as int / cw;
    assert(1 <= maxi) by (nonlinear_arith)
        requires
            maxi == 605int / cw,
            1 <= cw <= 605,
    ;
    if line.len() > maxi {
        let k = match spec_break_scan(line, maxi - 1) {
            Some(i) => i,
            None => maxi,
        };
        lemma_break_scan_space(line, maxi - 1);
        assert(0 <= k <= line.len());
        lemma_trim_tail_len(line, k);
        if k == 0 {
            assert(line[0] == ' ');
        }
    }
}

/// One word-wrap step: the line is cut at the break index for the width
/// limit, the head is emitted, and the tail (leading and trailing spaces
/// shed) is wrapped in turn.
pub fn split_text(line: Vec<char>, char_width: i64) -> (r: Vec<String>)
    requires
        1 <= char_width <= WINDOW_WIDTH + WINDOW_PADDING,
    ensures
        strings_view(r@) == spec_split_text(line@, char_width as int),
        forall|i: int|
            0 <= i < r@.len() ==> (#[trigger] r@[i])@.len() * char_width <= (WINDOW_WIDTH
                + WINDOW_PADDING) as int,
    decreases line@.len(),
{
    let mut result: Vec<String> = Vec::new();
    let limit = WINDOW_WIDTH + WINDOW_PADDING;
    let maxi = (limit / char_width) as usize;
    proof {
        assert(1 <= maxi) by (nonlinear_arith)
            requires
                maxi == (605int / char_width as int),
                1 <= char_width <= 605,
        ;
    }
    if line.len() > maxi {
        let k = find_index_for_line_break(&line, maxi);
        let mut head = String::new();
        let mut i: usize = 0;
        while i < k
            invariant
                k <= line@.len(),
                i <= k,
                head@ == line@.take(i as int),
            decreases k - i,
        {
            push_char(&mut head, line[i]);
            proof {
                assert(line@.take(i + 1) =~= line@.take(i as int).push(line@[i as int]));
            }
            i = i + 1;
        }
        let tail = trim_spaces(&line, k);
        proof {
            assert(head@.len() == k as int);
            assert(k as int * char_width <= limit as int) by (nonlinear_arith)
                requires
                    k <= maxi,
                    maxi == (605int / char_width as int),
                    1 <= char_width,
                    limit == 605,
            ;
            if k == 0 {
                assert(spec_break_scan(line@, maxi - 1) == Some(0int) ==> line@[0] == ' ') by {
                    lemma_break_scan_space(line@, maxi - 1);
                }
            }
            assert(tail@.len() < line@.len());
        }
        result.push(head);
        let rest = split_text(tail, char_width);
        let mut j: usize = 0;
        while j < rest.len()
            invariant
                j <= rest@.len(),
                strings_view(result@) =~= seq![line@.take(k as int)] + strings_view(rest@).take(
                    j as int,
                ),
                strings_view(rest@) == spec_split_text(tail@, char_width as int),
                forall|i: int|
                    0 <= i < rest@.len() ==> (#[trigger] rest@[i])@.len() * char_width <= (
                    WINDOW_WIDTH + WINDOW_PADDING) as int,
                forall|i: int|
                    0 <= i < result@.len() ==> (#[trigger] result@[i])@.len() * char_width <= (
                    WINDOW_WIDTH + WINDOW_PADDING) as int,
                1 <= char_width,
            decreases rest@.len() - j,
        {
            let ghost rprev = result@;
            result.push(rest[j].clone());
            proof {
                assert(result@ == rprev.push(result@.last()));
                assert(result@.last()@ == rest@[j as int]@);
                assert(strings_view(result@) =~= seq![line@.take(k as int)] + strings_view(
                    rest@,
                ).take(j + 1)) by {
                    let lhs = strings_view(result@);
                    let rhs = seq![line@.take(k as int)] + strings_view(rest@).take(j + 1);
                    assert(strings_view(rprev).len() == rprev.len());
                    assert(strings_view(rprev).len() == 1 + j);
                    assert(lhs.len() == rprev.len() + 1);
                    assert(strings_view(rest@).take(j + 1).len() == j + 1);
                    assert(lhs.len() == rhs.len());
                    assert forall|m: int| 0 <= m < lhs.len() implies lhs[m] == rhs[m] by {
                        if m < rprev.len() {
                            assert(result@[m] == rprev[m]);
                            assert(lhs[m] == strings_view(rprev)[m]);
                            assert(strings_view(rprev)[m] == (seq![line@.take(k as int)]
                                + strings_view(rest@).take(j as int))[m]);
                        } else {
                            assert(lhs[m] == result@.last()@);
                            assert(rhs[m] == strings_view(rest@)[j as int]);
                            assert(strings_view(rest@)[j as int] == rest@[j as int]@);
                        }
                    }
                }
            }
            j = j + 1;
        }
        proof {
            assert(strings_view(rest@).take(rest@.len() as int) =~= strings_view(rest@));
            assert(strings_view(result@) =~= spec_split_text(line@, char_width as int));
        }
        result
    } else {
        let mut s = String::new();
        let mut i: usize = 0;
        while i < line.len()
            invariant
                i <= line@.len(),
                s@ == line@.take(i as int),
            decreases line@.len() - i,
        {
            push_char(&mut s, line[i]);
            proof {
                assert(line@.take(i + 1) =~= line@.take(i as int).push(line@[i as int]));
            }
            i = i + 1;
        }
        proof {
            assert(s@ =~= line@);
            assert(line@.len() as int * char_width <= 605int) by (nonlinear_arith)
                requires
                    line@.len() <= (605int / char_width as int),
                    1 <= char_width,
            ;
        }
        result.push(s);
        proof {
            assert(strings_view(result@) =~= spec_split_text(line@, char_width as int));
        }
        result
    }
}

/// A break found by the scan is a space.
proof fn lemma_break_scan_space(s: Seq<char>, m: int)
    ensures
        spec_break_scan(s, m) matches Some(i) ==> 0 <= i <= m && s[i] == ' ',
    decreases m + 1,
{
    if m >= 0 && s[m] != ' ' {
        lemma_break_scan_space(s, m - 1);
    }
}

/// The characters from `from` on, with leading and trailing spaces shed.
fn trim_spaces(line: &Vec<char>, from: usize) -> (r: Vec<char>)
    requires
        from <= line@.len(),
    ensures
        r@ == spec_trim_tail(line@, from as int),
        r@.len() <= line@.len() - from,
        (from < line@.len() && line@[from as int] == ' ') ==> r@.len() < line@.len() - from,
{
    proof {
        lemma_trim_tail_len(line@, from as int);
    }
    let mut start = from;
    while start < line.len() && line[start] == ' '
        invariant
            from <= start <= line@.len(),
            spec_skip_spaces(line@, from as int) == spec_skip_spaces(line@, start as int),
        decreases line@.len() - start,
    {
        start = start + 1;
    }
    proof {
        assert(start as int == spec_skip_spaces(line@, from as int));
    }
    let mut end = line.len();
    while end > start && line[end - 1] == ' '
        invariant
            start <= end <= line@.len(),
            spec_shed_right(line@, start as int, line@.len() as int) == spec_shed_right(
                line@,
                start as int,
                end as int,
            ),
        decreases end,
    {
        end = end - 1;
    }
    proof {
        assert(end as int == spec_shed_right(line@, start as int, line@.len() as int));
    }
    let mut r: Vec<char> = Vec::new();
    let mut i = start;
    while i < end
        invariant
            start <= i <= end <= line@.len(),
            r@ == line@.subrange(start as int, i as int),
        decreases end - i,
    {
        r.push(line[i]);
        proof {
            assert(line@.subrange(start as int, i + 1) =~= line@.subrange(
                start as int,
                i as int,
            ).push(line@[i as int]));
        }
        i = i + 1;
    }
    r
}

/// Newlines become spaces, runs of spaces collapse to one, and the result
/// neither starts nor ends with a space.
pub fn normalize_text(t: &str) -> (r: Vec<char>)
    ensures
        r@ == spec_normalize(t@, Seq::<char>::empty(), false),
        forall|i: int| 0 <= i < r@.len() ==> (#[trigger] r@[i]) != '\n',
        forall|i: int| 0 < i < r@.len() ==> !((#[trigger] r@[i]) == ' ' && r@[i - 1] == ' '),
        r@.len() > 0 ==> r@[0] != ' ' && r@[r@.len() - 1] != ' ',
{
    let chars = string_to_chars(t);
    let mut out: Vec<char> = Vec::new();
    let mut pending = false;
    let mut i: usize = 0;
    proof {
        assert(chars@.skip(0) =~= chars@);
    }
    while i < chars.len()
        invariant
            forall|j: int| 0 <= j < out@.len() ==> (#[trigger] out@[j]) != '\n',
            forall|j: int|
                0 < j < out@.len() ==> !((#[trigger] out@[j]) == ' ' && out@[j - 1] == ' '),
            out@.len() > 0 ==> out@[0] != ' ' && out@[out@.len() - 1] != ' ',
            pending ==> out@.len() > 0,
            i <= chars@.len(),
            chars@ == t@,
            spec_normalize(t@, Seq::<char>::empty(), false) == spec_normalize(
                chars@.skip(i as int),
                out@,
                pending,
            ),
        decreases chars@.len() - i,
    {
        proof {
            assert(chars@.skip(i as int)[0] == chars@[i as int]);
            assert(chars@.skip(i as int).skip(1) =~= chars@.skip(i + 1));
        }
        let c = chars[i];
        let d = if c == '\n' {
            ' '
        } else {
            c
        };
        if d == ' ' {
            if out.len() > 0 {
                pending = true;
            }
        } else {
            if pending {
                out.push(' ');
                pending = false;
            }
            out.push(d);
        }
        i = i + 1;
    }
    proof {
        assert(chars@.skip(chars@.len() as int) =~= Seq::<char>::empty());
    }
    out
}

/// Whether a selector picks the given node: a type selector matches the
/// tag name, a class or id selector the corresponding attribute, and the
/// unknown selector nothing.  Texts and the document match nothing.
pub open spec fn spec_selected(kind: NodeKind, selector: Selector) -> bool {
    match kind {
        NodeKind::Element(e) => match selector {
            Selector::TypeSelector(name) => crate::dom::node::spec_tag_name(e.kind) == name@,
            Selector::ClassSelector(class_name) => exists|k: int|
                0 <= k < e.attributes@.len() && (#[trigger] e.attributes@[k])@.name == "class"@
                    && e.attributes@[k]@.value == class_name@,
            Selector::IdSelector(id_name) => exists|k: int|
                0 <= k < e.attributes@.len() && (#[trigger] e.attributes@[k])@.name == "id"@
                    && e.attributes@[k]@.value == id_name@,
            Selector::UnknownSelector => false,
        },
        _ => false,
    }
}

/// One declaration applied to a style: the three supported properties set
/// their field, an unknown color falls back to the property's default, an
/// unknown display keyword to `none`; everything else is ignored.
pub open spec fn spec_apply_declaration(style: StyleV, d: Declaration) -> StyleV {
    if d.property@ == "background-color"@ {
        match d.value {
            CssToken::Ident(v) => StyleV {
                background_color: Some(
                    if spec_color_code_of_name(v@) is Some {
                        ColorV { name: Some(v@), code: spec_color_code_of_name(v@).unwrap() }
                    } else {
                        spec_white()
                    },
                ),
                ..style
            },
            CssToken::HashToken(v) => StyleV {
                background_color: Some(
                    if spec_color_name_of_code(v@) is Some {
                        ColorV { name: spec_color_name_of_code(v@), code: v@ }
                    } else {
                        spec_white()
                    },
                ),
                ..style
            },
            _ => style,
        }
    } else if d.property@ == "color"@ {
        match d.value {
            CssToken::Ident(v) => StyleV {
                color: Some(
                    if spec_color_code_of_name(v@) is Some {
                        ColorV { name: Some(v@), code: spec_color_code_of_name(v@).unwrap() }
                    } else {
                        spec_black()
                    },
                ),
                ..style
            },
            CssToken::HashToken(v) => StyleV {
                color: Some(
                    if spec_color_name_of_code(v@) is Some {
                        ColorV { name: spec_color_name_of_code(v@), code: v@ }
                    } else {
                        spec_black()
                    },
                ),
                ..style
            },
            _ => style,
        }
    } else if d.property@ == "display"@ {
        match d.value {
            CssToken::Ident(v) => StyleV {
                display: Some(
                    match spec_display_of_keyword(v@) {
                        Some(dt) => dt,
                        None => DisplayType::DisplayNone,
                    },
                ),
                ..style
            },
            _ => style,
        }
    } else {
        style
    }
}

/// A list of declarations applied left to right.
pub open spec fn spec_cascade_declarations(style: StyleV, decls: Seq<Declaration>) -> StyleV
    decreases decls.len(),
{
    if decls.len() == 0 {
        style
    } else {
        spec_cascade_declarations(spec_apply_declaration(style, decls[0]), decls.skip(1))
    }
}

/// Every rule whose selector picks the node, applied in source order.
pub open spec fn spec_cascade_rules(
    style: StyleV,
    kind: NodeKind,
    rules: Seq<crate::css::cssom::QualifiedRule>,
) -> StyleV
    decreases rules.len(),
{
    if rules.len() == 0 {
        style
    } else {
        let next = if spec_selected(kind, rules[0].selector) {
            spec_cascade_declarations(style, rules[0].declarations@)
        } else {
            style
        };
        spec_cascade_rules(next, kind, rules.skip(1))
    }
}

/// The style a fresh layout object starts from: everything absent.
pub open spec fn spec_empty_style() -> StyleV {
    StyleV {
        background_color: None,
        color: None,
        display: None,
        font_size: None,
        text_decoration: None,
        height: None,
        width: None,
    }
}

/// The display a node ends up with under a stylesheet: the cascaded value
/// when one was declared, else the initial value for the node's kind.
pub open spec fn spec_final_display(
    kind: NodeKind,
    rules: Seq<crate::css::cssom::QualifiedRule>,
) -> DisplayType {
    match spec_cascade_rules(spec_empty_style(), kind, rules).display {
        Some(d) => d,
        None => spec_default_display(kind),
    }
}

/// One node of the layout tree.
#[derive(Debug)]
pub struct LayoutObject {
    pub kind: LayoutObjectKind,
    pub node: usize,
    pub node_kind: NodeKind,
    pub first_child: Option<usize>,
    pub next_sibling: Option<usize>,
    pub parent: Option<usize>,
    pub style: ComputedStyle,
    pub point: LayoutPoint,
    pub size: LayoutSize,
}

impl LayoutObject {
    /// The unlinked, unstyled object `new` builds, usable in contracts.
    pub open spec fn new_spec(node: usize, node_kind: NodeKind, parent_obj: Option<usize>) -> LayoutObject {
        LayoutObject {
            kind: LayoutObjectKind::Block,
            node,
            node_kind,
            first_child: None,
            next_sibling: None,
            parent: parent_obj,
            style: ComputedStyle {
                background_color: None,
                color: None,
                display: None,
                font_size: None,
                text_decoration: None,
                height: None,
                width: None,
            },
            point: LayoutPoint { x: 0, y: 0 },
            size: LayoutSize { width: 0, height: 0 },
        }
    }

    /// A fresh layout object for the DOM node `node`, unlinked, unstyled,
    /// at the origin.
    pub fn new(node: usize, node_kind: NodeKind, parent_obj: Option<usize>) -> (r: Self)
        ensures
            r.kind == LayoutObjectKind::Block,
            r.node == node,
            r.node_kind@ == node_kind@,
            r.first_child is None,
            r.next_sibling is None,
            r.parent == parent_obj,
            r.style@ == spec_empty_style(),
            r.point == (LayoutPoint { x: 0, y: 0 }),
            r.size == (LayoutSize { width: 0, height: 0 }),
    {
        Self {
            kind: LayoutObjectKind::Block,
            node,
            node_kind,
            first_child: None,
            next_sibling: None,
            parent: parent_obj,
            style: ComputedStyle::new(),
            point: LayoutPoint::new(0, 0),
            size: LayoutSize::new(0, 0),
        }
    }

    /// Whether `selector` picks this object's DOM node.
    pub fn is_node_selected(&self, selector: &Selector) -> (r: bool)
        ensures
            r == spec_selected(self.node_kind, *selector),
    {
        match &self.node_kind {
            NodeKind::Element(e) => match selector {
                Selector::TypeSelector(tag_text) => {
                    let tag = e.kind.tag_name();
                    str_eq(&tag, tag_text.as_str())
                },
                Selector::ClassSelector(class_name) => attr_matches(
                    &e.attributes,
                    "class",
                    class_name,
                ),
                Selector::IdSelector(id_name) => attr_matches(&e.attributes, "id", id_name),
                Selector::UnknownSelector => false,
            },
            _ => false,
        }
    }

    /// Applies the declarations of one matching rule, in order.
    pub fn cascading_style(&mut self, declarations: &Vec<Declaration>)
        ensures
            final(self).style@ == spec_cascade_declarations(old(self).style@, declarations@),
            *final(self) == (LayoutObject { style: final(self).style, ..*old(self) }),
    {
        let mut i: usize = 0;
        proof {
            assert(declarations@.skip(0) =~= declarations@);
        }
        while i < declarations.len()
            invariant
                i <= declarations@.len(),
                spec_cascade_declarations(old(self).style@, declarations@)
                    == spec_cascade_declarations(self.style@, declarations@.skip(i as int)),
                *self == (LayoutObject { style: self.style, ..*old(self) }),
            decreases declarations@.len() - i,
        {
            let declaration = &declarations[i];
            proof {
                assert(declarations@.skip(i as int)[0] == declarations@[i as int]);
                assert(declarations@.skip(i as int).skip(1) =~= declarations@.skip(i + 1));
            }
            if str_eq(&declaration.property, "background-color") {
                match &declaration.value {
                    CssToken::Ident(value) => {
                        let color = match Color::from_name(value.as_str()) {
                            Ok(color) => color,
                            Err(_) => Color::white(),
                        };
                        self.style.set_background_color(color);
                    },
                    CssToken::HashToken(color_code) => {
                        let color = match Color::from_code(color_code.as_str()) {
                            Ok(color) => color,
                            Err(_) => Color::white(),
                        };
                        self.style.set_background_color(color);
                    },
                    _ => {},
                }
            } else if str_eq(&declaration.property, "color") {
                match &declaration.value {
                    CssToken::Ident(value) => {
                        let color = match Color::from_name(value.as_str()) {
                            Ok(color) => color,
                            Err(_) => Color::black(),
                        };
                        self.style.set_color(color);
                    },
                    CssToken::HashToken(color_code) => {
                        let color = match Color::from_code(color_code.as_str()) {
                            Ok(color) => color,
                            Err(_) => Color::black(),
                        };
                        self.style.set_color(color);
                    },
                    _ => {},
                }
            } else if str_eq(&declaration.property, "display") {
                match &declaration.value {
                    CssToken::Ident(value) => {
                        let display_type = match DisplayType::from_str(value.as_str()) {
                            Ok(display_type) => display_type,
                            Err(_) => DisplayType::DisplayNone,
                        };
                        self.style.set_display(display_type);
                    },
                    _ => {},
                }
            }
            i = i + 1;
        }
        proof {
            assert(declarations@.skip(declarations@.len() as int) =~= Seq::<
                Declaration,
            >::empty());
        }
    }

    /// Fills the fields cascading left absent, from the parent style and
    /// the node's kind.
    pub fn defaulting_style(&mut self, kind: &NodeKind, parent_style: Option<ComputedStyle>)
        requires
            parent_style matches Some(p) ==> p.is_defaulted(),
        ensures
            final(self).style.is_defaulted(),
            *final(self) == (LayoutObject { style: final(self).style, ..*old(self) }),
            final(self).style@ == spec_defaulted(old(self).style@, kind@, opt_style_v(parent_style)),
    {
        self.style.defaulting(kind, parent_style);
        proof {
            assert(final(self).style@ == spec_defaulted(
                old(self).style@,
                kind@,
                opt_style_v(parent_style),
            ));
        }
    }

    /// Pins the object's kind down from the final display: an element is a
    /// block or inline object, a text node a text object.  The document
    /// never becomes a layout object.
    pub fn update_kind(&mut self)
        requires
            old(self).style.display is Some,
    ensures
            *final(self) == (LayoutObject { kind: final(self).kind, ..*old(self) }),
            final(self).kind == (match old(self).node_kind {
                NodeKind::Text(_) => LayoutObjectKind::Text,
                _ => match old(self).style.display.unwrap() {
                    DisplayType::Block => LayoutObjectKind::Block,
                    DisplayType::Inline => LayoutObjectKind::Inline,
                    DisplayType::DisplayNone => old(self).kind,
                },
            }),
    {
        match &self.node_kind {
            NodeKind::Text(_) => {
                self.kind = LayoutObjectKind::Text;
            },
            _ => {
                match self.style.display() {
                    DisplayType::Block => {
                        self.kind = LayoutObjectKind::Block;
                    },
                    DisplayType::Inline => {
                        self.kind = LayoutObjectKind::Inline;
                    },
                    DisplayType::DisplayNone => {},
                }
            },
        }
    }
}

/// The height of a block: children's heights summed, but an inline child
/// following an inline child adds nothing (it flows on the same row).
pub open spec fn spec_block_height(
    children: Seq<(LayoutObjectKind, LayoutSize)>,
    prev: LayoutObjectKind,
    acc: i64,
) -> i64
    decreases children.len(),
{
    if children.len() == 0 {
        acc
    } else {
        let (k, sz) = children[0];
        let acc2 = if prev == LayoutObjectKind::Block || k == LayoutObjectKind::Block {
            spec_sat_add(acc, sz.height)
        } else {
            acc
        };
        spec_block_height(children.skip(1), k, acc2)
    }
}

/// The widths of the children, summed.
pub open spec fn spec_sum_widths(children: Seq<(LayoutObjectKind, LayoutSize)>, acc: i64) -> i64
    decreases children.len(),
{
    if children.len() == 0 {
        acc
    } else {
        spec_sum_widths(children.skip(1), spec_sat_add(acc, children[0].1.width))
    }
}

/// The heights of the children, summed.
pub open spec fn spec_sum_heights(children: Seq<(LayoutObjectKind, LayoutSize)>, acc: i64) -> i64
    decreases children.len(),
{
    if children.len() == 0 {
        acc
    } else {
        spec_sum_heights(children.skip(1), spec_sat_add(acc, children[0].1.height))
    }
}

/// An integer clamped into the i64 range.
pub open spec fn spec_clamp_i64(x: int) -> i64 {
    if x > i64::MAX {
        i64::MAX
    } else if x < i64::MIN {
        i64::MIN
    } else {
        x as i64
    }
}

/// The glyph-scale of a font size.
pub open spec fn spec_font_ratio(f: FontSize) -> int {
    match f {
        FontSize::Medium => 1,
        FontSize::XLarge => 2,
        FontSize::XXLarge => 3,
    }
}

/// The size of a text of `len` characters at scale `ratio`: the width is
/// one glyph cell per character up to the content width; a wider text
/// wraps, and the height counts the wrapped rows.
pub open spec fn spec_text_size(len: int, ratio: int) -> LayoutSize {
    let w = CHAR_WIDTH as int * ratio * len;
    if w > CONTENT_AREA_WIDTH as int {
        let rows = if w % (CONTENT_AREA_WIDTH as int) == 0 {
            w / (CONTENT_AREA_WIDTH as int)
        } else {
            w / (CONTENT_AREA_WIDTH as int) + 1
        };
        LayoutSize {
            width: CONTENT_AREA_WIDTH,
            height: spec_clamp_i64(CHAR_HEIGHT_WITH_PADDING as int * ratio * rows),
        }
    } else {
        LayoutSize {
            width: spec_clamp_i64(w),
            height: spec_clamp_i64(CHAR_HEIGHT_WITH_PADDING as int * ratio),
        }
    }
}

/// The vertical position of the `i`-th wrapped line under `base`.
pub open spec fn spec_line_y(base: i64, i: int) -> i64
    decreases i,
{
    if i <= 0 {
        base
    } else {
        spec_sat_add(spec_line_y(base, i - 1), CHAR_HEIGHT_WITH_PADDING)
    }
}

/// The drawing commands of one object: nothing for `display: none` or an
/// inline object; one rectangle for a block element; for a text object one
/// text line per wrapped row of its normalised content, stacked one line
/// advance apart.
pub open spec fn spec_paint_obj(o: LayoutObject) -> Seq<crate::display_item::DispV>
    recommends
        o.style.is_defaulted(),
{
    if o.style.display.unwrap() == DisplayType::DisplayNone {
        Seq::empty()
    } else {
        match o.kind {
            LayoutObjectKind::Block => match o.node_kind {
                NodeKind::Element(_) => seq![
                    crate::display_item::DispV::Rect {
                        style: o.style@,
                        layout_point: o.point,
                        layout_size: o.size,
                    },
                ],
                _ => Seq::empty(),
            },
            LayoutObjectKind::Inline => Seq::empty(),
            LayoutObjectKind::Text => match o.node_kind {
                NodeKind::Text(t) => {
                    let lines = spec_split_text(
                        spec_normalize(t@, Seq::<char>::empty(), false),
                        CHAR_WIDTH as int * spec_font_ratio(o.style.font_size.unwrap()),
                    );
                    Seq::new(
                        lines.len(),
                        |i: int|
                            crate::display_item::DispV::Text {
                                text: lines[i],
                                style: o.style@,
                                layout_point: LayoutPoint { x: o.point.x, y: spec_line_y(o.point.y, i) },
                            },
                    )
                },
                _ => Seq::empty(),
            },
        }
    }
}

impl LayoutObject {
    /// Computes this object's size from its parent's size and its
    /// children's kinds and sizes: a block takes the parent's width and
    /// stacks its children's heights; an inline object sums its children
    /// in both directions; a text object measures its characters.
    pub fn compute_size(
        &mut self,
        parent_size: LayoutSize,
        children: &Vec<(LayoutObjectKind, LayoutSize)>,
    )
        requires
            old(self).style.is_defaulted(),
        ensures
            *final(self) == (LayoutObject { size: final(self).size, ..*old(self) }),
            final(self).size == (match old(self).kind {
                LayoutObjectKind::Block => LayoutSize {
                    width: parent_size.width,
                    height: spec_block_height(children@, LayoutObjectKind::Block, 0),
                },
                LayoutObjectKind::Inline => LayoutSize {
                    width: spec_sum_widths(children@, 0),
                    height: spec_sum_heights(children@, 0),
                },
                LayoutObjectKind::Text => match old(self).node_kind {
                    NodeKind::Text(t) => spec_text_size(
                        t@.len() as int,
                        spec_font_ratio(old(self).style.font_size.unwrap()),
                    ),
                    _ => old(self).size,
                },
            }),
    {
        let mut size = LayoutSize::new(0, 0);

        match self.kind {
            LayoutObjectKind::Block => {
                size.set_width(parent_size.width());
                let mut height: i64 = 0;
                let mut previous_child_kind = LayoutObjectKind::Block;
                let mut i: usize = 0;
                proof {
                    assert(children@.skip(0) =~= children@);
                }
                while i < children.len()
                    invariant
                        i <= children@.len(),
                        spec_block_height(children@, LayoutObjectKind::Block, 0)
                            == spec_block_height(
                            children@.skip(i as int),
                            previous_child_kind,
                            height,
                        ),
                    decreases children@.len() - i,
                {
                    proof {
                        assert(children@.skip(i as int)[0] == children@[i as int]);
                        assert(children@.skip(i as int).skip(1) =~= children@.skip(i + 1));
                    }
                    let (k, sz) = children[i];
                    if previous_child_kind == LayoutObjectKind::Block || k
                        == LayoutObjectKind::Block {
                        height = sat_add(height, sz.height());
                    }
                    previous_child_kind = k;
                    i = i + 1;
                }
                size.set_height(height);
            },
            LayoutObjectKind::Inline => {
                let mut width: i64 = 0;
                let mut height: i64 = 0;
                let mut i: usize = 0;
                proof {
                    assert(children@.skip(0) =~= children@);
                }
                while i < children.len()
                    invariant
                        i <= children@.len(),
                        spec_sum_widths(children@, 0) == spec_sum_widths(
                            children@.skip(i as int),
                            width,
                        ),
                        spec_sum_heights(children@, 0) == spec_sum_heights(
                            children@.skip(i as int),
                            height,
                        ),
                    decreases children@.len() - i,
                {
                    proof {
                        assert(children@.skip(i as int)[0] == children@[i as int]);
                        assert(children@.skip(i as int).skip(1) =~= children@.skip(i + 1));
                    }
                    let (_k, sz) = children[i];
                    width = sat_add(width, sz.width());
                    height = sat_add(height, sz.height());
                    i = i + 1;
                }
                size.set_width(width);
                size.set_height(height);
            },
            LayoutObjectKind::Text => {
                match &self.node_kind {
                    NodeKind::Text(t) => {
                        let ratio: i64 = match self.style.font_size() {
                            FontSize::Medium => 1,
                            FontSize::XLarge => 2,
                            FontSize::XXLarge => 3,
                        };
                        let len = vstd::string::StrSliceExecFns::unicode_len(t.as_str());
                        let cw128: i128 = (CHAR_WIDTH * ratio) as i128;
                        let len128: i128 = len as i128;
                        proof {
                            assert(cw128 * len128 >= 0 && cw128 * len128 <= 24 * (
                            u64::MAX as i128)) by (nonlinear_arith)
                                requires
                                    0 <= cw128 <= 24,
                                    0 <= len128 <= u64::MAX as i128,
                            ;
                        }
                        let w: i128 = cw128 * len128;
                        if w > CONTENT_AREA_WIDTH as i128 {
                            size.set_width(CONTENT_AREA_WIDTH);
                            let caw = CONTENT_AREA_WIDTH as i128;
                            let line_num: i128 = if w % caw == 0 {
                                w / caw
                            } else {
                                w / caw + 1
                            };
                            let hr128: i128 = (CHAR_HEIGHT_WITH_PADDING * ratio) as i128;
                            proof {
                                assert(0 <= w / caw <= w) by (nonlinear_arith)
                                    requires
                                        0 <= w,
                                        caw == 590,
                                ;
                                assert(hr128 * line_num >= 0 && hr128 * line_num <= 60 * (24 * (
                                u64::MAX as i128) + 1)) by (nonlinear_arith)
                                    requires
                                        0 <= hr128 <= 60,
                                        0 <= line_num <= 24 * (u64::MAX as i128) + 1,
                                ;
                            }
                            let h: i128 = hr128 * line_num;
                            let clamped: i64 = if h > i64::MAX as i128 {
                                i64::MAX
                            } else {
                                h as i64
                            };
                            size.set_height(clamped);
                        } else {
                            size.set_width(w as i64);
                            size.set_height(CHAR_HEIGHT_WITH_PADDING * ratio);
                        }
                    },
                    _ => {
                        size = self.size;
                    },
                }
            },
        }

        self.size = size;
    }

    /// Computes this object's position from its parent's position and the
    /// previous sibling: blocks stack downward, an inline object after an
    /// inline object flows rightward, and anything else starts at the
    /// parent's corner.
    pub fn compute_position(
        &mut self,
        parent_point: LayoutPoint,
        previous_sibling_kind: LayoutObjectKind,
        previous_sibling_point: Option<LayoutPoint>,
        previous_sibling_size: Option<LayoutSize>,
    )
        ensures
            *final(self) == (LayoutObject { point: final(self).point, ..*old(self) }),
            final(self).point == spec_position(
                old(self).kind,
                parent_point,
                previous_sibling_kind,
                previous_sibling_point,
                previous_sibling_size,
            ),
    {
        let mut point = LayoutPoint::new(0, 0);

        let self_block = self.kind == LayoutObjectKind::Block;
        let prev_block = previous_sibling_kind == LayoutObjectKind::Block;
        if self_block || prev_block {
            match (previous_sibling_size, previous_sibling_point) {
                (Some(size), Some(pos)) => {
                    point.set_y(sat_add(pos.y(), size.height()));
                },
                _ => {
                    point.set_y(parent_point.y());
                },
            }
            point.set_x(parent_point.x());
        } else if self.kind == LayoutObjectKind::Inline && previous_sibling_kind
            == LayoutObjectKind::Inline {
            match (previous_sibling_size, previous_sibling_point) {
                (Some(size), Some(pos)) => {
                    point.set_x(sat_add(pos.x(), size.width()));
                    point.set_y(pos.y());
                },
                _ => {
                    point.set_x(parent_point.x());
                    point.set_y(parent_point.y());
                },
            }
        } else {
            point.set_x(parent_point.x());
            point.set_y(parent_point.y());
        }

        self.point = point;
    }

    /// The drawing commands for this object alone: a block element paints
    /// one rectangle, an inline element paints nothing, and a text object
    /// paints one line of text per wrapped row.
    pub fn paint(&self) -> (r: Vec<DisplayItem>)
        requires
            self.style.is_defaulted(),
        ensures
            crate::display_item::items_view(r@) == spec_paint_obj(*self),
    {
        let mut v: Vec<DisplayItem> = Vec::new();
        if self.style.display() == DisplayType::DisplayNone {
            proof {
                assert(crate::display_item::items_view(v@) =~= spec_paint_obj(*self));
            }
            return v;
        }

        match self.kind {
            LayoutObjectKind::Block => {
                match &self.node_kind {
                    NodeKind::Element(_) => {
                        v.push(
                            DisplayItem::Rect {
                                style: self.style.duplicate(),
                                layout_point: self.point,
                                layout_size: self.size,
                            },
                        );
                    },
                    _ => {},
                }
            },
            LayoutObjectKind::Inline => {},
            LayoutObjectKind::Text => {
                match &self.node_kind {
                    NodeKind::Text(t) => {
                        let ratio: i64 = match self.style.font_size() {
                            FontSize::Medium => 1,
                            FontSize::XLarge => 2,
                            FontSize::XXLarge => 3,
                        };
                        let plain_text = normalize_text(t.as_str());
                        let lines = split_text(plain_text, CHAR_WIDTH * ratio);
                        let ghost spec_lines = spec_split_text(
                            spec_normalize(t@, Seq::<char>::empty(), false),
                            CHAR_WIDTH as int * spec_font_ratio(self.style.font_size.unwrap()),
                        );
                        proof {
                            assert(strings_view(lines@) == spec_lines);
                        }
                        let mut i: usize = 0;
                        let mut y: i64 = self.point.y();
                        while i < lines.len()
                            invariant
                                i <= lines@.len(),
                                v@.len() == i,
                                y == spec_line_y(self.point.y, i as int),
                                strings_view(lines@) == spec_lines,
                                forall|j: int|
                                    0 <= j < i ==> (#[trigger] v@[j])@
                                        == (crate::display_item::DispV::Text {
                                        text: spec_lines[j],
                                        style: self.style@,
                                        layout_point: LayoutPoint {
                                            x: self.point.x,
                                            y: spec_line_y(self.point.y, j),
                                        },
                                    }),
                            decreases lines@.len() - i,
                        {
                            let item = DisplayItem::Text {
                                text: lines[i].clone(),
                                style: self.style.duplicate(),
                                layout_point: LayoutPoint::new(self.point.x(), y),
                            };
                            proof {
                                assert(strings_view(lines@)[i as int] == lines@[i as int]@);
                            }
                            v.push(item);
                            y = sat_add(y, CHAR_HEIGHT_WITH_PADDING);
                            i = i + 1;
                        }
                    },
                    _ => {},
                }
            },
        }
        proof {
            assert(crate::display_item::items_view(v@) =~= spec_paint_obj(*self));
        }
        v
    }

    /// The object's flow kind.
    pub fn kind(&self) -> (r: LayoutObjectKind)
        ensures
            r == self.kind,
    {
        self.kind
    }

    /// The kind of the DOM node this object stands for.
    pub fn node_kind(&self) -> (r: NodeKind)
        ensures
            r@ == self.node_kind@,
    {
        self.node_kind.duplicate()
    }

    /// Sets the first-child link.
    pub fn set_first_child(&mut self, first_child: Option<usize>)
        ensures
            *final(self) == (LayoutObject { first_child, ..*old(self) }),
    {
        self.first_child = first_child;
    }

    /// The first-child link.
    pub fn first_child(&self) -> (r: Option<usize>)
        ensures
            r == self.first_child,
    {
        self.first_child
    }

    /// Sets the next-sibling link.
    pub fn set_next_sibling(&mut self, next_sibling: Option<usize>)
        ensures
            *final(self) == (LayoutObject { next_sibling, ..*old(self) }),
    {
        self.next_sibling = next_sibling;
    }

    /// The next-sibling link.
    pub fn next_sibling(&self) -> (r: Option<usize>)
        ensures
            r == self.next_sibling,
    {
        self.next_sibling
    }

    /// The parent link.
    pub fn parent(&self) -> (r: Option<usize>)
        ensures
            r == self.parent,
    {
        self.parent
    }

    /// The object's computed style.
    pub fn style(&self) -> (r: ComputedStyle)
        ensures
            r@ == self.style@,
            r.is_defaulted() == self.style.is_defaulted(),
    {
        self.style.duplicate()
    }

    /// The object's position.
    pub fn point(&self) -> (r: LayoutPoint)
        ensures
            r == self.point,
    {
        self.point
    }

    /// The object's size.
    pub fn size(&self) -> (r: LayoutSize)
        ensures
            r == self.size,
    {
        self.size
    }
}

/// The position rule: a block (or anything after a block) stacks below the
/// previous sibling, an inline object after an inline one flows rightward,
/// and otherwise the parent's corner is taken.
pub open spec fn spec_position(
    kind: LayoutObjectKind,
    parent_point: LayoutPoint,
    prev_kind: LayoutObjectKind,
    prev_point: Option<LayoutPoint>,
    prev_size: Option<LayoutSize>,
) -> LayoutPoint {
    if kind == LayoutObjectKind::Block || prev_kind == LayoutObjectKind::Block {
        LayoutPoint {
            x: parent_point.x,
            y: match (prev_size, prev_point) {
                (Some(sz), Some(p)) => spec_sat_add(p.y, sz.height),
                _ => parent_point.y,
            },
        }
    } else if kind == LayoutObjectKind::Inline && prev_kind == LayoutObjectKind::Inline {
        match (prev_size, prev_point) {
            (Some(sz), Some(p)) => LayoutPoint { x: spec_sat_add(p.x, sz.width), y: p.y },
            _ => parent_point,
        }
    } else {
        parent_point
    }
}

/// Builds the layout object for one DOM node under a stylesheet: the
/// matching rules cascade onto a fresh style, the absent fields default,
/// and a node whose final display is `none` yields nothing.
pub fn create_layout_object(
    window: &Window,
    node: Option<usize>,
    parent_obj: Option<usize>,
    parent_style: Option<ComputedStyle>,
    cssom: &StyleSheet,
) -> (r: Option<LayoutObject>)
    requires
        window.wf(),
        node matches Some(n) ==> n < window.nodes@.len(),
        parent_style matches Some(p) ==> p.is_defaulted(),
    ensures
        (r is Some) == (node is Some && spec_final_display(
            window.nodes@[node.unwrap() as int].kind,
            cssom.rules@,
        ) != DisplayType::DisplayNone),
        r matches Some(o) ==> ({
            &&& o.style.is_defaulted()
            &&& o.style.display.unwrap() != DisplayType::DisplayNone
            &&& o.style@ == spec_defaulted(
                spec_cascade_rules(
                    spec_empty_style(),
                    window.nodes@[node.unwrap() as int].kind,
                    cssom.rules@,
                ),
                window.nodes@[node.unwrap() as int].kind@,
                opt_style_v(parent_style),
            )
            &&& o.node == node.unwrap()
            &&& o.node_kind@ == window.nodes@[node.unwrap() as int].kind@
            &&& o.parent == parent_obj
            &&& o.first_child is None
            &&& o.next_sibling is None
            &&& o.point == (LayoutPoint { x: 0, y: 0 })
            &&& o.size == (LayoutSize { width: 0, height: 0 })
            &&& o.kind == (match window.nodes@[node.unwrap() as int].kind {
                NodeKind::Text(_) => LayoutObjectKind::Text,
                _ => match o.style.display.unwrap() {
                    DisplayType::Block => LayoutObjectKind::Block,
                    DisplayType::Inline => LayoutObjectKind::Inline,
                    DisplayType::DisplayNone => LayoutObjectKind::Block,
                },
            })
        }),
{
    let n = match node {
        Some(n) => n,
        None => {
            return None;
        },
    };
    let node_kind = window.node(n).kind();
    let mut layout_object = LayoutObject::new(n, node_kind, parent_obj);
    proof {
        lemma_kind_view_eq_selected(layout_object.node_kind, window.nodes@[n as int].kind);
    }

    let mut i: usize = 0;
    proof {
        assert(cssom.rules@.skip(0) =~= cssom.rules@);
    }
    while i < cssom.rules.len()
        invariant
            i <= cssom.rules@.len(),
            spec_cascade_rules(
                spec_empty_style(),
                window.nodes@[n as int].kind,
                cssom.rules@,
            ) == spec_cascade_rules(
                layout_object.style@,
                window.nodes@[n as int].kind,
                cssom.rules@.skip(i as int),
            ),
            layout_object.node_kind@ == window.nodes@[n as int].kind@,
            forall|sel: Selector|
                #[trigger] spec_selected(layout_object.node_kind, sel) == spec_selected(
                    window.nodes@[n as int].kind,
                    sel,
                ),
            layout_object == (LayoutObject { style: layout_object.style, ..LayoutObject::new_spec(
                n,
                layout_object.node_kind,
                parent_obj,
            ) }),
        decreases cssom.rules@.len() - i,
    {
        proof {
            assert(cssom.rules@.skip(i as int)[0] == cssom.rules@[i as int]);
            assert(cssom.rules@.skip(i as int).skip(1) =~= cssom.rules@.skip(i + 1));
        }
        let rule = &cssom.rules[i];
        if layout_object.is_node_selected(&rule.selector) {
            layout_object.cascading_style(&rule.declarations);
        }
        i = i + 1;
    }
    proof {
        assert(cssom.rules@.skip(cssom.rules@.len() as int) =~= Seq::<
            crate::css::cssom::QualifiedRule,
        >::empty());
    }

    let kind_for_default = window.node(n).kind();
    layout_object.defaulting_style(&kind_for_default, parent_style);

    if layout_object.style.display() == DisplayType::DisplayNone {
        return None;
    }

    layout_object.update_kind();
    Some(layout_object)
}

/// Two node kinds with the same value are selected by the same selectors.
proof fn lemma_kind_view_eq_selected(a: NodeKind, b: NodeKind)
    requires
        a@ == b@,
    ensures
        forall|sel: Selector| #[trigger] spec_selected(a, sel) == spec_selected(b, sel),
{
    assert forall|sel: Selector| #[trigger] spec_selected(a, sel) == spec_selected(b, sel) by {
        match (a, b) {
            (NodeKind::Element(e1), NodeKind::Element(e2)) => {
                assert(e1.kind == e2.kind);
                assert(crate::html::attribute::attrs_view(e1.attributes@)
                    == crate::html::attribute::attrs_view(e2.attributes@));
                assert(crate::html::attribute::attrs_view(e1.attributes@).len()
                    == e1.attributes@.len());
                assert(crate::html::attribute::attrs_view(e2.attributes@).len()
                    == e2.attributes@.len());
                assert(e1.attributes@.len() == e2.attributes@.len());
                assert forall|k: int|
                    0 <= k < e1.attributes@.len() implies (#[trigger] e1.attributes@[k])@
                    == e2.attributes@[k]@ by {
                    assert(crate::html::attribute::attrs_view(e1.attributes@)[k]
                        == e1.attributes@[k]@);
                    assert(crate::html::attribute::attrs_view(e2.attributes@)[k]
                        == e2.attributes@[k]@);
                }
                match sel {
                    Selector::ClassSelector(cn) => {
                        if spec_selected(a, sel) {
                            let k0 = choose|k: int|
                                0 <= k < e1.attributes@.len() && (#[trigger] e1.attributes@[k])@.name
                                    == "class"@ && e1.attributes@[k]@.value == cn@;
                            assert((e2.attributes@[k0])@.name == "class"@ && e2.attributes@[k0]@.value
                                == cn@);
                            assert(spec_selected(b, sel));
                        }
                        if spec_selected(b, sel) {
                            let k0 = choose|k: int|
                                0 <= k < e2.attributes@.len() && (#[trigger] e2.attributes@[k])@.name
                                    == "class"@ && e2.attributes@[k]@.value == cn@;
                            assert((e1.attributes@[k0])@.name == "class"@ && e1.attributes@[k0]@.value
                                == cn@);
                            assert(spec_selected(a, sel));
                        }
                    },
                    Selector::IdSelector(cn) => {
                        if spec_selected(a, sel) {
                            let k0 = choose|k: int|
                                0 <= k < e1.attributes@.len() && (#[trigger] e1.attributes@[k])@.name
                                    == "id"@ && e1.attributes@[k]@.value == cn@;
                            assert((e2.attributes@[k0])@.name == "id"@ && e2.attributes@[k0]@.value
                                == cn@);
                            assert(spec_selected(b, sel));
                        }
                        if spec_selected(b, sel) {
                            let k0 = choose|k: int|
                                0 <= k < e2.attributes@.len() && (#[trigger] e2.attributes@[k])@.name
                                    == "id"@ && e2.attributes@[k]@.value == cn@;
                            assert((e1.attributes@[k0])@.name == "id"@ && e1.attributes@[k0]@.value
                                == cn@);
                            assert(spec_selected(a, sel));
                        }
                    },
                    _ => {},
                }
            },
            _ => {},
        }
    }
}

/// Whether some attribute called `name` carries exactly `value`.
fn attr_matches(attrs: &Vec<crate::html::attribute::Attribute>, name: &str, value: &String) -> (r:
    bool)
    ensures
        r == exists|k: int|
            0 <= k < attrs@.len() && (#[trigger] attrs@[k])@.name == name@ && attrs@[k]@.value
                == value@,
{
    let mut k: usize = 0;
    while k < attrs.len()
        invariant
            k <= attrs@.len(),
            forall|j: int|
                0 <= j < k ==> !((#[trigger] attrs@[j])@.name == name@ && attrs@[j]@.value
                    == value@),
        decreases attrs@.len() - k,
    {
        if str_eq(&attrs[k].name, name) && str_eq(&attrs[k].value, value.as_str()) {
            return true;
        }
        k = k + 1;
    }
    false
}

/// The value of an optional style.
pub open spec fn opt_style_v(o: Option<ComputedStyle>) -> Option<StyleV> {
    match o {
        Some(s) => Some(s@),
        None => None,
    }
}

/// The defaulting rules of the computed style, over values: background
/// color, color, font size and decoration inherit from a parent that
/// differs from the initial value; what stays absent takes the initial
/// value for the node's kind; width and height become zero.
pub open spec fn spec_defaulted(
    style: StyleV,
    kind: crate::dom::node::NodeKindV,
    parent: Option<StyleV>,
) -> StyleV {
    StyleV {
        background_color: Some(
            match style.background_color {
                Some(c) => c,
                None => match parent {
                    Some(p) => if p.background_color.unwrap() != spec_white() {
                        p.background_color.unwrap()
                    } else {
                        spec_white()
                    },
                    None => spec_white(),
                },
            },
        ),
        color: Some(
            match style.color {
                Some(c) => c,
                None => match parent {
                    Some(p) => if p.color.unwrap() != spec_black() {
                        p.color.unwrap()
                    } else {
                        spec_black()
                    },
                    None => spec_black(),
                },
            },
        ),
        display: Some(
            match style.display {
                Some(d) => d,
                None => spec_default_display_v(kind),
            },
        ),
        font_size: Some(
            match style.font_size {
                Some(f) => f,
                None => match parent {
                    Some(p) => if p.font_size.unwrap() != FontSize::Medium {
                        p.font_size.unwrap()
                    } else {
                        spec_default_font_size_v(kind)
                    },
                    None => spec_default_font_size_v(kind),
                },
            },
        ),
        text_decoration: Some(
            match style.text_decoration {
                Some(t) => t,
                None => match parent {
                    Some(p) => if p.text_decoration.unwrap()
                        != crate::layout::computed_style::TextDecoration::NoDecoration {
                        p.text_decoration.unwrap()
                    } else {
                        spec_default_text_decoration_v(kind)
                    },
                    None => spec_default_text_decoration_v(kind),
                },
            },
        ),
        height: Some(
            match style.height {
                Some(h) => h,
                None => 0i64,
            },
        ),
        width: Some(
            match style.width {
                Some(w) => w,
                None => 0i64,
            },
        ),
    }
}

/// The initial display, over node-kind values.
pub open spec fn spec_default_display_v(kind: crate::dom::node::NodeKindV) -> DisplayType {
    match kind {
        crate::dom::node::NodeKindV::Document => DisplayType::Block,
        crate::dom::node::NodeKindV::Element(e) => if matches!(
            e.kind,
            crate::dom::node::ElementKind::Body | crate::dom::node::ElementKind::H1
                | crate::dom::node::ElementKind::H2 | crate::dom::node::ElementKind::P,
        ) {
            DisplayType::Block
        } else {
            DisplayType::Inline
        },
        crate::dom::node::NodeKindV::Text(_) => DisplayType::Inline,
    }
}

/// The initial font size, over node-kind values.
pub open spec fn spec_default_font_size_v(kind: crate::dom::node::NodeKindV) -> FontSize {
    match kind {
        crate::dom::node::NodeKindV::Element(e) => match e.kind {
            crate::dom::node::ElementKind::H1 => FontSize::XXLarge,
            crate::dom::node::ElementKind::H2 => FontSize::XLarge,
            _ => FontSize::Medium,
        },
        _ => FontSize::Medium,
    }
}

/// The initial text decoration, over node-kind values.
pub open spec fn spec_default_text_decoration_v(
    kind: crate::dom::node::NodeKindV,
) -> crate::layout::computed_style::TextDecoration {
    match kind {
        crate::dom::node::NodeKindV::Element(e) => match e.kind {
            crate::dom::node::ElementKind::A =>
                crate::layout::computed_style::TextDecoration::Underline,
            _ => crate::layout::computed_style::TextDecoration::NoDecoration,
        },
        _ => crate::layout::computed_style::TextDecoration::NoDecoration,
    }
}

} // verus!
