//! The page: the orchestrator that turns a response body into a display
//! list, and answers link clicks.
//!
//! On a response it builds the DOM, extracts and parses the first style
//! sheet, runs the first script against the DOM, lays the document out and
//! caches the drawing commands.

use vstd::prelude::*;

use crate::css::cssom::CssParser;
use crate::css::cssom::StyleSheet;
use crate::css::token::CssTokenizer;
use crate::display_item::DisplayItem;
use crate::dom::api::get_js_content;
use crate::dom::api::get_style_content;
use crate::dom::node::ElementKind;
use crate::dom::node::NodeKind;
use crate::dom::node::Window;
use crate::html::parser::HtmlParser;
use crate::html::token::HtmlTokenizer;
use crate::http::HttpResponse;
use crate::js::ast::JsParser;
use crate::js::runtime::JsRuntime;
use crate::js::token::JsLexer;
use crate::layout::layout_view::LayoutView;
use crate::layout::layout_view::spec_find_node;

verus! {

/// The destination `clicked` answers with: when the hit object's layout
/// parent stands for an anchor element, the anchor's `href` value.
pub open spec fn spec_clicked(v: LayoutView, x: i64, y: i64) -> Option<Seq<char>> {
    match spec_find_node(v.objects@, v.root, x, y) {
        None => None,
        Some(hit) => match v.objects@[hit as int].parent {
            None => None,
            Some(p) => if p < v.objects@.len() {
                match v.objects@[p as int].node_kind {
                    NodeKind::Element(e) => if e.kind == ElementKind::A {
                        crate::dom::node::spec_get_attribute(
                            crate::html::attribute::attrs_view(e.attributes@),
                            "href"@,
                        )
                    } else {
                        None
                    },
                    _ => None,
                }
            } else {
                None
            },
        },
    }
}

/// The view of an optional string.
pub open spec fn opt_string_view(o: Option<String>) -> Option<Seq<char>> {
    match o {
        Some(s) => Some(s@),
        None => None,
    }
}

/// One page: its document, its style sheet, its layout, and the cached
/// drawing commands.
#[derive(Debug)]
pub struct Page {
    pub frame: Option<Window>,
    pub style: Option<StyleSheet>,
    pub layout_view: Option<LayoutView>,
    pub display_items: Vec<DisplayItem>,
}

impl Page {
    /// Well-formedness: the document and the layout tree, when present,
    /// are well-formed.
    pub open spec fn wf(&self) -> bool {
        &&& (self.frame matches Some(w) ==> w.wf())
        &&& (self.layout_view matches Some(v) ==> v.wf())
    }

    /// An empty page.
    pub fn new() -> (r: Self)
        ensures
            r.wf(),
            r.frame is None,
            r.style is None,
            r.layout_view is None,
            r.display_items@.len() == 0,
    {
        Self { frame: None, style: None, layout_view: None, display_items: Vec::new() }
    }

    /// The destination of a click at `position`: when the hit object's
    /// layout parent stands for an anchor element, the anchor's `href`
    /// value.
    pub fn clicked(&self, position: (i64, i64)) -> (r: Option<String>)
        requires
            self.wf(),
        ensures
            match self.layout_view {
                Some(v) => opt_string_view(r) == spec_clicked(v, position.0, position.1),
                None => r is None,
            },
    {
        let view = match &self.layout_view {
            Some(v) => v,
            None => {
                return None;
            },
        };

        let hit = match view.find_node_by_position(position) {
            Some(n) => n,
            None => {
                return None;
            },
        };

        let parent = match view.obj(hit).parent {
            Some(p) => p,
            None => {
                return None;
            },
        };
        if parent >= view.objects.len() {
            return None;
        }
        match &view.obj(parent).node_kind {
            NodeKind::Element(e) => {
                let k = e.kind;
                if k == ElementKind::A {
                    e.get_attribute("href")
                } else {
                    None
                }
            },
            _ => None,
        }
    }

    /// Takes a response: builds the DOM from its body, parses the first
    /// style sheet, runs the first script, lays the document out, and
    /// caches the drawing commands.
    pub fn receive_response(&mut self, response: HttpResponse)
        requires
            old(self).wf(),
        ensures
            final(self).wf(),
            final(self).frame is Some,
            final(self).style is Some,
            final(self).layout_view is Some,
            ({
                let w = final(self).frame.unwrap();
                let sh = final(self).style.unwrap();
                let v = final(self).layout_view.unwrap();
                &&& v.wf()
                &&& crate::display_item::items_view(final(self).display_items@)
                    == crate::layout::layout_view::spec_paint_tree(v.objects@, v.root)
                &&& forall|k: int|
                    0 <= k < v.objects@.len() ==> crate::layout::layout_view::obj_matches_dom(
                        v.objects@,
                        k,
                        &w,
                        sh.rules@,
                    )
                &&& forall|k: int|
                    0 <= k < v.objects@.len() ==> (#[trigger] v.objects@[k]).point.x >= 0
                        && v.objects@[k].point.y >= 0
                &&& forall|k: int|
                    0 <= k < v.objects@.len() ==> (
                    #[trigger] v.objects@[k]).style.display.unwrap()
                        != crate::layout::computed_style::DisplayType::DisplayNone
                &&& (v.root is None ==> v.objects@.len() == 0)
            }),
            response.body@.len() == 0 ==> (final(self).frame matches Some(w) && w.nodes@.len() == 1
                && w.nodes@[0].first_child is None && (final(self).layout_view matches Some(v)
                && v.root is None) && final(self).display_items@.len() == 0),
    {
        self.create_frame(response.body());
        self.execute_js();
        self.set_layout_view();
        self.paint_tree();
        proof {
            if response.body@.len() == 0 {
                let v = self.layout_view.unwrap();
                assert(crate::layout::layout_view::spec_paint_tree(v.objects@, v.root)
                    =~= Seq::<crate::display_item::DispV>::empty());
                assert(crate::display_item::items_view(self.display_items@).len() == 0);
            }
        }
    }

    /// Builds the DOM and the CSSOM from the HTML text.
    fn create_frame(&mut self, html: String)
        ensures
            final(self).frame matches Some(w) && w.wf(),
            final(self).style is Some,
            final(self).layout_view == old(self).layout_view,
            old(self).wf() ==> final(self).wf(),
            html@.len() == 0 ==> (final(self).frame matches Some(w) && w.nodes@.len() == 1
                && w.nodes@[0].first_child is None),
            final(self).frame matches Some(w) ==> crate::dom::node::nodes_view(w.nodes@)
                == crate::html::parser::spec_parse_html(html@),
            ({
                let w = final(self).frame.unwrap();
                let sheet = final(self).style.unwrap();
                crate::css::cssom::rules_view(sheet.rules@)
                    == crate::css::cssom::spec_consume_rules(
                    crate::css::token::spec_css_tokenize(
                        crate::dom::api::spec_text_content_of_first(
                            &w,
                            crate::dom::node::ElementKind::Style,
                        ),
                        0,
                    ),
                    0,
                )
            }),
    {
        let ghost hv = html@;
        let html_tokenizer = HtmlTokenizer::new(html);
        let parser = HtmlParser::new(html_tokenizer);
        proof {
            assert(crate::dom::node::nodes_view(parser.window.nodes@) =~= seq![
                crate::dom::node::NodeV {
                    kind: crate::dom::node::NodeKindV::Document,
                    parent: None,
                    first_child: None,
                    last_child: None,
                    previous_sibling: None,
                    next_sibling: None,
                },
            ]);
            assert(parser.stack_of_open_elements@ =~= Seq::<usize>::empty());
            assert(parser.t@ == (crate::html::token::TkState {
                state: crate::html::token::State::Data,
                pos: 0,
                reconsume: false,
                latest: None,
                input: hv,
                buf: Seq::empty(),
            }));
            assert(crate::html::parser::build_view(parser)
                == (crate::html::parser::BuildState {
                nodes: seq![
                    crate::dom::node::NodeV {
                        kind: crate::dom::node::NodeKindV::Document,
                        parent: None,
                        first_child: None,
                        last_child: None,
                        previous_sibling: None,
                        next_sibling: None,
                    },
                ],
                stack: Seq::empty(),
                mode: crate::html::parser::InsertionMode::Initial,
                orig: crate::html::parser::InsertionMode::Initial,
            }));
        }
        let frame = parser.construct_tree();

        let style = get_style_content(&frame, frame.document());
        let css_tokenizer = CssTokenizer::new(style);
        let cssom = CssParser::new(css_tokenizer).parse_stylesheet();

        self.frame = Some(frame);
        self.style = Some(cssom);
    }

    /// Extracts the first script and runs it against the document.
    fn execute_js(&mut self)
        requires
            old(self).wf(),
        ensures
            final(self).wf(),
            (final(self).frame is Some) == (old(self).frame is Some),
            final(self).style == old(self).style,
            final(self).layout_view == old(self).layout_view,
            (old(self).frame matches Some(w) && w.nodes@.len() == 1 && w.nodes@[0].first_child
                is None) ==> (final(self).frame matches Some(w2) && w2.nodes@.len() == 1
                && w2.nodes@[0].first_child is None),
    {
        let dom = match self.frame.take() {
            Some(frame) => frame,
            None => {
                return ;
            },
        };

        let js = get_js_content(&dom, dom.document());
        proof {
            if dom.nodes@.len() == 1 && dom.nodes@[0].first_child is None {
                assert(crate::dom::api::spec_get_target_element_node(
                    &dom,
                    dom.nodes@[0].first_child,
                    crate::dom::node::ElementKind::Script,
                ) is None);
                assert(crate::dom::api::spec_get_target_element_node(
                    &dom,
                    dom.nodes@[0].next_sibling,
                    crate::dom::node::ElementKind::Script,
                ) is None);
                assert(js@.len() == 0);
            }
        }
        let lexer = JsLexer::new(js);
        let mut parser = JsParser::new(lexer);
        let ast = parser.parse_ast();

        let mut runtime = JsRuntime::new(dom);
        runtime.execute(&ast);
        self.frame = Some(runtime.into_dom_root());
    }

    /// Builds the layout tree from the document and the style sheet.
    fn set_layout_view(&mut self)
        requires
            old(self).wf(),
        ensures
            final(self).wf(),
            final(self).frame == old(self).frame,
            final(self).style == old(self).style,
            old(self).frame is Some && old(self).style is Some ==> (final(self).layout_view
                matches Some(v) && ({
                let w = old(self).frame.unwrap();
                let sh = old(self).style.unwrap();
                &&& forall|k: int|
                    0 <= k < v.objects@.len() ==> crate::layout::layout_view::obj_matches_dom(
                        v.objects@,
                        k,
                        &w,
                        sh.rules@,
                    )
                &&& forall|k: int|
                    0 <= k < v.objects@.len() ==> (#[trigger] v.objects@[k]).point.x >= 0
                        && v.objects@[k].point.y >= 0
                &&& forall|k: int|
                    0 <= k < v.objects@.len() ==> (
                    #[trigger] v.objects@[k]).style.display.unwrap()
                        != crate::layout::computed_style::DisplayType::DisplayNone
                &&& (v.root is None ==> v.objects@.len() == 0)
            })),
            old(self).frame is None || old(self).style is None ==> final(self).layout_view == old(
                self,
            ).layout_view,
            (old(self).frame matches Some(w) && w.nodes@.len() == 1 && w.nodes@[0].first_child
                is None && old(self).style is Some) ==> (final(self).layout_view matches Some(v)
                && v.root is None && v.objects@.len() == 0),
    {
        let dom = match &self.frame {
            Some(frame) => frame,
            None => {
                return ;
            },
        };
        let style = match &self.style {
            Some(style) => style,
            None => {
                return ;
            },
        };
        let layout_view = LayoutView::new(dom, style);
        self.layout_view = Some(layout_view);
    }

    /// Paints the layout tree into the cached display list.
    fn paint_tree(&mut self)
        requires
            old(self).wf(),
        ensures
            final(self).wf(),
            final(self).frame == old(self).frame,
            final(self).style == old(self).style,
            final(self).layout_view == old(self).layout_view,
            old(self).layout_view matches Some(v) ==> crate::display_item::items_view(
                final(self).display_items@,
            ) == crate::layout::layout_view::spec_paint_tree(v.objects@, v.root),
    {
        match &self.layout_view {
            Some(layout_view) => {
                self.display_items = layout_view.paint();
            },
            None => {},
        }
    }

    /// The cached drawing commands.
    pub fn display_items(&self) -> (r: Vec<DisplayItem>)
        ensures
            r@.len() == self.display_items@.len(),
            forall|i: int|
                0 <= i < r@.len() ==> display_item_like(#[trigger] r@[i], self.display_items@[i]),
    {
        let mut out: Vec<DisplayItem> = Vec::new();
        let mut i: usize = 0;
        while i < self.display_items.len()
            invariant
                i <= self.display_items@.len(),
                out@.len() == i,
                forall|j: int|
                    0 <= j < i ==> display_item_like(
                        #[trigger] out@[j],
                        self.display_items@[j],
                    ),
            decreases self.display_items@.len() - i,
        {
            out.push(duplicate_item(&self.display_items[i]));
            i = i + 1;
        }
        out
    }

    /// Empties the cached display list.
    pub fn clear_display_items(&mut self)
        ensures
            final(self).display_items@.len() == 0,
            final(self).frame == old(self).frame,
            final(self).style == old(self).style,
            final(self).layout_view == old(self).layout_view,
            old(self).wf() ==> final(self).wf(),
    {
        self.display_items = Vec::new();
    }
}

/// Display-item equality by value.
pub open spec fn display_item_like(a: DisplayItem, b: DisplayItem) -> bool {
    match (a, b) {
        (
            DisplayItem::Rect { style: s1, layout_point: p1, layout_size: z1 },
            DisplayItem::Rect { style: s2, layout_point: p2, layout_size: z2 },
        ) => s1@ == s2@ && p1 == p2 && z1 == z2,
        (
            DisplayItem::Text { text: t1, style: s1, layout_point: p1 },
            DisplayItem::Text { text: t2, style: s2, layout_point: p2 },
        ) => t1@ == t2@ && s1@ == s2@ && p1 == p2,
        _ => false,
    }
}

/// An owned copy of one drawing command, by value.
fn duplicate_item(d: &DisplayItem) -> (r: DisplayItem)
    ensures
        display_item_like(r, *d),
{
    match d {
        DisplayItem::Rect { style, layout_point, layout_size } => DisplayItem::Rect {
            style: style.duplicate(),
            layout_point: *layout_point,
            layout_size: *layout_size,
        },
        DisplayItem::Text { text, style, layout_point } => DisplayItem::Text {
            text: text.clone(),
            style: style.duplicate(),
            layout_point: *layout_point,
        },
    }
}

} // verus!
