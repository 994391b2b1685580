//! The layout view on small documents: the tree shape, and the exclusion
//! of `display: none` subtrees.

use saba_core::css::cssom::CssParser;
use saba_core::css::token::CssTokenizer;
use saba_core::dom::api::get_style_content;
use saba_core::dom::node::{Element, NodeKind};
use saba_core::html::parser::HtmlParser;
use saba_core::html::token::HtmlTokenizer;
use saba_core::layout::layout_object::LayoutObjectKind;
use saba_core::layout::layout_view::LayoutView;

fn create_layout_view(html: String) -> LayoutView {
    let t = HtmlTokenizer::new(html);
    let window = HtmlParser::new(t).construct_tree();
    let style = get_style_content(&window, window.document());
    let css_tokenizer = CssTokenizer::new(style);
    let cssom = CssParser::new(css_tokenizer).parse_stylesheet();
    LayoutView::new(&window, &cssom)
}

#[test]
fn layout_view_test_empty() {
    let layout_view = create_layout_view("".to_string());
    assert_eq!(None, layout_view.root());
}

#[test]
fn layout_view_test_body() {
    let html = "<html><head></head><body></body></html>".to_string();
    let layout_view = create_layout_view(html);

    let root = layout_view.root();
    assert!(root.is_some());
    let root = root.unwrap();
    assert_eq!(LayoutObjectKind::Block, layout_view.obj(root).kind());
    assert_eq!(
        NodeKind::Element(Element::new("body", Vec::new())),
        layout_view.obj(root).node_kind()
    );
}

#[test]
fn layout_view_test_text() {
    let html = "<html><head></head><body>text</body></html>".to_string();
    let layout_view = create_layout_view(html);

    let root = layout_view.root();
    assert!(root.is_some());
    let root = root.unwrap();
    assert_eq!(LayoutObjectKind::Block, layout_view.obj(root).kind());
    assert_eq!(
        NodeKind::Element(Element::new("body", Vec::new())),
        layout_view.obj(root).node_kind()
    );

    let text = layout_view.obj(root).first_child();
    assert!(text.is_some());
    let text = text.unwrap();
    assert_eq!(LayoutObjectKind::Text, layout_view.obj(text).kind());
    assert_eq!(
        NodeKind::Text("text".to_string()),
        layout_view.obj(text).node_kind()
    );
    match layout_view.obj(text).node_kind() {
        NodeKind::Text(s) => assert_eq!(s, "text"),
        _ => panic!("expected a text node"),
    }
}

#[test]
fn test_display_none() {
    let html = "<html><head><style>body{display:none;}</style></head><body>text</body></html>"
        .to_string();
    let layout_view = create_layout_view(html);

    assert_eq!(None, layout_view.root());
}

#[test]
fn test_hidden_class() {
    let html = r#"<html>
<head>
<style>
  .hidden {
    display: none;
  }
</style>
</head>
<body>
  <a class="hidden">link1</a>
  <p></p>
  <p class="hidden"><a>link2</a></p>
</body>
</html>"#
        .to_string();
    let layout_view = create_layout_view(html);

    let root = layout_view.root();
    assert!(root.is_some());
    let root = root.unwrap();
    assert_eq!(LayoutObjectKind::Block, layout_view.obj(root).kind());
    assert_eq!(
        NodeKind::Element(Element::new("body", Vec::new())),
        layout_view.obj(root).node_kind()
    );

    let p = layout_view.obj(root).first_child();
    assert!(p.is_some());
    let p = p.unwrap();
    assert_eq!(LayoutObjectKind::Block, layout_view.obj(p).kind());
    assert_eq!(
        NodeKind::Element(Element::new("p", Vec::new())),
        layout_view.obj(p).node_kind()
    );

    assert!(layout_view.obj(p).first_child().is_none());
    assert!(layout_view.obj(p).next_sibling().is_none());
}
