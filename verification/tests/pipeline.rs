//! End-to-end scenarios: a response body in, a display list out, and the
//! hit testing on top.

use saba_core::constants::{CHAR_HEIGHT_WITH_PADDING, CONTENT_AREA_WIDTH};
use saba_core::display_item::DisplayItem;
use saba_core::dom::api::get_element_by_id;
use saba_core::dom::node::NodeKind;
use saba_core::http::HttpResponse;
use saba_core::layout::computed_style::{Color, DisplayType};
use saba_core::page::Page;

fn response_for(body: &str) -> HttpResponse {
    let mut raw = String::from("HTTP/1.1 200 OK\n\n");
    raw.push_str(body);
    HttpResponse::new(raw).expect("failed to parse http response")
}

fn rendered(body: &str) -> Page {
    let mut page = Page::new();
    page.receive_response(response_for(body));
    page
}

#[test]
fn e2e_empty_body() {
    let page = rendered("");
    let frame = page.frame.as_ref().expect("frame should exist");
    assert!(matches!(
        frame.node(frame.document()).kind,
        NodeKind::Document
    ));
    assert!(frame.node(frame.document()).first_child().is_none());
    let view = page.layout_view.as_ref().expect("view should exist");
    assert!(view.root().is_none());
    assert_eq!(page.display_items().len(), 0);
}

#[test]
fn e2e_minimal_skeleton() {
    let page = rendered("<html><head></head><body></body></html>");
    let items = page.display_items();
    assert_eq!(items.len(), 1);
    match &items[0] {
        DisplayItem::Rect {
            style,
            layout_point,
            layout_size,
        } => {
            assert_eq!(layout_point.x(), 0);
            assert_eq!(layout_point.y(), 0);
            assert_eq!(layout_size.width(), CONTENT_AREA_WIDTH);
            assert_eq!(layout_size.height(), 0);
            assert_eq!(style.background_color(), Color::white());
            assert_eq!(style.color(), Color::black());
            assert_eq!(style.display(), DisplayType::Block);
        }
        _ => panic!("expected a rectangle"),
    }
}

#[test]
fn e2e_text_wrapping() {
    let mut body = String::from("<html><body>");
    for _ in 0..200 {
        body.push('A');
    }
    body.push_str("</body></html>");
    let page = rendered(&body);
    let items = page.display_items();

    // One block rectangle for the body, one text item per wrapped line:
    // ceil(200 * 8 / 590) = 3 lines.
    assert_eq!(items.len(), 4);
    assert!(matches!(items[0], DisplayItem::Rect { .. }));
    let mut expected_y = 0;
    for item in &items[1..] {
        match item {
            DisplayItem::Text { layout_point, .. } => {
                assert_eq!(layout_point.x(), 0);
                assert_eq!(layout_point.y(), expected_y);
                expected_y += CHAR_HEIGHT_WITH_PADDING;
            }
            _ => panic!("expected text items after the rectangle"),
        }
    }
}

#[test]
fn e2e_style_cascading() {
    let page = rendered(
        "<html><head><style>body{background-color:#00ff00;} p{color:red;}</style></head>\
         <body><p>hi</p></body></html>",
    );
    let items = page.display_items();
    assert_eq!(items.len(), 3);
    match &items[0] {
        DisplayItem::Rect { style, .. } => {
            assert_eq!(style.background_color().code, "#00ff00");
            assert_eq!(style.background_color().code_u32(), 0x00ff00);
        }
        _ => panic!("expected the body rectangle first"),
    }
    match &items[1] {
        DisplayItem::Rect { style, .. } => {
            // The paragraph declares no background of its own; the parent's
            // green differs from the initial white, so it is inherited.
            assert_eq!(style.background_color().code, "#00ff00");
            assert_eq!(style.color().code, "#ff0000");
        }
        _ => panic!("expected the paragraph rectangle second"),
    }
    match &items[2] {
        DisplayItem::Text { text, style, .. } => {
            assert_eq!(text, "hi");
            assert_eq!(style.color().code, "#ff0000");
            assert_eq!(style.color().code_u32(), 0xff0000);
        }
        _ => panic!("expected the text last"),
    }
}

#[test]
fn e2e_display_none_excludes_subtree() {
    let page = rendered(
        "<html><head><style>.hidden{display:none;}</style></head>\
         <body><a class=\"hidden\">x</a><p></p></body></html>",
    );
    let view = page.layout_view.as_ref().expect("view should exist");
    let root = view.root().expect("the body should be laid out");
    let p = view.obj(root).first_child().expect("one child");
    assert!(matches!(
        view.obj(p).node_kind(),
        NodeKind::Element(ref e) if e.kind() == saba_core::dom::node::ElementKind::P
    ));
    assert!(view.obj(p).next_sibling().is_none());
    // No layout object stands for the anchor.
    for i in 0..view.objects.len() {
        match view.obj(i).node_kind() {
            NodeKind::Element(e) => {
                assert!(e.kind() != saba_core::dom::node::ElementKind::A)
            }
            _ => {}
        }
    }
}

#[test]
fn e2e_script_text_content() {
    let page = rendered(
        "<html><head><script>var e=document.getElementById(\"t\"); \
         e.textContent=\"hello\";</script></head>\
         <body><p id=\"t\">x</p></body></html>",
    );
    let frame = page.frame.as_ref().expect("frame should exist");
    let p = get_element_by_id(frame, Some(frame.document()), &"t".to_string())
        .expect("the paragraph should be found");
    let child = frame.node(p).first_child().expect("one child");
    match &frame.node(child).kind {
        NodeKind::Text(s) => assert_eq!(s, "hello"),
        _ => panic!("expected a text child"),
    }

    let items = page.display_items();
    let mut saw_hello = false;
    for item in &items {
        if let DisplayItem::Text { text, .. } = item {
            assert_eq!(text, "hello");
            saw_hello = true;
        }
    }
    assert!(saw_hello);
}

#[test]
fn e2e_link_hit_testing() {
    let page = rendered(
        "<html><body><p><a href=\"http://example.test/next\">link</a></p></body></html>",
    );
    assert_eq!(
        page.clicked((10, 10)),
        Some("http://example.test/next".to_string())
    );
    assert_eq!(page.clicked((300, 100)), None);
}

#[test]
fn e2e_clear_display_items() {
    let mut page = rendered("<html><head></head><body></body></html>");
    assert!(page.display_items().len() > 0);
    page.clear_display_items();
    assert_eq!(page.display_items().len(), 0);
}

#[test]
fn e2e_rendering_is_deterministic() {
    let body = "<html><head><style>p{color:red;}</style></head><body><p>hi</p></body></html>";
    let items1 = rendered(body).display_items();
    let items2 = rendered(body).display_items();
    assert_eq!(items1, items2);
}
