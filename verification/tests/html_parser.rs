//! The tree builder on small documents.

use saba_core::dom::node::{Element, Node, NodeKind, Window};
use saba_core::html::attribute::Attribute;
use saba_core::html::parser::HtmlParser;
use saba_core::html::token::HtmlTokenizer;

fn child(w: &Window, i: usize) -> usize {
    w.node(i).first_child().expect("expected a first child")
}

fn sibling(w: &Window, i: usize) -> usize {
    w.node(i).next_sibling().expect("expected a next sibling")
}

#[test]
fn parser_test_empty() {
    let html = "".to_string();
    let t = HtmlTokenizer::new(html);
    let window = HtmlParser::new(t).construct_tree();

    let expected = Node::new(NodeKind::Document);
    assert_eq!(expected, *window.node(window.document()));
    assert!(window.node(window.document()).first_child().is_none());
}

#[test]
fn parser_test_body() {
    let html = "<html><head></head><body></body></html>".to_string();
    let t = HtmlTokenizer::new(html);
    let window = HtmlParser::new(t).construct_tree();
    let document = window.document();
    assert_eq!(Node::new(NodeKind::Document), *window.node(document));

    let html_node = child(&window, document);
    assert_eq!(
        Node::new(NodeKind::Element(Element::new("html", Vec::new()))),
        *window.node(html_node)
    );

    let head = child(&window, html_node);
    assert_eq!(
        Node::new(NodeKind::Element(Element::new("head", Vec::new()))),
        *window.node(head)
    );

    let body = sibling(&window, head);
    assert_eq!(
        Node::new(NodeKind::Element(Element::new("body", Vec::new()))),
        *window.node(body)
    );
}

#[test]
fn parser_test_text() {
    let html = "<html><head></head><body>text</body></html>".to_string();
    let t = HtmlTokenizer::new(html);
    let window = HtmlParser::new(t).construct_tree();
    let document = window.document();
    assert_eq!(Node::new(NodeKind::Document), *window.node(document));

    let html_node = child(&window, document);
    assert_eq!(
        Node::new(NodeKind::Element(Element::new("html", Vec::new()))),
        *window.node(html_node)
    );

    let body = sibling(&window, child(&window, html_node));
    assert_eq!(
        Node::new(NodeKind::Element(Element::new("body", Vec::new()))),
        *window.node(body)
    );

    let text = child(&window, body);
    assert_eq!(
        Node::new(NodeKind::Text("text".to_string())),
        *window.node(text)
    );
    match &window.node(text).kind {
        NodeKind::Text(s) => assert_eq!(s, "text"),
        _ => panic!("expected a text node"),
    }
}

#[test]
fn test_multiple_nodes() {
    let html = "<html><head></head><body><p><a foo=bar>text</a></p></body></html>".to_string();
    let t = HtmlTokenizer::new(html);
    let window = HtmlParser::new(t).construct_tree();
    let document = window.document();

    let body = sibling(&window, child(&window, child(&window, document)));
    assert_eq!(
        Node::new(NodeKind::Element(Element::new("body", Vec::new()))),
        *window.node(body)
    );

    let p = child(&window, body);
    assert_eq!(
        Node::new(NodeKind::Element(Element::new("p", Vec::new()))),
        *window.node(p)
    );

    let mut attr = Attribute::new();
    attr.add_char('f', true);
    attr.add_char('o', true);
    attr.add_char('o', true);
    attr.add_char('b', false);
    attr.add_char('a', false);
    attr.add_char('r', false);
    let a = child(&window, p);
    assert_eq!(
        Node::new(NodeKind::Element(Element::new("a", vec![attr.clone()]))),
        *window.node(a)
    );
    match &window.node(a).kind {
        NodeKind::Element(e) => {
            assert_eq!(e.attributes(), vec![attr]);
            assert_eq!(e.get_attribute("foo"), Some("bar".to_string()));
        }
        _ => panic!("expected an element"),
    }

    let text = child(&window, a);
    assert_eq!(
        Node::new(NodeKind::Text("text".to_string())),
        *window.node(text)
    );
}

/// Building the same document twice gives structurally identical trees.
#[test]
fn test_tree_building_deterministic() {
    let html = "<html><head><style>p{color:red;}</style></head><body><p>hi</p></body></html>";
    let w1 = HtmlParser::new(HtmlTokenizer::new(html.to_string())).construct_tree();
    let w2 = HtmlParser::new(HtmlTokenizer::new(html.to_string())).construct_tree();
    assert_eq!(w1.nodes.len(), w2.nodes.len());
    for i in 0..w1.nodes.len() {
        let a = &w1.nodes[i];
        let b = &w2.nodes[i];
        assert_eq!(a, b);
        assert_eq!(a.first_child(), b.first_child());
        assert_eq!(a.next_sibling(), b.next_sibling());
        assert_eq!(a.previous_sibling(), b.previous_sibling());
        assert_eq!(a.last_child(), b.last_child());
        assert_eq!(a.parent(), b.parent());
        match (&a.kind, &b.kind) {
            (NodeKind::Text(s1), NodeKind::Text(s2)) => assert_eq!(s1, s2),
            (NodeKind::Element(e1), NodeKind::Element(e2)) => {
                assert_eq!(e1.attributes(), e2.attributes())
            }
            _ => {}
        }
    }
}

/// Consecutive character tokens coalesce into one Text node.
#[test]
fn test_text_coalescing() {
    let html = "<html><head></head><body>abc def</body></html>".to_string();
    let t = HtmlTokenizer::new(html);
    let window = HtmlParser::new(t).construct_tree();
    let body = sibling(
        &window,
        child(&window, child(&window, window.document())),
    );
    let text = child(&window, body);
    match &window.node(text).kind {
        NodeKind::Text(s) => assert_eq!(s, "abc def"),
        _ => panic!("expected a text node"),
    }
    assert!(window.node(text).next_sibling().is_none());
}
