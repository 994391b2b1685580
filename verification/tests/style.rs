//! Colors, display keywords and the browser shell pieces.

use saba_core::browser::Browser;
use saba_core::dom::node::{ElementKind, Window};
use saba_core::error::Error;
use saba_core::layout::computed_style::{Color, DisplayType};
use saba_core::utils::convert_dom_to_string;

#[test]
fn test_color_from_name() {
    let lime = Color::from_name("lime").expect("lime is supported");
    assert_eq!(lime.code, "#00ff00");
    assert_eq!(lime.code_u32(), 0x00ff00);
    let orange = Color::from_name("orange").expect("orange is supported");
    assert_eq!(orange.code_u32(), 0xffa500);
    match Color::from_name("chartreuse") {
        Err(Error::UnexpectedInput(_)) => {}
        _ => panic!("an unsupported color name must be rejected"),
    }
}

#[test]
fn test_color_from_code() {
    let c = Color::from_code("#d3d3d3").expect("#d3d3d3 is supported");
    assert_eq!(c.name, Some("lightgray".to_string()));
    assert_eq!(c.code_u32(), 0xd3d3d3);
    match Color::from_code("#123456") {
        Err(Error::UnexpectedInput(_)) => {}
        _ => panic!("an unknown color code must be rejected"),
    }
    match Color::from_code("red") {
        Err(Error::UnexpectedInput(_)) => {}
        _ => panic!("a code must start with a hash"),
    }
}

#[test]
fn test_display_type_from_str() {
    assert_eq!(DisplayType::from_str("block"), Ok(DisplayType::Block));
    assert_eq!(DisplayType::from_str("inline"), Ok(DisplayType::Inline));
    assert_eq!(DisplayType::from_str("none"), Ok(DisplayType::DisplayNone));
    match DisplayType::from_str("flex") {
        Err(Error::UnexpectedInput(_)) => {}
        _ => panic!("an unsupported display keyword must be rejected"),
    }
}

#[test]
fn test_element_kind_from_str() {
    assert_eq!(ElementKind::from_str("h1"), Ok(ElementKind::H1));
    assert_eq!(
        ElementKind::from_str("h1").unwrap().tag_name(),
        "h1".to_string()
    );
    assert!(ElementKind::from_str("div").is_err());
}

#[test]
fn test_browser_has_one_page() {
    let browser = Browser::new();
    assert_eq!(browser.pages.len(), 1);
    assert!(browser.current_page().display_items().is_empty());
}

#[test]
fn test_dom_to_string() {
    let w = Window::new();
    let document = w.document();
    let s = convert_dom_to_string(&w, Some(document));
    assert_eq!(s, "\nDocument\n");
}
