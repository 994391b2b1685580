//! The CSSOM parser on stylesheets.

use saba_core::css::cssom::{ComponentValue, CssParser, Declaration, QualifiedRule, Selector};
use saba_core::css::token::CssTokenizer;

#[test]
fn cssom_test_empty() {
    let style = "".to_string();
    let t = CssTokenizer::new(style);
    let cssom = CssParser::new(t).parse_stylesheet();

    assert_eq!(cssom.rules.len(), 0);
}

#[test]
fn cssom_test_one_rule() {
    let style = "p { color: red; }".to_string();
    let t = CssTokenizer::new(style);
    let cssom = CssParser::new(t).parse_stylesheet();

    let mut rule = QualifiedRule::new();
    rule.set_selector(Selector::TypeSelector("p".to_string()));
    let mut declaration = Declaration::new();
    declaration.set_property("color".to_string());
    declaration.set_value(ComponentValue::Ident("red".to_string()));
    rule.set_declarations(vec![declaration]);

    let expected = [rule];
    assert_eq!(cssom.rules.len(), expected.len());
    for (got, exp) in cssom.rules.iter().zip(expected.iter()) {
        assert_eq!(exp, got);
    }
}

#[test]
fn cssom_test_id_selector() {
    let style = "#id { color: red; }".to_string();
    let t = CssTokenizer::new(style);
    let cssom = CssParser::new(t).parse_stylesheet();

    let mut rule = QualifiedRule::new();
    rule.set_selector(Selector::IdSelector("id".to_string()));
    let mut declaration = Declaration::new();
    declaration.set_property("color".to_string());
    declaration.set_value(ComponentValue::Ident("red".to_string()));
    rule.set_declarations(vec![declaration]);

    let expected = [rule];
    assert_eq!(cssom.rules.len(), expected.len());
    for (got, exp) in cssom.rules.iter().zip(expected.iter()) {
        assert_eq!(exp, got);
    }
}

#[test]
fn cssom_test_class_selector() {
    let style = ".class { color: red; }".to_string();
    let t = CssTokenizer::new(style);
    let cssom = CssParser::new(t).parse_stylesheet();

    let mut rule = QualifiedRule::new();
    rule.set_selector(Selector::ClassSelector("class".to_string()));
    let mut declaration = Declaration::new();
    declaration.set_property("color".to_string());
    declaration.set_value(ComponentValue::Ident("red".to_string()));
    rule.set_declarations(vec![declaration]);

    let expected = [rule];
    assert_eq!(cssom.rules.len(), expected.len());
    for (got, exp) in cssom.rules.iter().zip(expected.iter()) {
        assert_eq!(exp, got);
    }
}

#[test]
fn cssom_test_multiple_rules() {
    let style = "p { content: \"Hey\"; } h1 { font-size: 40; color: blue; }".to_string();
    let t = CssTokenizer::new(style);
    let cssom = CssParser::new(t).parse_stylesheet();

    let mut rule1 = QualifiedRule::new();
    rule1.set_selector(Selector::TypeSelector("p".to_string()));
    let mut declaration1 = Declaration::new();
    declaration1.set_property("content".to_string());
    declaration1.set_value(ComponentValue::StringToken("Hey".to_string()));
    rule1.set_declarations(vec![declaration1]);

    let mut rule2 = QualifiedRule::new();
    rule2.set_selector(Selector::TypeSelector("h1".to_string()));
    let mut declaration2 = Declaration::new();
    declaration2.set_property("font-size".to_string());
    declaration2.set_value(ComponentValue::Number(40));
    let mut declaration3 = Declaration::new();
    declaration3.set_property("color".to_string());
    declaration3.set_value(ComponentValue::Ident("blue".to_string()));
    rule2.set_declarations(vec![declaration2, declaration3]);

    let expected = [rule1, rule2];
    assert_eq!(cssom.rules.len(), expected.len());
    for (got, exp) in cssom.rules.iter().zip(expected.iter()) {
        assert_eq!(exp, got);
    }
}

#[test]
fn cssom_test_at_rule_is_discarded() {
    let style = "@media x9 { p { color: red; } }".to_string();
    let t = CssTokenizer::new(style);
    let cssom = CssParser::new(t).parse_stylesheet();
    assert_eq!(cssom.rules.len(), 0);
}
