//! The HTML tokenizer on tags, attributes and script content.

use saba_core::html::attribute::Attribute;
use saba_core::html::token::{HtmlToken, HtmlTokenizer};

#[test]
fn token_test_empty() {
    let html = "".to_string();
    let mut tokenizer = HtmlTokenizer::new(html);
    assert!(tokenizer.next().is_none())
}

#[test]
fn test_start_and_end_tag() {
    let html = "<body></body>".to_string();
    let mut tokenizer = HtmlTokenizer::new(html);
    let expected = [
        HtmlToken::StartTag {
            tag: "body".to_string(),
            self_closing: false,
            attributes: Vec::new(),
        },
        HtmlToken::EndTag {
            tag: "body".to_string(),
        },
    ];

    for e in expected {
        assert_eq!(Some(e), tokenizer.next())
    }
}

#[test]
fn test_attributes() {
    let html = "<p class=\"A\" id='B' foo=bar></p>".to_string();
    let mut tokenizer = HtmlTokenizer::new(html);
    let mut attr1 = Attribute::new();
    attr1.add_char('c', true);
    attr1.add_char('l', true);
    attr1.add_char('a', true);
    attr1.add_char('s', true);
    attr1.add_char('s', true);
    attr1.add_char('A', false);

    let mut attr2 = Attribute::new();
    attr2.add_char('i', true);
    attr2.add_char('d', true);
    attr2.add_char('B', false);

    let mut attr3 = Attribute::new();
    attr3.add_char('f', true);
    attr3.add_char('o', true);
    attr3.add_char('o', true);
    attr3.add_char('b', false);
    attr3.add_char('a', false);
    attr3.add_char('r', false);

    let expected = [
        HtmlToken::StartTag {
            tag: "p".to_string(),
            self_closing: false,
            attributes: vec![attr1, attr2, attr3],
        },
        HtmlToken::EndTag {
            tag: "p".to_string(),
        },
    ];

    for e in expected {
        assert_eq!(Some(e), tokenizer.next());
    }
}

#[test]
fn test_self_closing_tag() {
    let html = "<img />".to_string();
    let mut tokenizer = HtmlTokenizer::new(html);
    let expected = [HtmlToken::StartTag {
        tag: "img".to_string(),
        self_closing: true,
        attributes: Vec::new(),
    }];

    for e in expected {
        assert_eq!(Some(e), tokenizer.next())
    }
}

#[test]
fn test_script_tag() {
    let html = "<script>js code;</script>".to_string();
    let mut tokenizer = HtmlTokenizer::new(html);
    let expected = [
        HtmlToken::StartTag {
            tag: "script".to_string(),
            self_closing: false,
            attributes: Vec::new(),
        },
        HtmlToken::Char('j'),
        HtmlToken::Char('s'),
        HtmlToken::Char(' '),
        HtmlToken::Char('c'),
        HtmlToken::Char('o'),
        HtmlToken::Char('d'),
        HtmlToken::Char('e'),
        HtmlToken::Char(';'),
        HtmlToken::EndTag {
            tag: "script".to_string(),
        },
    ];

    for e in expected {
        assert_eq!(Some(e), tokenizer.next())
    }
}

#[test]
fn test_upper_case_tag_name_is_lowered() {
    let html = "<BODY></BODY>".to_string();
    let mut tokenizer = HtmlTokenizer::new(html);
    let expected = [
        HtmlToken::StartTag {
            tag: "body".to_string(),
            self_closing: false,
            attributes: Vec::new(),
        },
        HtmlToken::EndTag {
            tag: "body".to_string(),
        },
    ];
    for e in expected {
        assert_eq!(Some(e), tokenizer.next())
    }
}

/// Serialises tokens back to text; retokenizing that text gives the same
/// tokens.
#[test]
fn test_retokenize_round_trip() {
    let html = "<body><p class=\"x\">hi</p></body>".to_string();
    let mut tokenizer = HtmlTokenizer::new(html);
    let mut tokens: Vec<HtmlToken> = Vec::new();
    loop {
        match tokenizer.next() {
            Some(t) => tokens.push(t),
            None => break,
        }
    }

    let mut text = String::new();
    for t in &tokens {
        match t {
            HtmlToken::StartTag {
                tag,
                self_closing,
                attributes,
            } => {
                text.push('<');
                text.push_str(tag);
                for a in attributes {
                    text.push(' ');
                    text.push_str(&a.name());
                    text.push_str("=\"");
                    text.push_str(&a.value());
                    text.push('"');
                }
                if *self_closing {
                    text.push('/');
                }
                text.push('>');
            }
            HtmlToken::EndTag { tag } => {
                text.push_str("</");
                text.push_str(tag);
                text.push('>');
            }
            HtmlToken::Char(c) => text.push(*c),
            HtmlToken::Eof => {}
        }
    }

    let mut tokenizer2 = HtmlTokenizer::new(text);
    let mut tokens2: Vec<HtmlToken> = Vec::new();
    loop {
        match tokenizer2.next() {
            Some(t) => tokens2.push(t),
            None => break,
        }
    }
    assert_eq!(tokens, tokens2);
}
