//! The script lexer on numbers, variables and functions.

use saba_core::js::token::{JsLexer, Token};

#[test]
fn js_token_test_empty() {
    let input = "".to_string();
    let mut lexer = JsLexer::new(input);
    assert!(lexer.next().is_none());
}

#[test]
fn token_test_num() {
    let input = "42".to_string();
    let mut lexer = JsLexer::new(input);
    let expected = [Token::Number(42)].to_vec();
    for e in expected {
        assert_eq!(Some(e), lexer.next());
    }
    assert!(lexer.next().is_none());
}

#[test]
fn token_test_add_nums() {
    let input = "1 + 2".to_string();
    let mut lexer = JsLexer::new(input);
    let expected = [Token::Number(1), Token::Punctuator('+'), Token::Number(2)].to_vec();
    for e in expected {
        assert_eq!(Some(e), lexer.next());
    }
    assert!(lexer.next().is_none());
}

#[test]
fn token_test_assign_variable() {
    let input = "var foo=\"bar\";".to_string();
    let mut lexer = JsLexer::new(input);
    let expected = [
        Token::Keyword("var".to_string()),
        Token::Identifier("foo".to_string()),
        Token::Punctuator('='),
        Token::StringLiteral("bar".to_string()),
        Token::Punctuator(';'),
    ]
    .to_vec();
    for e in expected {
        assert_eq!(Some(e), lexer.next());
    }
    assert!(lexer.next().is_none());
}

#[test]
fn token_test_add_variable_and_num() {
    let input = "var foo=42; var result=foo+1;".to_string();
    let mut lexer = JsLexer::new(input);
    let expected = [
        Token::Keyword("var".to_string()),
        Token::Identifier("foo".to_string()),
        Token::Punctuator('='),
        Token::Number(42),
        Token::Punctuator(';'),
        Token::Keyword("var".to_string()),
        Token::Identifier("result".to_string()),
        Token::Punctuator('='),
        Token::Identifier("foo".to_string()),
        Token::Punctuator('+'),
        Token::Number(1),
        Token::Punctuator(';'),
    ]
    .to_vec();
    for e in expected {
        assert_eq!(Some(e), lexer.next());
    }
    assert!(lexer.next().is_none());
}

#[test]
fn test_add_local_variable_and_num() {
    let input = "function foo() { var a=42; return a; } var result = foo() + 1;".to_string();
    let mut lexer = JsLexer::new(input);
    let expected = [
        Token::Keyword("function".to_string()),
        Token::Identifier("foo".to_string()),
        Token::Punctuator('('),
        Token::Punctuator(')'),
        Token::Punctuator('{'),
        Token::Keyword("var".to_string()),
        Token::Identifier("a".to_string()),
        Token::Punctuator('='),
        Token::Number(42),
        Token::Punctuator(';'),
        Token::Keyword("return".to_string()),
        Token::Identifier("a".to_string()),
        Token::Punctuator(';'),
        Token::Punctuator('}'),
        Token::Keyword("var".to_string()),
        Token::Identifier("result".to_string()),
        Token::Punctuator('='),
        Token::Identifier("foo".to_string()),
        Token::Punctuator('('),
        Token::Punctuator(')'),
        Token::Punctuator('+'),
        Token::Number(1),
        Token::Punctuator(';'),
    ]
    .to_vec();
    for e in expected {
        assert_eq!(Some(e), lexer.next());
    }
    assert!(lexer.next().is_none());
}
