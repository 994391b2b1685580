//! The script parser on expressions, declarations and functions.

use std::rc::Rc;

use saba_core::js::ast::{JsParser, Node, Program};
use saba_core::js::token::JsLexer;

#[test]
fn ast_test_empty() {
    let input = "".to_string();
    let lexer = JsLexer::new(input);
    let mut parser = JsParser::new(lexer);
    let expected = Program::new();
    assert_eq!(expected, parser.parse_ast());
}

#[test]
fn ast_test_num() {
    let input = "42".to_string();
    let lexer = JsLexer::new(input);
    let mut parser = JsParser::new(lexer);
    let mut expected = Program::new();
    let mut body = Vec::new();
    body.push(Rc::new(Node::ExpressionStatement(Some(Rc::new(
        Node::NumericLiteral(42),
    )))));
    expected.set_body(body);
    assert_eq!(expected, parser.parse_ast());
}

#[test]
fn ast_test_add_nums() {
    let input = "1 + 2".to_string();
    let lexer = JsLexer::new(input);
    let mut parser = JsParser::new(lexer);
    let mut expected = Program::new();
    let mut body = Vec::new();
    body.push(Rc::new(Node::ExpressionStatement(Some(Rc::new(
        Node::AdditiveExpression {
            operator: '+',
            left: Some(Rc::new(Node::NumericLiteral(1))),
            right: Some(Rc::new(Node::NumericLiteral(2))),
        },
    )))));
    expected.set_body(body);
    assert_eq!(expected, parser.parse_ast());
}

#[test]
fn ast_test_assign_variable() {
    let input = "var foo=\"bar\";".to_string();
    let lexer = JsLexer::new(input);
    let mut parser = JsParser::new(lexer);
    let mut expected = Program::new();
    let mut body = Vec::new();
    body.push(Rc::new(Node::VariableDeclaration {
        declarations: [Some(Rc::new(Node::VariableDeclarator {
            id: Some(Rc::new(Node::Identifier("foo".to_string()))),
            init: Some(Rc::new(Node::StringLiteral("bar".to_string()))),
        }))]
        .to_vec(),
    }));
    expected.set_body(body);
    assert_eq!(expected, parser.parse_ast());
}

#[test]
fn ast_test_add_variable_and_num() {
    let input = "var foo=42; var result=foo+1;".to_string();
    let lexer = JsLexer::new(input);
    let mut parser = JsParser::new(lexer);
    let mut expected = Program::new();
    let mut body = Vec::new();
    body.push(Rc::new(Node::VariableDeclaration {
        declarations: [Some(Rc::new(Node::VariableDeclarator {
            id: Some(Rc::new(Node::Identifier("foo".to_string()))),
            init: Some(Rc::new(Node::NumericLiteral(42))),
        }))]
        .to_vec(),
    }));
    body.push(Rc::new(Node::VariableDeclaration {
        declarations: [Some(Rc::new(Node::VariableDeclarator {
            id: Some(Rc::new(Node::Identifier("result".to_string()))),
            init: Some(Rc::new(Node::AdditiveExpression {
                operator: '+',
                left: Some(Rc::new(Node::Identifier("foo".to_string()))),
                right: Some(Rc::new(Node::NumericLiteral(1))),
            })),
        }))]
        .to_vec(),
    }));
    expected.set_body(body);
    assert_eq!(expected, parser.parse_ast());
}

#[test]
fn test_define_function() {
    let input = "function foo() { return 42; }".to_string();
    let lexer = JsLexer::new(input);
    let mut parser = JsParser::new(lexer);
    let mut expected = Program::new();
    let mut body = Vec::new();
    body.push(Rc::new(Node::FunctionDeclaration {
        id: Some(Rc::new(Node::Identifier("foo".to_string()))),
        params: [].to_vec(),
        body: Some(Rc::new(Node::BlockStatement {
            body: [Some(Rc::new(Node::ReturnStatement {
                argument: Some(Rc::new(Node::NumericLiteral(42))),
            }))]
            .to_vec(),
        })),
    }));
    expected.set_body(body);
    assert_eq!(expected, parser.parse_ast());
}

#[test]
fn test_add_function_add_num() {
    let input = "function foo() { return 42; } var result = foo() + 1;".to_string();
    let lexer = JsLexer::new(input);
    let mut parser = JsParser::new(lexer);
    let mut expected = Program::new();
    let mut body = Vec::new();
    body.push(Rc::new(Node::FunctionDeclaration {
        id: Some(Rc::new(Node::Identifier("foo".to_string()))),
        params: [].to_vec(),
        body: Some(Rc::new(Node::BlockStatement {
            body: [Some(Rc::new(Node::ReturnStatement {
                argument: Some(Rc::new(Node::NumericLiteral(42))),
            }))]
            .to_vec(),
        })),
    }));
    body.push(Rc::new(Node::VariableDeclaration {
        declarations: [Some(Rc::new(Node::VariableDeclarator {
            id: Some(Rc::new(Node::Identifier("result".to_string()))),
            init: Some(Rc::new(Node::AdditiveExpression {
                operator: '+',
                left: Some(Rc::new(Node::CallExpression {
                    callee: Some(Rc::new(Node::Identifier("foo".to_string()))),
                    arguments: [].to_vec(),
                })),
                right: Some(Rc::new(Node::NumericLiteral(1))),
            })),
        }))]
        .to_vec(),
    }));
    expected.set_body(body);
    assert_eq!(expected, parser.parse_ast());
}

#[test]
fn ast_test_define_function_with_args() {
    let input = "function foo(a, b) { return a+b; }".to_string();
    let lexer = JsLexer::new(input);
    let mut parser = JsParser::new(lexer);
    let mut expected = Program::new();
    let mut body = Vec::new();
    body.push(Rc::new(Node::FunctionDeclaration {
        id: Some(Rc::new(Node::Identifier("foo".to_string()))),
        params: [
            Some(Rc::new(Node::Identifier("a".to_string()))),
            Some(Rc::new(Node::Identifier("b".to_string()))),
        ]
        .to_vec(),
        body: Some(Rc::new(Node::BlockStatement {
            body: [Some(Rc::new(Node::ReturnStatement {
                argument: Some(Rc::new(Node::AdditiveExpression {
                    operator: '+',
                    left: Some(Rc::new(Node::Identifier("a".to_string()))),
                    right: Some(Rc::new(Node::Identifier("b".to_string()))),
                })),
            }))]
            .to_vec(),
        })),
    }));
    expected.set_body(body);
    assert_eq!(expected, parser.parse_ast());
}
