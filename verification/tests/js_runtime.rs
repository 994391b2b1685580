//! The interpreter on literals, arithmetic, variables, functions and
//! scoping.

use std::rc::Rc;

use saba_core::dom::node::Window;
use saba_core::js::ast::JsParser;
use saba_core::js::runtime::{JsRuntime, RuntimeValue};
use saba_core::js::token::JsLexer;

fn run(input: &str, expected: &[Option<RuntimeValue>]) {
    let dom = Window::new();
    let lexer = JsLexer::new(input.to_string());
    let mut parser = JsParser::new(lexer);
    let ast = parser.parse_ast();
    let mut runtime = JsRuntime::new(dom);
    let mut i = 0;
    for node in ast.body() {
        let result = runtime.eval(&Some(Rc::clone(node)));
        assert_eq!(expected[i], result);
        i += 1;
    }
    assert_eq!(i, expected.len());
}

#[test]
fn runtime_test_num() {
    run("42", &[Some(RuntimeValue::Number(42))]);
}

#[test]
fn runtime_test_add_nums() {
    run("1 + 2", &[Some(RuntimeValue::Number(3))]);
}

#[test]
fn test_sub_nums() {
    run("2 - 1", &[Some(RuntimeValue::Number(1))]);
}

#[test]
fn runtime_test_assign_variable() {
    run("var foo=42;", &[None]);
}

#[test]
fn runtime_test_add_variable_and_num() {
    run("var foo=42; foo+1", &[None, Some(RuntimeValue::Number(43))]);
}

#[test]
fn test_reassign_variable() {
    run(
        "var foo=42; foo=1; foo",
        &[None, None, Some(RuntimeValue::Number(1))],
    );
}

#[test]
fn test_add_function_and_num() {
    run(
        "function foo() { return 42; } foo()+1",
        &[None, Some(RuntimeValue::Number(43))],
    );
}

#[test]
fn runtime_test_define_function_with_args() {
    run(
        "function foo(a, b) { return a + b; } foo(1, 2) + 3;",
        &[None, Some(RuntimeValue::Number(6))],
    );
}

#[test]
fn test_local_variable() {
    run(
        "var a=42; function foo() { var a=1; return a; } foo()+a",
        &[None, None, Some(RuntimeValue::Number(43))],
    );
}

#[test]
fn test_string_concatenation() {
    run(
        "var a=\"hello\"; a+1",
        &[None, Some(RuntimeValue::StringLiteral("hello1".to_string()))],
    );
}

#[test]
fn test_sub_with_string_is_zero() {
    run(
        "var a=\"x\"; a-1",
        &[None, Some(RuntimeValue::Number(0))],
    );
}

#[test]
fn test_outer_variable_visible_unless_shadowed() {
    // Visible: the inner frame does not bind `a` itself.
    run(
        "var a=7; function f(b) { return a+b; } f(1)",
        &[None, None, Some(RuntimeValue::Number(8))],
    );
    // Shadowed: the inner frame's own binding wins.
    run(
        "var a=7; function g() { var a=1; return a; } g()",
        &[None, None, Some(RuntimeValue::Number(1))],
    );
}
