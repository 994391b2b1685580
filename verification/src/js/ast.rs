//! The script syntax tree and its parser.
//!
//! The grammar is top-down and right-recursive: an additive expression with
//! a `+` or `-` hands the whole rest of the expression to the right operand.
//! Parsing never fails loudly: an unexpected construct simply yields
//! nothing, and the program ends there.

use vstd::prelude::*;

use std::rc::Rc;

use crate::js::token::JsLexer;
use crate::js::token::Token;
use crate::strutil::str_eq;

verus! {

/// One node of the syntax tree.
#[derive(Debug, PartialEq)]
pub enum Node {
    /// A bare expression in statement position.
    ExpressionStatement(Option<Rc<Node>>),
    /// `left + right` or `left - right`.
    AdditiveExpression { operator: char, left: Option<Rc<Node>>, right: Option<Rc<Node>> },
    /// `left = right`.
    AssignmentExpression { operator: char, left: Option<Rc<Node>>, right: Option<Rc<Node>> },
    /// `object.property`.
    MemberExpression { object: Option<Rc<Node>>, property: Option<Rc<Node>> },
    /// A non-negative number.
    NumericLiteral(u64),
    /// `var` and its declarators.
    VariableDeclaration { declarations: Vec<Option<Rc<Node>>> },
    /// One declared name with an optional initialiser.
    VariableDeclarator { id: Option<Rc<Node>>, init: Option<Rc<Node>> },
    /// A name.
    Identifier(String),
    /// A double-quoted string.
    StringLiteral(String),
    /// `{ ... }`.
    BlockStatement { body: Vec<Option<Rc<Node>>> },
    /// `return` with an optional argument.
    ReturnStatement { argument: Option<Rc<Node>> },
    /// `function name(params) { body }`.
    FunctionDeclaration {
        id: Option<Rc<Node>>,
        params: Vec<Option<Rc<Node>>>,
        body: Option<Rc<Node>>,
    },
    /// `callee(arguments)`.
    CallExpression { callee: Option<Rc<Node>>, arguments: Vec<Option<Rc<Node>>> },
}

impl Node {
    /// A statement around an expression.
    pub fn new_expression_statement(expression: Option<Rc<Node>>) -> (r: Option<Rc<Node>>)
        ensures
            r matches Some(n) && *n == Node::ExpressionStatement(expression),
    {
        Some(Rc::new(Node::ExpressionStatement(expression)))
    }

    /// An additive expression.
    pub fn new_additive_expression(
        operator: char,
        left: Option<Rc<Node>>,
        right: Option<Rc<Node>>,
    ) -> (r: Option<Rc<Node>>)
        ensures
            r matches Some(n) && *n == (Node::AdditiveExpression { operator, left, right }),
    {
        Some(Rc::new(Node::AdditiveExpression { operator, left, right }))
    }

    /// An assignment expression.
    pub fn new_assignment_expression(
        operator: char,
        left: Option<Rc<Node>>,
        right: Option<Rc<Node>>,
    ) -> (r: Option<Rc<Node>>)
        ensures
            r matches Some(n) && *n == (Node::AssignmentExpression { operator, left, right }),
    {
        Some(Rc::new(Node::AssignmentExpression { operator, left, right }))
    }

    /// A member expression.
    pub fn new_member_expression(object: Option<Rc<Node>>, property: Option<Rc<Node>>) -> (r:
        Option<Rc<Node>>)
        ensures
            r matches Some(n) && *n == (Node::MemberExpression { object, property }),
    {
        Some(Rc::new(Node::MemberExpression { object, property }))
    }

    /// A numeric literal.
    pub fn new_numeric_literal(value: u64) -> (r: Option<Rc<Node>>)
        ensures
            r matches Some(n) && *n == Node::NumericLiteral(value),
    {
        Some(Rc::new(Node::NumericLiteral(value)))
    }

    /// One declarator.
    pub fn new_variable_declarator(id: Option<Rc<Node>>, init: Option<Rc<Node>>) -> (r: Option<
        Rc<Node>,
    >)
        ensures
            r matches Some(n) && *n == (Node::VariableDeclarator { id, init }),
    {
        Some(Rc::new(Node::VariableDeclarator { id, init }))
    }

    /// A declaration around its declarators.
    pub fn new_variable_declaration(declarations: Vec<Option<Rc<Node>>>) -> (r: Option<Rc<Node>>)
        ensures
            r matches Some(n) && *n == (Node::VariableDeclaration { declarations }),
    {
        Some(Rc::new(Node::VariableDeclaration { declarations }))
    }

    /// An identifier.
    pub fn new_identifier(name: String) -> (r: Option<Rc<Node>>)
        ensures
            r matches Some(n) && *n == Node::Identifier(name),
    {
        Some(Rc::new(Node::Identifier(name)))
    }

    /// A string literal.
    pub fn new_string_literal(value: String) -> (r: Option<Rc<Node>>)
        ensures
            r matches Some(n) && *n == Node::StringLiteral(value),
    {
        Some(Rc::new(Node::StringLiteral(value)))
    }

    /// A block statement.
    pub fn new_block_statement(body: Vec<Option<Rc<Node>>>) -> (r: Option<Rc<Node>>)
        ensures
            r matches Some(n) && *n == (Node::BlockStatement { body }),
    {
        Some(Rc::new(Node::BlockStatement { body }))
    }

    /// A return statement.
    pub fn new_return_statement(argument: Option<Rc<Node>>) -> (r: Option<Rc<Node>>)
        ensures
            r matches Some(n) && *n == (Node::ReturnStatement { argument }),
    {
        Some(Rc::new(Node::ReturnStatement { argument }))
    }

    /// A function declaration.
    pub fn new_function_declaration(
        id: Option<Rc<Node>>,
        params: Vec<Option<Rc<Node>>>,
        body: Option<Rc<Node>>,
    ) -> (r: Option<Rc<Node>>)
        ensures
            r matches Some(n) && *n == (Node::FunctionDeclaration { id, params, body }),
    {
        Some(Rc::new(Node::FunctionDeclaration { id, params, body }))
    }

    /// A call expression.
    pub fn new_call_expression(callee: Option<Rc<Node>>, arguments: Vec<Option<Rc<Node>>>) -> (r:
        Option<Rc<Node>>)
        ensures
            r matches Some(n) && *n == (Node::CallExpression { callee, arguments }),
    {
        Some(Rc::new(Node::CallExpression { callee, arguments }))
    }
}

/// A whole program: its statements in source order.
#[derive(Debug, PartialEq)]
pub struct Program {
    pub body: Vec<Rc<Node>>,
}

impl Program {
    /// An empty program.
    pub fn new() -> (r: Self)
        ensures
            r.body@.len() == 0,
    {
        Self { body: Vec::new() }
    }

    /// Replaces the statement list.
    pub fn set_body(&mut self, body: Vec<Rc<Node>>)
        ensures
            *final(self) == (Program { body }),
    {
        self.body = body;
    }

    /// The statement list.
    pub fn body(&self) -> (r: &Vec<Rc<Node>>)
        ensures
            r == &self.body,
    {
        &self.body
    }
}

/// The parser: a read position over the token stream.
pub struct JsParser {
    pub tokens: Vec<Token>,
    pub pos: usize,
}

impl JsParser {
    /// The read position stays within the token stream.
    pub open spec fn wf(&self) -> bool {
        self.pos <= self.tokens@.len()
    }

    /// A parser over every token the lexer yields: exactly its emissions,
    /// in order.
    pub fn new(t: JsLexer) -> (r: Self)
        requires
            t.wf(),
        ensures
            r.wf(),
            r.pos == 0,
            crate::js::token::js_tokens_view(r.tokens@) == crate::js::token::spec_js_tokenize(
                t.input@,
                t.pos as int,
            ),
            t.pos >= t.input@.len() ==> r.tokens@.len() == 0,
    {
        let mut t = t;
        let tokens = t.collect_all();
        Self { tokens, pos: 0 }
    }

    /// The next token, consumed, as an owned value.
    fn next_token(&mut self) -> (r: Option<Token>)
        requires
            old(self).wf(),
        ensures
            final(self).wf(),
            final(self).tokens == old(self).tokens,
            r is Some ==> final(self).pos == old(self).pos + 1,
            r is None ==> *final(self) == *old(self) && old(self).pos >= old(self).tokens@.len(),
            old(self).pos < old(self).tokens@.len() ==> r is Some,
            r matches Some(t) ==> (old(self).pos < old(self).tokens@.len() && crate::js::token::tok_like(
                t,
                old(self).tokens@[old(self).pos as int],
            )),
    {
        if self.pos < self.tokens.len() {
            let t = self.tokens[self.pos].duplicate();
            self.pos = self.pos + 1;
            Some(t)
        } else {
            None
        }
    }

    /// A primary expression: an identifier, a string, or a number.
    /// Anything else is consumed and yields nothing.
    fn primary_expression(&mut self) -> (r: Option<Rc<Node>>)
        requires
            old(self).wf(),
        ensures
            final(self).wf(),
            final(self).tokens == old(self).tokens,
            final(self).pos >= old(self).pos,
            old(self).pos < old(self).tokens@.len() ==> final(self).pos > old(self).pos,
            old(self).pos < old(self).tokens@.len() ==> (old(
                self,
            ).tokens@[old(self).pos as int] matches Token::Number(v) ==> (r matches Some(n) && *n
                == Node::NumericLiteral(v))),
            old(self).pos < old(self).tokens@.len() ==> (old(
                self,
            ).tokens@[old(self).pos as int] matches Token::Identifier(name) ==> (r matches Some(n)
                && (*n matches Node::Identifier(id) && id@ == name@))),
            old(self).pos < old(self).tokens@.len() ==> (old(
                self,
            ).tokens@[old(self).pos as int] matches Token::StringLiteral(sv) ==> (r matches Some(n)
                && (*n matches Node::StringLiteral(s2) && s2@ == sv@))),
    {
        let t = match self.next_token() {
            Some(token) => token,
            None => {
                return None;
            },
        };
        match t {
            Token::Identifier(value) => Node::new_identifier(value),
            Token::StringLiteral(value) => Node::new_string_literal(value),
            Token::Number(value) => Node::new_numeric_literal(value),
            _ => None,
        }
    }

    /// The next token consumed only when it is an identifier, which
    /// becomes an Identifier node.
    fn identifier(&mut self) -> (r: Option<Rc<Node>>)
        requires
            old(self).wf(),
        ensures
            final(self).wf(),
            final(self).tokens == old(self).tokens,
            final(self).pos >= old(self).pos,
            old(self).pos < old(self).tokens@.len() ==> final(self).pos > old(self).pos,
            old(self).pos < old(self).tokens@.len() ==> (old(
                self,
            ).tokens@[old(self).pos as int] matches Token::Identifier(name) ==> (r matches Some(n)
                && (*n matches Node::Identifier(id) && id@ == name@))),
            old(self).pos >= old(self).tokens@.len() ==> r is None,
    {
        let t = match self.next_token() {
            Some(token) => token,
            None => {
                return None;
            },
        };
        match t {
            Token::Identifier(name) => Node::new_identifier(name),
            _ => None,
        }
    }

    /// A member expression: a primary expression, possibly followed by a
    /// dot and a property name.
    fn member_expression(&mut self) -> (r: Option<Rc<Node>>)
        requires
            old(self).wf(),
        ensures
            final(self).wf(),
            final(self).tokens == old(self).tokens,
            final(self).pos >= old(self).pos,
            old(self).pos < old(self).tokens@.len() ==> final(self).pos > old(self).pos,
    {
        let expr = self.primary_expression();
        let dot = self.pos < self.tokens.len() && match &self.tokens[self.pos] {
            Token::Punctuator(c) => *c == '.',
            _ => false,
        };
        if dot {
            let _ = self.next_token();
            let prop = self.identifier();
            return Node::new_member_expression(expr, prop);
        }
        expr
    }

    /// The arguments of a call, up to the closing parenthesis.
    fn arguments(&mut self) -> (r: Vec<Option<Rc<Node>>>)
        requires
            old(self).wf(),
        ensures
            final(self).wf(),
            final(self).tokens == old(self).tokens,
            final(self).pos >= old(self).pos,
        decreases old(self).tokens@.len() - old(self).pos, 5int,
    {
        let mut arguments: Vec<Option<Rc<Node>>> = Vec::new();
        loop
            invariant
                self.wf(),
                self.tokens == old(self).tokens,
                self.pos >= old(self).pos,
            decreases self.tokens@.len() - self.pos,
        {
            if self.pos >= self.tokens.len() {
                return arguments;
            }
            let close = match &self.tokens[self.pos] {
                Token::Punctuator(c) => {
                    if *c == ')' {
                        1
                    } else if *c == ',' {
                        2
                    } else {
                        0
                    }
                },
                _ => 0,
            };
            if close == 1 {
                let _ = self.next_token();
                return arguments;
            } else if close == 2 {
                let _ = self.next_token();
            } else {
                arguments.push(self.assignment_expression());
            }
        }
    }

    /// A left-hand-side expression: a member expression, called when an
    /// opening parenthesis follows.
    fn left_hand_side_expression(&mut self) -> (r: Option<Rc<Node>>)
        requires
            old(self).wf(),
        ensures
            final(self).wf(),
            final(self).tokens == old(self).tokens,
            final(self).pos >= old(self).pos,
            old(self).pos < old(self).tokens@.len() ==> final(self).pos > old(self).pos,
        decreases old(self).tokens@.len() - old(self).pos, 2int,
    {
        let expr = self.member_expression();
        let open = self.pos < self.tokens.len() && match &self.tokens[self.pos] {
            Token::Punctuator(c) => *c == '(',
            _ => false,
        };
        if open {
            let _ = self.next_token();
            return Node::new_call_expression(expr, self.arguments());
        }
        expr
    }

    /// An additive expression: a left-hand side, and after a `+` or `-`
    /// the whole rest of the expression as the right operand.
    fn additive_expression(&mut self) -> (r: Option<Rc<Node>>)
        requires
            old(self).wf(),
        ensures
            final(self).wf(),
            final(self).tokens == old(self).tokens,
            final(self).pos >= old(self).pos,
            old(self).pos < old(self).tokens@.len() ==> final(self).pos > old(self).pos,
        decreases old(self).tokens@.len() - old(self).pos, 3int,
    {
        let left = self.left_hand_side_expression();
        if self.pos >= self.tokens.len() {
            return left;
        }
        let op = match &self.tokens[self.pos] {
            Token::Punctuator(c) => {
                if *c == '+' || *c == '-' {
                    Some(*c)
                } else {
                    None
                }
            },
            _ => None,
        };
        match op {
            Some(c) => {
                let _ = self.next_token();
                Node::new_additive_expression(c, left, self.assignment_expression())
            },
            None => left,
        }
    }

    /// An assignment expression: an additive expression, and after `=` the
    /// whole rest of the expression as the right side (right-associative).
    fn assignment_expression(&mut self) -> (r: Option<Rc<Node>>)
        requires
            old(self).wf(),
        ensures
            final(self).wf(),
            final(self).tokens == old(self).tokens,
            final(self).pos >= old(self).pos,
            old(self).pos < old(self).tokens@.len() ==> final(self).pos > old(self).pos,
        decreases old(self).tokens@.len() - old(self).pos, 4int,
    {
        let expr = self.additive_expression();
        if self.pos >= self.tokens.len() {
            return expr;
        }
        let eq = match &self.tokens[self.pos] {
            Token::Punctuator(c) => *c == '=',
            _ => false,
        };
        if eq {
            let _ = self.next_token();
            return Node::new_assignment_expression('=', expr, self.assignment_expression());
        }
        expr
    }

    /// The initialiser of a declarator: after `=`, the expression; after
    /// anything else, nothing.
    fn initialiser(&mut self) -> (r: Option<Rc<Node>>)
        requires
            old(self).wf(),
        ensures
            final(self).wf(),
            final(self).tokens == old(self).tokens,
            final(self).pos >= old(self).pos,
        decreases old(self).tokens@.len() - old(self).pos, 5int,
    {
        let t = match self.next_token() {
            Some(token) => token,
            None => {
                return None;
            },
        };
        match t {
            Token::Punctuator(c) => {
                if c == '=' {
                    self.assignment_expression()
                } else {
                    None
                }
            },
            _ => None,
        }
    }

    /// One `var` declaration: a name and an optional initialiser.
    fn variable_declaration(&mut self) -> (r: Option<Rc<Node>>)
        requires
            old(self).wf(),
        ensures
            final(self).wf(),
            final(self).tokens == old(self).tokens,
            final(self).pos >= old(self).pos,
            r is Some,
        decreases old(self).tokens@.len() - old(self).pos, 6int,
    {
        let ident = self.identifier();
        let init = self.initialiser();
        let declarator = Node::new_variable_declarator(ident, init);
        let mut declarations: Vec<Option<Rc<Node>>> = Vec::new();
        declarations.push(declarator);
        Node::new_variable_declaration(declarations)
    }

    /// One statement: a declaration, a return, or an expression, each with
    /// an optional trailing semicolon.
    fn statement(&mut self) -> (r: Option<Rc<Node>>)
        requires
            old(self).wf(),
        ensures
            final(self).wf(),
            final(self).tokens == old(self).tokens,
            final(self).pos >= old(self).pos,
            old(self).pos < old(self).tokens@.len() ==> final(self).pos > old(self).pos,
            old(self).pos >= old(self).tokens@.len() ==> r is None,
            (old(self).pos < old(self).tokens@.len() && !(old(
                self,
            ).tokens@[old(self).pos as int] is Keyword)) ==> r is Some,
        decreases old(self).tokens@.len() - old(self).pos, 7int,
    {
        if self.pos >= self.tokens.len() {
            return None;
        }
        let word = match &self.tokens[self.pos] {
            Token::Keyword(keyword) => {
                if str_eq(keyword, "var") {
                    1
                } else if str_eq(keyword, "return") {
                    2
                } else {
                    0
                }
            },
            _ => 0,
        };
        let node = if word == 1 {
            let _ = self.next_token();
            self.variable_declaration()
        } else if word == 2 {
            let _ = self.next_token();
            Node::new_return_statement(self.assignment_expression())
        } else if word == 0 && matches!(&self.tokens[self.pos], Token::Keyword(_)) {
            // The lexer only emits the three reserved words, so this arm
            // cannot be reached through it; the stray word is dropped.
            let _ = self.next_token();
            None
        } else {
            Node::new_expression_statement(self.assignment_expression())
        };

        if self.pos < self.tokens.len() {
            let semi = match &self.tokens[self.pos] {
                Token::Punctuator(c) => *c == ';',
                _ => false,
            };
            if semi {
                let _ = self.next_token();
            }
        }
        node
    }

    /// A function body: statements between braces.  A missing opening
    /// brace yields an empty block; a missing closing brace ends the block
    /// at the end of the input.
    fn function_body(&mut self) -> (r: Option<Rc<Node>>)
        requires
            old(self).wf(),
        ensures
            final(self).wf(),
            final(self).tokens == old(self).tokens,
            final(self).pos >= old(self).pos,
        decreases old(self).tokens@.len() - old(self).pos, 8int,
    {
        match self.next_token() {
            Some(Token::Punctuator(c)) => {
                if c != '{' {
                    return Node::new_block_statement(Vec::new());
                }
            },
            _ => {
                return Node::new_block_statement(Vec::new());
            },
        }
        let mut body: Vec<Option<Rc<Node>>> = Vec::new();
        loop
            invariant
                self.wf(),
                self.tokens == old(self).tokens,
                self.pos > old(self).pos,
            decreases self.tokens@.len() - self.pos,
        {
            if self.pos >= self.tokens.len() {
                return Node::new_block_statement(body);
            }
            let close = match &self.tokens[self.pos] {
                Token::Punctuator(c) => *c == '}',
                _ => false,
            };
            if close {
                let _ = self.next_token();
                return Node::new_block_statement(body);
            }
            body.push(self.source_element());
        }
    }

    /// The parameter names between the parentheses of a declaration.  A
    /// missing opening parenthesis yields no parameters.
    fn parameter_list(&mut self) -> (r: Vec<Option<Rc<Node>>>)
        requires
            old(self).wf(),
        ensures
            final(self).wf(),
            final(self).tokens == old(self).tokens,
            final(self).pos >= old(self).pos,
    {
        let mut params: Vec<Option<Rc<Node>>> = Vec::new();
        match self.next_token() {
            Some(Token::Punctuator(c)) => {
                if c != '(' {
                    return params;
                }
            },
            _ => {
                return params;
            },
        }
        loop
            invariant
                self.wf(),
                self.tokens == old(self).tokens,
                self.pos >= old(self).pos,
            decreases self.tokens@.len() - self.pos,
        {
            if self.pos >= self.tokens.len() {
                return params;
            }
            let mark = match &self.tokens[self.pos] {
                Token::Punctuator(c) => {
                    if *c == ')' {
                        1
                    } else if *c == ',' {
                        2
                    } else {
                        0
                    }
                },
                _ => 0,
            };
            if mark == 1 {
                let _ = self.next_token();
                return params;
            } else if mark == 2 {
                let _ = self.next_token();
            } else {
                params.push(self.identifier());
            }
        }
    }

    /// A function declaration, after its `function` keyword: name,
    /// parameters, body.
    fn function_declaration(&mut self) -> (r: Option<Rc<Node>>)
        requires
            old(self).wf(),
        ensures
            final(self).wf(),
            final(self).tokens == old(self).tokens,
            final(self).pos >= old(self).pos,
        decreases old(self).tokens@.len() - old(self).pos, 9int,
    {
        let id = self.identifier();
        let params = self.parameter_list();
        Node::new_function_declaration(id, params, self.function_body())
    }

    /// One top-level element: a function declaration or a statement.
    fn source_element(&mut self) -> (r: Option<Rc<Node>>)
        requires
            old(self).wf(),
        ensures
            final(self).wf(),
            final(self).tokens == old(self).tokens,
            final(self).pos >= old(self).pos,
            old(self).pos < old(self).tokens@.len() ==> final(self).pos > old(self).pos,
            old(self).pos >= old(self).tokens@.len() ==> r is None,
            (old(self).pos < old(self).tokens@.len() && !(old(
                self,
            ).tokens@[old(self).pos as int] is Keyword)) ==> r is Some,
        decreases old(self).tokens@.len() - old(self).pos, 10int,
    {
        if self.pos >= self.tokens.len() {
            return None;
        }
        let is_function = match &self.tokens[self.pos] {
            Token::Keyword(keyword) => str_eq(keyword, "function"),
            _ => false,
        };
        if is_function {
            let _ = self.next_token();
            self.function_declaration()
        } else {
            self.statement()
        }
    }

    /// Parses the whole program: top-level elements until none can be made.
    pub fn parse_ast(&mut self) -> (r: Program)
        requires
            old(self).wf(),
        ensures
            final(self).wf(),
            old(self).tokens@.len() == 0 ==> r.body@.len() == 0,
            (old(self).pos < old(self).tokens@.len() && !(old(
                self,
            ).tokens@[old(self).pos as int] is Keyword)) ==> r.body@.len() >= 1,
    {
        let mut program = Program::new();
        let mut body: Vec<Rc<Node>> = Vec::new();
        loop
            invariant
                self.wf(),
                self.tokens == old(self).tokens,
                self.pos >= old(self).pos,
                old(self).tokens@.len() == 0 ==> body@.len() == 0,
                (old(self).pos < old(self).tokens@.len() && !(old(
                    self,
                ).tokens@[old(self).pos as int] is Keyword)) ==> (body@.len() >= 1 || self.pos
                    == old(self).pos),
            decreases self.tokens@.len() - self.pos,
        {
            let node = self.source_element();
            match node {
                Some(n) => {
                    body.push(n);
                },
                None => {
                    program.set_body(body);
                    return program;
                },
            }
        }
    }
}

} // verus!
