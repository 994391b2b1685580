//! The script interpreter: a tree walk over the syntax tree against a
//! lexically scoped environment and a small document binding.
//!
//! Arithmetic works on unsigned 64-bit integers and clamps at the ends of
//! the range instead of overflowing.  `+` of two numbers adds them; any
//! other `+` concatenates the operands' textual forms.  `-` of two numbers
//! subtracts; any other `-` yields zero.  An unbound name evaluates to a
//! string holding the name itself, which is how `document.getElementById`
//! becomes callable.

use vstd::prelude::*;

use std::rc::Rc;

use crate::dom::api::get_element_by_id;
use crate::dom::node::NodeKind;
use crate::dom::node::Window;
use crate::js::ast::Node;
use crate::js::ast::Program;
use crate::strutil::push_char;
use crate::strutil::str_eq;

verus! {

/// The value of a runtime value: numbers, text, or a handle to a document
/// element with an optional pending property name.
pub ghost enum RuntimeValueV {
    Number(u64),
    StringLiteral(Seq<char>),
    HtmlElement { object: usize, property: Option<Seq<char>> },
}

/// One runtime value.
#[derive(Debug, Clone, PartialEq)]
pub enum RuntimeValue {
    /// An unsigned 64-bit number.
    Number(u64),
    /// A string.
    StringLiteral(String),
    /// A document element, by its handle, with an optional property name.
    HtmlElement { object: usize, property: Option<String> },
}

impl View for RuntimeValue {
    type V = RuntimeValueV;

    open spec fn view(&self) -> RuntimeValueV {
        match self {
            RuntimeValue::Number(n) => RuntimeValueV::Number(*n),
            RuntimeValue::StringLiteral(s) => RuntimeValueV::StringLiteral(s@),
            RuntimeValue::HtmlElement { object, property } => RuntimeValueV::HtmlElement {
                object: *object,
                property: match property {
                    Some(p) => Some(p@),
                    None => None,
                },
            },
        }
    }
}

/// The decimal digits of `n`, most significant first.
pub open spec fn spec_dec(n: nat) -> Seq<char>
    decreases n,
{
    if n < 10 {
        seq![((0x30 + n) as char)]
    } else {
        spec_dec(n / 10).push(((0x30 + n % 10) as char))
    }
}

/// The textual form of a value: a number in decimal, a string as itself,
/// an element handle as a fixed marker.
pub open spec fn spec_display(v: RuntimeValueV) -> Seq<char> {
    match v {
        RuntimeValueV::Number(n) => spec_dec(n as nat),
        RuntimeValueV::StringLiteral(s) => s,
        RuntimeValueV::HtmlElement { .. } => "HtmlElement"@,
    }
}

/// Addition on u64 that clamps at the top of the range.
pub open spec fn spec_sat_add_u64(a: u64, b: u64) -> u64 {
    if a + b > u64::MAX {
        u64::MAX
    } else {
        (a + b) as u64
    }
}

/// Subtraction on u64 that clamps at zero.
pub open spec fn spec_sat_sub_u64(a: u64, b: u64) -> u64 {
    if a >= b {
        (a - b) as u64
    } else {
        0u64
    }
}

/// What `+` yields: the sum of two numbers, else the concatenation of the
/// textual forms.
pub open spec fn spec_add_values(a: RuntimeValueV, b: RuntimeValueV) -> RuntimeValueV {
    match (a, b) {
        (RuntimeValueV::Number(x), RuntimeValueV::Number(y)) => RuntimeValueV::Number(
            spec_sat_add_u64(x, y),
        ),
        _ => RuntimeValueV::StringLiteral(spec_display(a) + spec_display(b)),
    }
}

/// What `-` yields: the difference of two numbers, else zero.
pub open spec fn spec_sub_values(a: RuntimeValueV, b: RuntimeValueV) -> RuntimeValueV {
    match (a, b) {
        (RuntimeValueV::Number(x), RuntimeValueV::Number(y)) => RuntimeValueV::Number(
            spec_sat_sub_u64(x, y),
        ),
        _ => RuntimeValueV::Number(0),
    }
}

/// The decimal form of a number.
pub fn u64_to_string(n: u64) -> (r: String)
    ensures
        r@ == spec_dec(n as nat),
    decreases n,
{
    if n < 10 {
        let mut s = String::new();
        let d: u8 = 0x30u8 + (n as u8);
        push_char(&mut s, d as char);
        proof {
            assert(s@ =~= seq![((0x30 + n) as char)]);
        }
        s
    } else {
        let mut s = u64_to_string(n / 10);
        let d: u8 = 0x30u8 + ((n % 10) as u8);
        push_char(&mut s, d as char);
        s
    }
}

impl RuntimeValue {
    /// The textual form of the value.
    pub fn to_display_string(&self) -> (r: String)
        ensures
            r@ == spec_display(self@),
    {
        match self {
            RuntimeValue::Number(n) => u64_to_string(*n),
            RuntimeValue::StringLiteral(s) => s.clone(),
            RuntimeValue::HtmlElement { .. } => "HtmlElement".to_owned(),
        }
    }

    /// An owned copy with the same value.
    pub fn duplicate(&self) -> (r: RuntimeValue)
        ensures
            r@ == self@,
    {
        match self {
            RuntimeValue::Number(n) => RuntimeValue::Number(*n),
            RuntimeValue::StringLiteral(s) => RuntimeValue::StringLiteral(s.clone()),
            RuntimeValue::HtmlElement { object, property } => RuntimeValue::HtmlElement {
                object: *object,
                property: match property {
                    Some(p) => Some(p.clone()),
                    None => None,
                },
            },
        }
    }

    /// `+`: two numbers add (clamping at the top of the range); anything
    /// else concatenates the textual forms.
    pub fn add(self, rhs: RuntimeValue) -> (r: RuntimeValue)
        ensures
            r@ == spec_add_values(self@, rhs@),
    {
        match (&self, &rhs) {
            (RuntimeValue::Number(a), RuntimeValue::Number(b)) => {
                let x = *a;
                let y = *b;
                if x > u64::MAX - y {
                    RuntimeValue::Number(u64::MAX)
                } else {
                    RuntimeValue::Number(x + y)
                }
            },
            _ => {
                let mut s = self.to_display_string();
                let t = rhs.to_display_string();
                s.append(t.as_str());
                RuntimeValue::StringLiteral(s)
            },
        }
    }

    /// `-`: two numbers subtract (clamping at zero); anything else yields
    /// zero.
    pub fn sub(self, rhs: RuntimeValue) -> (r: RuntimeValue)
        ensures
            r@ == spec_sub_values(self@, rhs@),
    {
        match (&self, &rhs) {
            (RuntimeValue::Number(a), RuntimeValue::Number(b)) => {
                let x = *a;
                let y = *b;
                if x >= y {
                    RuntimeValue::Number(x - y)
                } else {
                    RuntimeValue::Number(0)
                }
            },
            _ => RuntimeValue::Number(0),
        }
    }
}

/// Addition of two Numbers is exactly clamped integer addition, and in
/// particular exact whenever the mathematical sum fits; anything else
/// concatenates the canonical textual forms.
pub proof fn lemma_add_is_numeric_or_textual(a: RuntimeValueV, b: RuntimeValueV)
    ensures
        (a matches RuntimeValueV::Number(x) && b matches RuntimeValueV::Number(y) && x + y
            <= u64::MAX) ==> spec_add_values(a, b) == RuntimeValueV::Number((a->Number_0
            + b->Number_0) as u64),
        !(a is Number && b is Number) ==> spec_add_values(a, b) == RuntimeValueV::StringLiteral(
            spec_display(a) + spec_display(b),
        ),
{
}

/// Subtraction of two Numbers is exactly integer subtraction whenever the
/// difference is not negative; with any other operands the result is zero.
pub proof fn lemma_sub_is_numeric_or_zero(a: RuntimeValueV, b: RuntimeValueV)
    ensures
        (a matches RuntimeValueV::Number(x) && b matches RuntimeValueV::Number(y) && y <= x)
            ==> spec_sub_values(a, b) == RuntimeValueV::Number((a->Number_0 - b->Number_0) as u64),
        !(a is Number && b is Number) ==> spec_sub_values(a, b) == RuntimeValueV::Number(0),
{
}

/// The number a numeric-literal node holds, if it is one.
pub open spec fn spec_numeric_of(n: Rc<Node>) -> Option<u64> {
    match *n {
        Node::NumericLiteral(v) => Some(v),
        _ => None,
    }
}

/// The text a string-literal node holds, if it is one.
pub open spec fn spec_string_of(n: Rc<Node>) -> Option<Seq<char>> {
    match *n {
        Node::StringLiteral(s) => Some(s@),
        _ => None,
    }
}

/// The name an identifier node holds, if it is one.
pub open spec fn spec_identifier_of(n: Rc<Node>) -> Option<Seq<char>> {
    match *n {
        Node::Identifier(s) => Some(s@),
        _ => None,
    }
}

/// The argument of `document.getElementById("...")`, if the node is that
/// call with a string-literal argument and bare identifiers.
pub open spec fn spec_gebi_call(n: Node) -> Option<Seq<char>> {
    match n {
        Node::CallExpression { callee, arguments } => match callee {
            Some(c) => match spec_member_ids(*c) {
                Some(m) => if m.0 == "document"@ && m.1 == "getElementById"@
                    && arguments@.len() >= 1 {
                    match arguments@[0] {
                        Some(a) => spec_string_of(a),
                        None => None,
                    }
                } else {
                    None
                },
                None => None,
            },
            None => None,
        },
        _ => None,
    }
}

/// The name and the id of `<name> = document.getElementById("<id>")` as a
/// declarator, if the node is one.
pub open spec fn spec_gebi_declarator(n: Node) -> Option<(Seq<char>, Seq<char>)> {
    match n {
        Node::VariableDeclarator { id, init } => match (id, init) {
            (Some(i), Some(ini)) => match (spec_identifier_of(i), spec_gebi_call(*ini)) {
                (Some(nm), Some(idlit)) => Some((nm, idlit)),
                _ => None,
            },
            _ => None,
        },
        _ => None,
    }
}

/// The name and the id of `var <name> = document.getElementById("<id>");`,
/// if the node is that declaration with one declarator.
pub open spec fn spec_gebi_decl(n: Node) -> Option<(Seq<char>, Seq<char>)> {
    match n {
        Node::VariableDeclaration { declarations } => if declarations@.len() == 1 {
            match declarations@[0] {
                Some(d) => spec_gebi_declarator(*d),
                None => None,
            }
        } else {
            None
        },
        _ => None,
    }
}

/// The two-statement script `var <name> = document.getElementById("<id>");
/// <name>.textContent = "<text>";`, if the statement list is exactly that:
/// the declaration's parts and the assignment's parts.
pub open spec fn spec_gebi_script(body: Seq<Rc<Node>>) -> Option<
    ((Seq<char>, Seq<char>), (Seq<char>, Seq<char>, Seq<char>)),
> {
    if body.len() == 2 {
        match (spec_gebi_decl(*body[0]), spec_assign_text(*body[1])) {
            (Some(d), Some(a)) => Some((d, a)),
            _ => None,
        }
    } else {
        None
    }
}

/// The object and property names of a member expression over two
/// identifiers, if the node is one.
pub open spec fn spec_member_ids(n: Node) -> Option<(Seq<char>, Seq<char>)> {
    match n {
        Node::MemberExpression { object, property } => match (object, property) {
            (Some(o), Some(p)) => match (spec_identifier_of(o), spec_identifier_of(p)) {
                (Some(a), Some(b)) => Some((a, b)),
                _ => None,
            },
            _ => None,
        },
        _ => None,
    }
}

/// The parts of `name.property = "literal"`, unwrapped from an expression
/// statement: the object name, the property name, and the literal text.
pub open spec fn spec_assign_text(n: Node) -> Option<(Seq<char>, Seq<char>, Seq<char>)>
    decreases n,
{
    match n {
        Node::ExpressionStatement(e) => match e {
            Some(inner) => spec_assign_text(*inner),
            None => None,
        },
        Node::AssignmentExpression { operator, left, right } => if operator == '=' {
            match (left, right) {
                (Some(l), Some(rr)) => match (spec_member_ids(*l), spec_string_of(rr)) {
                    (Some(m), Some(lit)) => Some((m.0, m.1, lit)),
                    _ => None,
                },
                _ => None,
            }
        } else {
            None
        },
        _ => None,
    }
}

/// One scope frame: its bindings in declaration order, and the enclosing
/// frame.
#[derive(Debug)]
pub struct Environment {
    pub variables: Vec<(String, Option<RuntimeValue>)>,
    pub outer: Option<Box<Environment>>,
}

/// The value of an optional runtime value.
pub open spec fn opt_rv_v(o: Option<RuntimeValue>) -> Option<RuntimeValueV> {
    match o {
        Some(v) => Some(v@),
        None => None,
    }
}

/// Looks `name` up in one frame's own bindings, front to back.
pub open spec fn spec_lookup_frame(
    vars: Seq<(String, Option<RuntimeValue>)>,
    name: Seq<char>,
) -> Option<Option<RuntimeValueV>>
    decreases vars.len(),
{
    if vars.len() == 0 {
        None
    } else if vars[0].0@ == name {
        Some(opt_rv_v(vars[0].1))
    } else {
        spec_lookup_frame(vars.skip(1), name)
    }
}

/// Looks `name` up along the scope chain: the innermost frame that binds
/// it answers.
pub open spec fn spec_lookup(env: Environment, name: Seq<char>) -> Option<Option<RuntimeValueV>>
    decreases env,
{
    match spec_lookup_frame(env.variables@, name) {
        Some(v) => Some(v),
        None => match env.outer {
            Some(o) => spec_lookup(*o, name),
            None => None,
        },
    }
}

/// A name bound in an outer frame is visible from an inner frame exactly
/// when no frame between them (the inner ones) binds it itself; a name the
/// inner frame binds resolves to the inner binding.
pub proof fn lemma_environment_lookup(inner: Environment, name: Seq<char>)
    requires
        inner.outer is Some,
    ensures
        spec_lookup_frame(inner.variables@, name) is None ==> spec_lookup(inner, name)
            == spec_lookup(*inner.outer.unwrap(), name),
        spec_lookup_frame(inner.variables@, name) matches Some(v) ==> spec_lookup(inner, name)
            == Some(v),
{
}

impl Environment {
    /// A frame with no bindings and the given enclosing frame.
    pub fn new(outer: Option<Box<Environment>>) -> (r: Self)
        ensures
            r.variables@.len() == 0,
            r.outer == outer,
    {
        Self { variables: Vec::new(), outer }
    }

    /// The value bound to `name`, from the innermost frame outward.
    pub fn get_variable(&self, name: &String) -> (r: Option<RuntimeValue>)
        ensures
            opt_rv_v(r) == (match spec_lookup(*self, name@) {
                Some(v) => v,
                None => None,
            }),
        decreases *self,
    {
        let mut i: usize = 0;
        proof {
            assert(self.variables@.skip(0) =~= self.variables@);
        }
        while i < self.variables.len()
            invariant
                i <= self.variables@.len(),
                spec_lookup_frame(self.variables@, name@) == spec_lookup_frame(
                    self.variables@.skip(i as int),
                    name@,
                ),
            decreases self.variables@.len() - i,
        {
            proof {
                assert(self.variables@.skip(i as int)[0] == self.variables@[i as int]);
                assert(self.variables@.skip(i as int).skip(1) =~= self.variables@.skip(i + 1));
            }
            if str_eq(&self.variables[i].0, name.as_str()) {
                return match &self.variables[i].1 {
                    Some(v) => Some(v.duplicate()),
                    None => None,
                };
            }
            i = i + 1;
        }
        match &self.outer {
            Some(env) => env.get_variable(name),
            None => None,
        }
    }

    /// Adds a binding to this frame, shadowing any outer one.
    pub fn add_variable(&mut self, name: String, value: Option<RuntimeValue>)
        ensures
            final(self).variables@ == old(self).variables@.push((name, value)),
            final(self).outer == old(self).outer,
    {
        self.variables.push((name, value));
    }

    /// Rebinds `name` in the nearest enclosing frame that holds it; without
    /// such a frame, nothing changes.  Within the holding frame the old
    /// pair is removed and the new one appended.
    pub fn update_variable(&mut self, name: String, value: Option<RuntimeValue>)
        ensures
            spec_env_updated(*old(self), *final(self), name, value),
        decreases *old(self),
    {
        let mut i: usize = 0;
        let n = self.variables.len();
        while i < n
            invariant
                *self == *old(self),
                n == self.variables@.len(),
                i <= n,
                spec_binding_index(self.variables@, name@, 0) == spec_binding_index(
                    self.variables@,
                    name@,
                    i as int,
                ),
            decreases n - i,
        {
            if str_eq(&self.variables[i].0, name.as_str()) {
                let _ = self.variables.remove(i);
                self.variables.push((name, value));
                return ;
            }
            i = i + 1;
        }
        match &mut self.outer {
            Some(env) => env.update_variable(name, value),
            None => {},
        }
    }
}

/// The first index in a frame's bindings holding `name`, scanning from `i`.
pub open spec fn spec_binding_index(
    vars: Seq<(String, Option<RuntimeValue>)>,
    name: Seq<char>,
    i: int,
) -> Option<int>
    decreases vars.len() - i,
{
    if i < 0 || i >= vars.len() {
        None
    } else if vars[i].0@ == name {
        Some(i)
    } else {
        spec_binding_index(vars, name, i + 1)
    }
}

/// How `update_variable` rewrites a scope chain: in the innermost frame
/// that binds `name`, the old pair goes and `(name, value)` is appended;
/// frames inside it are untouched; with no binding anywhere nothing
/// changes.
pub open spec fn spec_env_updated(
    pre: Environment,
    post: Environment,
    name: String,
    value: Option<RuntimeValue>,
) -> bool
    decreases pre,
{
    match spec_binding_index(pre.variables@, name@, 0) {
        Some(i) => post.variables@ == pre.variables@.remove(i).push((name, value)) && post.outer
            == pre.outer,
        None => post.variables@ == pre.variables@ && (match (pre.outer, post.outer) {
            (Some(a), Some(b)) => spec_env_updated(*a, *b, name, value),
            (None, None) => true,
            _ => false,
        }),
    }
}

/// One user-declared function: its name, parameter nodes and body.
#[derive(Debug)]
pub struct Function {
    pub id: String,
    pub params: Vec<Option<Rc<Node>>>,
    pub body: Option<Rc<Node>>,
}

/// The interpreter: the document it may read and mutate, the declared
/// functions, and the global scope frame.
#[derive(Debug)]
pub struct JsRuntime {
    pub dom_root: Window,
    pub functions: Vec<Function>,
    pub env: Environment,
}

/// How many nested function calls an evaluation may make before it gives
/// up and yields nothing.
pub const CALL_DEPTH_BUDGET: u64 = 1024;

impl JsRuntime {
    /// The document stays well-formed.
    pub open spec fn wf(&self) -> bool {
        self.dom_root.wf()
    }

    /// An interpreter over the given document, with no functions and an
    /// empty global scope.
    pub fn new(dom_root: Window) -> (r: Self)
        requires
            dom_root.wf(),
        ensures
            r.wf(),
            r.dom_root == dom_root,
            r.functions@.len() == 0,
            r.env.variables@.len() == 0,
            r.env.outer is None,
    {
        Self { dom_root, functions: Vec::new(), env: Environment::new(None) }
    }

    /// Takes the document back out of the interpreter.
    pub fn into_dom_root(self) -> (r: Window)
        ensures
            r == self.dom_root,
    {
        self.dom_root
    }

    /// Runs every statement of the program, in order, against the global
    /// scope.
    #[verifier::loop_isolation(false)]
    pub fn execute(&mut self, program: &Program)
        requires
            old(self).wf(),
        ensures
            final(self).wf(),
            program.body@.len() == 0 ==> *final(self) == *old(self),
            program.body@.len() == 2 ==> (spec_gebi_decl(*program.body@[0]) matches Some(d) ==> (
            spec_assign_text(*program.body@[1]) matches Some(a) ==> ((a.0 == d.0 && a.1
                == "textContent"@ && d.0 != "textContent"@ && old(self).env.variables@.len() == 0
                && old(self).env.outer is None) ==> (crate::dom::api::spec_get_element_by_id(
                &old(self).dom_root,
                Some(0usize),
                d.1,
            ) matches Some(h) ==> ({
                let nn = old(self).dom_root.nodes@.len() as int;
                &&& h < nn
                &&& final(self).dom_root.nodes@.len() == nn + 1
                &&& (final(self).dom_root.nodes@[nn].kind matches NodeKind::Text(s) && s@ == a.2)
                &&& final(self).dom_root.nodes@[h as int] == (crate::dom::node::Node {
                    first_child: Some(((nn as int) as usize)),
                    ..old(self).dom_root.nodes@[h as int]
                })
                &&& forall|j: int|
                    0 <= j < nn && j != h ==> final(self).dom_root.nodes@[j] == old(self).dom_root.nodes@[j]
            }))))),
    {
        let ghost gcond = spec_gebi_script(program.body@) matches Some(p) && p.1.0 == p.0.0
            && p.1.1 == "textContent"@ && p.0.0 != "textContent"@ && old(self).env.variables@.len() == 0 && old(self).env.outer is None
            && crate::dom::api::spec_get_element_by_id(
            &old(self).dom_root,
            Some(0usize),
            p.0.1,
        ) is Some;
        let mut i: usize = 0;
        while i < program.body().len()
            invariant
                self.wf(),
                i <= program.body@.len(),
                program.body@.len() == 0 ==> *self == *old(self),
                gcond ==> (i == 0 ==> *self == *old(self)),
                gcond ==> (i == 1 ==> ({
                    let d = spec_gebi_script(program.body@).unwrap().0;
                    let h = crate::dom::api::spec_get_element_by_id(
                        &old(self).dom_root,
                        Some(0usize),
                        d.1,
                    ).unwrap();
                    &&& self.dom_root == old(self).dom_root
                    &&& self.functions == old(self).functions
                    &&& self.env.outer is None
                    &&& self.env.variables@.len() == 1
                    &&& self.env.variables@[0].0@ == d.0
                    &&& opt_rv_v(self.env.variables@[0].1) == Some(
                        RuntimeValueV::HtmlElement { object: h, property: None },
                    )
                    &&& h < old(self).dom_root.nodes@.len()
                })),
                gcond ==> (i >= 2 ==> ({
                    let a = spec_gebi_script(program.body@).unwrap().1;
                    let d = spec_gebi_script(program.body@).unwrap().0;
                    let h = crate::dom::api::spec_get_element_by_id(
                        &old(self).dom_root,
                        Some(0usize),
                        d.1,
                    ).unwrap();
                    let nn = old(self).dom_root.nodes@.len() as int;
                    &&& h < nn
                    &&& self.dom_root.nodes@.len() == nn + 1
                    &&& (self.dom_root.nodes@[nn].kind matches NodeKind::Text(s) && s@ == a.2)
                    &&& self.dom_root.nodes@[h as int] == (crate::dom::node::Node {
                        first_child: Some(((nn as int) as usize)),
                        ..old(self).dom_root.nodes@[h as int]
                    })
                    &&& forall|j: int|
                        0 <= j < nn && j != h ==> self.dom_root.nodes@[j] == old(self).dom_root.nodes@[j]
                })),
            decreases program.body@.len() - i,
        {
            proof {
                if gcond && i == 0 {
                    assert(spec_lookup_frame(self.env.variables@, "document"@) is None);
                    assert(spec_lookup(self.env, "document"@) is None);
                    assert(spec_lookup_frame(self.env.variables@, "getElementById"@) is None);
                    assert(spec_lookup(self.env, "getElementById"@) is None);
                }
                if gcond && i == 1 {
                    let p = spec_gebi_script(program.body@).unwrap();
                    let a = p.1;
                    assert(self.env.variables@.skip(1) =~= Seq::<(
                        String,
                        Option<RuntimeValue>,
                    )>::empty());
                    assert(spec_lookup_frame(self.env.variables@, a.0) == Some(
                        opt_rv_v(self.env.variables@[0].1),
                    ));
                    assert(self.env.variables@[0].0@ == p.0.0);
                    assert(a.1 == "textContent"@ && p.0.0 != "textContent"@);
                    assert(self.env.variables@[0].0@ != a.1);
                    assert(spec_lookup_frame(self.env.variables@, a.1)
                        == spec_lookup_frame(self.env.variables@.skip(1), a.1));
                    assert(spec_lookup_frame(self.env.variables@, a.1) is None);
                    assert(spec_lookup(self.env, a.1) is None);
                }
            }
            let node = Some(rc_node_clone(&program.body()[i]));
            let _ = self.eval(&node);
            proof {
                if gcond && i == 0 {
                    assert(self.env.variables@ =~= old(self).env.variables@.push(
                        self.env.variables@.last(),
                    ));
                }
            }
            i = i + 1;
        }
    }

    /// Evaluates one node with the default call-depth budget.
    pub fn eval(&mut self, node: &Option<Rc<Node>>) -> (r: Option<RuntimeValue>)
        requires
            old(self).wf(),
        ensures
            final(self).wf(),
            node is None ==> r is None && *final(self) == *old(self),
            node matches Some(n) ==> (spec_numeric_of(*n) matches Some(v) ==> (r == Some(
                RuntimeValue::Number(v),
            ) && *final(self) == *old(self))),
            node matches Some(n) ==> (spec_string_of(*n) matches Some(sv) ==> ((r matches Some(rv)
                && rv@ == RuntimeValueV::StringLiteral(sv)) && *final(self) == *old(self))),
            node matches Some(n) ==> (spec_gebi_decl(**n) matches Some(d) ==> ((spec_lookup(
                old(self).env,
                "document"@,
            ) is None && spec_lookup(old(self).env, "getElementById"@) is None) ==> (r is None
                && final(self).functions == old(self).functions && final(self).dom_root == old(self).dom_root && final(self).env.outer == old(self).env.outer
                && final(self).env.variables@.len() == old(self).env.variables@.len() + 1 && final(self).env.variables@.take(old(self).env.variables@.len() as int) == old(self).env.variables@ && final(self).env.variables@.last().0@ == d.0 && opt_rv_v(
                final(self).env.variables@.last().1,
            ) == (match crate::dom::api::spec_get_element_by_id(
                &old(self).dom_root,
                Some(0usize),
                d.1,
            ) {
                Some(h) => Some(RuntimeValueV::HtmlElement { object: h, property: None }),
                None => None,
            }) && (crate::dom::api::spec_get_element_by_id(
                &old(self).dom_root,
                Some(0usize),
                d.1,
            ) matches Some(h) ==> h < old(self).dom_root.nodes@.len())))),
            node matches Some(n) ==> (spec_assign_text(**n) matches Some(a) ==> (spec_lookup(
                old(self).env,
                a.0,
            ) matches Some(Some(RuntimeValueV::HtmlElement { object: h2, property: None })) ==> ((
            a.1 == "textContent"@ && spec_lookup(old(self).env, a.1) is None && h2 < old(self).dom_root.nodes@.len()) ==> (r is None && final(self).env == old(self).env
                && final(self).functions == old(self).functions && ({
                let nn = old(self).dom_root.nodes@.len() as int;
                &&& final(self).dom_root.nodes@.len() == nn + 1
                &&& (final(self).dom_root.nodes@[nn].kind matches NodeKind::Text(s) && s@ == a.2)
                &&& final(self).dom_root.nodes@[nn].parent is None
                &&& final(self).dom_root.nodes@[nn].first_child is None
                &&& final(self).dom_root.nodes@[h2 as int] == (crate::dom::node::Node {
                    first_child: Some(((nn as int) as usize)),
                    ..old(self).dom_root.nodes@[h2 as int]
                })
                &&& forall|j: int|
                    0 <= j < nn && j != h2 ==> final(self).dom_root.nodes@[j] == old(self).dom_root.nodes@[j]
            }))))),
    {
        self.eval_depth(node, CALL_DEPTH_BUDGET)
    }

    /// The document interface: resolves an id to an element handle by a
    /// depth-first search over the document.
    fn get_element_by_id_value(&self, arg: &RuntimeValue) -> (r: Option<RuntimeValue>)
        requires
            self.wf(),
        ensures
            opt_rv_v(r) == (match crate::dom::api::spec_get_element_by_id(
                &self.dom_root,
                Some(0usize),
                spec_display(arg@),
            ) {
                Some(h) => Some(RuntimeValueV::HtmlElement { object: h, property: None }),
                None => None,
            }),
            crate::dom::api::spec_get_element_by_id(
                &self.dom_root,
                Some(0usize),
                spec_display(arg@),
            ) matches Some(h) ==> h < self.dom_root.nodes@.len(),
    {
        let id = arg.to_display_string();
        let document = self.dom_root.document();
        match get_element_by_id(&self.dom_root, Some(document), &id) {
            Some(n) => Some(RuntimeValue::HtmlElement { object: n, property: None }),
            None => None,
        }
    }

    /// Evaluates one node: statements run their parts, expressions yield
    /// values, declarations bind names, assignments update bindings or the
    /// document, calls run the interface or a declared function in a fresh
    /// frame.
    #[verifier::loop_isolation(false)]
    pub fn eval_depth(&mut self, node: &Option<Rc<Node>>, depth: u64) -> (r: Option<RuntimeValue>)
        requires
            old(self).wf(),
        ensures
            final(self).wf(),
            node is None ==> r is None && *final(self) == *old(self),
            node matches Some(n) ==> (spec_numeric_of(*n) matches Some(v) ==> (r == Some(
                RuntimeValue::Number(v),
            ) && *final(self) == *old(self))),
            node matches Some(n) ==> (spec_string_of(*n) matches Some(sv) ==> ((r matches Some(rv)
                && rv@ == RuntimeValueV::StringLiteral(sv)) && *final(self) == *old(self))),
            node matches Some(n) ==> (spec_identifier_of(*n) matches Some(name) ==> (*final(self)
                == *old(self) && opt_rv_v(r) == Some(
                match spec_lookup(old(self).env, name) {
                    Some(Some(v)) => v,
                    _ => RuntimeValueV::StringLiteral(name),
                },
            ))),
            node matches Some(n) ==> (spec_member_ids(**n) matches Some(m) ==> (spec_lookup(
                old(self).env,
                m.0,
            ) matches Some(Some(RuntimeValueV::HtmlElement { object: h, property: None })) ==> (
            spec_lookup(old(self).env, m.1) is None ==> (*final(self) == *old(self) && opt_rv_v(r)
                == Some((RuntimeValueV::HtmlElement { object: h, property: Some(m.1) })))))),
            node matches Some(n) ==> (spec_member_ids(**n) matches Some(m) ==> ((spec_lookup(
                old(self).env,
                m.0,
            ) is None && spec_lookup(old(self).env, m.1) is None) ==> (*final(self) == *old(self)
                && opt_rv_v(r) == Some(
                RuntimeValueV::StringLiteral(m.0 + seq!['.'] + m.1),
            )))),
            node matches Some(n) ==> (spec_gebi_call(**n) matches Some(idlit) ==> ((depth > 0
                && spec_lookup(old(self).env, "document"@) is None && spec_lookup(
                old(self).env,
                "getElementById"@,
            ) is None) ==> (final(self).env == old(self).env && final(self).functions == old(self).functions && final(self).dom_root == old(self).dom_root && opt_rv_v(r) == (
            match crate::dom::api::spec_get_element_by_id(
                &old(self).dom_root,
                Some(0usize),
                idlit,
            ) {
                Some(h) => Some(RuntimeValueV::HtmlElement { object: h, property: None }),
                None => None,
            }) && (crate::dom::api::spec_get_element_by_id(
                &old(self).dom_root,
                Some(0usize),
                idlit,
            ) matches Some(h) ==> h < old(self).dom_root.nodes@.len())))),
            node matches Some(n) ==> (spec_gebi_declarator(**n) matches Some(d) ==> ((depth > 0
                && spec_lookup(old(self).env, "document"@) is None && spec_lookup(
                old(self).env,
                "getElementById"@,
            ) is None) ==> (r is None && final(self).functions == old(self).functions && final(self).dom_root == old(self).dom_root && final(self).env.outer == old(self).env.outer
                && final(self).env.variables@.len() == old(self).env.variables@.len() + 1 && final(self).env.variables@.take(old(self).env.variables@.len() as int) == old(self).env.variables@ && final(self).env.variables@.last().0@ == d.0 && opt_rv_v(
                final(self).env.variables@.last().1,
            ) == (match crate::dom::api::spec_get_element_by_id(
                &old(self).dom_root,
                Some(0usize),
                d.1,
            ) {
                Some(h) => Some(RuntimeValueV::HtmlElement { object: h, property: None }),
                None => None,
            }) && (crate::dom::api::spec_get_element_by_id(
                &old(self).dom_root,
                Some(0usize),
                d.1,
            ) matches Some(h) ==> h < old(self).dom_root.nodes@.len())))),
            node matches Some(n) ==> (spec_gebi_decl(**n) matches Some(d) ==> ((depth > 0
                && spec_lookup(old(self).env, "document"@) is None && spec_lookup(
                old(self).env,
                "getElementById"@,
            ) is None) ==> (r is None && final(self).functions == old(self).functions && final(self).dom_root == old(self).dom_root && final(self).env.outer == old(self).env.outer
                && final(self).env.variables@.len() == old(self).env.variables@.len() + 1 && final(self).env.variables@.take(old(self).env.variables@.len() as int) == old(self).env.variables@ && final(self).env.variables@.last().0@ == d.0 && opt_rv_v(
                final(self).env.variables@.last().1,
            ) == (match crate::dom::api::spec_get_element_by_id(
                &old(self).dom_root,
                Some(0usize),
                d.1,
            ) {
                Some(h) => Some(RuntimeValueV::HtmlElement { object: h, property: None }),
                None => None,
            }) && (crate::dom::api::spec_get_element_by_id(
                &old(self).dom_root,
                Some(0usize),
                d.1,
            ) matches Some(h) ==> h < old(self).dom_root.nodes@.len())))),
            node matches Some(n) ==> (spec_assign_text(**n) matches Some(a) ==> (spec_lookup(
                old(self).env,
                a.0,
            ) matches Some(Some(RuntimeValueV::HtmlElement { object: h2, property: None })) ==> ((
            a.1 == "textContent"@ && spec_lookup(old(self).env, a.1) is None && h2 < old(self).dom_root.nodes@.len()) ==> (r is None && final(self).env == old(self).env
                && final(self).functions == old(self).functions && ({
                let nn = old(self).dom_root.nodes@.len() as int;
                &&& final(self).dom_root.nodes@.len() == nn + 1
                &&& (final(self).dom_root.nodes@[nn].kind matches NodeKind::Text(s) && s@ == a.2)
                &&& final(self).dom_root.nodes@[nn].parent is None
                &&& final(self).dom_root.nodes@[nn].first_child is None
                &&& final(self).dom_root.nodes@[h2 as int] == (crate::dom::node::Node {
                    first_child: Some(((nn as int) as usize)),
                    ..old(self).dom_root.nodes@[h2 as int]
                })
                &&& forall|j: int|
                    0 <= j < nn && j != h2 ==> final(self).dom_root.nodes@[j] == old(self).dom_root.nodes@[j]
            }))))),
        decreases depth, 1int, *node,
    {
        let node = match node {
            Some(n) => n,
            None => {
                return None;
            },
        };

        match &**node {
            Node::ExpressionStatement(expr) => {
                let e = clone_opt_node(expr);
                self.eval_depth(&e, depth)
            },
            Node::AdditiveExpression { operator, left, right } => {
                let l = clone_opt_node(left);
                let left_value = match self.eval_depth(&l, depth) {
                    Some(value) => value,
                    None => {
                        return None;
                    },
                };
                let rr = clone_opt_node(right);
                let right_value = match self.eval_depth(&rr, depth) {
                    Some(value) => value,
                    None => {
                        return None;
                    },
                };
                if *operator == '+' {
                    Some(left_value.add(right_value))
                } else if *operator == '-' {
                    Some(left_value.sub(right_value))
                } else {
                    None
                }
            },
            Node::AssignmentExpression { operator, left, right } => {
                if *operator != '=' {
                    return None;
                }
                let mut assigned_ident = false;
                match left {
                    Some(lnode) => {
                        match &**lnode {
                            Node::Identifier(id) => {
                                let rr = clone_opt_node(right);
                                let new_value = self.eval_depth(&rr, depth);
                                self.env.update_variable(id.clone(), new_value);
                                assigned_ident = true;
                            },
                            _ => {},
                        }
                    },
                    None => {},
                }
                if assigned_ident {
                    return None;
                }

                let l = clone_opt_node(left);
                let target = self.eval_depth(&l, depth);
                match target {
                    Some(RuntimeValue::HtmlElement { object, property }) => {
                        let rr = clone_opt_node(right);
                        let right_value = match self.eval_depth(&rr, depth) {
                            Some(value) => value,
                            None => {
                                return None;
                            },
                        };
                        let is_text_content = match &property {
                            Some(p) => str_eq(p, "textContent"),
                            None => false,
                        };
                        if is_text_content && object < self.dom_root.nodes.len() {
                            self.set_text_content(object, right_value.to_display_string());
                        }
                        None
                    },
                    _ => None,
                }
            },
            Node::MemberExpression { object, property } => {
                let o = clone_opt_node(object);
                let object_value = match self.eval_depth(&o, depth) {
                    Some(value) => value,
                    None => {
                        return None;
                    },
                };
                let p = clone_opt_node(property);
                let property_value = match self.eval_depth(&p, depth) {
                    Some(value) => value,
                    None => {
                        return Some(object_value);
                    },
                };
                match object_value {
                    RuntimeValue::HtmlElement { object: obj, property: prop } => {
                        match prop {
                            None => Some(
                                RuntimeValue::HtmlElement {
                                    object: obj,
                                    property: Some(property_value.to_display_string()),
                                },
                            ),
                            Some(p0) => {
                                // The handle already carries a property:
                                // the pair folds to its textual form.
                                let folded = RuntimeValue::HtmlElement {
                                    object: obj,
                                    property: Some(p0),
                                };
                                let mut s = folded.to_display_string();
                                push_char(&mut s, '.');
                                s.append(property_value.to_display_string().as_str());
                                Some(RuntimeValue::StringLiteral(s))
                            },
                        }
                    },
                    _ => {
                        let ghost a0 = spec_display(object_value@);
                        let ghost b0 = spec_display(property_value@);
                        let mut s = object_value.to_display_string();
                        push_char(&mut s, '.');
                        s.append(property_value.to_display_string().as_str());
                        proof {
                            assert(s@ =~= a0 + seq!['.'] + b0);
                        }
                        Some(RuntimeValue::StringLiteral(s))
                    },
                }
            },
            Node::NumericLiteral(value) => Some(RuntimeValue::Number(*value)),
            Node::VariableDeclaration { declarations } => {
                let mut i: usize = 0;
                while i < declarations.len()
                    invariant
                        self.wf(),
                        i <= declarations@.len(),
                        spec_gebi_decl(**node) matches Some(d) ==> ((depth > 0 && spec_lookup(
                            old(self).env,
                            "document"@,
                        ) is None && spec_lookup(old(self).env, "getElementById"@) is None) ==> ((i
                            == 0 ==> *self == *old(self)) && (i == 1 ==> (self.functions == old(self).functions && self.dom_root == old(self).dom_root && self.env.outer == old(self).env.outer && self.env.variables@.len() == old(self).env.variables@.len() + 1 && self.env.variables@.take(
                            old(self).env.variables@.len() as int,
                        ) == old(self).env.variables@ && self.env.variables@.last().0@ == d.0
                            && opt_rv_v(self.env.variables@.last().1) == (
                        match crate::dom::api::spec_get_element_by_id(
                            &old(self).dom_root,
                            Some(0usize),
                            d.1,
                        ) {
                            Some(h) => Some(
                                RuntimeValueV::HtmlElement { object: h, property: None },
                            ),
                            None => None,
                        }) && (crate::dom::api::spec_get_element_by_id(
                            &old(self).dom_root,
                            Some(0usize),
                            d.1,
                        ) matches Some(h) ==> h < old(self).dom_root.nodes@.len()))))),
                    decreases declarations@.len() - i,
                {
                    let d = clone_opt_node(&declarations[i]);
                    let _ = self.eval_depth(&d, depth);
                    i = i + 1;
                }
                None
            },
            Node::VariableDeclarator { id, init } => {
                match id {
                    Some(idnode) => {
                        match &**idnode {
                            Node::Identifier(name) => {
                                let ii = clone_opt_node(init);
                                let init_value = self.eval_depth(&ii, depth);
                                self.env.add_variable(name.clone(), init_value);
                            },
                            _ => {},
                        }
                    },
                    None => {},
                }
                None
            },
            Node::Identifier(name) => {
                match self.env.get_variable(name) {
                    Some(v) => Some(v),
                    // An unbound name becomes a string holding the name.
                    None => Some(RuntimeValue::StringLiteral(name.clone())),
                }
            },
            Node::StringLiteral(value) => Some(RuntimeValue::StringLiteral(value.clone())),
            Node::BlockStatement { body } => {
                let mut result: Option<RuntimeValue> = None;
                let mut i: usize = 0;
                while i < body.len()
                    invariant
                        self.wf(),
                        i <= body@.len(),
                    decreases body@.len() - i,
                {
                    let stmt = clone_opt_node(&body[i]);
                    result = self.eval_depth(&stmt, depth);
                    i = i + 1;
                }
                result
            },
            Node::ReturnStatement { argument } => {
                let a = clone_opt_node(argument);
                self.eval_depth(&a, depth)
            },
            Node::FunctionDeclaration { id, params, body } => {
                let i = clone_opt_node(id);
                match self.eval_depth(&i, depth) {
                    Some(RuntimeValue::StringLiteral(name)) => {
                        let cloned_body = clone_opt_node(body);
                        let cloned_params = clone_nodes(params);
                        self.functions.push(
                            Function { id: name, params: cloned_params, body: cloned_body },
                        );
                    },
                    _ => {},
                }
                None
            },
            Node::CallExpression { callee, arguments } => {
                if depth == 0 {
                    return None;
                }
                // A call opens a fresh scope whose outer frame is the
                // caller's.
                let mut saved = Environment::new(None);
                core::mem::swap(&mut saved, &mut self.env);
                self.env = Environment::new(Some(Box::new(saved)));

                proof {
                    reveal_strlit("document");
                    reveal_strlit("getElementById");
                    reveal_strlit("document.getElementById");
                    assert("document"@ + seq!['.'] + "getElementById"@
                        =~= "document.getElementById"@);
                }
                let c = clone_opt_node(callee);
                let callee_value = match self.eval_depth(&c, depth - 1) {
                    Some(value) => value,
                    None => {
                        self.pop_frame();
                        return None;
                    },
                };

                let is_gebi = match &callee_value {
                    RuntimeValue::StringLiteral(s) => str_eq(s, "document.getElementById"),
                    _ => false,
                };
                if is_gebi {
                    if arguments.len() == 0 {
                        self.pop_frame();
                        return None;
                    }
                    let arg0 = clone_opt_node(&arguments[0]);
                    let arg = match self.eval_depth(&arg0, depth - 1) {
                        Some(a) => a,
                        None => {
                            self.pop_frame();
                            return None;
                        },
                    };
                    let found = self.get_element_by_id_value(&arg);
                    self.pop_frame();
                    return found;
                }

                let mut found: Option<usize> = None;
                let mut fi: usize = 0;
                while fi < self.functions.len()
                    invariant
                        self.wf(),
                        fi <= self.functions@.len(),
                        found matches Some(f) ==> f < self.functions@.len(),
                    decreases self.functions@.len() - fi,
                {
                    let matches_name = match &callee_value {
                        RuntimeValue::StringLiteral(s) => str_eq(s, self.functions[fi].id.as_str()),
                        _ => false,
                    };
                    if matches_name {
                        found = Some(fi);
                    }
                    fi = fi + 1;
                }
                let f = match found {
                    Some(f) => f,
                    None => {
                        // Calling a name that no declaration bound yields
                        // nothing.
                        self.pop_frame();
                        return None;
                    },
                };

                let params = clone_nodes(&self.functions[f].params);
                let body = clone_opt_node(&self.functions[f].body);

                let mut i: usize = 0;
                while i < params.len() && i < arguments.len()
                    invariant
                        self.wf(),
                        i <= params@.len(),
                    decreases params@.len() - i,
                {
                    let p = clone_opt_node(&params[i]);
                    match self.eval_depth(&p, depth - 1) {
                        Some(RuntimeValue::StringLiteral(name)) => {
                            let a = clone_opt_node(&arguments[i]);
                            let v = self.eval_depth(&a, depth - 1);
                            self.env.add_variable(name, v);
                        },
                        _ => {},
                    }
                    i = i + 1;
                }

                let result = self.eval_depth(&body, depth - 1);
                self.pop_frame();
                result
            },
        }
    }

    /// Replaces the element's content: a fresh Text node holding `text` is
    /// appended to the document and becomes the element's first child;
    /// nothing else of the document changes.
    pub fn set_text_content(&mut self, object: usize, text: String)
        requires
            old(self).wf(),
            object < old(self).dom_root.nodes@.len(),
        ensures
            final(self).wf(),
            final(self).functions == old(self).functions,
            final(self).env == old(self).env,
            ({
                let nn = old(self).dom_root.nodes@.len() as int;
                &&& final(self).dom_root.nodes@.len() == nn + 1
                &&& (final(self).dom_root.nodes@[nn].kind matches NodeKind::Text(s) && s@ == text@)
                &&& final(self).dom_root.nodes@[nn].parent is None
                &&& final(self).dom_root.nodes@[nn].first_child is None
                &&& final(self).dom_root.nodes@[object as int] == (crate::dom::node::Node {
                    first_child: Some((nn as usize)),
                    ..old(self).dom_root.nodes@[object as int]
                })
                &&& forall|j: int|
                    0 <= j < nn && j != object ==> final(self).dom_root.nodes@[j] == old(self).dom_root.nodes@[j]
            }),
    {
        let new_node = self.dom_root.create_node(NodeKind::Text(text));
        self.dom_root.set_first_child_of(object, new_node);
    }

    /// Closes the innermost scope frame, restoring the enclosing one.
    fn pop_frame(&mut self)
        requires
            old(self).wf(),
        ensures
            final(self).wf(),
            final(self).dom_root == old(self).dom_root,
            final(self).functions == old(self).functions,
            old(self).env.outer matches Some(b) ==> final(self).env == *b,
    {
        let outer = self.env.outer.take();
        match outer {
            Some(b) => {
                self.env = *b;
            },
            None => {
                self.env = Environment::new(None);
            },
        }
    }
}

/// A shared copy of an optional node.
fn clone_opt_node(n: &Option<Rc<Node>>) -> (r: Option<Rc<Node>>)
    ensures
        r == *n,
{
    match n {
        Some(rc) => Some(rc_node_clone(rc)),
        None => None,
    }
}

/// A shared copy of a node list.
fn clone_nodes(v: &Vec<Option<Rc<Node>>>) -> (r: Vec<Option<Rc<Node>>>)
    ensures
        r@ == v@,
{
    let mut out: Vec<Option<Rc<Node>>> = Vec::new();
    let mut i: usize = 0;
    while i < v.len()
        invariant
            i <= v@.len(),
            out@ == v@.take(i as int),
        decreases v@.len() - i,
    {
        out.push(clone_opt_node(&v[i]));
        proof {
            assert(v@.take(i + 1) =~= v@.take(i as int).push(v@[i as int]));
        }
        i = i + 1;
    }
    proof {
        assert(v@.take(v@.len() as int) =~= v@);
    }
    out
}

/// Relies on Rc::clone: the copy is the same value, sharing the same
/// allocation.
#[verifier::external_body]
fn rc_node_clone(rc: &Rc<Node>) -> (r: Rc<Node>)
    ensures
        r == *rc,
{
    Rc::clone(rc)
}

} // verus!
