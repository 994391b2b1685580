//! The CSSOM: a stylesheet of qualified rules, and the parser that builds
//! one from CSS tokens.
//!
//! A selector is a single token; `@`-rules are consumed and discarded; a
//! declaration without its colon is abandoned.  Parsing never fails: the
//! worst outcome of malformed input is an empty stylesheet.

use vstd::prelude::*;

use crate::css::token::CssTokV;
use crate::css::token::CssToken;
use crate::css::token::CssTokenizer;
use crate::strutil::push_char;

verus! {

/// The mathematical value of a selector.
pub ghost enum SelectorV {
    TypeSelector(Seq<char>),
    ClassSelector(Seq<char>),
    IdSelector(Seq<char>),
    UnknownSelector,
}

/// A selector: one of a tag name, a class name, an id, or unknown.
#[derive(Debug, Clone)]
pub enum Selector {
    /// `p`, `h1` and the like.
    TypeSelector(String),
    /// `.note`, kept without the dot.
    ClassSelector(String),
    /// `#main`, kept without the hash.
    IdSelector(String),
    /// The selector used when parsing went astray.
    UnknownSelector,
}

impl View for Selector {
    type V = SelectorV;

    open spec fn view(&self) -> SelectorV {
        match self {
            Selector::TypeSelector(s) => SelectorV::TypeSelector(s@),
            Selector::ClassSelector(s) => SelectorV::ClassSelector(s@),
            Selector::IdSelector(s) => SelectorV::IdSelector(s@),
            Selector::UnknownSelector => SelectorV::UnknownSelector,
        }
    }
}

impl PartialEq for Selector {
    fn eq(&self, other: &Self) -> (r: bool) {
        match (self, other) {
            (Selector::TypeSelector(a), Selector::TypeSelector(b)) => *a == *b,
            (Selector::ClassSelector(a), Selector::ClassSelector(b)) => *a == *b,
            (Selector::IdSelector(a), Selector::IdSelector(b)) => *a == *b,
            (Selector::UnknownSelector, Selector::UnknownSelector) => true,
            _ => false,
        }
    }
}

impl vstd::std_specs::cmp::PartialEqSpecImpl for Selector {
    open spec fn obeys_eq_spec() -> bool {
        true
    }

    open spec fn eq_spec(&self, other: &Selector) -> bool {
        self@ == other@
    }
}

/// The mathematical value of a declaration.
pub ghost struct DeclV {
    pub property: Seq<char>,
    pub value: CssTokV,
}

/// One declaration: a property name and its component value.
#[derive(Debug, Clone)]
pub struct Declaration {
    pub property: String,
    pub value: ComponentValue,
}

/// A component value is a bare CSS token.
pub type ComponentValue = CssToken;

impl View for Declaration {
    type V = DeclV;

    open spec fn view(&self) -> DeclV {
        DeclV { property: self.property@, value: self.value@ }
    }
}

impl Declaration {
    /// An empty declaration: no property, an empty identifier as value.
    pub fn new() -> (r: Self)
        ensures
            r.property@ == Seq::<char>::empty(),
            r.value@ == CssTokV::Ident(Seq::<char>::empty()),
    {
        Self { property: String::new(), value: ComponentValue::Ident(String::new()) }
    }

    /// Sets the property name.
    pub fn set_property(&mut self, property: String)
        ensures
            *final(self) == (Declaration { property, ..*old(self) }),
    {
        self.property = property;
    }

    /// Sets the component value.
    pub fn set_value(&mut self, value: ComponentValue)
        ensures
            *final(self) == (Declaration { value, ..*old(self) }),
    {
        self.value = value;
    }
}

impl PartialEq for Declaration {
    fn eq(&self, other: &Self) -> (r: bool) {
        let p = { let a = &self.property; let b = &other.property; *a == *b };
        p && self.value == other.value
    }
}

impl vstd::std_specs::cmp::PartialEqSpecImpl for Declaration {
    open spec fn obeys_eq_spec() -> bool {
        true
    }

    open spec fn eq_spec(&self, other: &Declaration) -> bool {
        self.property@ == other.property@ && self.value@ == other.value@
    }
}

/// The values of a vector of declarations.
pub open spec fn decls_view(s: Seq<Declaration>) -> Seq<DeclV> {
    s.map_values(|d: Declaration| d@)
}

/// The mathematical value of a qualified rule.
pub ghost struct RuleV {
    pub selector: SelectorV,
    pub declarations: Seq<DeclV>,
}

/// One qualified rule: a selector and its declarations.
#[derive(Debug, Clone)]
pub struct QualifiedRule {
    pub selector: Selector,
    pub declarations: Vec<Declaration>,
}

impl View for QualifiedRule {
    type V = RuleV;

    open spec fn view(&self) -> RuleV {
        RuleV { selector: self.selector@, declarations: decls_view(self.declarations@) }
    }
}

impl QualifiedRule {
    /// A rule with an empty type selector and no declarations.
    pub fn new() -> (r: Self)
        ensures
            r.selector@ == SelectorV::TypeSelector(Seq::<char>::empty()),
            r.declarations@.len() == 0,
    {
        Self { selector: Selector::TypeSelector(String::new()), declarations: Vec::new() }
    }

    /// Sets the selector.
    pub fn set_selector(&mut self, selector: Selector)
        ensures
            *final(self) == (QualifiedRule { selector, ..*old(self) }),
    {
        self.selector = selector;
    }

    /// Sets the declarations.
    pub fn set_declarations(&mut self, declarations: Vec<Declaration>)
        ensures
            *final(self) == (QualifiedRule { declarations, ..*old(self) }),
    {
        self.declarations = declarations;
    }
}

impl PartialEq for QualifiedRule {
    fn eq(&self, other: &Self) -> (r: bool) {
        let se = self.selector == other.selector;
        let de = self.declarations == other.declarations;
        proof {
            if de {
                assert(decls_view(self.declarations@) =~= decls_view(other.declarations@));
            }
            if decls_view(self.declarations@) =~= decls_view(other.declarations@) {
                assert forall|i: int|
                    0 <= i < self.declarations@.len() implies #[trigger] self.declarations@[i]@
                    == other.declarations@[i]@ by {
                    assert(decls_view(self.declarations@)[i] == self.declarations@[i]@);
                    assert(decls_view(other.declarations@)[i] == other.declarations@[i]@);
                }
                assert forall|i: int|
                    0 <= i < self.declarations@.len()
                    implies vstd::std_specs::cmp::PartialEqSpec::eq_spec(
                    &self.declarations@[i],
                    #[trigger] &other.declarations@[i],
                ) by {
                    assert(self.declarations@[i]@ == other.declarations@[i]@);
                }
                assert(de);
            }
        }
        se && de
    }
}

impl vstd::std_specs::cmp::PartialEqSpecImpl for QualifiedRule {
    open spec fn obeys_eq_spec() -> bool {
        true
    }

    open spec fn eq_spec(&self, other: &QualifiedRule) -> bool {
        self.selector@ == other.selector@ && decls_view(self.declarations@) =~= decls_view(
            other.declarations@,
        )
    }
}

/// A stylesheet: qualified rules in source order.
#[derive(Debug, Clone)]
pub struct StyleSheet {
    pub rules: Vec<QualifiedRule>,
}

impl StyleSheet {
    /// An empty stylesheet.
    pub fn new() -> (r: Self)
        ensures
            r.rules@.len() == 0,
    {
        Self { rules: Vec::new() }
    }

    /// Sets the rules.
    pub fn set_rules(&mut self, rules: Vec<QualifiedRule>)
        ensures
            *final(self) == (StyleSheet { rules }),
    {
        self.rules = rules;
    }
}

/// The values of a vector of rules.
pub open spec fn rules_view(s: Seq<QualifiedRule>) -> Seq<RuleV> {
    s.map_values(|r: QualifiedRule| r@)
}

/// The identifier consume: an identifier token yields its text; any other
/// token is consumed and yields nothing; the end of input stands still.
pub open spec fn spec_consume_ident(toks: Seq<CssTokV>, pos: int) -> (Option<Seq<char>>, int) {
    if pos < 0 || pos >= toks.len() {
        (None, pos)
    } else {
        match toks[pos] {
            CssTokV::Ident(s) => (Some(s), pos + 1),
            _ => (None, pos + 1),
        }
    }
}

/// The declaration consume: `property ':' value`; a missing colon or a
/// missing value abandons the declaration.
pub open spec fn spec_consume_declaration(toks: Seq<CssTokV>, pos: int) -> (Option<DeclV>, int) {
    let (p, pos1) = spec_consume_ident(toks, pos);
    match p {
        None => (None, pos1),
        Some(property) => if pos1 >= toks.len() {
            (None, pos1)
        } else if !(toks[pos1] is Colon) {
            (None, pos1 + 1)
        } else {
            let pos2 = pos1 + 1;
            if pos2 >= toks.len() {
                (None, pos2)
            } else {
                (Some(DeclV { property, value: toks[pos2] }), pos2 + 1)
            }
        },
    }
}

/// The declaration consume moves forward whenever it starts within the
/// input.
pub proof fn lemma_decl_bounds(toks: Seq<CssTokV>, pos: int)
    requires
        0 <= pos <= toks.len(),
    ensures
        pos <= spec_consume_declaration(toks, pos).1 <= toks.len(),
        pos < toks.len() ==> spec_consume_declaration(toks, pos).1 > pos,
{
}

/// The declaration-list consume: declarations until the closing brace or
/// the end of input; semicolons separate, anything else is dropped.
pub open spec fn spec_consume_declarations(toks: Seq<CssTokV>, pos: int) -> (Seq<DeclV>, int)
    decreases toks.len() - pos,
    when 0 <= pos <= toks.len()
    via spec_consume_declarations_decreases
{
    if pos >= toks.len() {
        (Seq::empty(), pos)
    } else {
        match toks[pos] {
            CssTokV::CloseCurly => (Seq::empty(), pos + 1),
            CssTokV::SemiColon => spec_consume_declarations(toks, pos + 1),
            CssTokV::Ident(_) => {
                let (d, p2) = spec_consume_declaration(toks, pos);
                let (rest, p3) = spec_consume_declarations(toks, p2);
                match d {
                    Some(dv) => (seq![dv] + rest, p3),
                    None => (rest, p3),
                }
            },
            _ => spec_consume_declarations(toks, pos + 1),
        }
    }
}

/// The declaration list terminates: every step advances.
#[via_fn]
proof fn spec_consume_declarations_decreases(toks: Seq<CssTokV>, pos: int) {
    if 0 <= pos < toks.len() {
        lemma_decl_bounds(toks, pos);
    }
}

/// The index of the next opening brace, or the end of the input.
pub open spec fn spec_skip_to_open_curly(toks: Seq<CssTokV>, pos: int) -> int
    decreases toks.len() - pos,
{
    if pos < 0 || pos >= toks.len() {
        pos
    } else if toks[pos] is OpenCurly {
        pos
    } else {
        spec_skip_to_open_curly(toks, pos + 1)
    }
}

/// The brace skip never steps back and stays within the input.
pub proof fn lemma_skip_curly_bounds(toks: Seq<CssTokV>, pos: int)
    requires
        0 <= pos <= toks.len(),
    ensures
        pos <= spec_skip_to_open_curly(toks, pos) <= toks.len(),
    decreases toks.len() - pos,
{
    if pos < toks.len() && !(toks[pos] is OpenCurly) {
        lemma_skip_curly_bounds(toks, pos + 1);
    }
}

/// The selector consume: a hash is an id selector (its mark shed), a dot
/// followed by an identifier a class selector, an identifier a type
/// selector (a pseudo-class suffix skipped up to the block), an at-keyword
/// opens a skipped block; anything else is unknown.
pub open spec fn spec_consume_selector(toks: Seq<CssTokV>, pos: int) -> (SelectorV, int)
    recommends
        0 <= pos < toks.len(),
{
    let pos1 = pos + 1;
    match toks[pos] {
        CssTokV::HashToken(v) => (
            SelectorV::IdSelector(
                if v.len() >= 1 {
                    v.skip(1)
                } else {
                    v
                },
            ),
            pos1,
        ),
        CssTokV::Delim(d) => if d == '.' {
            let (s, p2) = spec_consume_ident(toks, pos1);
            match s {
                Some(cn) => (SelectorV::ClassSelector(cn), p2),
                None => (SelectorV::UnknownSelector, p2),
            }
        } else {
            (SelectorV::UnknownSelector, pos1)
        },
        CssTokV::Ident(name) => if pos1 < toks.len() && toks[pos1] is Colon {
            (SelectorV::TypeSelector(name), spec_skip_to_open_curly(toks, pos1))
        } else {
            (SelectorV::TypeSelector(name), pos1)
        },
        CssTokV::AtKeyword(_) => (SelectorV::UnknownSelector, spec_skip_to_open_curly(toks, pos1)),
        _ => (
            SelectorV::UnknownSelector,
            if pos1 < toks.len() {
                pos1 + 1
            } else {
                pos1
            },
        ),
    }
}

/// The selector consume moves forward and stays within the input... except
/// that a pseudo-class or at-rule skip may stop at the block anywhere up
/// to the end.
pub proof fn lemma_selector_bounds(toks: Seq<CssTokV>, pos: int)
    requires
        0 <= pos < toks.len(),
    ensures
        pos < spec_consume_selector(toks, pos).1 <= toks.len(),
{
    match toks[pos] {
        CssTokV::Ident(name) => {
            if pos + 1 < toks.len() && toks[pos + 1] is Colon {
                lemma_skip_curly_bounds(toks, pos + 1);
            }
        },
        CssTokV::AtKeyword(_) => {
            lemma_skip_curly_bounds(toks, pos + 1);
        },
        _ => {},
    }
}

/// The qualified-rule consume: selectors rewrite the rule's selector until
/// the opening brace starts the declaration block; exhausted input yields
/// nothing.
pub open spec fn spec_consume_qualified_rule(toks: Seq<CssTokV>, pos: int, sel: SelectorV) -> (
    Option<RuleV>,
    int,
)
    decreases toks.len() - pos,
    when 0 <= pos <= toks.len()
    via spec_consume_qualified_rule_decreases
{
    if pos >= toks.len() {
        (None, pos)
    } else if toks[pos] is OpenCurly {
        let (ds, p2) = spec_consume_declarations(toks, pos + 1);
        (Some(RuleV { selector: sel, declarations: ds }), p2)
    } else {
        let (s2, p2) = spec_consume_selector(toks, pos);
        spec_consume_qualified_rule(toks, p2, s2)
    }
}

/// The rule consume terminates: every selector advances.
#[via_fn]
proof fn spec_consume_qualified_rule_decreases(toks: Seq<CssTokV>, pos: int, sel: SelectorV) {
    if 0 <= pos < toks.len() && !(toks[pos] is OpenCurly) {
        lemma_selector_bounds(toks, pos);
    }
}

/// The rule consume never steps back.
pub proof fn lemma_qualified_rule_bounds(toks: Seq<CssTokV>, pos: int, sel: SelectorV)
    requires
        0 <= pos <= toks.len(),
    ensures
        pos <= spec_consume_qualified_rule(toks, pos, sel).1 <= toks.len(),
        pos < toks.len() ==> spec_consume_qualified_rule(toks, pos, sel).1 > pos,
    decreases toks.len() - pos,
{
    if pos < toks.len() {
        if toks[pos] is OpenCurly {
            lemma_declarations_bounds(toks, pos + 1);
        } else {
            lemma_selector_bounds(toks, pos);
            let (s2, p2) = spec_consume_selector(toks, pos);
            lemma_qualified_rule_bounds(toks, p2, s2);
        }
    }
}

/// The declaration list never steps back.
pub proof fn lemma_declarations_bounds(toks: Seq<CssTokV>, pos: int)
    requires
        0 <= pos <= toks.len(),
    ensures
        pos <= spec_consume_declarations(toks, pos).1 <= toks.len(),
    decreases toks.len() - pos,
{
    if pos < toks.len() {
        match toks[pos] {
            CssTokV::CloseCurly => {},
            CssTokV::SemiColon => {
                lemma_declarations_bounds(toks, pos + 1);
            },
            CssTokV::Ident(_) => {
                lemma_decl_bounds(toks, pos);
                let (d, p2) = spec_consume_declaration(toks, pos);
                lemma_declarations_bounds(toks, p2);
            },
            _ => {
                lemma_declarations_bounds(toks, pos + 1);
            },
        }
    }
}

/// The rule-list consume: style rules until the input is exhausted;
/// at-rules are read and thrown away; a rule that cannot be completed ends
/// the list.
pub open spec fn spec_consume_rules(toks: Seq<CssTokV>, pos: int) -> Seq<RuleV>
    decreases toks.len() - pos,
    when 0 <= pos <= toks.len()
    via spec_consume_rules_decreases
{
    if pos >= toks.len() {
        Seq::empty()
    } else if toks[pos] is AtKeyword {
        let (_r, p2) = spec_consume_qualified_rule(
            toks,
            pos,
            SelectorV::TypeSelector(Seq::empty()),
        );
        spec_consume_rules(toks, p2)
    } else {
        let (r, p2) = spec_consume_qualified_rule(toks, pos, SelectorV::TypeSelector(Seq::empty()));
        match r {
            Some(rule) => seq![rule] + spec_consume_rules(toks, p2),
            None => Seq::empty(),
        }
    }
}

/// The rule list terminates: every rule advances.
#[via_fn]
proof fn spec_consume_rules_decreases(toks: Seq<CssTokV>, pos: int) {
    if 0 <= pos < toks.len() {
        lemma_qualified_rule_bounds(toks, pos, SelectorV::TypeSelector(Seq::empty()));
    }
}

/// The CSS parser: a read position over the token stream.
#[derive(Debug)]
pub struct CssParser {
    pub tokens: Vec<CssToken>,
    pub pos: usize,
}

impl CssParser {
    /// The read position stays within the token stream.
    pub open spec fn wf(&self) -> bool {
        self.pos <= self.tokens@.len()
    }

    /// A parser over every token the tokenizer yields: exactly its
    /// emissions, in order.
    pub fn new(t: CssTokenizer) -> (r: Self)
        requires
            t.wf(),
        ensures
            r.pos == 0,
            r.wf(),
            crate::css::token::css_tokens_view(r.tokens@) == crate::css::token::spec_css_tokenize(
                t.input@,
                t.pos as int,
            ),
    {
        let mut t = t;
        let tokens = t.collect_all();
        Self { tokens, pos: 0 }
    }

    /// The next token, consumed, as an owned value.
    fn next_token(&mut self) -> (r: Option<CssToken>)
        requires
            old(self).wf(),
        ensures
            final(self).wf(),
            final(self).tokens == old(self).tokens,
            r is Some ==> (final(self).pos == old(self).pos + 1 && old(self).pos
                < old(self).tokens@.len() && (r matches Some(t) && t@
                == old(self).tokens@[old(self).pos as int]@)),
            r is None ==> *final(self) == *old(self) && old(self).pos >= old(self).tokens@.len(),
    {
        if self.pos < self.tokens.len() {
            let t = self.tokens[self.pos].duplicate();
            self.pos = self.pos + 1;
            Some(t)
        } else {
            None
        }
    }

    /// Consumes the next token as a component value.  At the end of the
    /// input, the declaration being read is abandoned by the caller.
    fn consume_component_value(&mut self) -> (r: Option<ComponentValue>)
        requires
            old(self).wf(),
        ensures
            final(self).wf(),
            final(self).tokens == old(self).tokens,
            final(self).pos >= old(self).pos,
            r is Some ==> final(self).pos > old(self).pos,
            old(self).pos < old(self).tokens@.len() ==> (final(self).pos == old(self).pos + 1 && (
            r matches Some(v) && v@ == old(self).tokens@[old(self).pos as int]@)),
            old(self).pos >= old(self).tokens@.len() ==> (r is None && *final(self) == *old(self)),
    {
        self.next_token()
    }

    /// Consumes an identifier token and returns its text; anything else
    /// gives nothing back.
    fn consume_ident(&mut self) -> (r: Option<String>)
        requires
            old(self).wf(),
        ensures
            final(self).wf(),
            final(self).tokens == old(self).tokens,
            final(self).pos >= old(self).pos,
            r is Some ==> final(self).pos > old(self).pos,
            old(self).pos < old(self).tokens@.len() ==> final(self).pos > old(self).pos,
            r matches Some(s) ==> (old(self).pos < old(self).tokens@.len() && (old(
                self,
            ).tokens@[old(self).pos as int]@ matches CssTokV::Ident(iv) && s@ == iv)),
            (old(self).pos < old(self).tokens@.len() && old(
                self,
            ).tokens@[old(self).pos as int]@ is Ident) ==> r is Some,
            ({
                let (sv, p2) = spec_consume_ident(
                    crate::css::token::css_tokens_view(old(self).tokens@),
                    old(self).pos as int,
                );
                final(self).pos as int == p2 && (match (r, sv) {
                    (Some(got), Some(want)) => got@ == want,
                    (None, None) => true,
                    _ => false,
                })
            }),
    {
        proof {
            if old(self).pos < old(self).tokens@.len() {
                assert(crate::css::token::css_tokens_view(old(self).tokens@)[old(self).pos as int]
                    == old(self).tokens@[old(self).pos as int]@);
            }
        }
        match self.next_token() {
            Some(CssToken::Ident(s)) => Some(s),
            _ => None,
        }
    }

    /// Reads one declaration: `property ':' value`.  A missing colon or a
    /// missing value aborts the declaration.
    fn consume_declaration(&mut self) -> (r: Option<Declaration>)
        requires
            old(self).wf(),
            old(self).pos < old(self).tokens@.len(),
        ensures
            final(self).wf(),
            final(self).tokens == old(self).tokens,
            final(self).pos > old(self).pos,
            ({
                let (dv, p2) = spec_consume_declaration(
                    crate::css::token::css_tokens_view(old(self).tokens@),
                    old(self).pos as int,
                );
                final(self).pos as int == p2 && (match (r, dv) {
                    (Some(got), Some(want)) => got@ == want,
                    (None, None) => true,
                    _ => false,
                })
            }),
    {
        let mut declaration = Declaration::new();
        match self.consume_ident() {
            Some(p) => {
                declaration.set_property(p);
            },
            None => {
                return None;
            },
        }
        match self.next_token() {
            Some(CssToken::Colon) => {},
            _ => {
                return None;
            },
        }
        match self.consume_component_value() {
            Some(v) => {
                declaration.set_value(v);
            },
            None => {
                return None;
            },
        }
        Some(declaration)
    }

    /// Reads declarations until the closing brace (or the end of input).
    fn consume_list_of_declarations(&mut self) -> (r: Vec<Declaration>)
        requires
            old(self).wf(),
        ensures
            final(self).wf(),
            final(self).tokens == old(self).tokens,
            final(self).pos >= old(self).pos,
            ({
                let (ds, p2) = spec_consume_declarations(
                    crate::css::token::css_tokens_view(old(self).tokens@),
                    old(self).pos as int,
                );
                final(self).pos as int == p2 && decls_view(r@) == ds
            }),
    {
        let ghost tv = crate::css::token::css_tokens_view(self.tokens@);
        let mut declarations: Vec<Declaration> = Vec::new();
        loop
            invariant
                self.wf(),
                self.tokens == old(self).tokens,
                self.pos >= old(self).pos,
                tv == crate::css::token::css_tokens_view(self.tokens@),
                spec_consume_declarations(tv, old(self).pos as int).0 =~= decls_view(declarations@)
                    + spec_consume_declarations(tv, self.pos as int).0,
                spec_consume_declarations(tv, old(self).pos as int).1 == spec_consume_declarations(
                    tv,
                    self.pos as int,
                ).1,
            decreases self.tokens@.len() - self.pos,
        {
            if self.pos >= self.tokens.len() {
                proof {
                    assert(decls_view(declarations@) + spec_consume_declarations(
                        tv,
                        self.pos as int,
                    ).0 =~= decls_view(declarations@));
                }
                return declarations;
            }
            proof {
                assert(tv[self.pos as int] == self.tokens@[self.pos as int]@);
            }
            match &self.tokens[self.pos] {
                CssToken::CloseCurly => {
                    self.pos = self.pos + 1;
                    proof {
                        assert(decls_view(declarations@) + spec_consume_declarations(
                            tv,
                            self.pos - 1,
                        ).0 =~= decls_view(declarations@));
                    }
                    return declarations;
                },
                CssToken::SemiColon => {
                    self.pos = self.pos + 1;
                },
                CssToken::Ident(_) => {
                    let ghost p0 = self.pos as int;
                    let ghost dprev = declarations@;
                    match self.consume_declaration() {
                        Some(declaration) => {
                            declarations.push(declaration);
                            proof {
                                assert(decls_view(declarations@) =~= decls_view(dprev) + seq![
                                    declarations@.last()@,
                                ]);
                                assert(spec_consume_declarations(tv, old(self).pos as int).0
                                    =~= decls_view(declarations@) + spec_consume_declarations(
                                    tv,
                                    self.pos as int,
                                ).0);
                            }
                        },
                        None => {},
                    }
                },
                _ => {
                    self.pos = self.pos + 1;
                },
            }
        }
    }

    /// Reads one selector.  A pseudo-class suffix and the body of an
    /// `@`-rule are skipped up to the opening brace.
    fn consume_selector(&mut self) -> (r: Selector)
        requires
            old(self).wf(),
            old(self).pos < old(self).tokens@.len(),
        ensures
            final(self).wf(),
            final(self).tokens == old(self).tokens,
            final(self).pos > old(self).pos,
            ({
                let (sv, p2) = spec_consume_selector(
                    crate::css::token::css_tokens_view(old(self).tokens@),
                    old(self).pos as int,
                );
                r@ == sv && final(self).pos as int == p2
            }),
    {
        proof {
            assert(crate::css::token::css_tokens_view(old(self).tokens@)[old(self).pos as int]
                == old(self).tokens@[old(self).pos as int]@);
        }
        let t = match self.next_token() {
            Some(t) => t,
            None => {
                return Selector::UnknownSelector;
            },
        };
        match t {
            CssToken::HashToken(value) => {
                // The hash token still carries its `#`: drop it.
                let chars = crate::strutil::string_to_chars(value.as_str());
                let mut s = String::new();
                let mut i: usize = 1;
                while i < chars.len()
                    invariant
                        1 <= i,
                        i <= chars@.len() || chars@.len() < 1,
                        chars@ == value@,
                        chars@.len() >= 1 ==> s@ == value@.subrange(1, i as int),
                        chars@.len() >= 1 ==> i <= chars@.len(),
                        chars@.len() < 1 ==> s@ == Seq::<char>::empty(),
                    decreases chars@.len() - i,
                {
                    push_char(&mut s, chars[i]);
                    proof {
                        assert(value@.subrange(1, i + 1) =~= value@.subrange(1, i as int).push(
                            value@[i as int],
                        ));
                    }
                    i = i + 1;
                }
                proof {
                    if value@.len() >= 1 {
                        assert(value@.subrange(1, value@.len() as int) =~= value@.skip(1));
                        assert(s@ == value@.skip(1));
                    } else {
                        assert(s@ =~= value@);
                    }
                }
                Selector::IdSelector(s)
            },
            CssToken::Delim(delim) => {
                if delim == '.' {
                    let named = self.consume_ident();
                    return match named {
                        Some(s) => Selector::ClassSelector(s),
                        None => Selector::UnknownSelector,
                    };
                }
                Selector::UnknownSelector
            },
            CssToken::Ident(ident) => {
                // `a:hover` is treated as the type selector `a`: the rest
                // is skipped up to the block.
                let mut colon_next = false;
                if self.pos < self.tokens.len() {
                    proof {
                        assert(crate::css::token::css_tokens_view(self.tokens@)[self.pos as int]
                            == self.tokens@[self.pos as int]@);
                    }
                    match &self.tokens[self.pos] {
                        CssToken::Colon => {
                            colon_next = true;
                        },
                        _ => {},
                    }
                }
                if colon_next {
                    self.skip_to_open_curly();
                }
                Selector::TypeSelector(ident)
            },
            CssToken::AtKeyword(_keyword) => {
                self.skip_to_open_curly();
                Selector::UnknownSelector
            },
            _ => {
                let _ = self.next_token();
                Selector::UnknownSelector
            },
        }
    }

    /// Advances to the next opening brace, or to the end of the input.
    fn skip_to_open_curly(&mut self)
        requires
            old(self).wf(),
        ensures
            final(self).wf(),
            final(self).tokens == old(self).tokens,
            final(self).pos >= old(self).pos,
            final(self).pos as int == spec_skip_to_open_curly(
                crate::css::token::css_tokens_view(old(self).tokens@),
                old(self).pos as int,
            ),
    {
        let ghost tv = crate::css::token::css_tokens_view(self.tokens@);
        loop
            invariant
                self.wf(),
                self.tokens == old(self).tokens,
                self.pos >= old(self).pos,
                tv == crate::css::token::css_tokens_view(self.tokens@),
                spec_skip_to_open_curly(tv, old(self).pos as int) == spec_skip_to_open_curly(
                    tv,
                    self.pos as int,
                ),
            decreases self.tokens@.len() - self.pos,
        {
            if self.pos >= self.tokens.len() {
                return ;
            }
            proof {
                assert(tv[self.pos as int] == self.tokens@[self.pos as int]@);
            }
            match &self.tokens[self.pos] {
                CssToken::OpenCurly => {
                    return ;
                },
                _ => {
                    self.pos = self.pos + 1;
                },
            }
        }
    }

    /// Reads one qualified rule: a selector, then a declaration block.
    /// Nothing comes back once the input is exhausted.
    fn consume_qualified_rule(&mut self) -> (r: Option<QualifiedRule>)
        requires
            old(self).wf(),
        ensures
            final(self).wf(),
            final(self).tokens == old(self).tokens,
            final(self).pos >= old(self).pos,
            r is Some ==> final(self).pos > old(self).pos,
            old(self).pos < old(self).tokens@.len() ==> final(self).pos > old(self).pos,
            ({
                let (rv, p2) = spec_consume_qualified_rule(
                    crate::css::token::css_tokens_view(old(self).tokens@),
                    old(self).pos as int,
                    SelectorV::TypeSelector(Seq::empty()),
                );
                final(self).pos as int == p2 && (match (r, rv) {
                    (Some(got), Some(want)) => got@ == want,
                    (None, None) => true,
                    _ => false,
                })
            }),
    {
        let ghost tv = crate::css::token::css_tokens_view(self.tokens@);
        let mut rule = QualifiedRule::new();
        loop
            invariant
                self.wf(),
                self.tokens == old(self).tokens,
                self.pos >= old(self).pos,
                tv == crate::css::token::css_tokens_view(self.tokens@),
                rule.declarations@.len() == 0,
                spec_consume_qualified_rule(tv, old(self).pos as int, SelectorV::TypeSelector(
                    Seq::empty(),
                )) == spec_consume_qualified_rule(tv, self.pos as int, rule.selector@),
            decreases self.tokens@.len() - self.pos,
        {
            if self.pos >= self.tokens.len() {
                return None;
            }
            proof {
                assert(tv[self.pos as int] == self.tokens@[self.pos as int]@);
            }
            let is_open_curly = match &self.tokens[self.pos] {
                CssToken::OpenCurly => true,
                _ => false,
            };
            if is_open_curly {
                self.pos = self.pos + 1;
                let declarations = self.consume_list_of_declarations();
                rule.set_declarations(declarations);
                return Some(rule);
            } else {
                let selector = self.consume_selector();
                rule.set_selector(selector);
            }
        }
    }

    /// Reads rules until the input is exhausted.  `@`-rules are parsed and
    /// thrown away.
    fn consume_list_of_rules(&mut self) -> (r: Vec<QualifiedRule>)
        requires
            old(self).wf(),
        ensures
            final(self).wf(),
            final(self).tokens == old(self).tokens,
            rules_view(r@) == spec_consume_rules(
                crate::css::token::css_tokens_view(old(self).tokens@),
                old(self).pos as int,
            ),
    {
        let ghost tv = crate::css::token::css_tokens_view(self.tokens@);
        let mut rules: Vec<QualifiedRule> = Vec::new();
        loop
            invariant
                self.wf(),
                self.tokens == old(self).tokens,
                self.pos >= old(self).pos,
                tv == crate::css::token::css_tokens_view(self.tokens@),
                spec_consume_rules(tv, old(self).pos as int) =~= rules_view(rules@)
                    + spec_consume_rules(tv, self.pos as int),
            decreases self.tokens@.len() - self.pos,
        {
            if self.pos >= self.tokens.len() {
                proof {
                    assert(rules_view(rules@) + spec_consume_rules(tv, self.pos as int)
                        =~= rules_view(rules@));
                }
                return rules;
            }
            proof {
                assert(tv[self.pos as int] == self.tokens@[self.pos as int]@);
            }
            let ghost pos_top = self.pos as int;
            let is_at = match &self.tokens[self.pos] {
                CssToken::AtKeyword(_) => true,
                _ => false,
            };
            if is_at {
                let _rule = self.consume_qualified_rule();
            } else {
                let ghost rprev = rules@;
                match self.consume_qualified_rule() {
                    Some(r) => {
                        rules.push(r);
                        proof {
                            assert(rules_view(rules@) =~= rules_view(rprev) + seq![
                                rules@.last()@,
                            ]);
                            assert(spec_consume_rules(tv, old(self).pos as int) =~= rules_view(
                                rules@,
                            ) + spec_consume_rules(tv, self.pos as int));
                        }
                    },
                    None => {
                        proof {
                            assert(spec_consume_rules(tv, pos_top) =~= Seq::<RuleV>::empty());
                            assert(rules_view(rules@) + spec_consume_rules(tv, pos_top)
                                =~= rules_view(rules@));
                        }
                        return rules;
                    },
                }
            }
        }
    }

    /// Parses the whole stylesheet: exactly the rules the grammar reads
    /// from the token stream.
    pub fn parse_stylesheet(&mut self) -> (r: StyleSheet)
        requires
            old(self).wf(),
        ensures
            final(self).wf(),
            rules_view(r.rules@) == spec_consume_rules(
                crate::css::token::css_tokens_view(old(self).tokens@),
                old(self).pos as int,
            ),
    {
        let mut sheet = StyleSheet::new();
        sheet.set_rules(self.consume_list_of_rules());
        sheet
    }
}

} // verus!
