//! The HTML tree builder: consumes the tokenizer's emissions under an
//! insertion-mode state machine and materialises the DOM.
//!
//! Structural tags that were left out of the input (html, head, body) are
//! inserted automatically; tokens that do not fit the current mode are
//! dropped or drive a mode change.  Building never fails: the worst outcome
//! of malformed input is a small or empty tree.

use vstd::prelude::*;

use crate::dom::node::ElemV;
use crate::dom::node::Element;
use crate::dom::node::ElementKind;
use crate::dom::node::Node;
use crate::dom::node::NodeKind;
use crate::dom::node::NodeKindV;
use crate::dom::node::NodeV;
use crate::dom::node::Window;
use crate::dom::node::node_view;
use crate::dom::node::nodes_view;
use crate::dom::node::spec_kind_of_tag;
use crate::html::attribute::AttrV;
use crate::html::token::HtmlTokV;
use crate::html::attribute::Attribute;
use crate::html::attribute::attrs_view;
use crate::html::attribute::clone_attrs;
use crate::html::token::HtmlToken;
use crate::html::token::HtmlTokenizer;
use crate::strutil::str_eq;

verus! {

/// The insertion modes of the tree builder.
#[derive(Debug, Copy, Clone, PartialEq, Eq, Structural)]
pub enum InsertionMode {
    Initial,
    BeforeHtml,
    BeforeHead,
    InHead,
    AfterHead,
    InBody,
    Text,
    AfterBody,
    AfterAfterBody,
}

/// A rank on insertion modes, relative to the token in hand: every mode
/// change that keeps the token strictly lowers it, so the builder's loop
/// terminates.  The one downward step from InBody to AfterBody keeps the
/// token only when that token is the `</html>` end tag, which AfterBody
/// then consumes; the rank reflects that.
pub open spec fn mode_rank(m: InsertionMode, cur: HtmlToken) -> int {
    match m {
        InsertionMode::Text => 10int,
        InsertionMode::Initial => 9int,
        InsertionMode::BeforeHtml => 8int,
        InsertionMode::BeforeHead => 7int,
        InsertionMode::InHead => 6int,
        InsertionMode::AfterHead => 5int,
        InsertionMode::AfterAfterBody => 4int,
        InsertionMode::AfterBody => if cur matches HtmlToken::EndTag { tag } && tag@ == "html"@ {
            1int
        } else {
            3int
        },
        InsertionMode::InBody => 2int,
    }
}

/// The handle on top of the open-elements stack.
pub open spec fn stk_top(p: HtmlParser) -> int {
    p.stack_of_open_elements@.last() as int
}

/// The kind of the node on top of the open-elements stack.
pub open spec fn stk_top_kind(p: HtmlParser) -> NodeKind {
    p.window.nodes@[stk_top(p)].kind
}

/// `mode_rank` over token values.
pub open spec fn mode_rank_v(m: InsertionMode, cur: HtmlTokV) -> int {
    match m {
        InsertionMode::Text => 10int,
        InsertionMode::Initial => 9int,
        InsertionMode::BeforeHtml => 8int,
        InsertionMode::BeforeHead => 7int,
        InsertionMode::InHead => 6int,
        InsertionMode::AfterHead => 5int,
        InsertionMode::AfterAfterBody => 4int,
        InsertionMode::AfterBody => if cur matches HtmlTokV::EndTag { tag } && tag == "html"@ {
            1int
        } else {
            3int
        },
        InsertionMode::InBody => 2int,
    }
}

/// The whole state of the tree builder: the arena's values, the stack of
/// open elements, and the two insertion modes.
pub ghost struct BuildState {
    pub nodes: Seq<NodeV>,
    pub stack: Seq<usize>,
    pub mode: InsertionMode,
    pub orig: InsertionMode,
}

/// The builder's state as a value.
pub open spec fn build_view(p: HtmlParser) -> BuildState {
    BuildState {
        nodes: nodes_view(p.window.nodes@),
        stack: p.stack_of_open_elements@,
        mode: p.mode,
        orig: p.original_insertion_mode,
    }
}

/// The document's arena as built from raw HTML text: a fresh tokenizer's
/// emissions folded by the builder's step function into a fresh document.
pub open spec fn spec_parse_html(html: Seq<char>) -> Seq<NodeV> {
    spec_construct(
        BuildState {
            nodes: seq![
                NodeV {
                    kind: NodeKindV::Document,
                    parent: None,
                    first_child: None,
                    last_child: None,
                    previous_sibling: None,
                    next_sibling: None,
                },
            ],
            stack: Seq::empty(),
            mode: InsertionMode::Initial,
            orig: InsertionMode::Initial,
        },
        crate::html::token::spec_html_tokenize(
            crate::html::token::TkState {
                state: crate::html::token::State::Data,
                pos: 0,
                reconsume: false,
                latest: None,
                input: html,
                buf: Seq::empty(),
            },
        ),
        0,
    )
}

/// Whether some open element has the given kind.
pub open spec fn g_stack_has(nodes: Seq<NodeV>, stack: Seq<usize>, k: ElementKind) -> bool {
    exists|i: int|
        0 <= i < stack.len() && (nodes[#[trigger] stack[i] as int].kind
            matches NodeKindV::Element(e) && e.kind == k)
}

/// The stack after popping open elements until one of kind `k` has been
/// popped, or the stack is empty.
pub open spec fn g_pop_until(nodes: Seq<NodeV>, stack: Seq<usize>, k: ElementKind) -> Seq<usize>
    decreases stack.len(),
{
    if stack.len() == 0 {
        stack
    } else if nodes[stack.last() as int].kind matches NodeKindV::Element(e) && e.kind == k {
        stack.drop_last()
    } else {
        g_pop_until(nodes, stack.drop_last(), k)
    }
}

/// The stack after popping the top open element when it has kind `k`, and
/// whether it was popped.
pub open spec fn g_pop_current(nodes: Seq<NodeV>, stack: Seq<usize>, k: ElementKind) -> (
    Seq<usize>,
    bool,
) {
    if stack.len() > 0 && (nodes[stack.last() as int].kind matches NodeKindV::Element(e) && e.kind
        == k) {
        (stack.drop_last(), true)
    } else {
        (stack, false)
    }
}

/// The arena and stack after inserting an element of kind `kind` with the
/// given attributes as the last child of the current open element (or of
/// the Document), and opening it.
pub open spec fn g_insert_element(
    nodes: Seq<NodeV>,
    stack: Seq<usize>,
    kind: ElementKind,
    attrs: Seq<AttrV>,
) -> (Seq<NodeV>, Seq<usize>) {
    let cur = if stack.len() == 0 {
        0int
    } else {
        stack.last() as int
    };
    let n = nodes.len() as usize;
    let base = nodes.push(
        NodeV {
            kind: NodeKindV::Element(ElemV { kind, attributes: attrs }),
            parent: None,
            first_child: None,
            last_child: None,
            previous_sibling: None,
            next_sibling: None,
        },
    );
    let linked = if nodes[cur].first_child is Some && nodes[cur].last_child is Some {
        let last = nodes[cur].last_child.unwrap() as int;
        base.update(last, NodeV { next_sibling: Some(n), ..base[last] }).update(
            n as int,
            NodeV { previous_sibling: nodes[cur].last_child, ..base[n as int] },
        )
    } else {
        base.update(cur, NodeV { first_child: Some(n), ..base[cur] })
    };
    let with_last = linked.update(cur, NodeV { last_child: Some(n), ..linked[cur] });
    let done = with_last.update(
        n as int,
        NodeV {
            parent: Some(
                if stack.len() == 0 {
                    0usize
                } else {
                    stack.last()
                },
            ),
            ..with_last[n as int]
        },
    );
    (done, stack.push(n))
}

/// The arena and stack after inserting one character of text: appended to
/// a Text node on top of the stack, dropped when blank and no Text node is
/// open, and otherwise opening a fresh Text node.
pub open spec fn g_insert_char(nodes: Seq<NodeV>, stack: Seq<usize>, c: char) -> (
    Seq<NodeV>,
    Seq<usize>,
) {
    if stack.len() == 0 {
        (nodes, stack)
    } else {
        let cur = stack.last() as int;
        match nodes[cur].kind {
            NodeKindV::Text(s) => (
                nodes.update(cur, NodeV { kind: NodeKindV::Text(s.push(c)), ..nodes[cur] }),
                stack,
            ),
            _ => {
                if c == '\n' || c == ' ' {
                    (nodes, stack)
                } else {
                    let n = nodes.len() as usize;
                    let base = nodes.push(
                        NodeV {
                            kind: NodeKindV::Text(seq![c]),
                            parent: None,
                            first_child: None,
                            last_child: None,
                            previous_sibling: None,
                            next_sibling: None,
                        },
                    );
                    let linked = match nodes[cur].first_child {
                        Some(fc) => base.update(
                            fc as int,
                            NodeV { next_sibling: Some(n), ..base[fc as int] },
                        ),
                        None => base.update(cur, NodeV { first_child: Some(n), ..base[cur] }),
                    };
                    let with_last = linked.update(
                        cur,
                        NodeV { last_child: Some(n), ..linked[cur] },
                    );
                    let done = with_last.update(
                        n as int,
                        NodeV { parent: Some(stack.last()), ..with_last[n as int] },
                    );
                    (done, stack.push(n))
                }
            },
        }
    }
}

/// One step of the tree builder on one token: the next state, whether the
/// token was consumed, and whether building ended (the Eof token returns
/// the document as built).
pub open spec fn spec_pt_next(st: BuildState, tok: HtmlTokV) -> (BuildState, bool, bool) {
    match st.mode {
        InsertionMode::Initial => match tok {
            HtmlTokV::Char(_) => (st, true, false),
            _ => (BuildState { mode: InsertionMode::BeforeHtml, ..st }, false, false),
        },
        InsertionMode::BeforeHtml => match tok {
            HtmlTokV::Char(c) => if c == ' ' || c == '\n' {
                (st, true, false)
            } else {
                let r = g_insert_element(st.nodes, st.stack, ElementKind::Html, Seq::empty());
                (
                    BuildState {
                        nodes: r.0,
                        stack: r.1,
                        mode: InsertionMode::BeforeHead,
                        ..st
                    },
                    false,
                    false,
                )
            },
            HtmlTokV::StartTag { tag, self_closing: _, attributes } => if tag == "html"@ {
                let r = g_insert_element(st.nodes, st.stack, ElementKind::Html, attributes);
                (
                    BuildState { nodes: r.0, stack: r.1, mode: InsertionMode::BeforeHead, ..st },
                    true,
                    false,
                )
            } else {
                let r = g_insert_element(st.nodes, st.stack, ElementKind::Html, Seq::empty());
                (
                    BuildState { nodes: r.0, stack: r.1, mode: InsertionMode::BeforeHead, ..st },
                    false,
                    false,
                )
            },
            HtmlTokV::EndTag { tag: _ } => (st, true, false),
            HtmlTokV::Eof => (st, false, true),
        },
        InsertionMode::BeforeHead => match tok {
            HtmlTokV::Char(c) => if c == ' ' || c == '\n' {
                (st, true, false)
            } else {
                let r = g_insert_element(st.nodes, st.stack, ElementKind::Head, Seq::empty());
                (
                    BuildState { nodes: r.0, stack: r.1, mode: InsertionMode::InHead, ..st },
                    false,
                    false,
                )
            },
            HtmlTokV::StartTag { tag, self_closing: _, attributes } => if tag == "head"@ {
                let r = g_insert_element(st.nodes, st.stack, ElementKind::Head, attributes);
                (
                    BuildState { nodes: r.0, stack: r.1, mode: InsertionMode::InHead, ..st },
                    true,
                    false,
                )
            } else {
                let r = g_insert_element(st.nodes, st.stack, ElementKind::Head, Seq::empty());
                (
                    BuildState { nodes: r.0, stack: r.1, mode: InsertionMode::InHead, ..st },
                    false,
                    false,
                )
            },
            HtmlTokV::EndTag { tag: _ } => {
                let r = g_insert_element(st.nodes, st.stack, ElementKind::Head, Seq::empty());
                (
                    BuildState { nodes: r.0, stack: r.1, mode: InsertionMode::InHead, ..st },
                    false,
                    false,
                )
            },
            HtmlTokV::Eof => (st, false, true),
        },
        InsertionMode::InHead => match tok {
            HtmlTokV::Char(c) => if c == ' ' || c == '\n' {
                let r = g_insert_char(st.nodes, st.stack, c);
                (BuildState { nodes: r.0, stack: r.1, ..st }, true, false)
            } else {
                (st, true, false)
            },
            HtmlTokV::StartTag { tag, self_closing: _, attributes } => if tag == "style"@ {
                let r = g_insert_element(st.nodes, st.stack, ElementKind::Style, attributes);
                (
                    BuildState {
                        nodes: r.0,
                        stack: r.1,
                        mode: InsertionMode::Text,
                        orig: InsertionMode::InHead,
                    },
                    true,
                    false,
                )
            } else if tag == "script"@ {
                let r = g_insert_element(st.nodes, st.stack, ElementKind::Script, attributes);
                (
                    BuildState {
                        nodes: r.0,
                        stack: r.1,
                        mode: InsertionMode::Text,
                        orig: InsertionMode::InHead,
                    },
                    true,
                    false,
                )
            } else if spec_kind_of_tag(tag) is Some {
                (
                    BuildState {
                        stack: g_pop_until(st.nodes, st.stack, ElementKind::Head),
                        mode: InsertionMode::AfterHead,
                        ..st
                    },
                    false,
                    false,
                )
            } else {
                (st, true, false)
            },
            HtmlTokV::EndTag { tag } => if tag == "head"@ {
                (
                    BuildState {
                        stack: g_pop_until(st.nodes, st.stack, ElementKind::Head),
                        mode: InsertionMode::AfterHead,
                        ..st
                    },
                    true,
                    false,
                )
            } else {
                (st, true, false)
            },
            HtmlTokV::Eof => (st, false, true),
        },
        InsertionMode::AfterHead => match tok {
            HtmlTokV::Char(c) => if c == ' ' || c == '\n' {
                let r = g_insert_char(st.nodes, st.stack, c);
                (BuildState { nodes: r.0, stack: r.1, ..st }, true, false)
            } else {
                let r = g_insert_element(st.nodes, st.stack, ElementKind::Body, Seq::empty());
                (
                    BuildState { nodes: r.0, stack: r.1, mode: InsertionMode::InBody, ..st },
                    false,
                    false,
                )
            },
            HtmlTokV::StartTag { tag, self_closing: _, attributes } => if tag == "body"@ {
                let r = g_insert_element(st.nodes, st.stack, ElementKind::Body, attributes);
                (
                    BuildState { nodes: r.0, stack: r.1, mode: InsertionMode::InBody, ..st },
                    true,
                    false,
                )
            } else {
                let r = g_insert_element(st.nodes, st.stack, ElementKind::Body, Seq::empty());
                (
                    BuildState { nodes: r.0, stack: r.1, mode: InsertionMode::InBody, ..st },
                    false,
                    false,
                )
            },
            HtmlTokV::EndTag { tag: _ } => {
                let r = g_insert_element(st.nodes, st.stack, ElementKind::Body, Seq::empty());
                (
                    BuildState { nodes: r.0, stack: r.1, mode: InsertionMode::InBody, ..st },
                    false,
                    false,
                )
            },
            HtmlTokV::Eof => (st, false, true),
        },
        InsertionMode::InBody => match tok {
            HtmlTokV::StartTag { tag, self_closing: _, attributes } => if tag == "p"@ {
                let r = g_insert_element(st.nodes, st.stack, ElementKind::P, attributes);
                (BuildState { nodes: r.0, stack: r.1, ..st }, true, false)
            } else if tag == "h1"@ {
                let r = g_insert_element(st.nodes, st.stack, ElementKind::H1, attributes);
                (BuildState { nodes: r.0, stack: r.1, ..st }, true, false)
            } else if tag == "h2"@ {
                let r = g_insert_element(st.nodes, st.stack, ElementKind::H2, attributes);
                (BuildState { nodes: r.0, stack: r.1, ..st }, true, false)
            } else if tag == "a"@ {
                let r = g_insert_element(st.nodes, st.stack, ElementKind::A, attributes);
                (BuildState { nodes: r.0, stack: r.1, ..st }, true, false)
            } else {
                (st, true, false)
            },
            HtmlTokV::EndTag { tag } => if tag == "body"@ {
                let s2 = if g_stack_has(st.nodes, st.stack, ElementKind::Body) {
                    g_pop_until(st.nodes, st.stack, ElementKind::Body)
                } else {
                    st.stack
                };
                (BuildState { stack: s2, mode: InsertionMode::AfterBody, ..st }, true, false)
            } else if tag == "html"@ {
                let r = g_pop_current(st.nodes, st.stack, ElementKind::Body);
                if r.1 {
                    let r2 = g_pop_current(st.nodes, r.0, ElementKind::Html);
                    (
                        BuildState { stack: r2.0, mode: InsertionMode::AfterBody, ..st },
                        false,
                        false,
                    )
                } else {
                    (st, true, false)
                }
            } else if tag == "p"@ {
                (
                    BuildState { stack: g_pop_until(st.nodes, st.stack, ElementKind::P), ..st },
                    true,
                    false,
                )
            } else if tag == "h1"@ {
                (
                    BuildState { stack: g_pop_until(st.nodes, st.stack, ElementKind::H1), ..st },
                    true,
                    false,
                )
            } else if tag == "h2"@ {
                (
                    BuildState { stack: g_pop_until(st.nodes, st.stack, ElementKind::H2), ..st },
                    true,
                    false,
                )
            } else if tag == "a"@ {
                (
                    BuildState { stack: g_pop_until(st.nodes, st.stack, ElementKind::A), ..st },
                    true,
                    false,
                )
            } else {
                (st, true, false)
            },
            HtmlTokV::Eof => (st, false, true),
            HtmlTokV::Char(c) => {
                let r = g_insert_char(st.nodes, st.stack, c);
                (BuildState { nodes: r.0, stack: r.1, ..st }, true, false)
            },
        },
        InsertionMode::Text => match tok {
            HtmlTokV::Eof => (st, false, true),
            HtmlTokV::EndTag { tag } => if tag == "style"@ {
                (
                    BuildState {
                        stack: g_pop_until(st.nodes, st.stack, ElementKind::Style),
                        mode: st.orig,
                        ..st
                    },
                    true,
                    false,
                )
            } else if tag == "script"@ {
                (
                    BuildState {
                        stack: g_pop_until(st.nodes, st.stack, ElementKind::Script),
                        mode: st.orig,
                        ..st
                    },
                    true,
                    false,
                )
            } else {
                (BuildState { mode: st.orig, ..st }, false, false)
            },
            HtmlTokV::Char(c) => {
                let r = g_insert_char(st.nodes, st.stack, c);
                (BuildState { nodes: r.0, stack: r.1, ..st }, true, false)
            },
            HtmlTokV::StartTag { .. } => (BuildState { mode: st.orig, ..st }, false, false),
        },
        InsertionMode::AfterBody => match tok {
            HtmlTokV::Char(_) => (st, true, false),
            HtmlTokV::EndTag { tag } => if tag == "html"@ {
                (BuildState { mode: InsertionMode::AfterAfterBody, ..st }, true, false)
            } else {
                (BuildState { mode: InsertionMode::InBody, ..st }, false, false)
            },
            HtmlTokV::Eof => (st, false, true),
            HtmlTokV::StartTag { .. } => (
                BuildState { mode: InsertionMode::InBody, ..st },
                false,
                false,
            ),
        },
        InsertionMode::AfterAfterBody => match tok {
            HtmlTokV::Char(_) => (st, true, false),
            HtmlTokV::Eof => (st, false, true),
            _ => (BuildState { mode: InsertionMode::InBody, ..st }, false, false),
        },
    }
}

/// The arena the builder ends with, from state `st` and the tokens from
/// `i` on: steps fold until the tokens run out or an Eof token ends it.
pub open spec fn spec_construct(st: BuildState, toks: Seq<HtmlTokV>, i: int) -> Seq<NodeV>
    decreases toks.len() - i, mode_rank_v(st.mode, toks[i]),
    when 0 <= i <= toks.len() && st.orig != InsertionMode::Text
    via spec_construct_decreases
{
    if i >= toks.len() {
        st.nodes
    } else {
        let step = spec_pt_next(st, toks[i]);
        if step.2 {
            st.nodes
        } else if step.1 {
            spec_construct(step.0, toks, i + 1)
        } else {
            spec_construct(step.0, toks, i)
        }
    }
}

#[via_fn]
proof fn spec_construct_decreases(st: BuildState, toks: Seq<HtmlTokV>, i: int) {
    if i < toks.len() {
        let step = spec_pt_next(st, toks[i]);
        if !step.2 && !step.1 {
            assert(mode_rank_v(step.0.mode, toks[i]) < mode_rank_v(st.mode, toks[i]));
            assert(step.0.orig != InsertionMode::Text);
        }
        if !step.2 && step.1 {
            assert(step.0.orig != InsertionMode::Text);
        }
    }
}

/// One unfolding of `spec_construct` at a token.
pub proof fn lemma_construct_step(st: BuildState, toks: Seq<HtmlTokV>, i: int)
    requires
        0 <= i < toks.len(),
        st.orig != InsertionMode::Text,
    ensures
        ({
            let step = spec_pt_next(st, toks[i]);
            spec_construct(st, toks, i) == if step.2 {
                st.nodes
            } else if step.1 {
                spec_construct(step.0, toks, i + 1)
            } else {
                spec_construct(step.0, toks, i)
            }
        }),
{
}

/// The arena `post` equals `pre` with one character appended to the text
/// of node `i`, every link of that node kept.
pub open spec fn text_appended(pre: Window, post: Window, i: int, c: char) -> bool {
    &&& post.nodes@ == pre.nodes@.update(i, post.nodes@[i])
    &&& (pre.nodes@[i].kind matches NodeKind::Text(s) ==> (post.nodes@[i].kind
        matches NodeKind::Text(s2) && s2@ == s@.push(c)))
    &&& post.nodes@[i] == (Node { kind: post.nodes@[i].kind, ..pre.nodes@[i] })
}

/// Characters inserted into the same Text node accumulate in order: two
/// coalescing steps append exactly their two characters, so a run of
/// character tokens ends up concatenated onto the node's text.
pub proof fn lemma_text_coalescing_composes(
    pre: Window,
    mid: Window,
    post: Window,
    i: int,
    c1: char,
    c2: char,
)
    requires
        0 <= i < pre.nodes@.len(),
        pre.nodes@[i].kind is Text,
        text_appended(pre, mid, i, c1),
        text_appended(mid, post, i, c2),
    ensures
        pre.nodes@[i].kind matches NodeKind::Text(s) ==> (post.nodes@[i].kind
            matches NodeKind::Text(s2) && s2@ == s@.push(c1).push(c2)),
        post.nodes@ == pre.nodes@.update(i, post.nodes@[i]),
{
    assert(post.nodes@ =~= pre.nodes@.update(i, post.nodes@[i]));
}

/// The stack-membership test reads the same on the arena's values as on
/// the arena.
pub proof fn lemma_stack_has_view(w: &Window, stack: Seq<usize>, k: ElementKind)
    requires
        forall|i: int| 0 <= i < stack.len() ==> (#[trigger] stack[i]) < w.nodes@.len(),
    ensures
        (exists|i: int|
            0 <= i < stack.len() && (w.nodes@[#[trigger] stack[i] as int].kind
                matches NodeKind::Element(e) && e.kind == k)) == g_stack_has(
            nodes_view(w.nodes@),
            stack,
            k,
        ),
{
    let nv = nodes_view(w.nodes@);
    assert forall|i: int| 0 <= i < stack.len() implies ((w.nodes@[#[trigger] stack[i] as int].kind
        matches NodeKind::Element(e) && e.kind == k) == (nv[stack[i] as int].kind
        matches NodeKindV::Element(e) && e.kind == k)) by {
        assert(nv[stack[i] as int] == node_view(w.nodes@[stack[i] as int]));
    }
    if exists|i: int|
        0 <= i < stack.len() && (w.nodes@[#[trigger] stack[i] as int].kind
            matches NodeKind::Element(e) && e.kind == k) {
        let i = choose|i: int|
            0 <= i < stack.len() && (w.nodes@[#[trigger] stack[i] as int].kind
                matches NodeKind::Element(e) && e.kind == k);
        assert(nv[stack[i] as int].kind matches NodeKindV::Element(e) && e.kind == k);
        assert(g_stack_has(nv, stack, k));
    }
    if g_stack_has(nv, stack, k) {
        let i = choose|i: int|
            0 <= i < stack.len() && (nv[#[trigger] stack[i] as int].kind
                matches NodeKindV::Element(e) && e.kind == k);
        assert(w.nodes@[stack[i] as int].kind matches NodeKind::Element(e) && e.kind == k);
    }
}

/// The tree builder.
#[derive(Debug)]
pub struct HtmlParser {
    pub window: Window,
    pub mode: InsertionMode,
    pub original_insertion_mode: InsertionMode,
    pub stack_of_open_elements: Vec<usize>,
    pub t: HtmlTokenizer,
}

impl HtmlParser {
    /// Well-formedness: the arena is well-formed and every open element is
    /// a valid handle into it.
    pub open spec fn wf(&self) -> bool {
        &&& self.window.wf()
        &&& forall|i: int|
            0 <= i < self.stack_of_open_elements@.len()
                ==> (#[trigger] self.stack_of_open_elements@[i]) < self.window.nodes@.len()
        &&& self.t.wf()
    }

    /// A builder over the given tokenizer, with an empty document.
    pub fn new(t: HtmlTokenizer) -> (r: Self)
        requires
            t.wf(),
        ensures
            r.wf(),
            r.mode == InsertionMode::Initial,
            r.window.nodes@.len() == 1,
            r.window.nodes@[0].first_child is None,
            r.window.nodes@ == seq![Node::new_spec(NodeKind::Document)],
            r.stack_of_open_elements@.len() == 0,
            r.original_insertion_mode == InsertionMode::Initial,
            r.original_insertion_mode != InsertionMode::Text,
            r.t == t,
    {
        Self {
            window: Window::new(),
            mode: InsertionMode::Initial,
            original_insertion_mode: InsertionMode::Initial,
            stack_of_open_elements: Vec::new(),
            t,
        }
    }

    /// Whether some open element has the given kind.
    fn contain_in_stack(&self, element_kind: ElementKind) -> (r: bool)
        requires
            self.wf(),
        ensures
            r == exists|i: int|
                0 <= i < self.stack_of_open_elements@.len()
                    && (self.window.nodes@[#[trigger] self.stack_of_open_elements@[i] as int].kind
                    matches NodeKind::Element(e) && e.kind == element_kind),
            r == g_stack_has(
                nodes_view(self.window.nodes@),
                self.stack_of_open_elements@,
                element_kind,
            ),
    {
        proof {
            lemma_stack_has_view(&self.window, self.stack_of_open_elements@, element_kind);
        }
        let mut i: usize = 0;
        while i < self.stack_of_open_elements.len()
            invariant
                self.wf(),
                i <= self.stack_of_open_elements@.len(),
                forall|j: int|
                    0 <= j < i ==> !(self.window.nodes@[#[trigger] self.stack_of_open_elements@[j] as int].kind
                        matches NodeKind::Element(e) && e.kind == element_kind),
            decreases self.stack_of_open_elements@.len() - i,
        {
            let h = self.stack_of_open_elements[i];
            match &self.window.node(h).kind {
                NodeKind::Element(e) => {
                    if e.kind == element_kind {
                        return true;
                    }
                },
                _ => {},
            }
            i = i + 1;
        }
        false
    }

    /// Pops open elements until one of the given kind has been popped, or
    /// the stack is empty.
    fn pop_until(&mut self, element_kind: ElementKind)
        requires
            old(self).wf(),
        ensures
            final(self).wf(),
            final(self).window == old(self).window,
            final(self).mode == old(self).mode,
            final(self).original_insertion_mode == old(self).original_insertion_mode,
            final(self).t == old(self).t,
            final(self).stack_of_open_elements@ == g_pop_until(
                nodes_view(old(self).window.nodes@),
                old(self).stack_of_open_elements@,
                element_kind,
            ),
    {
        let ghost nv = nodes_view(old(self).window.nodes@);
        loop
            invariant
                self.wf(),
                self.window == old(self).window,
                self.mode == old(self).mode,
                self.original_insertion_mode == old(self).original_insertion_mode,
                self.t == old(self).t,
                nv == nodes_view(self.window.nodes@),
                g_pop_until(nv, old(self).stack_of_open_elements@, element_kind) == g_pop_until(
                    nv,
                    self.stack_of_open_elements@,
                    element_kind,
                ),
            decreases self.stack_of_open_elements@.len(),
        {
            let ghost stk = self.stack_of_open_elements@;
            let current = match self.stack_of_open_elements.pop() {
                Some(n) => n,
                None => {
                    return ;
                },
            };
            proof {
                assert(stk.len() > 0 && current == stk.last());
                assert(self.stack_of_open_elements@ == stk.drop_last());
                assert(current < self.window.nodes@.len());
                assert(nv[current as int] == node_view(self.window.nodes@[current as int]));
            }
            match &self.window.node(current).kind {
                NodeKind::Element(e) => {
                    if e.kind == element_kind {
                        proof {
                            assert(nv[current as int].kind matches NodeKindV::Element(ev)
                                && ev.kind == element_kind);
                            assert(g_pop_until(nv, stk, element_kind) == stk.drop_last());
                        }
                        return ;
                    }
                },
                _ => {},
            }
            proof {
                assert(!(nv[stk.last() as int].kind matches NodeKindV::Element(ev) && ev.kind
                    == element_kind));
                assert(g_pop_until(nv, stk, element_kind) == g_pop_until(
                    nv,
                    stk.drop_last(),
                    element_kind,
                ));
            }
        }
    }

    /// Pops the top open element when it has the given kind; says whether
    /// it did.
    fn pop_current_node(&mut self, element_kind: ElementKind) -> (r: bool)
        requires
            old(self).wf(),
        ensures
            final(self).wf(),
            final(self).window == old(self).window,
            final(self).mode == old(self).mode,
            final(self).original_insertion_mode == old(self).original_insertion_mode,
            final(self).t == old(self).t,
            ({
                let gr = g_pop_current(
                    nodes_view(old(self).window.nodes@),
                    old(self).stack_of_open_elements@,
                    element_kind,
                );
                final(self).stack_of_open_elements@ == gr.0 && r == gr.1
            }),
    {
        let ghost nv = nodes_view(old(self).window.nodes@);
        let len = self.stack_of_open_elements.len();
        if len == 0 {
            return false;
        }
        let current = self.stack_of_open_elements[len - 1];
        proof {
            assert(current == self.stack_of_open_elements@.last());
            assert(current < self.window.nodes@.len());
            assert(nv[current as int] == node_view(self.window.nodes@[current as int]));
        }
        let matches_kind = match &self.window.node(current).kind {
            NodeKind::Element(e) => {
                let k = e.kind;
                k == element_kind
            },
            _ => false,
        };
        proof {
            assert(matches_kind == (nv[current as int].kind matches NodeKindV::Element(ev)
                && ev.kind == element_kind));
        }
        if matches_kind {
            let _ = self.stack_of_open_elements.pop();
            return true;
        }
        false
    }

    /// Creates an element node of the named kind and appends it as the
    /// last child of the current open element (or of the Document when the
    /// stack is empty), then opens it.
    fn insert_element(&mut self, tag: &str, attributes: Vec<Attribute>)
        requires
            old(self).wf(),
            spec_kind_of_tag(tag@) is Some,
        ensures
            final(self).wf(),
            final(self).window.nodes@.len() == old(self).window.nodes@.len() + 1,
            final(self).stack_of_open_elements@ == old(self).stack_of_open_elements@.push(
                (old(self).window.nodes@.len() as usize),
            ),
            final(self).window.nodes@[old(self).window.nodes@.len() as int].kind
                matches NodeKind::Element(e) && Some(e.kind) == spec_kind_of_tag(tag@) && attrs_view(
                e.attributes@,
            ) == attrs_view(attributes@),
            final(self).window.nodes@[old(self).window.nodes@.len() as int].parent == Some(
                (if old(self).stack_of_open_elements@.len() == 0 {
                    0usize
                } else {
                    old(self).stack_of_open_elements@.last()
                }),
            ),
            final(self).window.nodes@[old(self).window.nodes@.len() as int].first_child is None,
            ({
                let cur = if old(self).stack_of_open_elements@.len() == 0 {
                    0int
                } else {
                    old(self).stack_of_open_elements@.last() as int
                };
                let nn = old(self).window.nodes@.len() as int;
                &&& final(self).window.nodes@[cur].last_child == Some((nn as usize))
                &&& (match old(self).window.nodes@[cur].last_child {
                    Some(l) => final(self).window.nodes@[l as int].next_sibling == Some(
                        (nn as usize),
                    ) || old(self).window.nodes@[cur].first_child is None,
                    None => true,
                })
                &&& (old(self).window.nodes@[cur].first_child is None
                    ==> final(self).window.nodes@[cur].first_child == Some((nn as usize)))
            }),
            final(self).mode == old(self).mode,
            final(self).original_insertion_mode == old(self).original_insertion_mode,
            final(self).t == old(self).t,
            ({
                let gr = g_insert_element(
                    nodes_view(old(self).window.nodes@),
                    old(self).stack_of_open_elements@,
                    spec_kind_of_tag(tag@).unwrap(),
                    attrs_view(attributes@),
                );
                nodes_view(final(self).window.nodes@) == gr.0
                    && final(self).stack_of_open_elements@ == gr.1
            }),
    {
        let ghost n0 = nodes_view(old(self).window.nodes@);
        let ghost s0 = old(self).stack_of_open_elements@;
        let ghost av = attrs_view(attributes@);
        let current: usize = match self.stack_of_open_elements.len() {
            0 => self.window.document(),
            n => self.stack_of_open_elements[n - 1],
        };
        let node = self.window.create_node(
            NodeKind::Element(Element::new(tag, attributes)),
        );
        let fc = self.window.node(current).first_child;
        let lc = self.window.node(current).last_child;
        match (fc, lc) {
            (Some(_), Some(last_sibling)) => {
                self.window.set_next_sibling_of(last_sibling, node);
                self.window.set_previous_sibling_of(node, last_sibling);
            },
            _ => {
                self.window.set_first_child_of(current, node);
            },
        }
        self.window.set_last_child_of(current, node);
        self.window.set_parent_of(node, current);
        self.stack_of_open_elements.push(node);
        proof {
            let gr = g_insert_element(n0, s0, spec_kind_of_tag(tag@).unwrap(), av);
            assert forall|j: int| 0 <= j < self.window.nodes@.len() implies nodes_view(
                self.window.nodes@,
            )[j] == gr.0[j] by {
                assert(nodes_view(self.window.nodes@)[j] == node_view(self.window.nodes@[j]));
                if 0 <= j < n0.len() {
                    assert(n0[j] == node_view(old(self).window.nodes@[j]));
                }
            }
            assert(nodes_view(self.window.nodes@) =~= gr.0);
        }
    }

    /// Inserts one character of text.  When the current open node is a
    /// Text node the character is appended to it; a space or newline that
    /// would start a new Text node is dropped; otherwise a fresh Text node
    /// is created, linked in, and becomes the current open node.
    fn insert_char(&mut self, c: char)
        requires
            old(self).wf(),
        ensures
            final(self).wf(),
            final(self).mode == old(self).mode,
            final(self).original_insertion_mode == old(self).original_insertion_mode,
            final(self).t == old(self).t,
            old(self).stack_of_open_elements@.len() == 0 ==> *final(self) == *old(self),
            (old(self).stack_of_open_elements@.len() > 0 && stk_top_kind(*old(self)) is Text) ==> (
            text_appended(old(self).window, final(self).window, stk_top(*old(self)), c)
                && final(self).stack_of_open_elements@ == old(self).stack_of_open_elements@),
            (old(self).stack_of_open_elements@.len() > 0 && !(stk_top_kind(*old(self)) is Text) && (
            c == '\n' || c == ' ')) ==> *final(self) == *old(self),
            (old(self).stack_of_open_elements@.len() > 0 && !(stk_top_kind(*old(self)) is Text)
                && c != '\n' && c != ' ') ==> ({
                let nn = old(self).window.nodes@.len() as int;
                &&& final(self).window.nodes@.len() == nn + 1
                &&& (final(self).window.nodes@[nn].kind matches NodeKind::Text(s) && s@ =~= seq![c])
                &&& final(self).window.nodes@[nn].parent == Some(
                    old(self).stack_of_open_elements@.last(),
                )
                &&& final(self).stack_of_open_elements@ == old(
                    self,
                ).stack_of_open_elements@.push((nn as usize))
            }),
            ({
                let gr = g_insert_char(
                    nodes_view(old(self).window.nodes@),
                    old(self).stack_of_open_elements@,
                    c,
                );
                nodes_view(final(self).window.nodes@) == gr.0
                    && final(self).stack_of_open_elements@ == gr.1
            }),
    {
        let ghost n0 = nodes_view(old(self).window.nodes@);
        let ghost s0 = old(self).stack_of_open_elements@;
        let slen = self.stack_of_open_elements.len();
        if slen == 0 {
            return ;
        }
        let current = self.stack_of_open_elements[slen - 1];

        let is_text = match &self.window.node(current).kind {
            NodeKind::Text(_) => true,
            _ => false,
        };
        if is_text {
            self.window.push_text_char(current, c);
            proof {
                assert(final(self).window.nodes@ =~= old(self).window.nodes@.update(
                    current as int,
                    final(self).window.nodes@[current as int],
                ));
                let gr = g_insert_char(n0, s0, c);
                assert(n0[current as int] == node_view(old(self).window.nodes@[current as int]));
                assert forall|j: int| 0 <= j < self.window.nodes@.len() implies nodes_view(
                    self.window.nodes@,
                )[j] == gr.0[j] by {
                    assert(nodes_view(self.window.nodes@)[j] == node_view(self.window.nodes@[j]));
                    assert(n0[j] == node_view(old(self).window.nodes@[j]));
                }
                assert(nodes_view(self.window.nodes@) =~= gr.0);
            }
            return ;
        }
        proof {
            assert(n0[current as int] == node_view(old(self).window.nodes@[current as int]));
        }

        if c == '\n' || c == ' ' {
            return ;
        }

        let mut text = String::new();
        crate::strutil::push_char(&mut text, c);
        let node = self.window.create_node(NodeKind::Text(text));

        match self.window.node(current).first_child {
            Some(fc) => {
                self.window.set_next_sibling_of(fc, node);
            },
            None => {
                self.window.set_first_child_of(current, node);
            },
        }
        self.window.set_last_child_of(current, node);
        self.window.set_parent_of(node, current);
        self.stack_of_open_elements.push(node);
        proof {
            let gr = g_insert_char(n0, s0, c);
            assert forall|j: int| 0 <= j < self.window.nodes@.len() implies nodes_view(
                self.window.nodes@,
            )[j] == gr.0[j] by {
                assert(nodes_view(self.window.nodes@)[j] == node_view(self.window.nodes@[j]));
                if 0 <= j < n0.len() {
                    assert(n0[j] == node_view(old(self).window.nodes@[j]));
                }
            }
            assert(nodes_view(self.window.nodes@) =~= gr.0);
        }
    }

    /// One step of the builder: processes one token in the current mode.
    /// The pair says whether building ended, and whether the token was
    /// consumed.
    #[verifier::rlimit(100)]
    fn tree_step(&mut self, token: &HtmlToken) -> (r: (bool, bool))
        requires
            old(self).wf(),
            old(self).original_insertion_mode != InsertionMode::Text,
        ensures
            final(self).wf(),
            final(self).t == old(self).t,
            final(self).original_insertion_mode != InsertionMode::Text,
            final(self).window.nodes@.len() >= old(self).window.nodes@.len(),
            ({
                let step = spec_pt_next(build_view(*old(self)), token@);
                &&& r.0 == step.2
                &&& (step.2 ==> *final(self) == *old(self))
                &&& (!step.2 ==> r.1 == step.1 && build_view(*final(self)) == step.0)
                &&& ((!step.2 && !step.1) ==> mode_rank_v(final(self).mode, token@) < mode_rank_v(
                    old(self).mode,
                    token@,
                ))
            }),
    {
        proof {
            reveal_strlit("html");
            reveal_strlit("head");
            reveal_strlit("style");
            reveal_strlit("script");
            reveal_strlit("body");
            reveal_strlit("p");
            reveal_strlit("h1");
            reveal_strlit("h2");
            reveal_strlit("a");
            reveal_strlit("br");
            assert(("html"@).len() == 4);
            assert(("head"@).len() == 4);
            assert(("style"@).len() == 5);
            assert(("script"@).len() == 6);
            assert(("body"@).len() == 4);
            assert(("p"@).len() == 1);
            assert(("h1"@).len() == 2);
            assert(("h2"@).len() == 2);
            assert(("a"@).len() == 1);
            assert(("br"@).len() == 2);
            assert(("head"@)[1] == 'e' && ("html"@)[1] == 't');
            assert("head"@ != "html"@);
            assert(("body"@)[0] == 'b' && ("html"@)[0] == 'h' && ("head"@)[0] == 'h');
            assert("body"@ != "html"@ && "body"@ != "head"@);
            assert(("h1"@)[1] == '1' && ("h2"@)[1] == '2');
            assert("h2"@ != "h1"@);
            assert(("a"@)[0] == 'a' && ("p"@)[0] == 'p');
            assert("a"@ != "p"@);
            assert(attrs_view(Seq::<Attribute>::empty()) =~= Seq::<AttrV>::empty());
        }
        match self.mode {
            InsertionMode::Initial => {
                // DOCTYPE is not supported: leading characters are dropped.
                match token {
                    HtmlToken::Char(_) => {
                        return (false, true);
                    },
                    _ => {},
                }
                self.mode = InsertionMode::BeforeHtml;
                return (false, false);
            },
            InsertionMode::BeforeHtml => {
                match token {
                    HtmlToken::Char(c) => {
                        if *c == ' ' || *c == '\n' {
                            return (false, true);
                        }
                    },
                    HtmlToken::StartTag { tag, self_closing: _, attributes } => {
                        if str_eq(tag, "html") {
                            self.insert_element("html", clone_attrs(attributes));
                            self.mode = InsertionMode::BeforeHead;
                            return (false, true);
                        }
                    },
                    HtmlToken::EndTag { tag } => {
                        // An end tag here can never be meaningful.
                        if !str_eq(tag, "head") || !str_eq(tag, "body") || !str_eq(tag, "html")
                            || !str_eq(tag, "br") {
                            return (false, true);
                        }
                    },
                    HtmlToken::Eof => {
                        return (true, false);
                    },
                }
                self.insert_element("html", Vec::new());
                self.mode = InsertionMode::BeforeHead;
                return (false, false);
            },
            InsertionMode::BeforeHead => {
                match token {
                    HtmlToken::Char(c) => {
                        if *c == ' ' || *c == '\n' {
                            return (false, true);
                        }
                    },
                    HtmlToken::StartTag { tag, self_closing: _, attributes } => {
                        if str_eq(tag, "head") {
                            self.insert_element("head", clone_attrs(attributes));
                            self.mode = InsertionMode::InHead;
                            return (false, true);
                        }
                    },
                    HtmlToken::Eof => {
                        return (true, false);
                    },
                    _ => {},
                }
                self.insert_element("head", Vec::new());
                self.mode = InsertionMode::InHead;
                return (false, false);
            },
            InsertionMode::InHead => {
                match token {
                    HtmlToken::Char(c) => {
                        if *c == ' ' || *c == '\n' {
                            let ch = *c;
                            self.insert_char(ch);
                            return (false, true);
                        }
                    },
                    HtmlToken::StartTag { tag, self_closing: _, attributes } => {
                        if str_eq(tag, "style") {
                            self.insert_element("style", clone_attrs(attributes));
                            self.original_insertion_mode = self.mode;
                            self.mode = InsertionMode::Text;
                            return (false, true);
                        }
                        if str_eq(tag, "script") {
                            self.insert_element("script", clone_attrs(attributes));
                            self.original_insertion_mode = self.mode;
                            self.mode = InsertionMode::Text;
                            return (false, true);
                        }
                        // A head-less document: a body start tag (or any
                        // supported tag) closes the head.
                        if str_eq(tag, "body") {
                            self.pop_until(ElementKind::Head);
                            self.mode = InsertionMode::AfterHead;
                            return (false, false);
                        }
                        if ElementKind::from_str(tag.as_str()).is_ok() {
                            self.pop_until(ElementKind::Head);
                            self.mode = InsertionMode::AfterHead;
                            return (false, false);
                        }
                    },
                    HtmlToken::EndTag { tag } => {
                        if str_eq(tag, "head") {
                            self.mode = InsertionMode::AfterHead;
                            self.pop_until(ElementKind::Head);
                            return (false, true);
                        }
                    },
                    HtmlToken::Eof => {
                        return (true, false);
                    },
                }
                // Unsupported tags such as <meta> or <title> are ignored.
                return (false, true);
            },
            InsertionMode::AfterHead => {
                match token {
                    HtmlToken::Char(c) => {
                        if *c == ' ' || *c == '\n' {
                            let ch = *c;
                            self.insert_char(ch);
                            return (false, true);
                        }
                    },
                    HtmlToken::StartTag { tag, self_closing: _, attributes } => {
                        if str_eq(tag, "body") {
                            self.insert_element("body", clone_attrs(attributes));
                            self.mode = InsertionMode::InBody;
                            return (false, true);
                        }
                    },
                    HtmlToken::Eof => {
                        return (true, false);
                    },
                    _ => {},
                }
                self.insert_element("body", Vec::new());
                self.mode = InsertionMode::InBody;
                return (false, false);
            },
            InsertionMode::InBody => {
                match token {
                    HtmlToken::StartTag { tag, self_closing: _, attributes } => {
                        if str_eq(tag, "p") {
                            self.insert_element("p", clone_attrs(attributes));
                            return (false, true);
                        }
                        if str_eq(tag, "h1") {
                            self.insert_element("h1", clone_attrs(attributes));
                            return (false, true);
                        }
                        if str_eq(tag, "h2") {
                            self.insert_element("h2", clone_attrs(attributes));
                            return (false, true);
                        }
                        if str_eq(tag, "a") {
                            self.insert_element("a", clone_attrs(attributes));
                            return (false, true);
                        }
                        return (false, true);
                    },
                    HtmlToken::EndTag { tag } => {
                        if str_eq(tag, "body") {
                            self.mode = InsertionMode::AfterBody;
                            if !self.contain_in_stack(ElementKind::Body) {
                                // A parse failure: the token is ignored.
                                return (false, true);
                            }
                            self.pop_until(ElementKind::Body);
                            return (false, true);
                        }
                        if str_eq(tag, "html") {
                            if self.pop_current_node(ElementKind::Body) {
                                self.mode = InsertionMode::AfterBody;
                                let _ = self.pop_current_node(ElementKind::Html);
                                return (false, false);
                            }
                            return (false, true);
                        }
                        if str_eq(tag, "p") {
                            self.pop_until(ElementKind::P);
                            return (false, true);
                        }
                        if str_eq(tag, "h1") {
                            self.pop_until(ElementKind::H1);
                            return (false, true);
                        }
                        if str_eq(tag, "h2") {
                            self.pop_until(ElementKind::H2);
                            return (false, true);
                        }
                        if str_eq(tag, "a") {
                            self.pop_until(ElementKind::A);
                            return (false, true);
                        }
                        return (false, true);
                    },
                    HtmlToken::Eof => {
                        return (true, false);
                    },
                    HtmlToken::Char(c) => {
                        let ch = *c;
                        self.insert_char(ch);
                        return (false, true);
                    },
                }
            },
            InsertionMode::Text => {
                match token {
                    HtmlToken::Eof => {
                        return (true, false);
                    },
                    HtmlToken::EndTag { tag } => {
                        if str_eq(tag, "style") {
                            self.pop_until(ElementKind::Style);
                            self.mode = self.original_insertion_mode;
                            return (false, true);
                        }
                        if str_eq(tag, "script") {
                            self.pop_until(ElementKind::Script);
                            self.mode = self.original_insertion_mode;
                            return (false, true);
                        }
                    },
                    HtmlToken::Char(c) => {
                        let ch = *c;
                        self.insert_char(ch);
                        return (false, true);
                    },
                    _ => {},
                }
                self.mode = self.original_insertion_mode;
                return (false, false);
            },
            InsertionMode::AfterBody => {
                match token {
                    HtmlToken::Char(_) => {
                        return (false, true);
                    },
                    HtmlToken::EndTag { tag } => {
                        if str_eq(tag, "html") {
                            self.mode = InsertionMode::AfterAfterBody;
                            return (false, true);
                        }
                    },
                    HtmlToken::Eof => {
                        return (true, false);
                    },
                    _ => {},
                }
                self.mode = InsertionMode::InBody;
                return (false, false);
            },
            InsertionMode::AfterAfterBody => {
                match token {
                    HtmlToken::Char(_) => {
                        return (false, true);
                    },
                    HtmlToken::Eof => {
                        return (true, false);
                    },
                    _ => {},
                }
                // A parse failure: reprocess the token in the body.
                self.mode = InsertionMode::InBody;
                return (false, false);
            },
        }
    }

    /// Consumes every token and returns the window holding the built DOM.
    ///
    /// An empty input yields a Document with no children.  The result is
    /// exactly the fold of the builder's step function over the input's
    /// token stream.
    pub fn construct_tree(self) -> (r: Window)
        requires
            self.wf(),
            self.original_insertion_mode != InsertionMode::Text,
        ensures
            r.wf(),
            (self.t.pos >= self.t.input@.len() && self.window.nodes@.len() == 1
                && self.window.nodes@[0].first_child is None) ==> (r.nodes@.len() == 1
                && r.nodes@[0].first_child is None),
            nodes_view(r.nodes@) == spec_construct(
                build_view(self),
                crate::html::token::spec_html_tokenize(self.t@),
                0,
            ),
    {
        let ghost init = self;
        let mut this = self;
        let tokens = this.t.collect_all();
        let ghost toks = crate::html::token::spec_html_tokenize(init.t@);
        let mut idx: usize = 0;

        while idx < tokens.len()
            invariant
                init == self,
                this.wf(),
                idx <= tokens@.len(),
                this.original_insertion_mode != InsertionMode::Text,
                init.t.pos >= init.t.input@.len() ==> tokens@.len() == 0,
                (init.t.pos >= init.t.input@.len() && init.window.nodes@.len() == 1
                    && init.window.nodes@[0].first_child is None) ==> (
                this.window.nodes@.len() == 1 && this.window.nodes@[0].first_child is None),
                crate::html::token::html_tokens_view(tokens@) == toks,
                toks == crate::html::token::spec_html_tokenize(init.t@),
                spec_construct(build_view(this), toks, idx as int) == spec_construct(
                    build_view(init),
                    toks,
                    0,
                ),
            decreases tokens@.len() - idx, mode_rank_v(this.mode, toks[idx as int]),
        {
            proof {
                assert(toks.len() == tokens@.len());
                assert(toks[idx as int] == tokens@[idx as int]@);
                lemma_construct_step(build_view(this), toks, idx as int);
            }
            let token = &tokens[idx];
            let step = this.tree_step(token);
            if step.0 {
                return this.window;
            }
            if step.1 {
                idx = idx + 1;
            }
        }

        this.window
    }
}

} // verus!
