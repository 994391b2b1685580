//! The HTML tokenizer: a state machine that turns a character stream into
//! start tags, end tags, characters and an end-of-input mark.
//!
//! Reading follows a "reconsume once" discipline: the position never moves
//! backwards, but the character just read may be dispatched once more in the
//! next state.  Each call of [`HtmlTokenizer::next`] yields at most one
//! token, and strictly shrinks a lexicographic measure over the remaining
//! input, the reconsume flag, the temporary buffer and the state — which is
//! how every consumer's loop is shown to terminate.

use vstd::prelude::*;

use crate::html::attribute::AttrV;
use crate::html::attribute::Attribute;
use crate::html::attribute::attrs_eq;
use crate::html::attribute::attrs_view;
use crate::strutil::is_ascii_alpha;
use crate::strutil::lower_char;
use crate::strutil::push_char;
use crate::strutil::string_to_chars;

verus! {

/// One emission of the tokenizer.
#[derive(Debug, Clone)]
pub enum HtmlToken {
    /// A start tag with its name, self-closing flag and attributes.
    StartTag { tag: String, self_closing: bool, attributes: Vec<Attribute> },
    /// An end tag with its name.
    EndTag { tag: String },
    /// One character of text.
    Char(char),
    /// The end of the input.
    Eof,
}

impl PartialEq for HtmlToken {
    fn eq(&self, other: &Self) -> (r: bool) {
        match (self, other) {
            (
                HtmlToken::StartTag { tag: t1, self_closing: s1, attributes: a1 },
                HtmlToken::StartTag { tag: t2, self_closing: s2, attributes: a2 },
            ) => *t1 == *t2 && *s1 == *s2 && attrs_eq(a1, a2),
            (HtmlToken::EndTag { tag: t1 }, HtmlToken::EndTag { tag: t2 }) => *t1 == *t2,
            (HtmlToken::Char(c1), HtmlToken::Char(c2)) => c1 == c2,
            (HtmlToken::Eof, HtmlToken::Eof) => true,
            _ => false,
        }
    }
}

impl vstd::std_specs::cmp::PartialEqSpecImpl for HtmlToken {
    open spec fn obeys_eq_spec() -> bool {
        true
    }

    open spec fn eq_spec(&self, other: &HtmlToken) -> bool {
        match (self, other) {
            (
                HtmlToken::StartTag { tag: t1, self_closing: s1, attributes: a1 },
                HtmlToken::StartTag { tag: t2, self_closing: s2, attributes: a2 },
            ) => t1@ == t2@ && s1 == s2 && attrs_view(a1@) =~= attrs_view(a2@),
            (HtmlToken::EndTag { tag: t1 }, HtmlToken::EndTag { tag: t2 }) => t1@ == t2@,
            (HtmlToken::Char(c1), HtmlToken::Char(c2)) => c1 == c2,
            (HtmlToken::Eof, HtmlToken::Eof) => true,
            _ => false,
        }
    }
}

/// A start tag or end tag under construction with an empty name.
pub open spec fn is_fresh_tag(t: HtmlToken, start: bool) -> bool {
    if start {
        t matches HtmlToken::StartTag { tag, self_closing, attributes } && tag@
            == Seq::<char>::empty() && !self_closing && attributes@.len() == 0
    } else {
        t matches HtmlToken::EndTag { tag } && tag@ == Seq::<char>::empty()
    }
}

/// The states of the tokenizer's machine.
#[derive(Debug, Clone, PartialEq, Eq, Structural)]
pub enum State {
    Data,
    TagOpen,
    EndTagOpen,
    TagName,
    BeforeAttributeName,
    AttributeName,
    AfterAttributeName,
    BeforeAttributeValue,
    AttributeValueDoubleQuoted,
    AttributeValueSingleQuoted,
    AttributeValueUnquoted,
    AfterAttributeValueQuoted,
    SelfClosingStartTag,
    ScriptData,
    ScriptDataLessThanSign,
    ScriptDataEndTagOpen,
    ScriptDataEndTagName,
    TemporaryBuffer,
}

/// The tokenizer: the current state, the read position, the reconsume flag,
/// the token under construction, the input, and the temporary buffer used
/// by the script-data states.
#[derive(Debug, Clone)]
pub struct HtmlTokenizer {
    pub state: State,
    pub pos: usize,
    pub reconsume: bool,
    pub latest_token: Option<HtmlToken>,
    pub input: Vec<char>,
    pub buf: String,
}

/// Remaining input: the first component of the progress measure.
pub open spec fn tk_m1(t: HtmlTokenizer) -> int {
    t.input@.len() - t.pos
}

/// The reconsume flag: the second component of the progress measure.
pub open spec fn tk_m2(t: HtmlTokenizer) -> int {
    if t.reconsume {
        1int
    } else {
        0int
    }
}

/// The temporary buffer's length: the third component.
pub open spec fn tk_m3(t: HtmlTokenizer) -> int {
    t.buf@.len() as int
}

/// A rank on the states, ordered so that every dispatch that keeps the
/// reconsume flag raised moves to a strictly smaller rank.
pub open spec fn tk_m4(t: HtmlTokenizer) -> int {
    match t.state {
        State::Data => 0int,
        State::ScriptData => 0int,
        State::TemporaryBuffer => 1int,
        State::ScriptDataLessThanSign => 2int,
        State::ScriptDataEndTagName => 3int,
        State::AfterAttributeName => 3int,
        State::ScriptDataEndTagOpen => 4int,
        State::AttributeName => 4int,
        State::AttributeValueUnquoted => 4int,
        State::TagName => 5int,
        State::SelfClosingStartTag => 5int,
        State::BeforeAttributeValue => 5int,
        State::AttributeValueDoubleQuoted => 5int,
        State::AttributeValueSingleQuoted => 5int,
        State::BeforeAttributeName => 5int,
        State::TagOpen => 6int,
        State::EndTagOpen => 6int,
        State::AfterAttributeValueQuoted => 6int,
    }
}

/// Strict lexicographic order on the progress measure.
pub open spec fn tk_lt(a: HtmlTokenizer, b: HtmlTokenizer) -> bool {
    ||| tk_m1(a) < tk_m1(b)
    ||| (tk_m1(a) == tk_m1(b) && tk_m2(a) < tk_m2(b))
    ||| (tk_m1(a) == tk_m1(b) && tk_m2(a) == tk_m2(b) && tk_m3(a) < tk_m3(b))
    ||| (tk_m1(a) == tk_m1(b) && tk_m2(a) == tk_m2(b) && tk_m3(a) == tk_m3(b) && tk_m4(a) < tk_m4(
        b,
    ))
}

/// Non-strict lexicographic order on the progress measure.
pub open spec fn tk_le(a: HtmlTokenizer, b: HtmlTokenizer) -> bool {
    tk_lt(a, b) || (tk_m1(a) == tk_m1(b) && tk_m2(a) == tk_m2(b) && tk_m3(a) == tk_m3(b) && tk_m4(
        a,
    ) == tk_m4(b))
}

/// The states in which a tag token is under construction.
pub open spec fn tag_building_state(s: State) -> bool {
    matches!(
        s,
        State::TagName | State::BeforeAttributeName | State::AttributeName
            | State::AfterAttributeName | State::BeforeAttributeValue
            | State::AttributeValueDoubleQuoted | State::AttributeValueSingleQuoted
            | State::AttributeValueUnquoted | State::AfterAttributeValueQuoted
            | State::SelfClosingStartTag | State::ScriptDataEndTagName
    )
}

/// The value of one emission.
pub ghost enum HtmlTokV {
    StartTag { tag: Seq<char>, self_closing: bool, attributes: Seq<AttrV> },
    EndTag { tag: Seq<char> },
    Char(char),
    Eof,
}

impl View for HtmlToken {
    type V = HtmlTokV;

    open spec fn view(&self) -> HtmlTokV {
        match self {
            HtmlToken::StartTag { tag, self_closing, attributes } => HtmlTokV::StartTag {
                tag: tag@,
                self_closing: *self_closing,
                attributes: attrs_view(attributes@),
            },
            HtmlToken::EndTag { tag } => HtmlTokV::EndTag { tag: tag@ },
            HtmlToken::Char(c) => HtmlTokV::Char(*c),
            HtmlToken::Eof => HtmlTokV::Eof,
        }
    }
}

/// The value of the tokenizer's whole state.
pub ghost struct TkState {
    pub state: State,
    pub pos: int,
    pub reconsume: bool,
    pub latest: Option<HtmlTokV>,
    pub input: Seq<char>,
    pub buf: Seq<char>,
}

impl View for HtmlTokenizer {
    type V = TkState;

    open spec fn view(&self) -> TkState {
        TkState {
            state: self.state,
            pos: self.pos as int,
            reconsume: self.reconsume,
            latest: match self.latest_token {
                Some(t) => Some(t@),
                None => None,
            },
            input: self.input@,
            buf: self.buf@,
        }
    }
}

/// Whether `c` is an ASCII letter.
pub open spec fn spec_is_alpha(c: char) -> bool {
    ('a' <= c && c <= 'z') || ('A' <= c && c <= 'Z')
}

/// A fresh tag emission under construction.
pub open spec fn g_fresh_tag(start: bool) -> HtmlTokV {
    if start {
        HtmlTokV::StartTag { tag: Seq::empty(), self_closing: false, attributes: Seq::empty() }
    } else {
        HtmlTokV::EndTag { tag: Seq::empty() }
    }
}

/// One character appended to the tag name under construction.
pub open spec fn g_append_tag_name(latest: Option<HtmlTokV>, c: char) -> Option<HtmlTokV> {
    match latest {
        Some(HtmlTokV::StartTag { tag, self_closing, attributes }) => Some(
            HtmlTokV::StartTag { tag: tag.push(c), self_closing, attributes },
        ),
        Some(HtmlTokV::EndTag { tag }) => Some(HtmlTokV::EndTag { tag: tag.push(c) }),
        other => other,
    }
}

/// A fresh, empty attribute opened on the start tag under construction.
pub open spec fn g_start_new_attribute(latest: Option<HtmlTokV>) -> Option<HtmlTokV> {
    match latest {
        Some(HtmlTokV::StartTag { tag, self_closing, attributes }) => Some(
            HtmlTokV::StartTag { tag, self_closing, attributes: attributes.push(attr_v_empty()) },
        ),
        other => other,
    }
}

/// One character appended to the newest attribute's name or value.
pub open spec fn g_append_attribute(latest: Option<HtmlTokV>, c: char, is_name: bool) -> Option<
    HtmlTokV,
> {
    match latest {
        Some(HtmlTokV::StartTag { tag, self_closing, attributes }) => if attributes.len() > 0 {
            Some(
                HtmlTokV::StartTag {
                    tag,
                    self_closing,
                    attributes: attributes.update(
                        attributes.len() - 1,
                        attr_added(attributes.last(), c, is_name),
                    ),
                },
            )
        } else {
            Some(HtmlTokV::StartTag { tag, self_closing, attributes })
        },
        other => other,
    }
}

/// The start tag under construction marked self-closing.
pub open spec fn g_set_self_closing(latest: Option<HtmlTokV>) -> Option<HtmlTokV> {
    match latest {
        Some(HtmlTokV::StartTag { tag, self_closing, attributes }) => Some(
            HtmlTokV::StartTag { tag, self_closing: true, attributes },
        ),
        other => other,
    }
}

/// A freshly created tag's value is the fresh-tag value.
pub proof fn lemma_fresh_tag_view(latest: Option<HtmlToken>, start: bool)
    requires
        latest matches Some(t) && is_fresh_tag(t, start),
    ensures
        (match latest {
            Some(t) => Some(t@),
            None => None,
        }) == Some(g_fresh_tag(start)),
{
    match latest {
        Some(t) => {
            match t {
                HtmlToken::StartTag { tag, self_closing, attributes } => {
                    assert(attrs_view(attributes@) =~= Seq::<AttrV>::empty());
                },
                _ => {},
            }
        },
        None => {},
    }
}

/// Well-formedness of a state value, mirroring [`HtmlTokenizer::wf`].
pub open spec fn g_wf(st: TkState) -> bool {
    &&& 0 <= st.pos <= st.input.len()
    &&& (st.reconsume ==> 1 <= st.pos)
    &&& (tag_building_state(st.state) ==> st.latest is Some)
    &&& ((st.reconsume && st.state == State::AfterAttributeName) ==> (st.input[st.pos - 1] == ' '
        || st.input[st.pos - 1] == '/' || st.input[st.pos - 1] == '>'))
}

/// The lower-case form of `c`, as the tokenizer folds tag names.
pub open spec fn g_lower(c: char) -> char {
    crate::strutil::spec_lower_char(c)
}

/// One run of the tokenizer's loop: reads a character (or re-reads the
/// pending one), dispatches it in the current state, and either loops or
/// emits.  Yields the successor state and the emission.
pub open spec fn spec_tk_next(st: TkState) -> (TkState, Option<HtmlTokV>)
    decreases
            st.input.len() - st.pos,
            (if st.reconsume {
                1int
            } else {
                0int
            }),
            st.buf.len(),
            (match st.state {
                State::Data => 0int,
                State::ScriptData => 0int,
                State::TemporaryBuffer => 1int,
                State::ScriptDataLessThanSign => 2int,
                State::ScriptDataEndTagName => 3int,
                State::AfterAttributeName => 3int,
                State::ScriptDataEndTagOpen => 4int,
                State::AttributeName => 4int,
                State::AttributeValueUnquoted => 4int,
                State::TagName => 5int,
                State::SelfClosingStartTag => 5int,
                State::BeforeAttributeValue => 5int,
                State::AttributeValueDoubleQuoted => 5int,
                State::AttributeValueSingleQuoted => 5int,
                State::BeforeAttributeName => 5int,
                State::TagOpen => 6int,
                State::EndTagOpen => 6int,
                State::AfterAttributeValueQuoted => 6int,
            }),
    when g_wf(st)
{
    let read_consumes = !st.reconsume;
    if read_consumes && st.pos >= st.input.len() {
        (st, Some(HtmlTokV::Eof))
    } else {
        let c = if st.reconsume {
            st.input[st.pos - 1]
        } else {
            st.input[st.pos]
        };
        let s1 = TkState {
            reconsume: false,
            pos: if read_consumes {
                st.pos + 1
            } else {
                st.pos
            },
            ..st
        };
        match s1.state {
            State::Data => {
                if c == '<' {
                    spec_tk_next(TkState { state: State::TagOpen, ..s1 })
                } else {
                    (s1, Some(HtmlTokV::Char(c)))
                }
            },
            State::TagOpen => {
                if c == '/' {
                    spec_tk_next(TkState { state: State::EndTagOpen, ..s1 })
                } else if spec_is_alpha(c) {
                    spec_tk_next(
                        TkState {
                            reconsume: true,
                            state: State::TagName,
                            latest: Some(g_fresh_tag(true)),
                            ..s1
                        },
                    )
                } else {
                    spec_tk_next(TkState { reconsume: true, state: State::Data, ..s1 })
                }
            },
            State::EndTagOpen => {
                if spec_is_alpha(c) {
                    spec_tk_next(
                        TkState {
                            reconsume: true,
                            state: State::TagName,
                            latest: Some(g_fresh_tag(false)),
                            ..s1
                        },
                    )
                } else {
                    spec_tk_next(s1)
                }
            },
            State::TagName => {
                if c == ' ' {
                    spec_tk_next(TkState { state: State::BeforeAttributeName, ..s1 })
                } else if c == '/' {
                    spec_tk_next(TkState { state: State::SelfClosingStartTag, ..s1 })
                } else if c == '>' {
                    (TkState { state: State::Data, latest: None, ..s1 }, s1.latest)
                } else if 'A' <= c && c <= 'Z' {
                    spec_tk_next(
                        TkState { latest: g_append_tag_name(s1.latest, g_lower(c)), ..s1 },
                    )
                } else {
                    spec_tk_next(TkState { latest: g_append_tag_name(s1.latest, c), ..s1 })
                }
            },
            State::BeforeAttributeName => {
                if c == '/' || c == '>' {
                    spec_tk_next(
                        TkState { reconsume: true, state: State::AfterAttributeName, ..s1 },
                    )
                } else {
                    spec_tk_next(
                        TkState {
                            reconsume: true,
                            state: State::AttributeName,
                            latest: g_start_new_attribute(s1.latest),
                            ..s1
                        },
                    )
                }
            },
            State::AttributeName => {
                if c == ' ' || c == '/' || c == '>' {
                    spec_tk_next(
                        TkState { reconsume: true, state: State::AfterAttributeName, ..s1 },
                    )
                } else if c == '=' {
                    spec_tk_next(TkState { state: State::BeforeAttributeValue, ..s1 })
                } else if 'A' <= c && c <= 'Z' {
                    spec_tk_next(
                        TkState { latest: g_append_attribute(s1.latest, g_lower(c), true), ..s1 },
                    )
                } else {
                    spec_tk_next(TkState { latest: g_append_attribute(s1.latest, c, true), ..s1 })
                }
            },
            State::AfterAttributeName => {
                if c == ' ' {
                    spec_tk_next(s1)
                } else if c == '/' {
                    spec_tk_next(TkState { state: State::SelfClosingStartTag, ..s1 })
                } else if c == '=' {
                    spec_tk_next(TkState { state: State::BeforeAttributeValue, ..s1 })
                } else if c == '>' {
                    (TkState { state: State::Data, latest: None, ..s1 }, s1.latest)
                } else {
                    spec_tk_next(
                        TkState {
                            reconsume: true,
                            state: State::AttributeName,
                            latest: g_start_new_attribute(s1.latest),
                            ..s1
                        },
                    )
                }
            },
            State::BeforeAttributeValue => {
                if c == ' ' {
                    spec_tk_next(s1)
                } else if c == '"' {
                    spec_tk_next(TkState { state: State::AttributeValueDoubleQuoted, ..s1 })
                } else if c == '\'' {
                    spec_tk_next(TkState { state: State::AttributeValueSingleQuoted, ..s1 })
                } else {
                    spec_tk_next(
                        TkState { reconsume: true, state: State::AttributeValueUnquoted, ..s1 },
                    )
                }
            },
            State::AttributeValueDoubleQuoted => {
                if c == '"' {
                    spec_tk_next(TkState { state: State::AfterAttributeValueQuoted, ..s1 })
                } else {
                    spec_tk_next(TkState { latest: g_append_attribute(s1.latest, c, false), ..s1 })
                }
            },
            State::AttributeValueSingleQuoted => {
                if c == '\'' {
                    spec_tk_next(TkState { state: State::AfterAttributeValueQuoted, ..s1 })
                } else {
                    spec_tk_next(TkState { latest: g_append_attribute(s1.latest, c, false), ..s1 })
                }
            },
            State::AttributeValueUnquoted => {
                if c == ' ' {
                    spec_tk_next(TkState { state: State::BeforeAttributeName, ..s1 })
                } else if c == '>' {
                    (TkState { state: State::Data, latest: None, ..s1 }, s1.latest)
                } else {
                    spec_tk_next(TkState { latest: g_append_attribute(s1.latest, c, false), ..s1 })
                }
            },
            State::AfterAttributeValueQuoted => {
                if c == ' ' {
                    spec_tk_next(TkState { state: State::BeforeAttributeName, ..s1 })
                } else if c == '/' {
                    spec_tk_next(TkState { state: State::SelfClosingStartTag, ..s1 })
                } else if c == '>' {
                    (TkState { state: State::Data, latest: None, ..s1 }, s1.latest)
                } else {
                    spec_tk_next(
                        TkState { reconsume: true, state: State::BeforeAttributeName, ..s1 },
                    )
                }
            },
            State::SelfClosingStartTag => {
                if c == '>' {
                    (
                        TkState {
                            state: State::Data,
                            latest: None,
                            ..(TkState { latest: g_set_self_closing(s1.latest), ..s1 })
                        },
                        g_set_self_closing(s1.latest),
                    )
                } else {
                    spec_tk_next(s1)
                }
            },
            State::ScriptData => {
                if c == '<' {
                    spec_tk_next(TkState { state: State::ScriptDataLessThanSign, ..s1 })
                } else {
                    (s1, Some(HtmlTokV::Char(c)))
                }
            },
            State::ScriptDataLessThanSign => {
                if c == '/' {
                    spec_tk_next(
                        TkState { buf: Seq::empty(), state: State::ScriptDataEndTagOpen, ..s1 },
                    )
                } else {
                    (
                        TkState { reconsume: true, state: State::ScriptData, ..s1 },
                        Some(HtmlTokV::Char('<')),
                    )
                }
            },
            State::ScriptDataEndTagOpen => {
                if spec_is_alpha(c) {
                    spec_tk_next(
                        TkState {
                            reconsume: true,
                            state: State::ScriptDataEndTagName,
                            latest: Some(g_fresh_tag(false)),
                            ..s1
                        },
                    )
                } else {
                    (
                        TkState { reconsume: true, state: State::ScriptData, ..s1 },
                        Some(HtmlTokV::Char('<')),
                    )
                }
            },
            State::ScriptDataEndTagName => {
                if c == '>' {
                    (TkState { state: State::Data, latest: None, ..s1 }, s1.latest)
                } else if spec_is_alpha(c) {
                    spec_tk_next(
                        TkState {
                            buf: s1.buf.push(c),
                            latest: g_append_tag_name(s1.latest, g_lower(c)),
                            ..s1
                        },
                    )
                } else {
                    spec_tk_next(
                        TkState {
                            state: State::TemporaryBuffer,
                            buf: seq!['<', '/'] + s1.buf + seq![c],
                            ..s1
                        },
                    )
                }
            },
            State::TemporaryBuffer => {
                if s1.buf.len() == 0 {
                    spec_tk_next(TkState { reconsume: true, state: State::ScriptData, ..s1 })
                } else {
                    (
                        TkState { reconsume: true, buf: s1.buf.skip(1), ..s1 },
                        Some(HtmlTokV::Char(s1.buf[0])),
                    )
                }
            },
        }
    }
}

/// The values of a vector of emissions.
pub open spec fn html_tokens_view(s: Seq<HtmlToken>) -> Seq<HtmlTokV> {
    s.map_values(|t: HtmlToken| t@)
}

/// One transition keeps the input, preserves well-formedness, and — when
/// it emits — strictly shrinks the progress measure.
#[verifier::rlimit(100)]
pub proof fn lemma_tk_next_ok(st: TkState)
    requires
        g_wf(st),
    ensures
        ({
            let (st2, t) = spec_tk_next(st);
            &&& g_wf(st2)
            &&& st2.input == st.input
            &&& g_le(st2, st)
            &&& ((t is Some && (st.pos < st.input.len() || st.reconsume)) ==> g_lt(st2, st))
            &&& ((st.pos >= st.input.len() && !st.reconsume) ==> st2 == st)
        }),
    decreases
            st.input.len() - st.pos,
            (if st.reconsume {
                1int
            } else {
                0int
            }),
            st.buf.len(),
            (match st.state {
                State::Data => 0int,
                State::ScriptData => 0int,
                State::TemporaryBuffer => 1int,
                State::ScriptDataLessThanSign => 2int,
                State::ScriptDataEndTagName => 3int,
                State::AfterAttributeName => 3int,
                State::ScriptDataEndTagOpen => 4int,
                State::AttributeName => 4int,
                State::AttributeValueUnquoted => 4int,
                State::TagName => 5int,
                State::SelfClosingStartTag => 5int,
                State::BeforeAttributeValue => 5int,
                State::AttributeValueDoubleQuoted => 5int,
                State::AttributeValueSingleQuoted => 5int,
                State::BeforeAttributeName => 5int,
                State::TagOpen => 6int,
                State::EndTagOpen => 6int,
                State::AfterAttributeValueQuoted => 6int,
            }),
{
    let read_consumes = !st.reconsume;
    if read_consumes && st.pos >= st.input.len() {
    } else {
        let c = if st.reconsume {
            st.input[st.pos - 1]
        } else {
            st.input[st.pos]
        };
        let s1 = TkState {
            reconsume: false,
            pos: if read_consumes {
                st.pos + 1
            } else {
                st.pos
            },
            ..st
        };
        match s1.state {
            State::Data => {
                if c == '<' {
                    lemma_tk_next_ok(TkState { state: State::TagOpen, ..s1 });
                }
            },
            State::TagOpen => {
                if c == '/' {
                    lemma_tk_next_ok(TkState { state: State::EndTagOpen, ..s1 });
                } else if spec_is_alpha(c) {
                    lemma_tk_next_ok(
                        TkState {
                            reconsume: true,
                            state: State::TagName,
                            latest: Some(g_fresh_tag(true)),
                            ..s1
                        },
                    );
                } else {
                    lemma_tk_next_ok(TkState { reconsume: true, state: State::Data, ..s1 });
                }
            },
            State::EndTagOpen => {
                if spec_is_alpha(c) {
                    lemma_tk_next_ok(
                        TkState {
                            reconsume: true,
                            state: State::TagName,
                            latest: Some(g_fresh_tag(false)),
                            ..s1
                        },
                    );
                } else {
                    lemma_tk_next_ok(s1);
                }
            },
            State::TagName => {
                if c == ' ' {
                    lemma_tk_next_ok(TkState { state: State::BeforeAttributeName, ..s1 });
                } else if c == '/' {
                    lemma_tk_next_ok(TkState { state: State::SelfClosingStartTag, ..s1 });
                } else if c == '>' {
                } else if 'A' <= c && c <= 'Z' {
                    lemma_tk_next_ok(
                        TkState { latest: g_append_tag_name(s1.latest, g_lower(c)), ..s1 },
                    );
                } else {
                    lemma_tk_next_ok(TkState { latest: g_append_tag_name(s1.latest, c), ..s1 });
                }
            },
            State::BeforeAttributeName => {
                if c == '/' || c == '>' {
                    lemma_tk_next_ok(
                        TkState { reconsume: true, state: State::AfterAttributeName, ..s1 },
                    );
                } else {
                    lemma_tk_next_ok(
                        TkState {
                            reconsume: true,
                            state: State::AttributeName,
                            latest: g_start_new_attribute(s1.latest),
                            ..s1
                        },
                    );
                }
            },
            State::AttributeName => {
                if c == ' ' || c == '/' || c == '>' {
                    lemma_tk_next_ok(
                        TkState { reconsume: true, state: State::AfterAttributeName, ..s1 },
                    );
                } else if c == '=' {
                    lemma_tk_next_ok(TkState { state: State::BeforeAttributeValue, ..s1 });
                } else if 'A' <= c && c <= 'Z' {
                    lemma_tk_next_ok(
                        TkState { latest: g_append_attribute(s1.latest, g_lower(c), true), ..s1 },
                    );
                } else {
                    lemma_tk_next_ok(
                        TkState { latest: g_append_attribute(s1.latest, c, true), ..s1 },
                    );
                }
            },
            State::AfterAttributeName => {
                if c == ' ' {
                    lemma_tk_next_ok(s1);
                } else if c == '/' {
                    lemma_tk_next_ok(TkState { state: State::SelfClosingStartTag, ..s1 });
                } else if c == '=' {
                    lemma_tk_next_ok(TkState { state: State::BeforeAttributeValue, ..s1 });
                } else if c == '>' {
                } else {
                    lemma_tk_next_ok(
                        TkState {
                            reconsume: true,
                            state: State::AttributeName,
                            latest: g_start_new_attribute(s1.latest),
                            ..s1
                        },
                    );
                }
            },
            State::BeforeAttributeValue => {
                if c == ' ' {
                    lemma_tk_next_ok(s1);
                } else if c == '"' {
                    lemma_tk_next_ok(TkState { state: State::AttributeValueDoubleQuoted, ..s1 });
                } else if c == '\'' {
                    lemma_tk_next_ok(TkState { state: State::AttributeValueSingleQuoted, ..s1 });
                } else {
                    lemma_tk_next_ok(
                        TkState { reconsume: true, state: State::AttributeValueUnquoted, ..s1 },
                    );
                }
            },
            State::AttributeValueDoubleQuoted => {
                if c == '"' {
                    lemma_tk_next_ok(TkState { state: State::AfterAttributeValueQuoted, ..s1 });
                } else {
                    lemma_tk_next_ok(
                        TkState { latest: g_append_attribute(s1.latest, c, false), ..s1 },
                    );
                }
            },
            State::AttributeValueSingleQuoted => {
                if c == '\'' {
                    lemma_tk_next_ok(TkState { state: State::AfterAttributeValueQuoted, ..s1 });
                } else {
                    lemma_tk_next_ok(
                        TkState { latest: g_append_attribute(s1.latest, c, false), ..s1 },
                    );
                }
            },
            State::AttributeValueUnquoted => {
                if c == ' ' {
                    lemma_tk_next_ok(TkState { state: State::BeforeAttributeName, ..s1 });
                } else if c == '>' {
                } else {
                    lemma_tk_next_ok(
                        TkState { latest: g_append_attribute(s1.latest, c, false), ..s1 },
                    );
                }
            },
            State::AfterAttributeValueQuoted => {
                if c == ' ' {
                    lemma_tk_next_ok(TkState { state: State::BeforeAttributeName, ..s1 });
                } else if c == '/' {
                    lemma_tk_next_ok(TkState { state: State::SelfClosingStartTag, ..s1 });
                } else if c == '>' {
                } else {
                    lemma_tk_next_ok(
                        TkState { reconsume: true, state: State::BeforeAttributeName, ..s1 },
                    );
                }
            },
            State::SelfClosingStartTag => {
                if c == '>' {
                } else {
                    lemma_tk_next_ok(s1);
                }
            },
            State::ScriptData => {
                if c == '<' {
                    lemma_tk_next_ok(TkState { state: State::ScriptDataLessThanSign, ..s1 });
                }
            },
            State::ScriptDataLessThanSign => {
                if c == '/' {
                    lemma_tk_next_ok(
                        TkState { buf: Seq::empty(), state: State::ScriptDataEndTagOpen, ..s1 },
                    );
                }
            },
            State::ScriptDataEndTagOpen => {
                if spec_is_alpha(c) {
                    lemma_tk_next_ok(
                        TkState {
                            reconsume: true,
                            state: State::ScriptDataEndTagName,
                            latest: Some(g_fresh_tag(false)),
                            ..s1
                        },
                    );
                }
            },
            State::ScriptDataEndTagName => {
                if c == '>' {
                } else if spec_is_alpha(c) {
                    lemma_tk_next_ok(
                        TkState {
                            buf: s1.buf.push(c),
                            latest: g_append_tag_name(s1.latest, g_lower(c)),
                            ..s1
                        },
                    );
                } else {
                    lemma_tk_next_ok(
                        TkState {
                            state: State::TemporaryBuffer,
                            buf: seq!['<', '/'] + s1.buf + seq![c],
                            ..s1
                        },
                    );
                }
            },
            State::TemporaryBuffer => {
                if s1.buf.len() == 0 {
                    lemma_tk_next_ok(TkState { reconsume: true, state: State::ScriptData, ..s1 });
                }
            },
        }
    }
}

/// The strict progress order on state values, mirroring [`tk_lt`].
pub open spec fn g_lt(a: TkState, b: TkState) -> bool {
    ||| a.input.len() - a.pos < b.input.len() - b.pos
    ||| (a.input.len() - a.pos == b.input.len() - b.pos && g_m2(a) < g_m2(b))
    ||| (a.input.len() - a.pos == b.input.len() - b.pos && g_m2(a) == g_m2(b) && a.buf.len()
        < b.buf.len())
    ||| (a.input.len() - a.pos == b.input.len() - b.pos && g_m2(a) == g_m2(b) && a.buf.len()
        == b.buf.len() && g_m4(a) < g_m4(b))
}

/// Non-strict progress order on state values.
pub open spec fn g_le(a: TkState, b: TkState) -> bool {
    g_lt(a, b) || (a.input.len() - a.pos == b.input.len() - b.pos && g_m2(a) == g_m2(b)
        && a.buf.len() == b.buf.len() && g_m4(a) == g_m4(b))
}

/// The reconsume component of the state-value measure.
pub open spec fn g_m2(a: TkState) -> int {
    if a.reconsume {
        1int
    } else {
        0int
    }
}

/// The state-rank component of the state-value measure.
pub open spec fn g_m4(a: TkState) -> int {
    match a.state {
        State::Data => 0int,
        State::ScriptData => 0int,
        State::TemporaryBuffer => 1int,
        State::ScriptDataLessThanSign => 2int,
        State::ScriptDataEndTagName => 3int,
        State::AfterAttributeName => 3int,
        State::ScriptDataEndTagOpen => 4int,
        State::AttributeName => 4int,
        State::AttributeValueUnquoted => 4int,
        State::TagName => 5int,
        State::SelfClosingStartTag => 5int,
        State::BeforeAttributeValue => 5int,
        State::AttributeValueDoubleQuoted => 5int,
        State::AttributeValueSingleQuoted => 5int,
        State::BeforeAttributeName => 5int,
        State::TagOpen => 6int,
        State::EndTagOpen => 6int,
        State::AfterAttributeValueQuoted => 6int,
    }
}

/// The whole emission sequence from a state: every token the transition
/// yields, in order, up to the end of the input.
pub open spec fn spec_html_tokenize(st: TkState) -> Seq<HtmlTokV>
    decreases st.input.len() - st.pos, g_m2(st), st.buf.len(), g_m4(st),
    when g_wf(st)
    via spec_html_tokenize_decreases
{
    if st.pos >= st.input.len() {
        Seq::empty()
    } else {
        let (st2, t) = spec_tk_next(st);
        match t {
            None => Seq::empty(),
            Some(tv) => seq![tv] + spec_html_tokenize(st2),
        }
    }
}

/// The emission sequence terminates: every token shrinks the measure.
#[via_fn]
proof fn spec_html_tokenize_decreases(st: TkState) {
    if st.pos < st.input.len() {
        lemma_tk_next_ok(st);
    }
}

impl HtmlTokenizer {
    /// Well-formedness: the position stays in bounds, a pending reconsume
    /// implies a character has been read, a tag-building state holds a tag
    /// under construction, and a reconsume into the after-attribute-name
    /// state can only carry one of the characters that lead there.
    pub open spec fn wf(&self) -> bool {
        &&& self.pos <= self.input@.len()
        &&& (self.reconsume ==> 1 <= self.pos)
        &&& (tag_building_state(self.state) ==> self.latest_token is Some)
        &&& ((self.reconsume && self.state == State::AfterAttributeName) ==> (
            self.input@[self.pos - 1] == ' ' || self.input@[self.pos - 1] == '/'
                || self.input@[self.pos - 1] == '>'))
    }

    /// A tokenizer over the characters of `html`, starting in the Data state.
    pub fn new(html: String) -> (r: Self)
        ensures
            r.wf(),
            r.input@ == html@,
            r.state == State::Data,
            r.pos == 0,
            !r.reconsume,
            r.latest_token is None,
            r.buf@ == Seq::<char>::empty(),
    {
        Self {
            state: State::Data,
            pos: 0,
            reconsume: false,
            latest_token: None,
            input: string_to_chars(html.as_str()),
            buf: String::new(),
        }
    }

    /// Starts a fresh start tag (`start_tag_token`) or end tag.
    fn create_tag(&mut self, start_tag_token: bool)
        ensures
            final(self).latest_token matches Some(t) && is_fresh_tag(t, start_tag_token),
            final(self).state == old(self).state,
            final(self).pos == old(self).pos,
            final(self).reconsume == old(self).reconsume,
            final(self).input == old(self).input,
            final(self).buf == old(self).buf,
    {
        if start_tag_token {
            self.latest_token = Some(
                HtmlToken::StartTag {
                    tag: String::new(),
                    self_closing: false,
                    attributes: Vec::new(),
                },
            );
        } else {
            self.latest_token = Some(HtmlToken::EndTag { tag: String::new() });
        }
    }

    /// Appends one character to the name of the tag under construction.
    /// A missing or non-tag token is left unchanged.
    fn append_tag_name(&mut self, c: char)
        ensures
            *final(self) == (HtmlTokenizer { latest_token: final(self).latest_token, ..*old(self) }),
            match old(self).latest_token {
                Some(HtmlToken::StartTag { tag, self_closing, attributes }) => (final(self).latest_token
                    matches Some(HtmlToken::StartTag { tag: t2, self_closing: s2, attributes: a2 })
                    && t2@ == tag@.push(c) && s2 == self_closing && a2 == attributes),
                Some(HtmlToken::EndTag { tag }) => (final(self).latest_token matches Some(
                    HtmlToken::EndTag { tag: t2 }) && t2@ == tag@.push(c)),
                _ => final(self).latest_token == old(self).latest_token,
            },
    {
        let t = self.latest_token.take();
        match t {
            Some(HtmlToken::StartTag { mut tag, self_closing, attributes }) => {
                push_char(&mut tag, c);
                self.latest_token = Some(HtmlToken::StartTag { tag, self_closing, attributes });
            },
            Some(HtmlToken::EndTag { mut tag }) => {
                push_char(&mut tag, c);
                self.latest_token = Some(HtmlToken::EndTag { tag });
            },
            other => {
                self.latest_token = other;
            },
        }
    }

    /// Hands out the token under construction and clears it.
    fn take_latest_token(&mut self) -> (r: Option<HtmlToken>)
        ensures
            r == old(self).latest_token,
            *final(self) == (HtmlTokenizer { latest_token: None, ..*old(self) }),
    {
        self.latest_token.take()
    }

    /// Opens a new, empty attribute on the start tag under construction.
    /// Anything else is left unchanged.
    fn start_new_attribute(&mut self)
        ensures
            *final(self) == (HtmlTokenizer { latest_token: final(self).latest_token, ..*old(self) }),
            match old(self).latest_token {
                Some(HtmlToken::StartTag { tag, self_closing, attributes }) => (final(self).latest_token
                    matches Some(HtmlToken::StartTag { tag: t2, self_closing: s2, attributes: a2 })
                    && t2@ == tag@ && s2 == self_closing
                    && attrs_view(a2@) =~= attrs_view(attributes@).push(attr_v_empty())),
                _ => final(self).latest_token == old(self).latest_token,
            },
    {
        let t = self.latest_token.take();
        match t {
            Some(HtmlToken::StartTag { tag, self_closing, mut attributes }) => {
                attributes.push(Attribute::new());
                self.latest_token = Some(HtmlToken::StartTag { tag, self_closing, attributes });
            },
            other => {
                self.latest_token = other;
            },
        }
    }

    /// Appends one character to the newest attribute's name (`is_name`)
    /// or value.  Without a start tag or an open attribute, no change.
    fn append_attribute(&mut self, c: char, is_name: bool)
        ensures
            *final(self) == (HtmlTokenizer { latest_token: final(self).latest_token, ..*old(self) }),
            (old(self).latest_token is Some) == (final(self).latest_token is Some),
            match old(self).latest_token {
                Some(HtmlToken::StartTag { tag, self_closing, attributes }) => (attributes@.len()
                    > 0 ==> (final(self).latest_token
                    matches Some(HtmlToken::StartTag { tag: t2, self_closing: s2, attributes: a2 })
                    && t2@ == tag@ && s2 == self_closing
                    && attrs_view(a2@) =~= attrs_view(attributes@).update(
                        attributes@.len() - 1,
                        attr_added(attrs_view(attributes@).last(), c, is_name)))) && (
                attributes@.len() == 0 ==> (final(self).latest_token
                    matches Some(HtmlToken::StartTag { tag: t2, self_closing: s2, attributes: a2 })
                    && t2@ == tag@ && s2 == self_closing && attrs_view(a2@) =~= attrs_view(
                    attributes@,
                ))),
                _ => final(self).latest_token == old(self).latest_token,
            },
    {
        let t = self.latest_token.take();
        match t {
            Some(HtmlToken::StartTag { tag, self_closing, mut attributes }) => {
                let len = attributes.len();
                if len > 0 {
                    let mut a = attributes.remove(len - 1);
                    a.add_char(c, is_name);
                    attributes.push(a);
                    proof {
                        assert(attrs_view(attributes@) =~= attrs_view(
                            old(self).latest_token->Some_0->StartTag_attributes@,
                        ).update(
                            attrs_view(
                                old(self).latest_token->Some_0->StartTag_attributes@,
                            ).len() - 1,
                            attr_added(
                                attrs_view(
                                    old(self).latest_token->Some_0->StartTag_attributes@,
                                ).last(),
                                c,
                                is_name,
                            ),
                        ));
                    }
                }
                self.latest_token = Some(HtmlToken::StartTag { tag, self_closing, attributes });
            },
            other => {
                self.latest_token = other;
            },
        }
    }

    /// Marks the start tag under construction as self-closing.
    fn set_self_closing_flag(&mut self)
        ensures
            *final(self) == (HtmlTokenizer { latest_token: final(self).latest_token, ..*old(self) }),
            match old(self).latest_token {
                Some(HtmlToken::StartTag { tag, self_closing, attributes }) => (final(self).latest_token
                    matches Some(HtmlToken::StartTag { tag: t2, self_closing: s2, attributes: a2 })
                    && t2@ == tag@ && s2 && a2 == attributes),
                _ => final(self).latest_token == old(self).latest_token,
            },
    {
        let t = self.latest_token.take();
        match t {
            Some(HtmlToken::StartTag { tag, self_closing: _, attributes }) => {
                self.latest_token = Some(
                    HtmlToken::StartTag { tag, self_closing: true, attributes },
                );
            },
            other => {
                self.latest_token = other;
            },
        }
    }

    /// Produces the next token, or nothing once the input is exhausted.
    ///
    /// Progress: whenever a token comes back, the lexicographic measure
    /// over (remaining input, reconsume flag, buffer, state rank) has
    /// strictly shrunk, so a loop that drains the tokenizer terminates.
    #[verifier::rlimit(100)]
    pub fn next(&mut self) -> (r: Option<HtmlToken>)
        requires
            old(self).wf(),
        ensures
            final(self).wf(),
            final(self).input@ == old(self).input@,
            (r is None) == (old(self).pos >= old(self).input@.len()),
            r is None ==> *final(self) == *old(self),
            r is Some ==> tk_lt(*final(self), *old(self)),
            old(self).pos < old(self).input@.len() ==> (final(self)@ == spec_tk_next(old(self)@).0
                && (match (r, spec_tk_next(old(self)@).1) {
                (Some(tok), Some(v)) => tok@ == v,
                (None, None) => true,
                _ => false,
            })),
    {
        if self.pos >= self.input.len() {
            return None;
        }
        loop
            invariant
                self.wf(),
                self.input@ == old(self).input@,
                tk_le(*self, *old(self)),
                old(self).pos < old(self).input@.len(),
                spec_tk_next(old(self)@) == spec_tk_next(self@),
            decreases tk_m1(*self), tk_m2(*self), tk_m3(*self), tk_m4(*self),
        {
            let c: char;
            if self.reconsume {
                self.reconsume = false;
                c = self.input[self.pos - 1];
            } else {
                if self.pos >= self.input.len() {
                    return Some(HtmlToken::Eof);
                }
                c = self.input[self.pos];
                self.pos = self.pos + 1;
            }

            match self.state {
                State::Data => {
                    if c == '<' {
                        self.state = State::TagOpen;
                        continue ;
                    }
                    return Some(HtmlToken::Char(c));
                },
                State::TagOpen => {
                    if c == '/' {
                        self.state = State::EndTagOpen;
                        continue ;
                    }
                    if is_ascii_alpha(c) {
                        self.reconsume = true;
                        self.state = State::TagName;
                        self.create_tag(true);
                        proof {
                            lemma_fresh_tag_view(self.latest_token, true);
                        }
                        continue ;
                    }
                    self.reconsume = true;
                    self.state = State::Data;
                },
                State::EndTagOpen => {
                    if is_ascii_alpha(c) {
                        self.reconsume = true;
                        self.state = State::TagName;
                        self.create_tag(false);
                        proof {
                            lemma_fresh_tag_view(self.latest_token, false);
                        }
                        continue ;
                    }
                },
                State::TagName => {
                    if c == ' ' {
                        self.state = State::BeforeAttributeName;
                        continue ;
                    }
                    if c == '/' {
                        self.state = State::SelfClosingStartTag;
                        continue ;
                    }
                    if c == '>' {
                        self.state = State::Data;
                        return self.take_latest_token();
                    }
                    if 'A' <= c && c <= 'Z' {
                        self.append_tag_name(lower_char(c));
                        continue ;
                    }
                    self.append_tag_name(c);
                },
                State::BeforeAttributeName => {
                    if c == '/' || c == '>' {
                        self.reconsume = true;
                        self.state = State::AfterAttributeName;
                        continue ;
                    }
                    self.reconsume = true;
                    self.state = State::AttributeName;
                    self.start_new_attribute();
                },
                State::AttributeName => {
                    if c == ' ' || c == '/' || c == '>' {
                        self.reconsume = true;
                        self.state = State::AfterAttributeName;
                        continue ;
                    }
                    if c == '=' {
                        self.state = State::BeforeAttributeValue;
                        continue ;
                    }
                    if 'A' <= c && c <= 'Z' {
                        self.append_attribute(lower_char(c), true);
                        continue ;
                    }
                    self.append_attribute(c, true);
                },
                State::AfterAttributeName => {
                    if c == ' ' {
                        continue ;
                    }
                    if c == '/' {
                        self.state = State::SelfClosingStartTag;
                        continue ;
                    }
                    if c == '=' {
                        self.state = State::BeforeAttributeValue;
                        continue ;
                    }
                    if c == '>' {
                        self.state = State::Data;
                        return self.take_latest_token();
                    }
                    self.reconsume = true;
                    self.state = State::AttributeName;
                    self.start_new_attribute();
                },
                State::BeforeAttributeValue => {
                    if c == ' ' {
                        continue ;
                    }
                    if c == '"' {
                        self.state = State::AttributeValueDoubleQuoted;
                        continue ;
                    }
                    if c == '\'' {
                        self.state = State::AttributeValueSingleQuoted;
                        continue ;
                    }
                    self.reconsume = true;
                    self.state = State::AttributeValueUnquoted;
                },
                State::AttributeValueDoubleQuoted => {
                    if c == '"' {
                        self.state = State::AfterAttributeValueQuoted;
                        continue ;
                    }
                    self.append_attribute(c, false);
                },
                State::AttributeValueSingleQuoted => {
                    if c == '\'' {
                        self.state = State::AfterAttributeValueQuoted;
                        continue ;
                    }
                    self.append_attribute(c, false);
                },
                State::AttributeValueUnquoted => {
                    if c == ' ' {
                        self.state = State::BeforeAttributeName;
                        continue ;
                    }
                    if c == '>' {
                        self.state = State::Data;
                        return self.take_latest_token();
                    }
                    self.append_attribute(c, false);
                },
                State::AfterAttributeValueQuoted => {
                    if c == ' ' {
                        self.state = State::BeforeAttributeName;
                        continue ;
                    }
                    if c == '/' {
                        self.state = State::SelfClosingStartTag;
                        continue ;
                    }
                    if c == '>' {
                        self.state = State::Data;
                        return self.take_latest_token();
                    }
                    self.reconsume = true;
                    self.state = State::BeforeAttributeName;
                },
                State::SelfClosingStartTag => {
                    if c == '>' {
                        self.set_self_closing_flag();
                        self.state = State::Data;
                        return self.take_latest_token();
                    }
                },
                State::ScriptData => {
                    if c == '<' {
                        self.state = State::ScriptDataLessThanSign;
                        continue ;
                    }
                    return Some(HtmlToken::Char(c));
                },
                State::ScriptDataLessThanSign => {
                    if c == '/' {
                        self.buf = String::new();
                        self.state = State::ScriptDataEndTagOpen;
                        continue ;
                    }
                    self.reconsume = true;
                    self.state = State::ScriptData;
                    return Some(HtmlToken::Char('<'));
                },
                State::ScriptDataEndTagOpen => {
                    if is_ascii_alpha(c) {
                        self.reconsume = true;
                        self.state = State::ScriptDataEndTagName;
                        self.create_tag(false);
                        proof {
                            lemma_fresh_tag_view(self.latest_token, false);
                        }
                        continue ;
                    }
                    self.reconsume = true;
                    self.state = State::ScriptData;
                    return Some(HtmlToken::Char('<'));
                },
                State::ScriptDataEndTagName => {
                    if c == '>' {
                        self.state = State::Data;
                        return self.take_latest_token();
                    }
                    if is_ascii_alpha(c) {
                        push_char(&mut self.buf, c);
                        self.append_tag_name(lower_char(c));
                        continue ;
                    }
                    self.state = State::TemporaryBuffer;
                    let ghost b0 = self.buf@;
                    let mut widened = String::new();
                    push_char(&mut widened, '<');
                    push_char(&mut widened, '/');
                    widened.append(self.buf.as_str());
                    push_char(&mut widened, c);
                    self.buf = widened;
                    proof {
                        assert(self.buf@ =~= seq!['<', '/'] + b0 + seq![c]);
                    }
                    continue ;
                },
                State::TemporaryBuffer => {
                    self.reconsume = true;
                    let blen = self.buf.as_str().unicode_len();
                    if blen == 0 {
                        self.state = State::ScriptData;
                        continue ;
                    }
                    let first = self.buf.as_str().get_char(0);
                    let rest = self.buf.as_str().substring_char(1, blen).to_owned();
                    proof {
                        assert(rest@ == self.buf@.subrange(1, self.buf@.len() as int));
                    }
                    self.buf = rest;
                    return Some(HtmlToken::Char(first));
                },
            }
        }
    }

    /// Drains the tokenizer into a vector of tokens: exactly its emissions,
    /// in order.
    pub fn collect_all(&mut self) -> (v: Vec<HtmlToken>)
        requires
            old(self).wf(),
        ensures
            final(self).wf(),
            html_tokens_view(v@) == spec_html_tokenize(old(self)@),
            old(self).pos >= old(self).input@.len() ==> v@.len() == 0,
    {
        let mut v: Vec<HtmlToken> = Vec::new();
        loop
            invariant
                self.wf(),
                self.input@ == old(self).input@,
                spec_html_tokenize(old(self)@) =~= html_tokens_view(v@) + spec_html_tokenize(
                    self@,
                ),
                old(self).pos >= old(self).input@.len() ==> v@.len() == 0 && *self == *old(self),
            decreases tk_m1(*self), tk_m2(*self), tk_m3(*self), tk_m4(*self),
        {
            let ghost top = self@;
            match self.next() {
                Some(t) => {
                    let ghost vprev = v@;
                    v.push(t);
                    proof {
                        lemma_tk_next_ok(top);
                        assert(html_tokens_view(v@) =~= html_tokens_view(vprev) + seq![
                            v@.last()@,
                        ]);
                        assert(spec_html_tokenize(top) =~= seq![v@.last()@]
                            + spec_html_tokenize(self@));
                        assert(spec_html_tokenize(old(self)@) =~= html_tokens_view(v@)
                            + spec_html_tokenize(self@));
                    }
                },
                None => {
                    proof {
                        assert(spec_html_tokenize(self@) =~= Seq::<HtmlTokV>::empty());
                        assert(html_tokens_view(v@) + Seq::<HtmlTokV>::empty() =~= html_tokens_view(
                            v@,
                        ));
                    }
                    return v;
                },
            }
        }
    }
}

/// The empty attribute value.
pub open spec fn attr_v_empty() -> crate::html::attribute::AttrV {
    crate::html::attribute::AttrV { name: Seq::<char>::empty(), value: Seq::<char>::empty() }
}

/// An attribute value extended by one character on its name or value.
pub open spec fn attr_added(
    a: crate::html::attribute::AttrV,
    c: char,
    is_name: bool,
) -> crate::html::attribute::AttrV {
    if is_name {
        crate::html::attribute::AttrV { name: a.name.push(c), value: a.value }
    } else {
        crate::html::attribute::AttrV { name: a.name, value: a.value.push(c) }
    }
}

} // verus!
