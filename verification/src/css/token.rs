//! The CSS tokenizer: turns the text of a style sheet into tokens.
//! Whitespace and newlines are skipped between tokens.  Numeric values are
//! kept as integers; a fractional part is consumed and dropped.

use vstd::prelude::*;

use crate::strutil::is_ascii_num;
use crate::strutil::push_char;
use crate::strutil::string_to_chars;

verus! {

/// The mathematical value of a CSS token.
pub ghost enum CssTokV {
    HashToken(Seq<char>),
    Delim(char),
    Number(i64),
    Colon,
    SemiColon,
    OpenParenthesis,
    CloseParenthesis,
    OpenCurly,
    CloseCurly,
    Ident(Seq<char>),
    StringToken(Seq<char>),
    AtKeyword(Seq<char>),
}

/// One CSS token.
#[derive(Debug, Clone)]
pub enum CssToken {
    /// `#abc`, kept with its leading `#`.
    HashToken(String),
    /// A lone symbol such as `,` or `.`.
    Delim(char),
    /// A number; the integer part of a decimal.
    Number(i64),
    Colon,
    SemiColon,
    OpenParenthesis,
    CloseParenthesis,
    OpenCurly,
    CloseCurly,
    /// An identifier such as `color` or `background-color`.
    Ident(String),
    /// A quoted string, without its quotes.
    StringToken(String),
    /// `@media`, `@import` and the like, without the `@`.
    AtKeyword(String),
}

impl View for CssToken {
    type V = CssTokV;

    open spec fn view(&self) -> CssTokV {
        match self {
            CssToken::HashToken(s) => CssTokV::HashToken(s@),
            CssToken::Delim(c) => CssTokV::Delim(*c),
            CssToken::Number(n) => CssTokV::Number(*n),
            CssToken::Colon => CssTokV::Colon,
            CssToken::SemiColon => CssTokV::SemiColon,
            CssToken::OpenParenthesis => CssTokV::OpenParenthesis,
            CssToken::CloseParenthesis => CssTokV::CloseParenthesis,
            CssToken::OpenCurly => CssTokV::OpenCurly,
            CssToken::CloseCurly => CssTokV::CloseCurly,
            CssToken::Ident(s) => CssTokV::Ident(s@),
            CssToken::StringToken(s) => CssTokV::StringToken(s@),
            CssToken::AtKeyword(s) => CssTokV::AtKeyword(s@),
        }
    }
}

impl PartialEq for CssToken {
    fn eq(&self, other: &Self) -> (r: bool) {
        match (self, other) {
            (CssToken::HashToken(a), CssToken::HashToken(b)) => *a == *b,
            (CssToken::Delim(a), CssToken::Delim(b)) => a == b,
            (CssToken::Number(a), CssToken::Number(b)) => a == b,
            (CssToken::Colon, CssToken::Colon) => true,
            (CssToken::SemiColon, CssToken::SemiColon) => true,
            (CssToken::OpenParenthesis, CssToken::OpenParenthesis) => true,
            (CssToken::CloseParenthesis, CssToken::CloseParenthesis) => true,
            (CssToken::OpenCurly, CssToken::OpenCurly) => true,
            (CssToken::CloseCurly, CssToken::CloseCurly) => true,
            (CssToken::Ident(a), CssToken::Ident(b)) => *a == *b,
            (CssToken::StringToken(a), CssToken::StringToken(b)) => *a == *b,
            (CssToken::AtKeyword(a), CssToken::AtKeyword(b)) => *a == *b,
            _ => false,
        }
    }
}

impl vstd::std_specs::cmp::PartialEqSpecImpl for CssToken {
    open spec fn obeys_eq_spec() -> bool {
        true
    }

    open spec fn eq_spec(&self, other: &CssToken) -> bool {
        self@ == other@
    }
}

impl CssToken {
    /// An owned copy with the same value.
    pub fn duplicate(&self) -> (r: CssToken)
        ensures
            r@ == self@,
    {
        match self {
            CssToken::HashToken(s) => CssToken::HashToken(s.clone()),
            CssToken::Delim(c) => CssToken::Delim(*c),
            CssToken::Number(n) => CssToken::Number(*n),
            CssToken::Colon => CssToken::Colon,
            CssToken::SemiColon => CssToken::SemiColon,
            CssToken::OpenParenthesis => CssToken::OpenParenthesis,
            CssToken::CloseParenthesis => CssToken::CloseParenthesis,
            CssToken::OpenCurly => CssToken::OpenCurly,
            CssToken::CloseCurly => CssToken::CloseCurly,
            CssToken::Ident(s) => CssToken::Ident(s.clone()),
            CssToken::StringToken(s) => CssToken::StringToken(s.clone()),
            CssToken::AtKeyword(s) => CssToken::AtKeyword(s.clone()),
        }
    }
}

/// Whether `c` may continue an identifier: letters, digits, `-`, `_`.
pub open spec fn spec_css_ident_char(c: char) -> bool {
    ('a' <= c && c <= 'z') || ('A' <= c && c <= 'Z') || ('0' <= c && c <= '9') || c == '-' || c
        == '_'
}

/// The end of the identifier run that starts at `i`: the first index past
/// `i` holding no identifier character, or the end of the input.
pub open spec fn spec_ident_end(s: Seq<char>, i: int) -> int
    decreases s.len() - i,
{
    if i + 1 >= s.len() {
        s.len() as int
    } else if spec_css_ident_char(s[i + 1]) {
        spec_ident_end(s, i + 1)
    } else {
        i + 1
    }
}

/// The identifier-run end stays within the input and past its start.
pub proof fn lemma_ident_end_bounds(s: Seq<char>, i: int)
    requires
        0 <= i < s.len(),
    ensures
        i < spec_ident_end(s, i) <= s.len(),
    decreases s.len() - i,
{
    if i + 1 < s.len() && spec_css_ident_char(s[i + 1]) {
        lemma_ident_end_bounds(s, i + 1);
    }
}

/// The number scan: digits accumulate (saturating), a dot switches to the
/// dropped fractional digits, anything else ends the number.  Yields the
/// value and the index after the run.
pub open spec fn spec_num_scan(s: Seq<char>, i: int, acc: i64, floating: bool) -> (i64, int)
    decreases s.len() - i,
{
    if i < 0 || i >= s.len() {
        (acc, i)
    } else if '0' <= s[i] && s[i] <= '9' {
        let acc2 = if !floating && acc <= (i64::MAX - 9) / 10 {
            (acc * 10 + ((s[i] as int) - 0x30)) as i64
        } else {
            acc
        };
        spec_num_scan(s, i + 1, acc2, floating)
    } else if s[i] == '.' {
        spec_num_scan(s, i + 1, acc, true)
    } else {
        (acc, i)
    }
}

/// The number scan never steps back.
pub proof fn lemma_num_scan_bounds(s: Seq<char>, i: int, acc: i64, floating: bool)
    requires
        0 <= i <= s.len(),
    ensures
        i <= spec_num_scan(s, i, acc, floating).1 <= s.len(),
        (i < s.len() && (('0' <= s[i] && s[i] <= '9') || s[i] == '.'))
            ==> spec_num_scan(s, i, acc, floating).1 > i,
    decreases s.len() - i,
{
    if i < s.len() {
        if '0' <= s[i] && s[i] <= '9' {
            let acc2 = if !floating && acc <= (i64::MAX - 9) / 10 {
                (acc * 10 + ((s[i] as int) - 0x30)) as i64
            } else {
                acc
            };
            lemma_num_scan_bounds(s, i + 1, acc2, floating);
        } else if s[i] == '.' {
            lemma_num_scan_bounds(s, i + 1, acc, true);
        }
    }
}

/// The string scan, from the opening quote at `i`: the content up to the
/// closing quote (either kind), and the index of that quote; a string cut
/// off by the end of the input ends one short of it.
pub open spec fn spec_string_scan(s: Seq<char>, i: int) -> (Seq<char>, int)
    decreases s.len() - i,
{
    if i < 0 || i + 1 >= s.len() {
        (Seq::<char>::empty(), i)
    } else if s[i + 1] == '"' || s[i + 1] == '\'' {
        (Seq::<char>::empty(), i + 1)
    } else {
        let (t, e) = spec_string_scan(s, i + 1);
        (seq![s[i + 1]] + t, e)
    }
}

/// The string scan never steps back and stays within the input.
pub proof fn lemma_string_scan_bounds(s: Seq<char>, i: int)
    requires
        0 <= i <= s.len(),
    ensures
        i <= spec_string_scan(s, i).1 < s.len() || spec_string_scan(s, i).1 == i,
        i <= spec_string_scan(s, i).1,
        spec_string_scan(s, i).1 <= s.len(),
        i < s.len() ==> spec_string_scan(s, i).1 < s.len(),
    decreases s.len() - i,
{
    if i + 1 < s.len() && !(s[i + 1] == '"' || s[i + 1] == '\'') {
        lemma_string_scan_bounds(s, i + 1);
    }
}

/// One step of the tokenizer: from the read position, the position after
/// the next token and that token, or nothing at the end of the input.
pub open spec fn spec_css_next(s: Seq<char>, pos: int) -> (int, Option<CssTokV>)
    decreases s.len() - pos,
{
    if pos < 0 || pos >= s.len() {
        (pos, None)
    } else {
        let c = s[pos];
        if c == '(' {
            (pos + 1, Some(CssTokV::OpenParenthesis))
        } else if c == ')' {
            (pos + 1, Some(CssTokV::CloseParenthesis))
        } else if c == ',' {
            (pos + 1, Some(CssTokV::Delim(',')))
        } else if c == '.' {
            (pos + 1, Some(CssTokV::Delim('.')))
        } else if c == ':' {
            (pos + 1, Some(CssTokV::Colon))
        } else if c == ';' {
            (pos + 1, Some(CssTokV::SemiColon))
        } else if c == '{' {
            (pos + 1, Some(CssTokV::OpenCurly))
        } else if c == '}' {
            (pos + 1, Some(CssTokV::CloseCurly))
        } else if c == ' ' || c == '\n' {
            spec_css_next(s, pos + 1)
        } else if c == '"' || c == '\'' {
            let (t, e) = spec_string_scan(s, pos);
            (e + 1, Some(CssTokV::StringToken(t)))
        } else if '0' <= c && c <= '9' {
            let (v, e) = spec_num_scan(s, pos, 0, false);
            (e, Some(CssTokV::Number(v)))
        } else if c == '#' {
            (spec_ident_end(s, pos), Some(CssTokV::HashToken(s.subrange(pos, spec_ident_end(s, pos)))))
        } else if c == '-' {
            (spec_ident_end(s, pos), Some(CssTokV::Ident(s.subrange(pos, spec_ident_end(s, pos)))))
        } else if c == '@' {
            if pos + 1 < s.len() && (('a' <= s[pos + 1] && s[pos + 1] <= 'z') || ('A' <= s[pos + 1]
                && s[pos + 1] <= 'Z')) && pos + 2 < s.len() && (('a' <= s[pos + 2] && s[pos + 2]
                <= 'z') || ('A' <= s[pos + 2] && s[pos + 2] <= 'Z') || ('0' <= s[pos + 2] && s[pos
                + 2] <= '9')) && pos + 3 < s.len() && (('a' <= s[pos + 3] && s[pos + 3] <= 'z') || (
            'A' <= s[pos + 3] && s[pos + 3] <= 'Z') || ('0' <= s[pos + 3] && s[pos + 3] <= '9')) {
                (
                    spec_ident_end(s, pos + 1),
                    Some(CssTokV::AtKeyword(s.subrange(pos + 1, spec_ident_end(s, pos + 1)))),
                )
            } else {
                (pos + 1, Some(CssTokV::Delim('@')))
            }
        } else if (('a' <= c && c <= 'z') || ('A' <= c && c <= 'Z') || c == '_') {
            (spec_ident_end(s, pos), Some(CssTokV::Ident(s.subrange(pos, spec_ident_end(s, pos)))))
        } else {
            (pos + 1, Some(CssTokV::Delim(c)))
        }
    }
}

/// One tokenizer step moves forward, stays within the input, and yields a
/// token exactly when it did not start at the end.
pub proof fn lemma_css_next_bounds(s: Seq<char>, pos: int)
    requires
        0 <= pos <= s.len(),
    ensures
        pos <= spec_css_next(s, pos).0 <= s.len(),
        spec_css_next(s, pos).1 is Some ==> spec_css_next(s, pos).0 > pos,
    decreases s.len() - pos,
{
    if pos < s.len() {
        let c = s[pos];
        if c == ' ' || c == '\n' {
            lemma_css_next_bounds(s, pos + 1);
        } else if c == '"' || c == '\'' {
            lemma_string_scan_bounds(s, pos);
        } else if '0' <= c && c <= '9' {
            lemma_num_scan_bounds(s, pos, 0, false);
        } else if c == '#' || c == '-' {
            lemma_ident_end_bounds(s, pos);
        } else if c == '@' {
            if pos + 1 < s.len() {
                lemma_ident_end_bounds(s, pos + 1);
            }
        } else if (('a' <= c && c <= 'z') || ('A' <= c && c <= 'Z') || c == '_') {
            lemma_ident_end_bounds(s, pos);
        }
    }
}

/// The whole tokenization from `pos`: every token the step function yields,
/// in order.
pub open spec fn spec_css_tokenize(s: Seq<char>, pos: int) -> Seq<CssTokV>
    decreases s.len() - pos,
    when 0 <= pos <= s.len()
    via spec_css_tokenize_decreases
{
    let (p2, t) = spec_css_next(s, pos);
    match t {
        None => Seq::empty(),
        Some(tv) => seq![tv] + spec_css_tokenize(s, p2),
    }
}

/// Tokenization terminates: each yielded token advances the position.
#[via_fn]
proof fn spec_css_tokenize_decreases(s: Seq<char>, pos: int) {
    lemma_css_next_bounds(s, pos);
}

/// The values of a vector of CSS tokens.
pub open spec fn css_tokens_view(s: Seq<CssToken>) -> Seq<CssTokV> {
    s.map_values(|t: CssToken| t@)
}

/// The CSS tokenizer: a read position over the input characters.
#[derive(Debug, Clone)]
pub struct CssTokenizer {
    pub pos: usize,
    pub input: Vec<char>,
}

impl CssTokenizer {
    /// The position stays within the input.
    pub open spec fn wf(&self) -> bool {
        self.pos <= self.input@.len()
    }

    /// A tokenizer over the characters of `css`.
    pub fn new(css: String) -> (r: Self)
        ensures
            r.wf(),
            r.pos == 0,
            r.input@ == css@,
    {
        Self { pos: 0, input: string_to_chars(css.as_str()) }
    }

    /// Reads up to the closing quote and returns the content between the
    /// quotes.  An unterminated string is cut off at the end of the input.
    fn consume_string_token(&mut self) -> (r: String)
        requires
            old(self).wf(),
        ensures
            final(self).wf(),
            final(self).input == old(self).input,
            final(self).pos >= old(self).pos,
            old(self).pos < old(self).input@.len() ==> final(self).pos < final(self).input@.len(),
            r@ == spec_string_scan(old(self).input@, old(self).pos as int).0,
            final(self).pos as int == spec_string_scan(old(self).input@, old(self).pos as int).1,
    {
        let mut s = String::new();
        loop
            invariant
                self.wf(),
                self.input == old(self).input,
                self.pos >= old(self).pos,
                old(self).pos < old(self).input@.len() ==> self.pos < self.input@.len(),
                spec_string_scan(self.input@, old(self).pos as int).0 == s@ + spec_string_scan(
                    self.input@,
                    self.pos as int,
                ).0,
                spec_string_scan(self.input@, old(self).pos as int).1 == spec_string_scan(
                    self.input@,
                    self.pos as int,
                ).1,
            decreases self.input@.len() - self.pos,
        {
            if self.input.len() - self.pos <= 1 {
                proof {
                    assert(s@ + spec_string_scan(self.input@, self.pos as int).0 =~= s@);
                }
                return s;
            }
            self.pos = self.pos + 1;
            let c = self.input[self.pos];
            if c == '"' || c == '\'' {
                proof {
                    assert(s@ + spec_string_scan(self.input@, self.pos as int - 1).0 =~= s@);
                }
                return s;
            }
            push_char(&mut s, c);
            proof {
                assert(spec_string_scan(self.input@, self.pos as int - 1).0 == seq![c]
                    + spec_string_scan(self.input@, self.pos as int).0);
                assert(spec_string_scan(self.input@, old(self).pos as int).0 =~= s@
                    + spec_string_scan(self.input@, self.pos as int).0);
            }
        }
    }

    /// Reads a run of digits into an integer; a `.` switches to the
    /// fractional digits, which are consumed and dropped.  The value
    /// saturates instead of overflowing.
    fn consume_numeric_token(&mut self) -> (r: i64)
        requires
            old(self).wf(),
            old(self).pos < old(self).input@.len(),
            '0' <= old(self).input@[old(self).pos as int] <= '9',
        ensures
            final(self).wf(),
            final(self).input == old(self).input,
            final(self).pos > old(self).pos,
            r >= 0,
            r == spec_num_scan(old(self).input@, old(self).pos as int, 0, false).0,
            final(self).pos as int == spec_num_scan(old(self).input@, old(self).pos as int, 0, false).1,
    {
        let mut num: i64 = 0;
        let mut floating = false;
        loop
            invariant
                self.wf(),
                self.input == old(self).input,
                self.pos >= old(self).pos,
                self.pos == old(self).pos ==> self.pos < self.input@.len() && '0'
                    <= self.input@[self.pos as int] <= '9',
                num >= 0,
                spec_num_scan(self.input@, old(self).pos as int, 0, false) == spec_num_scan(
                    self.input@,
                    self.pos as int,
                    num,
                    floating,
                ),
            decreases self.input@.len() - self.pos,
        {
            if self.pos >= self.input.len() {
                return num;
            }
            let c = self.input[self.pos];
            if is_ascii_num(c) {
                if !floating {
                    let d = (c as u32) - 0x30;
                    if num <= (i64::MAX - 9) / 10 {
                        num = num * 10 + (d as i64);
                    }
                }
                self.pos = self.pos + 1;
            } else if c == '.' {
                floating = true;
                self.pos = self.pos + 1;
            } else {
                return num;
            }
        }
    }

    /// Reads a run of letters, digits, hyphens and underscores, starting
    /// at the current character (whatever it is).
    fn consume_ident_token(&mut self) -> (r: String)
        requires
            old(self).wf(),
            old(self).pos < old(self).input@.len(),
        ensures
            final(self).wf(),
            final(self).input == old(self).input,
            final(self).pos > old(self).pos,
            final(self).pos as int == spec_ident_end(old(self).input@, old(self).pos as int),
            r@ == old(self).input@.subrange(
                old(self).pos as int,
                spec_ident_end(old(self).input@, old(self).pos as int),
            ),
    {
        let mut s = String::new();
        push_char(&mut s, self.input[self.pos]);
        proof {
            vstd::std_specs::vec::axiom_spec_len(&self.input);
            assert(s@ =~= self.input@.subrange(self.pos as int, self.pos + 1));
        }
        loop
            invariant
                self.wf(),
                self.input == old(self).input,
                self.pos >= old(self).pos,
                self.pos < self.input@.len(),
                self.input@.len() <= usize::MAX,
                old(self).pos < old(self).input@.len(),
                spec_ident_end(self.input@, old(self).pos as int) == spec_ident_end(
                    self.input@,
                    self.pos as int,
                ),
                s@ == self.input@.subrange(old(self).pos as int, self.pos + 1),
            decreases self.input@.len() - self.pos,
        {
            self.pos = self.pos + 1;
            if self.pos >= self.input.len() {
                return s;
            }
            let c = self.input[self.pos];
            let ident_char = (('a' <= c && c <= 'z') || ('A' <= c && c <= 'Z') || ('0' <= c && c
                <= '9') || c == '-' || c == '_');
            if ident_char {
                push_char(&mut s, c);
                proof {
                    assert(self.input@.subrange(old(self).pos as int, self.pos + 1)
                        =~= self.input@.subrange(old(self).pos as int, self.pos as int).push(
                        self.input@[self.pos as int],
                    ));
                }
            } else {
                return s;
            }
        }
    }

    /// The next token, or nothing once the input is exhausted.  Every
    /// token strictly advances the read position.
    pub fn next(&mut self) -> (r: Option<CssToken>)
        requires
            old(self).wf(),
        ensures
            final(self).wf(),
            final(self).input == old(self).input,
            r is Some ==> final(self).pos > old(self).pos,
            r is None ==> final(self).pos >= final(self).input@.len(),
            final(self).pos as int == spec_css_next(old(self).input@, old(self).pos as int).0,
            (match (r, spec_css_next(old(self).input@, old(self).pos as int).1) {
                (Some(tok), Some(tv)) => tok@ == tv,
                (None, None) => true,
                _ => false,
            }),
    {
        proof {
            vstd::std_specs::vec::axiom_spec_len(&self.input);
        }
        loop
            invariant
                self.wf(),
                self.input == old(self).input,
                self.pos >= old(self).pos,
                self.input@.len() <= usize::MAX,
                spec_css_next(self.input@, old(self).pos as int) == spec_css_next(
                    self.input@,
                    self.pos as int,
                ),
            decreases self.input@.len() - self.pos,
        {
            if self.pos >= self.input.len() {
                return None;
            }
            let c = self.input[self.pos];
            let token: CssToken;
            if c == '(' {
                token = CssToken::OpenParenthesis;
            } else if c == ')' {
                token = CssToken::CloseParenthesis;
            } else if c == ',' {
                token = CssToken::Delim(',');
            } else if c == '.' {
                token = CssToken::Delim('.');
            } else if c == ':' {
                token = CssToken::Colon;
            } else if c == ';' {
                token = CssToken::SemiColon;
            } else if c == '{' {
                token = CssToken::OpenCurly;
            } else if c == '}' {
                token = CssToken::CloseCurly;
            } else if c == ' ' || c == '\n' {
                self.pos = self.pos + 1;
                continue ;
            } else if c == '"' || c == '\'' {
                let value = self.consume_string_token();
                token = CssToken::StringToken(value);
            } else if is_ascii_num(c) {
                let t = CssToken::Number(self.consume_numeric_token());
                self.pos = self.pos - 1;
                token = t;
            } else if c == '#' {
                let value = self.consume_ident_token();
                self.pos = self.pos - 1;
                token = CssToken::HashToken(value);
            } else if c == '-' {
                let t = CssToken::Ident(self.consume_ident_token());
                self.pos = self.pos - 1;
                token = t;
            } else if c == '@' {
                let rem = self.input.len() - self.pos;
                let alpha1 = rem > 1 && crate::strutil::is_ascii_alpha(self.input[self.pos + 1]);
                let alnum2 = rem > 2 && {
                    let c2 = self.input[self.pos + 2];
                    crate::strutil::is_ascii_alpha(c2) || is_ascii_num(c2)
                };
                let alnum3 = rem > 3 && {
                    let c3 = self.input[self.pos + 3];
                    crate::strutil::is_ascii_alpha(c3) || is_ascii_num(c3)
                };
                if alpha1 && alnum2 && alnum3 {
                    self.pos = self.pos + 1;
                    let t = CssToken::AtKeyword(self.consume_ident_token());
                    self.pos = self.pos - 1;
                    token = t;
                } else {
                    token = CssToken::Delim('@');
                }
            } else if (('a' <= c && c <= 'z') || ('A' <= c && c <= 'Z') || c == '_') {
                let t = CssToken::Ident(self.consume_ident_token());
                self.pos = self.pos - 1;
                token = t;
            } else {
                // An unsupported character is coerced to a lone symbol.
                token = CssToken::Delim(c);
            }
            self.pos = self.pos + 1;
            return Some(token);
        }
    }

    /// Drains the tokenizer into a vector of tokens: exactly its emissions,
    /// in order.
    pub fn collect_all(&mut self) -> (v: Vec<CssToken>)
        requires
            old(self).wf(),
        ensures
            final(self).wf(),
            css_tokens_view(v@) == spec_css_tokenize(old(self).input@, old(self).pos as int),
    {
        let mut v: Vec<CssToken> = Vec::new();
        loop
            invariant
                self.wf(),
                self.input == old(self).input,
                self.pos >= old(self).pos,
                spec_css_tokenize(self.input@, old(self).pos as int) =~= css_tokens_view(v@)
                    + spec_css_tokenize(self.input@, self.pos as int),
            decreases self.input@.len() - self.pos,
        {
            let ghost pos_before = self.pos as int;
            match self.next() {
                Some(t) => {
                    let ghost vprev = v@;
                    v.push(t);
                    proof {
                        lemma_css_next_bounds(self.input@, pos_before);
                        assert(css_tokens_view(v@) =~= css_tokens_view(vprev) + seq![v@.last()@]);
                        assert(spec_css_tokenize(self.input@, pos_before) =~= seq![v@.last()@]
                            + spec_css_tokenize(self.input@, self.pos as int));
                        assert(spec_css_tokenize(self.input@, old(self).pos as int)
                            =~= css_tokens_view(v@) + spec_css_tokenize(
                            self.input@,
                            self.pos as int,
                        ));
                    }
                },
                None => {
                    proof {
                        assert(spec_css_tokenize(self.input@, self.pos as int) =~= Seq::<
                            CssTokV,
                        >::empty());
                        assert(css_tokens_view(v@) + Seq::<CssTokV>::empty() =~= css_tokens_view(
                            v@,
                        ));
                    }
                    return v;
                },
            }
        }
    }
}

} // verus!
