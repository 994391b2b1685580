//! The script lexer: punctuators, non-negative decimal numbers, identifiers,
//! the three reserved words, and double-quoted strings without escapes.
//! Whitespace and newlines are skipped.

use vstd::prelude::*;

use crate::strutil::push_char;
use vstd::string::StrSliceExecFns;
use crate::strutil::string_to_chars;

verus! {

/// One token of the script language.
#[derive(Debug, Clone, PartialEq)]
pub enum Token {
    /// A one-character symbol such as `+` or `(`.
    Punctuator(char),
    /// A non-negative decimal number.
    Number(u64),
    /// A name.
    Identifier(String),
    /// One of `var`, `function`, `return`.
    Keyword(String),
    /// A double-quoted string, without its quotes.
    StringLiteral(String),
}

impl Token {
    /// An owned copy with the same value.
    pub fn duplicate(&self) -> (r: Token)
        ensures
            tok_like(r, *self),
    {
        match self {
            Token::Punctuator(c) => Token::Punctuator(*c),
            Token::Number(n) => Token::Number(*n),
            Token::Identifier(s) => Token::Identifier(s.clone()),
            Token::Keyword(s) => Token::Keyword(s.clone()),
            Token::StringLiteral(s) => Token::StringLiteral(s.clone()),
        }
    }
}

/// The value of one script token.
pub ghost enum JsTokV {
    Punctuator(char),
    Number(u64),
    Identifier(Seq<char>),
    Keyword(Seq<char>),
    StringLiteral(Seq<char>),
}

impl View for Token {
    type V = JsTokV;

    open spec fn view(&self) -> JsTokV {
        match self {
            Token::Punctuator(c) => JsTokV::Punctuator(*c),
            Token::Number(n) => JsTokV::Number(*n),
            Token::Identifier(s) => JsTokV::Identifier(s@),
            Token::Keyword(s) => JsTokV::Keyword(s@),
            Token::StringLiteral(s) => JsTokV::StringLiteral(s@),
        }
    }
}

/// The values of a vector of script tokens.
pub open spec fn js_tokens_view(s: Seq<Token>) -> Seq<JsTokV> {
    s.map_values(|t: Token| t@)
}

/// Token equality by value.
pub open spec fn tok_like(a: Token, b: Token) -> bool {
    match (a, b) {
        (Token::Punctuator(c1), Token::Punctuator(c2)) => c1 == c2,
        (Token::Number(n1), Token::Number(n2)) => n1 == n2,
        (Token::Identifier(s1), Token::Identifier(s2)) => s1@ == s2@,
        (Token::Keyword(s1), Token::Keyword(s2)) => s1@ == s2@,
        (Token::StringLiteral(s1), Token::StringLiteral(s2)) => s1@ == s2@,
        _ => false,
    }
}

/// Whether `c` may appear in an identifier: letters, digits, `_` and `$`.
pub open spec fn spec_ident_char(c: char) -> bool {
    ('a' <= c && c <= 'z') || ('A' <= c && c <= 'Z') || ('0' <= c && c <= '9') || c == '_' || c
        == '$'
}


/// The end of the identifier run that starts at `i`: the first index at or
/// past `i` holding no identifier character, or the end of the input.
pub open spec fn spec_js_ident_end(s: Seq<char>, i: int) -> int
    decreases s.len() - i,
{
    if i < 0 || i >= s.len() {
        i
    } else if spec_ident_char(s[i]) {
        spec_js_ident_end(s, i + 1)
    } else {
        i
    }
}

/// The identifier-run end never steps back and stays within the input.
pub proof fn lemma_js_ident_end_bounds(s: Seq<char>, i: int)
    requires
        0 <= i <= s.len(),
    ensures
        i <= spec_js_ident_end(s, i) <= s.len(),
        (i < s.len() && spec_ident_char(s[i])) ==> spec_js_ident_end(s, i) > i,
    decreases s.len() - i,
{
    if i < s.len() && spec_ident_char(s[i]) {
        lemma_js_ident_end_bounds(s, i + 1);
    }
}

/// The number scan: digits accumulate, clamping at the top of the range.
/// Yields the value and the index after the run.
pub open spec fn spec_js_num_scan(s: Seq<char>, i: int, acc: u64) -> (u64, int)
    decreases s.len() - i,
{
    if i < 0 || i >= s.len() {
        (acc, i)
    } else if '0' <= s[i] && s[i] <= '9' {
        let acc2 = if acc <= (u64::MAX - 9) / 10 {
            (acc * 10 + ((s[i] as int) - 0x30)) as u64
        } else {
            u64::MAX
        };
        spec_js_num_scan(s, i + 1, acc2)
    } else {
        (acc, i)
    }
}

/// The number scan never steps back, and moves off a digit.
pub proof fn lemma_js_num_scan_bounds(s: Seq<char>, i: int, acc: u64)
    requires
        0 <= i <= s.len(),
    ensures
        i <= spec_js_num_scan(s, i, acc).1 <= s.len(),
        (i < s.len() && '0' <= s[i] && s[i] <= '9') ==> spec_js_num_scan(s, i, acc).1 > i,
    decreases s.len() - i,
{
    if i < s.len() && '0' <= s[i] && s[i] <= '9' {
        let acc2 = if acc <= (u64::MAX - 9) / 10 {
            (acc * 10 + ((s[i] as int) - 0x30)) as u64
        } else {
            u64::MAX
        };
        lemma_js_num_scan_bounds(s, i + 1, acc2);
    }
}

/// The string scan over the content that starts at `i` (past the opening
/// quote): the text up to the closing quote, and the index after it; an
/// unterminated string ends at the end of the input.
pub open spec fn spec_js_string_scan(s: Seq<char>, i: int) -> (Seq<char>, int)
    decreases s.len() - i,
{
    if i < 0 || i >= s.len() {
        (Seq::<char>::empty(), i)
    } else if s[i] == '"' {
        (Seq::<char>::empty(), i + 1)
    } else {
        let (t, e) = spec_js_string_scan(s, i + 1);
        (seq![s[i]] + t, e)
    }
}

/// The string scan never steps back and stays within the input.
pub proof fn lemma_js_string_scan_bounds(s: Seq<char>, i: int)
    requires
        0 <= i <= s.len(),
    ensures
        i <= spec_js_string_scan(s, i).1 <= s.len(),
    decreases s.len() - i,
{
    if i < s.len() && s[i] != '"' {
        lemma_js_string_scan_bounds(s, i + 1);
    }
}

/// Whether the input starts with `word` at `i`.
pub open spec fn spec_starts_with(s: Seq<char>, i: int, word: Seq<char>) -> bool {
    0 <= i && i + word.len() <= s.len() && s.subrange(i, i + word.len()) == word
}

/// The position after a keyword of length `wl` read at `pos`: the whole
/// word, or the end of the input if the word overhangs it.
pub open spec fn spec_after_word(s: Seq<char>, pos: int, wl: int) -> int {
    if pos + wl <= s.len() {
        pos + wl
    } else {
        s.len() as int
    }
}

/// One step of the lexer: from the read position, the position after the
/// next token and that token, or nothing at the end of the input.
pub open spec fn spec_js_next(s: Seq<char>, pos: int) -> (int, Option<JsTokV>)
    decreases s.len() - pos,
{
    if pos < 0 || pos >= s.len() {
        (pos, None)
    } else if s[pos] == ' ' || s[pos] == '\n' {
        spec_js_next(s, pos + 1)
    } else if spec_starts_with(s, pos, "var"@) {
        (spec_after_word(s, pos, 3), Some(JsTokV::Keyword("var"@)))
    } else if spec_starts_with(s, pos, "function"@) {
        (spec_after_word(s, pos, 8), Some(JsTokV::Keyword("function"@)))
    } else if spec_starts_with(s, pos, "return"@) {
        (spec_after_word(s, pos, 6), Some(JsTokV::Keyword("return"@)))
    } else {
        let c = s[pos];
        if c == '+' || c == '-' || c == ';' || c == '=' || c == '(' || c == ')' || c == '{' || c
            == '}' || c == ',' || c == '.' {
            (pos + 1, Some(JsTokV::Punctuator(c)))
        } else if '0' <= c && c <= '9' {
            let (v, e) = spec_js_num_scan(s, pos, 0);
            (e, Some(JsTokV::Number(v)))
        } else if (('a' <= c && c <= 'z') || ('A' <= c && c <= 'Z') || c == '_' || c == '$') {
            (
                spec_js_ident_end(s, pos),
                Some(JsTokV::Identifier(s.subrange(pos, spec_js_ident_end(s, pos)))),
            )
        } else if c == '"' {
            let (t, e) = spec_js_string_scan(s, pos + 1);
            (e, Some(JsTokV::StringLiteral(t)))
        } else {
            (pos + 1, Some(JsTokV::Punctuator(c)))
        }
    }
}

/// One lexer step moves forward, stays within the input, and yields a
/// token exactly when it did not start at the end.
pub proof fn lemma_js_next_bounds(s: Seq<char>, pos: int)
    requires
        0 <= pos <= s.len(),
    ensures
        pos <= spec_js_next(s, pos).0 <= s.len(),
        spec_js_next(s, pos).1 is Some ==> spec_js_next(s, pos).0 > pos,
    decreases s.len() - pos,
{
    if pos < s.len() {
        if s[pos] == ' ' || s[pos] == '\n' {
            lemma_js_next_bounds(s, pos + 1);
        } else if spec_starts_with(s, pos, "var"@) || spec_starts_with(s, pos, "function"@)
            || spec_starts_with(s, pos, "return"@) {
            reveal_strlit("var");
            reveal_strlit("function");
            reveal_strlit("return");
            assert("var"@.len() == 3 && "function"@.len() == 8 && "return"@.len() == 6);
        } else {
            let c = s[pos];
            if '0' <= c && c <= '9' {
                lemma_js_num_scan_bounds(s, pos, 0);
            } else if (('a' <= c && c <= 'z') || ('A' <= c && c <= 'Z') || c == '_' || c == '$') {
                lemma_js_ident_end_bounds(s, pos);
            } else if c == '"' {
                lemma_js_string_scan_bounds(s, pos + 1);
            }
        }
    }
}

/// The whole tokenization from `pos`: every token the step function
/// yields, in order.
pub open spec fn spec_js_tokenize(s: Seq<char>, pos: int) -> Seq<JsTokV>
    decreases s.len() - pos,
    when 0 <= pos <= s.len()
    via spec_js_tokenize_decreases
{
    let (p2, t) = spec_js_next(s, pos);
    match t {
        None => Seq::empty(),
        Some(tv) => seq![tv] + spec_js_tokenize(s, p2),
    }
}

/// Tokenization terminates: each yielded token advances the position.
#[via_fn]
proof fn spec_js_tokenize_decreases(s: Seq<char>, pos: int) {
    lemma_js_next_bounds(s, pos);
}

/// The script lexer: a read position over the input characters.
pub struct JsLexer {
    pub pos: usize,
    pub input: Vec<char>,
}

impl JsLexer {
    /// The position stays within the input.
    pub open spec fn wf(&self) -> bool {
        self.pos <= self.input@.len()
    }

    /// A lexer over the characters of `js`.
    pub fn new(js: String) -> (r: Self)
        ensures
            r.wf(),
            r.pos == 0,
            r.input@ == js@,
    {
        Self { pos: 0, input: string_to_chars(js.as_str()) }
    }

    /// Whether the input at the current position starts with `keyword`.
    /// A tail shorter than the word never matches.
    fn contains(&self, keyword: &str) -> (r: bool)
        requires
            self.wf(),
        ensures
            r == spec_starts_with(self.input@, self.pos as int, keyword@),
    {
        let kw = string_to_chars(keyword);
        if self.input.len() - self.pos < kw.len() {
            return false;
        }
        proof {
            vstd::std_specs::vec::axiom_spec_len(&self.input);
        }
        let mut i: usize = 0;
        while i < kw.len()
            invariant
                self.wf(),
                kw@ == keyword@,
                kw@.len() <= self.input@.len() - self.pos,
                self.input@.len() <= usize::MAX,
                i <= kw@.len(),
                forall|j: int| 0 <= j < i ==> #[trigger] kw@[j] == self.input@[self.pos + j],
            decreases kw@.len() - i,
        {
            if kw[i] != self.input[self.pos + i] {
                proof {
                    if spec_starts_with(self.input@, self.pos as int, keyword@) {
                        assert(self.input@.subrange(
                            self.pos as int,
                            self.pos + keyword@.len(),
                        )[i as int] == self.input@[self.pos + i]);
                    }
                }
                return false;
            }
            i = i + 1;
        }
        proof {
            assert(self.input@.subrange(self.pos as int, self.pos + keyword@.len()) =~= keyword@);
        }
        true
    }

    /// The reserved word the input starts with here, if any.
    fn check_reserved_word(&self) -> (r: Option<String>)
        requires
            self.wf(),
        ensures
            r matches Some(s) ==> s@.len() >= 3,
            ({
                let s = self.input@;
                let p = self.pos as int;
                if spec_starts_with(s, p, "var"@) {
                    r matches Some(w) && w@ == "var"@
                } else if spec_starts_with(s, p, "function"@) {
                    r matches Some(w) && w@ == "function"@
                } else if spec_starts_with(s, p, "return"@) {
                    r matches Some(w) && w@ == "return"@
                } else {
                    r is None
                }
            }),
    {
        proof {
            reveal_strlit("var");
            reveal_strlit("function");
            reveal_strlit("return");
        }
        if self.contains("var") {
            let w = "var".to_owned();
            proof {
                reveal_strlit("var");
            }
            return Some(w);
        }
        if self.contains("function") {
            let w = "function".to_owned();
            proof {
                reveal_strlit("function");
            }
            return Some(w);
        }
        if self.contains("return") {
            let w = "return".to_owned();
            proof {
                reveal_strlit("return");
            }
            return Some(w);
        }
        None
    }

    /// Reads a run of identifier characters.
    fn consume_identifier(&mut self) -> (r: String)
        requires
            old(self).wf(),
        ensures
            final(self).wf(),
            final(self).input == old(self).input,
            final(self).pos >= old(self).pos,
            (old(self).pos < old(self).input@.len() && spec_ident_char(
                old(self).input@[old(self).pos as int],
            )) ==> final(self).pos > old(self).pos,
            final(self).pos as int == spec_js_ident_end(old(self).input@, old(self).pos as int),
            r@ == old(self).input@.subrange(
                old(self).pos as int,
                spec_js_ident_end(old(self).input@, old(self).pos as int),
            ),
    {
        let mut result = String::new();
        proof {
            assert(result@ =~= self.input@.subrange(self.pos as int, self.pos as int));
        }
        loop
            invariant
                self.wf(),
                self.input == old(self).input,
                self.pos >= old(self).pos,
                self.pos == old(self).pos ==> *self == *old(self),
                spec_js_ident_end(self.input@, old(self).pos as int) == spec_js_ident_end(
                    self.input@,
                    self.pos as int,
                ),
                result@ == self.input@.subrange(old(self).pos as int, self.pos as int),
            decreases self.input@.len() - self.pos,
        {
            if self.pos >= self.input.len() {
                return result;
            }
            let c = self.input[self.pos];
            let ok = (('a' <= c && c <= 'z') || ('A' <= c && c <= 'Z') || ('0' <= c && c <= '9')
                || c == '_' || c == '$');
            if ok {
                push_char(&mut result, c);
                proof {
                    assert(self.input@.subrange(old(self).pos as int, self.pos + 1)
                        =~= self.input@.subrange(old(self).pos as int, self.pos as int).push(
                        self.input@[self.pos as int],
                    ));
                }
                self.pos = self.pos + 1;
            } else {
                return result;
            }
        }
    }

    /// Reads a double-quoted string: the opening quote is skipped, and the
    /// content up to the closing quote (or the end of input) is returned.
    fn consume_string(&mut self) -> (r: String)
        requires
            old(self).wf(),
            old(self).pos < old(self).input@.len(),
        ensures
            final(self).wf(),
            final(self).input == old(self).input,
            final(self).pos > old(self).pos,
            r@ == spec_js_string_scan(old(self).input@, old(self).pos + 1).0,
            final(self).pos as int == spec_js_string_scan(old(self).input@, old(self).pos + 1).1,
    {
        proof {
            vstd::std_specs::vec::axiom_spec_len(&self.input);
        }
        let mut result = String::new();
        self.pos = self.pos + 1;
        loop
            invariant
                self.wf(),
                self.input == old(self).input,
                self.pos > old(self).pos,
                spec_js_string_scan(self.input@, old(self).pos + 1).0 =~= result@
                    + spec_js_string_scan(self.input@, self.pos as int).0,
                spec_js_string_scan(self.input@, old(self).pos + 1).1 == spec_js_string_scan(
                    self.input@,
                    self.pos as int,
                ).1,
            decreases self.input@.len() - self.pos,
        {
            if self.pos >= self.input.len() {
                proof {
                    assert(result@ + spec_js_string_scan(self.input@, self.pos as int).0
                        =~= result@);
                }
                return result;
            }
            if self.input[self.pos] == '"' {
                self.pos = self.pos + 1;
                proof {
                    assert(result@ + spec_js_string_scan(self.input@, self.pos - 1).0 =~= result@);
                }
                return result;
            }
            push_char(&mut result, self.input[self.pos]);
            self.pos = self.pos + 1;
            proof {
                assert(spec_js_string_scan(self.input@, self.pos - 1).0 == seq![self.input@[
                    self.pos - 1]] + spec_js_string_scan(self.input@, self.pos as int).0);
                assert(spec_js_string_scan(self.input@, old(self).pos + 1).0 =~= result@
                    + spec_js_string_scan(self.input@, self.pos as int).0);
            }
        }
    }

    /// Reads a run of decimal digits into a number; the value saturates
    /// instead of overflowing.
    fn consume_number(&mut self) -> (r: u64)
        requires
            old(self).wf(),
            old(self).pos < old(self).input@.len(),
            '0' <= old(self).input@[old(self).pos as int] <= '9',
        ensures
            final(self).wf(),
            final(self).input == old(self).input,
            final(self).pos > old(self).pos,
            r == spec_js_num_scan(old(self).input@, old(self).pos as int, 0).0,
            final(self).pos as int == spec_js_num_scan(old(self).input@, old(self).pos as int, 0).1,
    {
        let mut num: u64 = 0;
        loop
            invariant
                self.wf(),
                self.input == old(self).input,
                self.pos >= old(self).pos,
                self.pos == old(self).pos ==> self.pos < self.input@.len() && '0'
                    <= self.input@[self.pos as int] <= '9',
                spec_js_num_scan(self.input@, old(self).pos as int, 0) == spec_js_num_scan(
                    self.input@,
                    self.pos as int,
                    num,
                ),
            decreases self.input@.len() - self.pos,
        {
            if self.pos >= self.input.len() {
                return num;
            }
            let c = self.input[self.pos];
            if '0' <= c && c <= '9' {
                let d = ((c as u32) - 0x30) as u64;
                if num <= (u64::MAX - 9) / 10 {
                    num = num * 10 + d;
                } else {
                    num = u64::MAX;
                }
                self.pos = self.pos + 1;
            } else {
                return num;
            }
        }
    }

    /// The next token, or nothing once the input is exhausted.  Every token
    /// strictly advances the read position.
    pub fn next(&mut self) -> (r: Option<Token>)
        requires
            old(self).wf(),
        ensures
            final(self).wf(),
            final(self).input == old(self).input,
            r is Some ==> final(self).pos > old(self).pos,
            r is None ==> final(self).pos >= final(self).input@.len(),
            final(self).pos as int == spec_js_next(old(self).input@, old(self).pos as int).0,
            (match (r, spec_js_next(old(self).input@, old(self).pos as int).1) {
                (Some(tok), Some(tv)) => tok@ == tv,
                (None, None) => true,
                _ => false,
            }),
    {
        proof {
            vstd::std_specs::vec::axiom_spec_len(&self.input);
            reveal_strlit("var");
            reveal_strlit("function");
            reveal_strlit("return");
        }
        if self.pos >= self.input.len() {
            return None;
        }
        while self.input[self.pos] == ' ' || self.input[self.pos] == '\n'
            invariant
                self.wf(),
                self.input == old(self).input,
                self.pos >= old(self).pos,
                self.pos < self.input@.len(),
                self.input@.len() <= usize::MAX,
                spec_js_next(self.input@, old(self).pos as int) == spec_js_next(
                    self.input@,
                    self.pos as int,
                ),
            decreases self.input@.len() - self.pos,
        {
            self.pos = self.pos + 1;
            proof {
                assert(spec_js_next(self.input@, old(self).pos as int) == spec_js_next(
                    self.input@,
                    self.pos as int,
                ));
            }
            if self.pos >= self.input.len() {
                return None;
            }
        }

        if let Some(keyword) = self.check_reserved_word() {
            proof {
                reveal_strlit("var");
                reveal_strlit("function");
                reveal_strlit("return");
                assert("var"@.len() == 3 && "function"@.len() == 8 && "return"@.len() == 6);
            }
            let kw_len = keyword.as_str().unicode_len();
            if kw_len <= self.input.len() - self.pos {
                self.pos = self.pos + kw_len;
            } else {
                self.pos = self.input.len();
            }
            return Some(Token::Keyword(keyword));
        }

        let c = self.input[self.pos];
        if c == '+' || c == '-' || c == ';' || c == '=' || c == '(' || c == ')' || c == '{' || c
            == '}' || c == ',' || c == '.' {
            let t = Token::Punctuator(c);
            self.pos = self.pos + 1;
            return Some(t);
        }
        if '0' <= c && c <= '9' {
            let n = self.consume_number();
            return Some(Token::Number(n));
        }
        if (('a' <= c && c <= 'z') || ('A' <= c && c <= 'Z') || c == '_' || c == '$') {
            let s = self.consume_identifier();
            return Some(Token::Identifier(s));
        }
        if c == '"' {
            let s = self.consume_string();
            return Some(Token::StringLiteral(s));
        }
        // An unsupported character is coerced to a lone symbol.
        let t = Token::Punctuator(c);
        self.pos = self.pos + 1;
        Some(t)
    }

    /// Drains the lexer into a vector of tokens: exactly its emissions, in
    /// order.
    pub fn collect_all(&mut self) -> (v: Vec<Token>)
        requires
            old(self).wf(),
        ensures
            final(self).wf(),
            js_tokens_view(v@) == spec_js_tokenize(old(self).input@, old(self).pos as int),
            old(self).pos >= old(self).input@.len() ==> v@.len() == 0,
    {
        let mut v: Vec<Token> = Vec::new();
        loop
            invariant
                self.wf(),
                self.input == old(self).input,
                self.pos >= old(self).pos,
                spec_js_tokenize(self.input@, old(self).pos as int) =~= js_tokens_view(v@)
                    + spec_js_tokenize(self.input@, self.pos as int),
                old(self).pos >= old(self).input@.len() ==> v@.len() == 0 && *self == *old(self),
            decreases self.input@.len() - self.pos,
        {
            let ghost pos_before = self.pos as int;
            match self.next() {
                Some(t) => {
                    let ghost vprev = v@;
                    v.push(t);
                    proof {
                        lemma_js_next_bounds(self.input@, pos_before);
                        assert(js_tokens_view(v@) =~= js_tokens_view(vprev) + seq![v@.last()@]);
                        assert(spec_js_tokenize(self.input@, pos_before) =~= seq![v@.last()@]
                            + spec_js_tokenize(self.input@, self.pos as int));
                        assert(spec_js_tokenize(self.input@, old(self).pos as int)
                            =~= js_tokens_view(v@) + spec_js_tokenize(
                            self.input@,
                            self.pos as int,
                        ));
                    }
                },
                None => {
                    proof {
                        assert(spec_js_tokenize(self.input@, self.pos as int) =~= Seq::<
                            JsTokV,
                        >::empty());
                        assert(js_tokens_view(v@) + Seq::<JsTokV>::empty() =~= js_tokens_view(v@));
                    }
                    return v;
                },
            }
        }
    }
}

} // verus!
