//! The HTTP response type and its parser.
//!
//! The raw text is normalised (leading whitespace shed, CRLF folded to LF),
//! the first line is read as `version status reason`, the headers run up to
//! the first blank line, and the rest is the body.  Text without even a
//! first line ends in a network error.

use vstd::prelude::*;

use crate::error::Error;
use crate::strutil::chars_to_string;
use crate::strutil::find_char_from;
use crate::strutil::spec_find_from;
use crate::strutil::spec_is_blank;
use crate::strutil::str_eq;
use crate::strutil::string_to_chars;

verus! {

/// Leading whitespace shed.
pub open spec fn spec_trim_start(s: Seq<char>) -> Seq<char>
    decreases s.len(),
{
    if s.len() > 0 && spec_is_blank(s[0]) {
        spec_trim_start(s.skip(1))
    } else {
        s
    }
}

/// Every CRLF folded into one LF.
pub open spec fn spec_fold_crlf(s: Seq<char>) -> Seq<char>
    decreases s.len(),
{
    if s.len() == 0 {
        Seq::<char>::empty()
    } else if s.len() >= 2 && s[0] == '\r' && s[1] == '\n' {
        seq!['\n'] + spec_fold_crlf(s.skip(2))
    } else {
        seq![s[0]] + spec_fold_crlf(s.skip(1))
    }
}

/// The normalised response text.
pub open spec fn spec_preprocess(s: Seq<char>) -> Seq<char> {
    spec_fold_crlf(spec_trim_start(s))
}

/// The status-code fold: digits accumulate left to right, and anything
/// past the unsigned 32-bit range sticks above it.  A non-digit gives
/// nothing.
pub open spec fn spec_code_fold(s: Seq<char>, acc: u64) -> Option<u64>
    decreases s.len(),
{
    if s.len() == 0 {
        Some(acc)
    } else if '0' <= s[0] && s[0] <= '9' {
        let d = (s[0] as u64) - 0x30;
        let next = if acc * 10 + d > u32::MAX {
            (u32::MAX + 1) as u64
        } else {
            (acc * 10 + d) as u64
        };
        spec_code_fold(s.skip(1), next)
    } else {
        None
    }
}

/// The status code a word denotes: its decimal value when the word is all
/// digits and fits 32 bits, else the not-found fallback.
pub open spec fn spec_status_code(word: Seq<char>) -> u32 {
    if word.len() == 0 {
        404u32
    } else {
        match spec_code_fold(word, 0) {
            Some(v) => if v <= u32::MAX {
                v as u32
            } else {
                404u32
            },
            None => 404u32,
        }
    }
}

/// One header: a name and a value.
#[derive(Debug, Clone)]
pub struct Header {
    pub name: String,
    pub value: String,
}

impl Header {
    /// A header.
    pub fn new(name: String, value: String) -> (r: Self)
        ensures
            r.name@ == name@,
            r.value@ == value@,
    {
        Self { name, value }
    }
}

/// The first value among `headers` stored under `name`, if any.
pub open spec fn spec_header_value(headers: Seq<Header>, name: Seq<char>) -> Option<Seq<char>>
    decreases headers.len(),
{
    if headers.len() == 0 {
        None
    } else if headers[0].name@ == name {
        Some(headers[0].value@)
    } else {
        spec_header_value(headers.skip(1), name)
    }
}

/// A parsed response: version, status code, reason, headers and body.
#[derive(Debug, Clone)]
pub struct HttpResponse {
    pub version: String,
    pub status_code: u32,
    pub reason: String,
    pub headers: Vec<Header>,
    pub body: String,
}

impl HttpResponse {
    /// Parses a raw response.  After normalisation the first line must
    /// exist (a newline ends it) and hold three space-separated words;
    /// anything else is a network error.  The body is everything after the
    /// first blank line.
    pub fn new(raw_response: String) -> (r: Result<Self, Error>)
        ensures
            ({
                let pre = spec_preprocess(raw_response@);
                match spec_find_from(pre, '\n', 0) {
                    None => r is Err,
                    Some(nl) => {
                        let line = pre.take(nl);
                        match spec_find_from(line, ' ', 0) {
                            None => r is Err,
                            Some(sp1) => match spec_find_from(line, ' ', sp1 + 1) {
                                None => r is Err,
                                Some(sp2) => (r matches Ok(res) && res.version@ == line.take(sp1)
                                    && res.status_code == spec_status_code(
                                    line.subrange(sp1 + 1, sp2),
                                ) && res.reason@ == (match spec_find_from(line, ' ', sp2 + 1) {
                                    Some(sp3) => line.subrange(sp2 + 1, sp3),
                                    None => line.skip(sp2 + 1),
                                }) && (match spec_find_double_newline(pre, nl + 1) {
                                    Some(b) => res.body@ == pre.skip(b + 2) && headers_view(
                                        res.headers@,
                                    ) == spec_parse_headers(pre, nl + 1, b),
                                    None => res.body@ == pre.skip(nl + 1) && res.headers@.len()
                                        == 0,
                                })),
                            },
                        }
                    },
                }
            }),
    {
        let raw = string_to_chars(raw_response.as_str());
        let pre = preprocess(&raw);

        let nl = match find_char_from(&pre, '\n', 0) {
            Some(i) => i,
            None => {
                return Err(Error::Network("invalid http response".to_owned()));
            },
        };

        // The status line: `version status reason`.
        let sp1 = match find_char_from_before(&pre, ' ', 0, nl) {
            Some(i) => i,
            None => {
                return Err(Error::Network("invalid http response".to_owned()));
            },
        };
        let sp2 = match find_char_from_before(&pre, ' ', sp1 + 1, nl) {
            Some(i) => i,
            None => {
                return Err(Error::Network("invalid http response".to_owned()));
            },
        };
        let sp3 = find_char_from_before(&pre, ' ', sp2 + 1, nl);
        let version = chars_to_string(&pre, 0, sp1);
        let status_word = chars_to_string(&pre, sp1 + 1, sp2);
        let reason_end = match sp3 {
            Some(i) => i,
            None => nl,
        };
        let reason = chars_to_string(&pre, sp2 + 1, reason_end);
        let status_code = parse_status_code(&pre, sp1 + 1, sp2);

        // Headers run to the first blank line; the body follows it.  With
        // no blank line there are no headers and the rest is the body.
        let blank = find_double_newline(&pre, nl + 1);
        let (headers, body) = match blank {
            Some(b) => (
                parse_headers(&pre, nl + 1, b),
                chars_to_string(&pre, b + 2, pre.len()),
            ),
            None => (Vec::new(), chars_to_string(&pre, nl + 1, pre.len())),
        };

        proof {
            lemma_take_subrange(pre@, nl as int, sp1 as int, sp2 as int);
            let line = pre@.take(nl as int);
            assert(line.skip(sp2 + 1) =~= pre@.subrange(sp2 + 1, nl as int));
            match sp3 {
                Some(i) => {
                    assert(line.subrange(sp2 + 1, i as int) =~= pre@.subrange(sp2 + 1, i as int))
                        by {
                        assert forall|j: int|
                            0 <= j < i - sp2 - 1 implies #[trigger] line.subrange(
                            sp2 + 1,
                            i as int,
                        )[j] == pre@.subrange(sp2 + 1, i as int)[j] by {
                            assert(line.subrange(sp2 + 1, i as int)[j] == line[sp2 + 1 + j]);
                            assert(line[sp2 + 1 + j] == pre@[sp2 + 1 + j]);
                        }
                    }
                },
                None => {},
            }
        }
        Ok(Self { version, status_code, reason, headers, body })
    }

    /// The protocol version of the status line.
    pub fn version(&self) -> (r: String)
        ensures
            r@ == self.version@,
    {
        self.version.clone()
    }

    /// The status code of the status line.
    pub fn status_code(&self) -> (r: u32)
        ensures
            r == self.status_code,
    {
        self.status_code
    }

    /// The reason word of the status line.
    pub fn reason(&self) -> (r: String)
        ensures
            r@ == self.reason@,
    {
        self.reason.clone()
    }

    /// The headers, in order.
    pub fn headers(&self) -> (r: Vec<Header>)
        ensures
            r@.len() == self.headers@.len(),
            forall|i: int|
                0 <= i < r@.len() ==> (#[trigger] r@[i]).name@ == self.headers@[i].name@
                    && r@[i].value@ == self.headers@[i].value@,
    {
        let mut out: Vec<Header> = Vec::new();
        let mut i: usize = 0;
        while i < self.headers.len()
            invariant
                i <= self.headers@.len(),
                out@.len() == i,
                forall|j: int|
                    0 <= j < i ==> (#[trigger] out@[j]).name@ == self.headers@[j].name@
                        && out@[j].value@ == self.headers@[j].value@,
            decreases self.headers@.len() - i,
        {
            let h = &self.headers[i];
            out.push(Header { name: h.name.clone(), value: h.value.clone() });
            i = i + 1;
        }
        out
    }

    /// The body.
    pub fn body(&self) -> (r: String)
        ensures
            r@ == self.body@,
    {
        self.body.clone()
    }

    /// The value of the first header called `name`; without one, an error
    /// message naming the missing header.
    pub fn header_value(&self, name: &str) -> (r: Result<String, String>)
        ensures
            match r {
                Ok(v) => spec_header_value(self.headers@, name@) == Some(v@),
                Err(m) => spec_header_value(self.headers@, name@) is None && m@
                    == "failed to find "@ + name@ + " in headers"@,
            },
    {
        let mut i: usize = 0;
        proof {
            assert(self.headers@.skip(0) =~= self.headers@);
        }
        while i < self.headers.len()
            invariant
                i <= self.headers@.len(),
                spec_header_value(self.headers@, name@) == spec_header_value(
                    self.headers@.skip(i as int),
                    name@,
                ),
            decreases self.headers@.len() - i,
        {
            proof {
                assert(self.headers@.skip(i as int)[0] == self.headers@[i as int]);
                assert(self.headers@.skip(i as int).skip(1) =~= self.headers@.skip(i + 1));
            }
            if str_eq(&self.headers[i].name, name) {
                return Ok(self.headers[i].value.clone());
            }
            i = i + 1;
        }
        let mut msg = string_to_chars("failed to find ");
        let mut mid = string_to_chars(name);
        let mut tail = string_to_chars(" in headers");
        msg.append(&mut mid);
        msg.append(&mut tail);
        let m = chars_to_string(&msg, 0, msg.len());
        proof {
            assert(msg@.subrange(0, msg@.len() as int) =~= msg@);
        }
        Err(m)
    }
}

/// The first index in `[a, b)` that is not blank, or `b`.
pub open spec fn spec_skip_blanks(s: Seq<char>, a: int, b: int) -> int
    decreases b - a,
{
    if a < b && 0 <= a < s.len() && spec_is_blank(s[a]) {
        spec_skip_blanks(s, a + 1, b)
    } else {
        a
    }
}

/// The end of the non-blank content in `[lo, hi)`: blanks at the right
/// edge are shed.
pub open spec fn spec_shed_blanks(s: Seq<char>, lo: int, hi: int) -> int
    decreases hi,
{
    if hi > lo && 0 < hi <= s.len() && spec_is_blank(s[hi - 1]) {
        spec_shed_blanks(s, lo, hi - 1)
    } else {
        hi
    }
}

/// The characters in `[a, b)`, with blanks shed at both ends.
pub open spec fn spec_trim_range(s: Seq<char>, a: int, b: int) -> Seq<char> {
    let lo = spec_skip_blanks(s, a, b);
    let hi = spec_shed_blanks(s, lo, b);
    s.subrange(lo, hi)
}

/// The header lines in `[from, end)`: each line up to its newline, split at
/// its first colon into a trimmed name and value; a line without a colon
/// is dropped.
pub open spec fn spec_parse_headers(s: Seq<char>, from: int, end: int) -> Seq<
    (Seq<char>, Seq<char>),
>
    decreases end - from,
    when 0 <= from && end <= s.len()
    via spec_parse_headers_decreases
{
    if from >= end {
        Seq::empty()
    } else {
        let line_end = match crate::strutil::spec_find_from(s.take(end), '\n', from) {
            Some(i) => i,
            None => end,
        };
        let rest_from = if line_end < end {
            line_end + 1
        } else {
            end
        };
        let entry = match crate::strutil::spec_find_from(s.take(line_end), ':', from) {
            Some(colon) => seq![
                (spec_trim_range(s, from, colon), spec_trim_range(s, colon + 1, line_end)),
            ],
            None => Seq::empty(),
        };
        entry + spec_parse_headers(s, rest_from, end)
    }
}

/// Header parsing terminates: every line ends past its start.
#[via_fn]
proof fn spec_parse_headers_decreases(s: Seq<char>, from: int, end: int) {
    if from < end {
        crate::strutil::lemma_find_from_bounds(s.take(end), '\n', from);
    }
}

/// The names and values of a vector of headers.
pub open spec fn headers_view(s: Seq<Header>) -> Seq<(Seq<char>, Seq<char>)> {
    s.map_values(|h: Header| (h.name@, h.value@))
}

/// The first index at or after `i` where a newline immediately follows a
/// newline, if any.
pub open spec fn spec_find_double_newline(s: Seq<char>, i: int) -> Option<int>
    decreases s.len() - i,
{
    if i < 0 || i + 1 >= s.len() {
        None
    } else if s[i] == '\n' && s[i + 1] == '\n' {
        Some(i)
    } else {
        spec_find_double_newline(s, i + 1)
    }
}

/// The prefix of the status line is a subrange of the whole text.
proof fn lemma_take_subrange(s: Seq<char>, nl: int, sp1: int, sp2: int)
    requires
        0 <= sp1 < sp2 <= nl <= s.len(),
    ensures
        s.take(nl).take(sp1) =~= s.subrange(0, sp1),
        s.take(nl).subrange(sp1 + 1, sp2) =~= s.subrange(sp1 + 1, sp2),
{
    let t = s.take(nl);
    assert(t.subrange(sp1 + 1, sp2) =~= s.subrange(sp1 + 1, sp2)) by {
        assert forall|j: int| 0 <= j < sp2 - sp1 - 1 implies #[trigger] t.subrange(sp1 + 1, sp2)[j]
            == s.subrange(sp1 + 1, sp2)[j] by {
            assert(t.subrange(sp1 + 1, sp2)[j] == t[sp1 + 1 + j]);
            assert(t[sp1 + 1 + j] == s[sp1 + 1 + j]);
            assert(s.subrange(sp1 + 1, sp2)[j] == s[sp1 + 1 + j]);
        }
    }
}

/// Sheds leading whitespace, then folds every CRLF into one LF.
fn preprocess(raw: &Vec<char>) -> (r: Vec<char>)
    ensures
        r@ == spec_preprocess(raw@),
{
    let mut start: usize = 0;
    proof {
        assert(raw@.skip(0) =~= raw@);
    }
    while start < raw.len() && (raw[start] == ' ' || raw[start] == '\t' || raw[start] == '\r'
        || raw[start] == '\n')
        invariant
            start <= raw@.len(),
            spec_trim_start(raw@) == spec_trim_start(raw@.skip(start as int)),
        decreases raw@.len() - start,
    {
        proof {
            assert(raw@.skip(start as int).skip(1) =~= raw@.skip(start + 1));
        }
        start = start + 1;
    }
    proof {
        assert(spec_trim_start(raw@.skip(start as int)) =~= raw@.skip(start as int));
    }

    let mut out: Vec<char> = Vec::new();
    let mut i = start;
    while i < raw.len()
        invariant
            start <= i <= raw@.len(),
            out@ + spec_fold_crlf(raw@.skip(i as int)) =~= spec_fold_crlf(raw@.skip(start as int)),
        decreases raw@.len() - i,
    {
        proof {
            assert(raw@.skip(i as int)[0] == raw@[i as int]);
            assert(raw@.skip(i as int).skip(1) =~= raw@.skip(i + 1));
        }
        if raw[i] == '\r' && i + 1 < raw.len() && raw[i + 1] == '\n' {
            proof {
                assert(raw@.skip(i as int)[1] == raw@[i + 1]);
                assert(raw@.skip(i as int).skip(2) =~= raw@.skip(i + 2));
            }
            out.push('\n');
            i = i + 2;
        } else {
            out.push(raw[i]);
            i = i + 1;
        }
    }
    proof {
        assert(spec_fold_crlf(raw@.skip(raw@.len() as int)) =~= Seq::<char>::empty());
        assert(out@ =~= spec_fold_crlf(raw@.skip(start as int)));
    }
    out
}

/// Finds `c` at or after `from` but before `end`.
fn find_char_from_before(v: &Vec<char>, c: char, from: usize, end: usize) -> (r: Option<usize>)
    requires
        from <= end <= v@.len(),
    ensures
        match r {
            Some(i) => Some(i as int) == spec_find_from(v@.take(end as int), c, from as int)
                && from <= i < end,
            None => spec_find_from(v@.take(end as int), c, from as int) is None,
        },
{
    let mut i = from;
    while i < end
        invariant
            from <= i <= end <= v@.len(),
            spec_find_from(v@.take(end as int), c, from as int) == spec_find_from(
                v@.take(end as int),
                c,
                i as int,
            ),
        decreases end - i,
    {
        if v[i] == c {
            return Some(i);
        }
        i = i + 1;
    }
    None
}

/// Finds a blank line: a newline directly after a newline.
fn find_double_newline(v: &Vec<char>, from: usize) -> (r: Option<usize>)
    requires
        from <= v@.len(),
    ensures
        match r {
            Some(i) => Some(i as int) == spec_find_double_newline(v@, from as int) && from <= i
                && i + 2 <= v@.len(),
            None => spec_find_double_newline(v@, from as int) is None,
        },
{
    let mut i = from;
    while v.len() - i > 1
        invariant
            from <= i,
            i <= v@.len(),
            spec_find_double_newline(v@, from as int) == spec_find_double_newline(v@, i as int),
        decreases v@.len() - i,
    {
        if v[i] == '\n' && v[i + 1] == '\n' {
            return Some(i);
        }
        i = i + 1;
    }
    None
}

/// Reads the status code between `a` and `b`.
fn parse_status_code(v: &Vec<char>, a: usize, b: usize) -> (r: u32)
    requires
        a <= b <= v@.len(),
    ensures
        r == spec_status_code(v@.subrange(a as int, b as int)),
{
    let ghost word = v@.subrange(a as int, b as int);
    if a == b {
        return 404;
    }
    let mut acc: u64 = 0;
    let mut i = a;
    proof {
        assert(word.skip(0) =~= word);
    }
    while i < b
        invariant
            a <= i <= b <= v@.len(),
            word == v@.subrange(a as int, b as int),
            acc <= u32::MAX + 1,
            spec_code_fold(word, 0) == spec_code_fold(word.skip(i - a), acc),
        decreases b - i,
    {
        proof {
            assert(word.skip(i - a)[0] == v@[i as int]);
            assert(word.skip(i - a).skip(1) =~= word.skip(i + 1 - a));
        }
        let c = v[i];
        if '0' <= c && c <= '9' {
            let d = ((c as u32) - 0x30) as u64;
            if acc * 10 + d > u32::MAX as u64 {
                acc = u32::MAX as u64 + 1;
            } else {
                acc = acc * 10 + d;
            }
            i = i + 1;
        } else {
            return 404;
        }
    }
    proof {
        assert(word.skip(b - a) =~= Seq::<char>::empty());
    }
    if acc > u32::MAX as u64 {
        404
    } else {
        acc as u32
    }
}

/// Reads the headers between `from` and `end`: one `name: value` per line,
/// both sides trimmed of blanks; a line without a colon is dropped.
fn parse_headers(v: &Vec<char>, from: usize, end: usize) -> (r: Vec<Header>)
    requires
        from <= end <= v@.len(),
    ensures
        headers_view(r@) == spec_parse_headers(v@, from as int, end as int),
{
    let mut headers: Vec<Header> = Vec::new();
    let mut i = from;
    while i < end
        invariant
            from <= i,
            i <= end <= v@.len(),
            spec_parse_headers(v@, from as int, end as int) =~= headers_view(headers@)
                + spec_parse_headers(v@, i as int, end as int),
        decreases end - i,
    {
        let ghost i0 = i as int;
        let line_end = match find_char_from_before(v, '\n', i, end) {
            Some(e) => e,
            None => end,
        };
        match find_char_from_before(v, ':', i, line_end) {
            Some(colon) => {
                let ghost hprev = headers@;
                let name = trimmed_string(v, i, colon);
                let value = trimmed_string(v, colon + 1, line_end);
                headers.push(Header { name, value });
                proof {
                    assert(headers_view(headers@) =~= headers_view(hprev) + seq![
                        (
                            spec_trim_range(v@, i0, colon as int),
                            spec_trim_range(v@, colon + 1, line_end as int),
                        ),
                    ]);
                }
            },
            None => {},
        }
        if line_end < end {
            i = line_end + 1;
        } else {
            i = end;
        }
        proof {
            assert(spec_parse_headers(v@, from as int, end as int) =~= headers_view(headers@)
                + spec_parse_headers(v@, i as int, end as int));
        }
    }
    proof {
        assert(spec_parse_headers(v@, i as int, end as int) =~= Seq::<(Seq<char>, Seq<char>)>::empty());
        assert(headers_view(headers@) + Seq::<(Seq<char>, Seq<char>)>::empty() =~= headers_view(
            headers@,
        ));
    }
    headers
}

/// The characters `[a, b)` with blanks shed at both ends, as a string.
fn trimmed_string(v: &Vec<char>, a: usize, b: usize) -> (r: String)
    requires
        a <= b <= v@.len(),
    ensures
        r@ == spec_trim_range(v@, a as int, b as int),
{
    let mut lo = a;
    while lo < b && (v[lo] == ' ' || v[lo] == '\t' || v[lo] == '\r' || v[lo] == '\n')
        invariant
            a <= lo <= b <= v@.len(),
            spec_skip_blanks(v@, a as int, b as int) == spec_skip_blanks(v@, lo as int, b as int),
        decreases b - lo,
    {
        lo = lo + 1;
    }
    proof {
        assert(lo as int == spec_skip_blanks(v@, a as int, b as int));
    }
    let mut hi = b;
    while hi > lo && (v[hi - 1] == ' ' || v[hi - 1] == '\t' || v[hi - 1] == '\r' || v[hi - 1]
        == '\n')
        invariant
            lo <= hi <= b <= v@.len(),
            spec_shed_blanks(v@, lo as int, b as int) == spec_shed_blanks(v@, lo as int, hi as int),
        decreases hi,
    {
        hi = hi - 1;
    }
    proof {
        assert(hi as int == spec_shed_blanks(v@, lo as int, b as int));
    }
    chars_to_string(v, lo, hi)
}

} // verus!
