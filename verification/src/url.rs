//! The URL type: a plain split of `http://host[:port][/path][?query]` into
//! its parts.  Only the `http` scheme is supported.

use vstd::prelude::*;

use crate::strutil::chars_to_string;
use crate::strutil::find_char_from;
use crate::strutil::spec_find_from;
use crate::strutil::string_to_chars;

verus! {

/// Whether `s` holds `http://` anywhere.
pub open spec fn spec_contains_http(s: Seq<char>) -> bool {
    exists|i: int| 0 <= i && i + 7 <= s.len() && #[trigger] s.subrange(i, i + 7) == "http://"@
}

/// `s` with every leading `http://` shed.
pub open spec fn spec_strip_scheme(s: Seq<char>) -> Seq<char>
    decreases s.len(),
{
    if s.len() >= 7 && s.take(7) == "http://"@ {
        spec_strip_scheme(s.skip(7))
    } else {
        s
    }
}

/// The host-and-port part: everything before the first slash.
pub open spec fn spec_authority(rem: Seq<char>) -> Seq<char> {
    match spec_find_from(rem, '/', 0) {
        Some(i) => rem.take(i),
        None => rem,
    }
}

/// The host: the authority up to its first colon.
pub open spec fn spec_host_of(rem: Seq<char>) -> Seq<char> {
    let auth = spec_authority(rem);
    match spec_find_from(auth, ':', 0) {
        Some(i) => auth.take(i),
        None => auth,
    }
}

/// The port: after the authority's first colon, or 80 without one.
pub open spec fn spec_port_of(rem: Seq<char>) -> Seq<char> {
    let auth = spec_authority(rem);
    match spec_find_from(auth, ':', 0) {
        Some(i) => auth.skip(i + 1),
        None => "80"@,
    }
}

/// The path: after the first slash, up to the first question mark.
pub open spec fn spec_path_of(rem: Seq<char>) -> Seq<char> {
    match spec_find_from(rem, '/', 0) {
        Some(i) => {
            let rest = rem.skip(i + 1);
            match spec_find_from(rest, '?', 0) {
                Some(q) => rest.take(q),
                None => rest,
            }
        },
        None => Seq::<char>::empty(),
    }
}

/// The search part: after the first question mark behind the first slash.
pub open spec fn spec_searchpart_of(rem: Seq<char>) -> Seq<char> {
    match spec_find_from(rem, '/', 0) {
        Some(i) => {
            let rest = rem.skip(i + 1);
            match spec_find_from(rest, '?', 0) {
                Some(q) => rest.skip(q + 1),
                None => Seq::<char>::empty(),
            }
        },
        None => Seq::<char>::empty(),
    }
}

/// A URL, kept with the parts its parse found.
#[derive(Debug, Clone, PartialEq)]
pub struct Url {
    pub url: String,
    pub host: String,
    pub port: String,
    pub path: String,
    pub searchpart: String,
}

impl Url {
    /// Wraps a URL text; the parts stay empty until `parse` fills them.
    pub fn new(url: String) -> (r: Self)
        ensures
            r.url@ == url@,
            r.host@ == Seq::<char>::empty(),
            r.port@ == Seq::<char>::empty(),
            r.path@ == Seq::<char>::empty(),
            r.searchpart@ == Seq::<char>::empty(),
    {
        Self {
            url,
            host: String::new(),
            port: String::new(),
            path: String::new(),
            searchpart: String::new(),
        }
    }

    /// The host part.
    pub fn host(&self) -> (r: String)
        ensures
            r@ == self.host@,
    {
        self.host.clone()
    }

    /// The port part.
    pub fn port(&self) -> (r: String)
        ensures
            r@ == self.port@,
    {
        self.port.clone()
    }

    /// The path part.
    pub fn path(&self) -> (r: String)
        ensures
            r@ == self.path@,
    {
        self.path.clone()
    }

    /// The search part.
    pub fn searchpart(&self) -> (r: String)
        ensures
            r@ == self.searchpart@,
    {
        self.searchpart.clone()
    }

    /// Splits the URL into host, port, path and search part.  A text that
    /// does not hold `http://` is rejected; otherwise the leading scheme is
    /// shed and the remainder splits at the first slash, colon and
    /// question mark.
    pub fn parse(&mut self) -> (r: Result<Url, String>)
        ensures
            (r is Err) == !spec_contains_http(old(self).url@),
            r matches Err(m) ==> (m@ == "Only HTTP scheme is supported."@ && *final(self) == *old(
                self,
            )),
            final(self).url@ == old(self).url@,
            r matches Ok(u) ==> ({
                let rem = spec_strip_scheme(old(self).url@);
                &&& u.url@ == old(self).url@
                &&& u.host@ == spec_host_of(rem) && final(self).host@ == spec_host_of(rem)
                &&& u.port@ == spec_port_of(rem) && final(self).port@ == spec_port_of(rem)
                &&& u.path@ == spec_path_of(rem) && final(self).path@ == spec_path_of(rem)
                &&& u.searchpart@ == spec_searchpart_of(rem) && final(self).searchpart@
                    == spec_searchpart_of(rem)
            }),
    {
        let chars = string_to_chars(self.url.as_str());
        proof {
            vstd::std_specs::vec::axiom_spec_len(&chars);
        }
        if !contains_http(&chars) {
            return Err("Only HTTP scheme is supported.".to_owned());
        }

        let start = strip_scheme(&chars);
        let ghost rem = chars@.skip(start as int);

        // The authority: up to the first slash.
        let slash = find_char_from(&chars, '/', start);
        let auth_end = match slash {
            Some(i) => i,
            None => chars.len(),
        };
        proof {
            lemma_find_skip(chars@, '/', start as int);
            assert(spec_authority(rem) =~= chars@.subrange(start as int, auth_end as int));
        }

        // The host and the port: the authority split at its first colon.
        let colon = find_char_from_before_url(&chars, ':', start, auth_end);
        proof {
            let tk = chars@.take(auth_end as int);
            lemma_find_skip(tk, ':', start as int);
            assert(tk.skip(start as int) =~= chars@.subrange(start as int, auth_end as int));
            assert(spec_authority(rem) =~= chars@.subrange(start as int, auth_end as int));
            assert(tk.skip(start as int) == spec_authority(rem));
        }
        match colon {
            Some(c) => {
                self.host = chars_to_string(&chars, start, c);
                self.port = chars_to_string(&chars, c + 1, auth_end);
                proof {
                    let auth = spec_authority(rem);
                    assert(auth =~= chars@.subrange(start as int, auth_end as int));
                    assert(auth.take(c - start) =~= chars@.subrange(start as int, c as int));
                    assert(auth.skip(c - start + 1) =~= chars@.subrange(c + 1, auth_end as int));
                }
            },
            None => {
                self.host = chars_to_string(&chars, start, auth_end);
                self.port = "80".to_owned();
                proof {
                    let auth = spec_authority(rem);
                    assert(auth =~= chars@.subrange(start as int, auth_end as int));
                }
            },
        }

        // The path and the search part: after the slash, split at the
        // first question mark.
        match slash {
            Some(i) => {
                let q = find_char_from(&chars, '?', i + 1);
                proof {
                    lemma_find_skip_rest(chars@, '?', start as int, i as int);
                }
                match q {
                    Some(qi) => {
                        self.path = chars_to_string(&chars, i + 1, qi);
                        self.searchpart = chars_to_string(&chars, qi + 1, chars.len());
                        proof {
                            let rest = rem.skip(i + 1 - start);
                            assert(rest.take(qi - i - 1) =~= chars@.subrange(i + 1, qi as int));
                            assert(rest.skip(qi - i) =~= chars@.subrange(
                                qi + 1,
                                chars@.len() as int,
                            ));
                        }
                    },
                    None => {
                        self.path = chars_to_string(&chars, i + 1, chars.len());
                        self.searchpart = String::new();
                        proof {
                            let rest = rem.skip(i + 1 - start);
                            assert(rest =~= chars@.subrange(i + 1, chars@.len() as int));
                        }
                    },
                }
            },
            None => {
                self.path = String::new();
                self.searchpart = String::new();
            },
        }

        proof {
            assert(self.host@ == spec_host_of(rem));
            assert(self.port@ == spec_port_of(rem));
            assert(self.path@ == spec_path_of(rem));
            assert(self.searchpart@ == spec_searchpart_of(rem));
        }
        Ok(Url {
            url: self.url.clone(),
            host: self.host.clone(),
            port: self.port.clone(),
            path: self.path.clone(),
            searchpart: self.searchpart.clone(),
        })
    }
}

/// Finding within the remainder is finding within the whole, offset.
proof fn lemma_find_skip(s: Seq<char>, c: char, start: int)
    requires
        0 <= start <= s.len(),
    ensures
        spec_find_from(s.skip(start), c, 0) == (match spec_find_from(s, c, start) {
            Some(i) => Some(i - start),
            None => None::<int>,
        }),
    decreases s.len() - start,
{
    lemma_find_offset(s, c, start, start);
}

/// The general offset step of `lemma_find_skip`.
proof fn lemma_find_offset(s: Seq<char>, c: char, start: int, i: int)
    requires
        0 <= start <= i <= s.len(),
    ensures
        spec_find_from(s.skip(start), c, i - start) == (match spec_find_from(s, c, i) {
            Some(j) => Some(j - start),
            None => None::<int>,
        }),
    decreases s.len() - i,
{
    if i < s.len() {
        assert(s.skip(start)[i - start] == s[i]);
        if s[i] != c {
            lemma_find_offset(s, c, start, i + 1);
        }
    }
}

/// Finding in the piece after the slash is finding in the whole, offset.
proof fn lemma_find_skip_rest(s: Seq<char>, c: char, start: int, slash: int)
    requires
        0 <= start <= slash < s.len(),
    ensures
        spec_find_from(s.skip(start).skip(slash + 1 - start), c, 0) == (match spec_find_from(
            s,
            c,
            slash + 1,
        ) {
            Some(i) => Some(i - slash - 1),
            None => None::<int>,
        }),
{
    assert(s.skip(start).skip(slash + 1 - start) =~= s.skip(slash + 1));
    lemma_find_offset(s, c, slash + 1, slash + 1);
}

/// Whether the text holds `http://` anywhere.
fn contains_http(v: &Vec<char>) -> (r: bool)
    ensures
        r == spec_contains_http(v@),
{
    if v.len() < 7 {
        proof {
            assert(!spec_contains_http(v@));
        }
        return false;
    }
    let mut i: usize = 0;
    while v.len() - i >= 7
        invariant
            i <= v@.len(),
            forall|j: int| 0 <= j < i ==> #[trigger] v@.subrange(j, j + 7) != "http://"@,
        decreases v@.len() - i,
    {
        if scheme_at(v, i) {
            return true;
        }
        i = i + 1;
    }
    proof {
        assert(!spec_contains_http(v@));
    }
    false
}

/// Whether `http://` sits at position `i`.
fn scheme_at(v: &Vec<char>, i: usize) -> (r: bool)
    requires
        i + 7 <= v@.len(),
    ensures
        r == (v@.subrange(i as int, i + 7) == "http://"@),
{
    proof {
        vstd::std_specs::vec::axiom_spec_len(v);
    }
    let hit = v[i] == 'h' && v[i + 1] == 't' && v[i + 2] == 't' && v[i + 3] == 'p' && v[i + 4]
        == ':' && v[i + 5] == '/' && v[i + 6] == '/';
    proof {
        reveal_strlit("http://");
        if hit {
            assert(v@.subrange(i as int, i + 7) =~= "http://"@);
        } else {
            assert(v@.subrange(i as int, i + 7) != "http://"@) by {
                if v@.subrange(i as int, i + 7) == "http://"@ {
                    assert(v@.subrange(i as int, i + 7)[0] == 'h');
                    assert(v@.subrange(i as int, i + 7)[1] == 't');
                    assert(v@.subrange(i as int, i + 7)[2] == 't');
                    assert(v@.subrange(i as int, i + 7)[3] == 'p');
                    assert(v@.subrange(i as int, i + 7)[4] == ':');
                    assert(v@.subrange(i as int, i + 7)[5] == '/');
                    assert(v@.subrange(i as int, i + 7)[6] == '/');
                }
            }
        }
    }
    hit
}

/// The index after every leading `http://`.
fn strip_scheme(v: &Vec<char>) -> (r: usize)
    ensures
        r <= v@.len(),
        v@.skip(r as int) =~= spec_strip_scheme(v@),
{
    let mut i: usize = 0;
    proof {
        assert(v@.skip(0) =~= v@);
    }
    while v.len() - i >= 7 && scheme_at(v, i)
        invariant
            i <= v@.len(),
            spec_strip_scheme(v@) == spec_strip_scheme(v@.skip(i as int)),
        decreases v@.len() - i,
    {
        proof {
            assert(v@.skip(i as int).take(7) =~= v@.subrange(i as int, i + 7));
            assert(v@.skip(i as int).skip(7) =~= v@.skip(i + 7));
        }
        i = i + 7;
    }
    proof {
        if v@.skip(i as int).len() >= 7 {
            assert(v@.skip(i as int).take(7) =~= v@.subrange(i as int, i + 7));
        }
        assert(spec_strip_scheme(v@.skip(i as int)) =~= v@.skip(i as int));
    }
    i
}

/// Finds `c` at or after `from` but before `end`, in the whole text.
fn find_char_from_before_url(v: &Vec<char>, c: char, from: usize, end: usize) -> (r: Option<usize>)
    requires
        from <= end <= v@.len(),
    ensures
        match r {
            Some(i) => Some(i as int) == spec_find_from(v@.take(end as int), c, from as int)
                && from <= i < end,
            None => spec_find_from(v@.take(end as int), c, from as int) is None,
        },
{
    let mut i = from;
    while i < end
        invariant
            from <= i <= end <= v@.len(),
            spec_find_from(v@.take(end as int), c, from as int) == spec_find_from(
                v@.take(end as int),
                c,
                i as int,
            ),
        decreases end - i,
    {
        if v[i] == c {
            return Some(i);
        }
        i = i + 1;
    }
    None
}

} // verus!
