//! One HTML attribute: a `name="value"` pair, built one character at a time
//! while the tokenizer reads a start tag.

use vstd::prelude::*;

use crate::strutil::push_char;

verus! {

/// The mathematical value of an attribute: its name and value as
/// character sequences.
pub ghost struct AttrV {
    pub name: Seq<char>,
    pub value: Seq<char>,
}

/// A `name="value"` pair of a start tag.
#[derive(Debug, Clone)]
pub struct Attribute {
    pub name: String,
    pub value: String,
}

impl Attribute {
    /// An attribute with empty name and empty value.
    pub fn new() -> (r: Self)
        ensures
            r.name@ == Seq::<char>::empty(),
            r.value@ == Seq::<char>::empty(),
    {
        Self { name: String::new(), value: String::new() }
    }

    /// Appends one character: to the name when `is_name`, else to the value.
    pub fn add_char(&mut self, c: char, is_name: bool)
        ensures
            is_name ==> final(self).name@ == old(self).name@.push(c) && final(self).value@ == old(
                self,
            ).value@,
            !is_name ==> final(self).value@ == old(self).value@.push(c) && final(self).name@ == old(
                self,
            ).name@,
    {
        if is_name {
            push_char(&mut self.name, c);
        } else {
            push_char(&mut self.value, c);
        }
    }

    /// The attribute's name.
    pub fn name(&self) -> (r: String)
        ensures
            r@ == self.name@,
    {
        self.name.clone()
    }

    /// The attribute's value.
    pub fn value(&self) -> (r: String)
        ensures
            r@ == self.value@,
    {
        self.value.clone()
    }
}

impl View for Attribute {
    type V = AttrV;

    open spec fn view(&self) -> AttrV {
        AttrV { name: self.name@, value: self.value@ }
    }
}

impl PartialEq for Attribute {
    fn eq(&self, other: &Self) -> (r: bool) {
        let a = &self.name;
        let b = &other.name;
        let c = &self.value;
        let d = &other.value;
        *a == *b && *c == *d
    }
}

impl vstd::std_specs::cmp::PartialEqSpecImpl for Attribute {
    open spec fn obeys_eq_spec() -> bool {
        true
    }

    open spec fn eq_spec(&self, other: &Attribute) -> bool {
        self.name@ == other.name@ && self.value@ == other.value@
    }
}

/// The values of a vector of attributes.
pub open spec fn attrs_view(s: Seq<Attribute>) -> Seq<AttrV> {
    s.map_values(|a: Attribute| a@)
}

/// Compares two attribute vectors by value.
pub fn attrs_eq(a: &Vec<Attribute>, b: &Vec<Attribute>) -> (r: bool)
    ensures
        r == (attrs_view(a@) =~= attrs_view(b@)),
{
    let r = *a == *b;
    proof {
        if r {
            assert(attrs_view(a@) =~= attrs_view(b@));
        }
        if attrs_view(a@) =~= attrs_view(b@) {
            assert forall|i: int| 0 <= i < a@.len() implies #[trigger] a@[i]@ == b@[i]@ by {
                assert(attrs_view(a@)[i] == a@[i]@);
                assert(attrs_view(b@)[i] == b@[i]@);
            }
            assert forall|i: int|
                0 <= i < a@.len() implies vstd::std_specs::cmp::PartialEqSpec::eq_spec(
                &a@[i],
                #[trigger] &b@[i],
            ) by {
                assert(a@[i]@ == b@[i]@);
            }
            assert(r);
        }
    }
    r
}

/// An owned copy of a vector of attributes, by value.
pub fn clone_attrs(a: &Vec<Attribute>) -> (r: Vec<Attribute>)
    ensures
        attrs_view(r@) == attrs_view(a@),
{
    let mut out: Vec<Attribute> = Vec::new();
    let mut i: usize = 0;
    while i < a.len()
        invariant
            i <= a.len(),
            out@.len() == i,
            forall|j: int| 0 <= j < i ==> (#[trigger] out@[j])@ == a@[j]@,
        decreases a.len() - i,
    {
        let x = &a[i];
        out.push(Attribute { name: x.name.clone(), value: x.value.clone() });
        i = i + 1;
    }
    proof {
        assert(attrs_view(out@) =~= attrs_view(a@));
    }
    out
}

} // verus!
