//! Byte strings as they stand in configuration files.

use vstd::prelude::*;
use vstd::slice::slice_to_vec;
use vstd::string::StringSliceAdditionalSpecFns;

verus! {

/// An owned byte string.
#[derive(Debug, PartialEq, Eq, PartialOrd, Ord, Hash)]
pub struct BString(pub Vec<u8>);

impl View for BString {
    type V = Seq<u8>;

    open spec fn view(&self) -> Seq<u8> {
        self.0@
    }
}

impl Clone for BString {
    fn clone(&self) -> (r: BString)
        ensures
            r@ == self@,
    {
        BString(slice_to_vec(self.0.as_slice()))
    }
}

impl BString {
    /// The byte string holding a copy of `bytes`.
    pub fn from_bytes(bytes: &[u8]) -> (r: BString)
        ensures
            r@ == bytes@,
    {
        BString(slice_to_vec(bytes))
    }

    /// The byte string holding the bytes of `s`.
    pub fn from_str(s: &str) -> (r: BString)
        ensures
            r@ == s.spec_bytes(),
    {
        BString(slice_to_vec(s.as_bytes()))
    }

    /// The bytes of this string.
    pub fn as_bytes(&self) -> (r: &[u8])
        ensures
            r@ == self@,
    {
        self.0.as_slice()
    }

    /// The empty byte string.
    pub fn empty() -> (r: BString)
        ensures
            r@ == Seq::<u8>::empty(),
    {
        BString(Vec::new())
    }
}

/// The bytes of an optional byte string.
pub open spec fn opt_view(o: Option<BString>) -> Option<Seq<u8>> {
    match o {
        Some(s) => Some(s@),
        None => None,
    }
}

/// The bytes of each string of a list.
pub open spec fn seq_view(v: Seq<BString>) -> Seq<Seq<u8>> {
    v.map_values(|s: BString| s@)
}

/// A copy of an optional byte string.
pub fn clone_opt(o: &Option<BString>) -> (r: Option<BString>)
    ensures
        opt_view(r) == opt_view(*o),
{
    match o {
        Some(s) => Some(s.clone()),
        None => None,
    }
}

/// A copy of a list of byte strings.
pub fn clone_list(v: &Vec<BString>) -> (r: Vec<BString>)
    ensures
        seq_view(r@) == seq_view(v@),
{
    let mut r: Vec<BString> = Vec::new();
    let mut i: usize = 0;
    while i < v.len()
        invariant
            i <= v@.len(),
            r@.len() == i,
            forall|j: int| 0 <= j < i ==> (#[trigger] r@[j])@ == v@[j]@,
        decreases v@.len() - i,
    {
        r.push(v[i].clone());
        i = i + 1;
    }
    assert(seq_view(r@) =~= seq_view(v@));
    r
}

} // verus!
