//! Byte-string searches and the facts about them that the parsers use.

use bstr::ByteSlice;
use vstd::prelude::*;

verus! {

/// `i` is the position of the first byte of `hay` that is a member of `set`.
pub open spec fn is_first_in_set(hay: Seq<u8>, set: Seq<u8>, i: int) -> bool {
    &&& 0 <= i < hay.len()
    &&& set.contains(hay[i])
    &&& forall|j: int| 0 <= j < i ==> !set.contains(#[trigger] hay[j])
}

/// No byte of `hay` is a member of `set`.
pub open spec fn none_in_set(hay: Seq<u8>, set: Seq<u8>) -> bool {
    forall|j: int| 0 <= j < hay.len() ==> !set.contains(#[trigger] hay[j])
}

/// The position of the first byte of `hay` that is a member of `set`, if any.
pub open spec fn first_in_set(hay: Seq<u8>, set: Seq<u8>) -> Option<int>
    decreases hay.len(),
{
    if hay.len() == 0 {
        None
    } else if set.contains(hay[0]) {
        Some(0)
    } else {
        match first_in_set(hay.drop_first(), set) {
            Some(i) => Some(i + 1),
            None => None,
        }
    }
}

/// `first_in_set` finds the first member of the set, and `None` means there is none.
pub proof fn lemma_first_in_set(hay: Seq<u8>, set: Seq<u8>)
    ensures
        first_in_set(hay, set) matches Some(i) ==> is_first_in_set(hay, set, i),
        first_in_set(hay, set) is None ==> none_in_set(hay, set),
    decreases hay.len(),
{
    if hay.len() > 0 && !set.contains(hay[0]) {
        let tail = hay.drop_first();
        lemma_first_in_set(tail, set);
        assert forall|j: int| 1 <= j < hay.len() implies hay[j] == #[trigger] tail[j - 1] by {}
        match first_in_set(tail, set) {
            Some(i) => {
                assert forall|j: int| 0 <= j < i + 1 implies !set.contains(#[trigger] hay[j]) by {
                    if j > 0 {
                        assert(hay[j] == tail[j - 1]);
                    }
                }
            },
            None => {
                assert forall|j: int| 0 <= j < hay.len() implies !set.contains(#[trigger] hay[j]) by {
                    if j > 0 {
                        assert(hay[j] == tail[j - 1]);
                    }
                }
            },
        }
    }
}

/// The characterisation of the first member determines `first_in_set`.
pub proof fn lemma_first_in_set_is(hay: Seq<u8>, set: Seq<u8>, r: Option<int>)
    requires
        r matches Some(i) ==> is_first_in_set(hay, set, i),
        r is None ==> none_in_set(hay, set),
    ensures
        first_in_set(hay, set) == r,
{
    lemma_first_in_set(hay, set);
    match (first_in_set(hay, set), r) {
        (Some(i), Some(k)) => {
            if i < k {
                assert(!set.contains(hay[i]));
            } else if k < i {
                assert(!set.contains(hay[k]));
            }
        },
        (Some(i), None) => {
            assert(!set.contains(hay[i]));
        },
        (None, Some(k)) => {
            assert(!set.contains(hay[k]));
        },
        (None, None) => {},
    }
}

/// Calls `bstr::ByteSlice::find_byteset`: the position of the first byte of
/// `haystack` that is a member of `byteset`, or `None` where no byte of
/// `haystack` is one (in particular where `byteset` is empty).
#[verifier::external_body]
pub(crate) fn find_byteset(haystack: &[u8], byteset: &[u8]) -> (r: Option<usize>)
    ensures
        r matches Some(i) ==> is_first_in_set(haystack@, byteset@, i as int),
        r is None ==> none_in_set(haystack@, byteset@),
{
    haystack.find_byteset(byteset)
}

/// `find_byteset` as the spec function `first_in_set`.
pub fn first_of(haystack: &[u8], byteset: &[u8]) -> (r: Option<usize>)
    ensures
        r matches Some(i) ==> first_in_set(haystack@, byteset@) == Some(i as int) && i
            < haystack@.len(),
        r is None ==> first_in_set(haystack@, byteset@) is None,
{
    let r = find_byteset(haystack, byteset);
    proof {
        let g = match r {
            Some(i) => Some(i as int),
            None => None::<int>,
        };
        lemma_first_in_set_is(haystack@, byteset@, g);
    }
    r
}

/// Byte-wise equality of two byte strings.
pub fn bytes_eq(a: &[u8], b: &[u8]) -> (r: bool)
    ensures
        r == (a@ == b@),
{
    if a.len() != b.len() {
        return false;
    }
    let mut i: usize = 0;
    while i < a.len()
        invariant
            a@.len() == b@.len(),
            i <= a@.len(),
            forall|j: int| 0 <= j < i ==> a@[j] == b@[j],
        decreases a@.len() - i,
    {
        if a[i] != b[i] {
            return false;
        }
        i = i + 1;
    }
    assert(a@ =~= b@);
    true
}

/// Whether `prefix` is a prefix of `hay`.
pub fn has_prefix(hay: &[u8], prefix: &[u8]) -> (r: bool)
    ensures
        r == (prefix@.len() <= hay@.len() && hay@.subrange(0, prefix@.len() as int) == prefix@),
{
    if prefix.len() > hay.len() {
        return false;
    }
    let mut i: usize = 0;
    while i < prefix.len()
        invariant
            prefix@.len() <= hay@.len(),
            i <= prefix@.len(),
            forall|j: int| 0 <= j < i ==> hay@[j] == prefix@[j],
        decreases prefix@.len() - i,
    {
        if hay[i] != prefix[i] {
            assert(hay@.subrange(0, prefix@.len() as int)[i as int] != prefix@[i as int]);
            return false;
        }
        i = i + 1;
    }
    assert(hay@.subrange(0, prefix@.len() as int) =~= prefix@);
    true
}

} // verus!
