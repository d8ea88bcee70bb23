//! Maps of configuration entries keyed by byte strings, kept in key order.
//!
//! The entries are a list sorted by key with no key twice, so walking the
//! list visits the keys in order, as a `BTreeMap` does.

use crate::schemas::config::bstring::BString;
use crate::schemas::config::merge::{merge_entry, merged, MergeEntry};
use crate::schemas::utils::keys::{
    compare_keys, lemma_lex_irreflexive, lemma_lex_total, lemma_lex_transitive, lex_lt, KeyOrder,
};
use vstd::prelude::*;

verus! {

/// The keys of the entries strictly increase.
pub open spec fn keys_sorted<V>(s: Seq<(Seq<u8>, V)>) -> bool {
    forall|i: int, j: int| 0 <= i < j < s.len() ==> lex_lt(#[trigger] s[i].0, #[trigger] s[j].0)
}

/// Some entry of `s` has the key `k`.
pub open spec fn has_key<V>(s: Seq<(Seq<u8>, V)>, k: Seq<u8>) -> bool {
    exists|i: int| 0 <= i < s.len() && #[trigger] s[i].0 == k
}

/// A place of an entry of `s` with the key `k`.
pub open spec fn key_index<V>(s: Seq<(Seq<u8>, V)>, k: Seq<u8>) -> int {
    choose|i: int| 0 <= i < s.len() && #[trigger] s[i].0 == k
}

/// The map from keys to values of a list of entries.
pub open spec fn entries_map<V>(s: Seq<(Seq<u8>, V)>) -> Map<Seq<u8>, V> {
    Map::new(|k: Seq<u8>| has_key(s, k), |k: Seq<u8>| s[key_index(s, k)].1)
}

/// Entries keyed by byte strings, in key order.
#[derive(Debug)]
pub struct EntryMap<V: View> {
    entries: Vec<(BString, V)>,
}

impl<V: View> View for EntryMap<V> {
    type V = Seq<(Seq<u8>, V::V)>;

    closed spec fn view(&self) -> Seq<(Seq<u8>, V::V)> {
        self.entries@.map_values(|e: (BString, V)| (e.0@, e.1@))
    }
}

impl<V: View> EntryMap<V> {
    /// The keys are in order with none twice.
    #[verifier::type_invariant]
    pub open spec fn keys_in_order(self) -> bool {
        keys_sorted(self@)
    }

    /// The map from keys to the values' views.
    pub open spec fn map(&self) -> Map<Seq<u8>, V::V> {
        entries_map(self@)
    }
}

/// In a sorted list each key stands at one place.
pub proof fn lemma_sorted_unique<V>(s: Seq<(Seq<u8>, V)>, i: int, j: int)
    requires
        keys_sorted(s),
        0 <= i < s.len(),
        0 <= j < s.len(),
        s[i].0 == s[j].0,
    ensures
        i == j,
{
    if i < j {
        lemma_lex_irreflexive(s[i].0);
    } else if j < i {
        lemma_lex_irreflexive(s[i].0);
    }
}

/// The map of a sorted list holds each entry.
pub proof fn lemma_map_at<V>(s: Seq<(Seq<u8>, V)>, i: int)
    requires
        keys_sorted(s),
        0 <= i < s.len(),
    ensures
        entries_map(s).contains_key(s[i].0),
        entries_map(s)[s[i].0] == s[i].1,
{
    let k = s[i].0;
    assert(has_key(s, k));
    let c = key_index(s, k);
    lemma_sorted_unique(s, i, c);
    assert(entries_map(s)[k] == s[c].1);
}

/// A key found in the map of a sorted list stands at some place of it.
pub proof fn lemma_map_key<V>(s: Seq<(Seq<u8>, V)>, k: Seq<u8>) -> (i: int)
    requires
        keys_sorted(s),
        entries_map(s).contains_key(k),
    ensures
        0 <= i < s.len(),
        s[i].0 == k,
        entries_map(s)[k] == s[i].1,
{
    let i = choose|i: int| 0 <= i < s.len() && #[trigger] s[i].0 == k;
    lemma_map_at(s, i);
    i
}

/// Inserting a new key at its place keeps the list sorted and adds the key
/// to the map.
pub proof fn lemma_insert_at<V>(s: Seq<(Seq<u8>, V)>, p: int, k: Seq<u8>, v: V)
    requires
        keys_sorted(s),
        0 <= p <= s.len(),
        forall|j: int| 0 <= j < p ==> lex_lt(#[trigger] s[j].0, k),
        forall|j: int| p <= j < s.len() ==> lex_lt(k, #[trigger] s[j].0),
    ensures
        keys_sorted(s.insert(p, (k, v))),
        entries_map(s.insert(p, (k, v))) == entries_map(s).insert(k, v),
{
    let t = s.insert(p, (k, v));
    assert forall|i: int, j: int| 0 <= i < j < t.len() implies lex_lt(
        #[trigger] t[i].0,
        #[trigger] t[j].0,
    ) by {
        if i < p && j < p {
        } else if i < p && j == p {
        } else if i < p && j > p {
            assert(t[j] == s[j - 1]);
            lemma_lex_transitive(s[i].0, k, s[j - 1].0);
        } else if i == p {
            assert(t[j] == s[j - 1]);
        } else {
            assert(t[i] == s[i - 1]);
            assert(t[j] == s[j - 1]);
        }
    }
    let m1 = entries_map(t);
    let m2 = entries_map(s).insert(k, v);
    assert forall|q: Seq<u8>| m1.contains_key(q) <==> m2.contains_key(q) by {
        if m1.contains_key(q) {
            let i = choose|i: int| 0 <= i < t.len() && #[trigger] t[i].0 == q;
            if i < p {
                assert(s[i].0 == q);
            } else if i > p {
                assert(s[i - 1].0 == q);
            }
        }
        if m2.contains_key(q) && q != k {
            let i = choose|i: int| 0 <= i < s.len() && #[trigger] s[i].0 == q;
            if i < p {
                assert(t[i].0 == q);
            } else {
                assert(t[i + 1].0 == q);
            }
        }
        if q == k {
            assert(t[p].0 == q);
        }
    }
    assert forall|q: Seq<u8>| #[trigger] m1.contains_key(q) implies m1[q] == m2[q] by {
        let i = lemma_map_key(t, q);
        if i < p {
            assert(t[i] == s[i]);
            lemma_map_at(s, i);
            lemma_lex_irreflexive(k);
        } else if i > p {
            assert(t[i] == s[i - 1]);
            lemma_map_at(s, i - 1);
            lemma_lex_irreflexive(k);
        }
    }
    assert(m1 =~= m2);
}

/// Replacing the value at a place keeps the keys and maps that key to the
/// new value.
pub proof fn lemma_update_at<V>(s: Seq<(Seq<u8>, V)>, i: int, v: V)
    requires
        keys_sorted(s),
        0 <= i < s.len(),
    ensures
        keys_sorted(s.update(i, (s[i].0, v))),
        entries_map(s.update(i, (s[i].0, v))) == entries_map(s).insert(s[i].0, v),
{
    let t = s.update(i, (s[i].0, v));
    assert forall|a: int, b: int| 0 <= a < b < t.len() implies lex_lt(
        #[trigger] t[a].0,
        #[trigger] t[b].0,
    ) by {
        assert(t[a].0 == s[a].0);
        assert(t[b].0 == s[b].0);
    }
    let m1 = entries_map(t);
    let m2 = entries_map(s).insert(s[i].0, v);
    assert forall|q: Seq<u8>| m1.contains_key(q) <==> m2.contains_key(q) by {
        if m1.contains_key(q) {
            let a = choose|a: int| 0 <= a < t.len() && #[trigger] t[a].0 == q;
            assert(s[a].0 == q);
        }
        if m2.contains_key(q) {
            if q == s[i].0 {
                assert(t[i].0 == q);
            } else {
                let a = choose|a: int| 0 <= a < s.len() && #[trigger] s[a].0 == q;
                assert(t[a].0 == q);
            }
        }
    }
    assert forall|q: Seq<u8>| #[trigger] m1.contains_key(q) implies m1[q] == m2[q] by {
        let a = lemma_map_key(t, q);
        if a != i {
            assert(t[a] == s[a]);
            lemma_map_at(s, a);
            if s[a].0 == s[i].0 {
                lemma_sorted_unique(s, a, i);
            }
        }
    }
    assert(m1 =~= m2);
}

/// Taking the last entry off a sorted list leaves it sorted, with that key
/// gone from the map.
pub proof fn lemma_drop_last<V>(s: Seq<(Seq<u8>, V)>)
    requires
        keys_sorted(s),
        s.len() > 0,
    ensures
        keys_sorted(s.drop_last()),
        !entries_map(s.drop_last()).contains_key(s.last().0),
        entries_map(s) == entries_map(s.drop_last()).insert(s.last().0, s.last().1),
{
    let t = s.drop_last();
    let n = s.len() - 1;
    assert forall|a: int, b: int| 0 <= a < b < t.len() implies lex_lt(
        #[trigger] t[a].0,
        #[trigger] t[b].0,
    ) by {
        assert(t[a] == s[a]);
        assert(t[b] == s[b]);
    }
    if entries_map(t).contains_key(s.last().0) {
        let a = lemma_map_key(t, s.last().0);
        assert(t[a] == s[a]);
        lemma_sorted_unique(s, a, n);
    }
    let m1 = entries_map(s);
    let m2 = entries_map(t).insert(s.last().0, s.last().1);
    assert forall|q: Seq<u8>| m1.contains_key(q) <==> m2.contains_key(q) by {
        if m1.contains_key(q) && q != s.last().0 {
            let a = choose|a: int| 0 <= a < s.len() && #[trigger] s[a].0 == q;
            assert(t[a].0 == q);
        }
        if m2.contains_key(q) && q != s.last().0 {
            let a = choose|a: int| 0 <= a < t.len() && #[trigger] t[a].0 == q;
            assert(s[a].0 == q);
        }
        if q == s.last().0 {
            assert(s[n].0 == q);
        }
    }
    assert forall|q: Seq<u8>| #[trigger] m1.contains_key(q) implies m1[q] == m2[q] by {
        let a = lemma_map_key(s, q);
        if a != n {
            assert(t[a] == s[a]);
            lemma_map_at(t, a);
            lemma_lex_irreflexive(q);
        }
    }
    assert(m1 =~= m2);
}

/// Two sorted lists with the same map are the same list.
pub proof fn lemma_same_map_same_list<V>(a: Seq<(Seq<u8>, V)>, b: Seq<(Seq<u8>, V)>)
    requires
        keys_sorted(a),
        keys_sorted(b),
        entries_map(a) == entries_map(b),
    ensures
        a == b,
    decreases a.len(),
{
    if a.len() == 0 {
        if b.len() > 0 {
            lemma_map_at(b, 0);
        }
        assert(a =~= b);
    } else {
        if b.len() == 0 {
            lemma_map_at(a, 0);
        }
        let n = a.len() - 1;
        let m = b.len() - 1;
        let ka = a[n].0;
        let kb = b[m].0;
        lemma_map_at(a, n);
        let j = lemma_map_key(b, ka);
        lemma_map_at(b, m);
        let i = lemma_map_key(a, kb);
        if j < m {
            if i < n {
                lemma_lex_transitive(ka, kb, ka);
            }
            lemma_lex_irreflexive(ka);
        }
        assert(j == m);
        lemma_drop_last(a);
        lemma_drop_last(b);
        let ma = entries_map(a.drop_last());
        let mb = entries_map(b.drop_last());
        assert forall|q: Seq<u8>| #[trigger] ma.contains_key(q) == mb.contains_key(q) by {
            if q != ka {
                assert(entries_map(a).contains_key(q) == ma.contains_key(q));
                assert(entries_map(b).contains_key(q) == mb.contains_key(q));
            }
        }
        assert forall|q: Seq<u8>| #[trigger] ma.contains_key(q) implies ma[q] == mb[q] by {
            assert(q != ka);
            assert(entries_map(a)[q] == ma[q]);
            assert(entries_map(b)[q] == mb[q]);
        }
        assert(ma =~= mb);
        lemma_same_map_same_list(a.drop_last(), b.drop_last());
        assert(a =~= a.drop_last().push(a[n]));
        assert(b =~= b.drop_last().push(b[m]));
    }
}

/// The sorted list of the entries of a map.
pub open spec fn sorted_entries<V>(m: Map<Seq<u8>, V>) -> Seq<(Seq<u8>, V)> {
    choose|s: Seq<(Seq<u8>, V)>| keys_sorted(s) && entries_map(s) == m
}

/// A sorted list is the sorted list of the entries of its map.
pub proof fn lemma_sorted_entries<V>(s: Seq<(Seq<u8>, V)>)
    requires
        keys_sorted(s),
    ensures
        sorted_entries(entries_map(s)) == s,
{
    let t = sorted_entries(entries_map(s));
    assert(keys_sorted(t) && entries_map(t) == entries_map(s));
    lemma_same_map_same_list(t, s);
}

/// Where a key stands in a sorted list, or where it would be inserted.
pub open spec fn is_place<V>(s: Seq<(Seq<u8>, V)>, k: Seq<u8>, p: int) -> bool {
    &&& 0 <= p <= s.len()
    &&& forall|j: int| 0 <= j < p ==> lex_lt(#[trigger] s[j].0, k)
    &&& forall|j: int| p <= j < s.len() ==> lex_lt(k, #[trigger] s[j].0)
}

/// The view of a list of entries.
pub open spec fn entries_view<V: View>(e: Seq<(BString, V)>) -> Seq<(Seq<u8>, V::V)> {
    e.map_values(|e: (BString, V)| (e.0@, e.1@))
}

impl<V: View> EntryMap<V> {
    /// The empty map.
    pub fn new() -> (r: EntryMap<V>)
        ensures
            r@ == Seq::<(Seq<u8>, V::V)>::empty(),
    {
        let r = EntryMap { entries: Vec::new() };
        assert(r@ =~= Seq::<(Seq<u8>, V::V)>::empty());
        r
    }

    /// The number of entries.
    pub fn len(&self) -> (r: usize)
        ensures
            r == self@.len(),
    {
        self.entries.len()
    }

    /// The entry at place `i`.
    pub fn entry(&self, i: usize) -> (r: (&BString, &V))
        requires
            i < self@.len(),
        ensures
            (r.0@, r.1@) == self@[i as int],
    {
        let e = &self.entries[i];
        (&e.0, &e.1)
    }

    /// The place of `key`: `Ok` where an entry has it, `Err` with the place
    /// where it would be inserted otherwise.
    pub fn find(&self, key: &[u8]) -> (r: Result<usize, usize>)
        ensures
            r matches Ok(i) ==> i < self@.len() && self@[i as int].0 == key@,
            r matches Err(p) ==> is_place(self@, key@, p as int),
    {
        proof {
            use_type_invariant(self);
        }
        let mut i: usize = 0;
        while i < self.entries.len()
            invariant
                keys_sorted(self@),
                i <= self@.len(),
                forall|j: int| 0 <= j < i ==> lex_lt(#[trigger] self@[j].0, key@),
            decreases self@.len() - i,
        {
            let c = compare_keys(self.entries[i].0.as_bytes(), key);
            assert(self@[i as int].0 == self.entries@[i as int].0@);
            match c {
                KeyOrder::Equal => {
                    return Ok(i);
                },
                KeyOrder::Greater => {
                    assert forall|j: int| i <= j < self@.len() implies lex_lt(
                        key@,
                        #[trigger] self@[j].0,
                    ) by {
                        if j > i {
                            lemma_lex_transitive(key@, self@[i as int].0, self@[j].0);
                        }
                    }
                    return Err(i);
                },
                KeyOrder::Less => {},
            }
            i = i + 1;
        }
        Err(i)
    }

    /// Whether an entry has the key `key`.
    pub fn contains_key(&self, key: &[u8]) -> (r: bool)
        ensures
            r == self.map().contains_key(key@),
    {
        proof {
            use_type_invariant(self);
        }
        match self.find(key) {
            Ok(i) => {
                proof {
                    lemma_map_at(self@, i as int);
                }
                true
            },
            Err(p) => {
                proof {
                    if self.map().contains_key(key@) {
                        let i = lemma_map_key(self@, key@);
                        lemma_lex_irreflexive(key@);
                    }
                }
                false
            },
        }
    }

    /// The value of the entry with the key `key`.
    pub fn get(&self, key: &[u8]) -> (r: Option<&V>)
        ensures
            r matches Some(v) ==> self.map().contains_key(key@) && self.map()[key@] == v@,
            r is None ==> !self.map().contains_key(key@),
    {
        proof {
            use_type_invariant(self);
        }
        match self.find(key) {
            Ok(i) => {
                proof {
                    lemma_map_at(self@, i as int);
                }
                Some(&self.entries[i].1)
            },
            Err(p) => {
                proof {
                    if self.map().contains_key(key@) {
                        let i = lemma_map_key(self@, key@);
                        lemma_lex_irreflexive(key@);
                    }
                }
                None
            },
        }
    }

    /// Sets the entry of `key` to `value`, adding it where it is new.
    pub fn insert(&mut self, key: BString, value: V)
        ensures
            final(self).map() == old(self).map().insert(key@, value@),
    {
        proof {
            use_type_invariant(&*self);
        }
        let ghost k = key@;
        let ghost v = value@;
        let ghost s = self@;
        let found = self.find(key.as_bytes());
        let mut entries: Vec<(BString, V)> = Vec::new();
        std::mem::swap(&mut entries, &mut self.entries);
        assert(entries_view(entries@) == s);
        match found {
            Ok(i) => {
                proof {
                    lemma_update_at(s, i as int, v);
                }
                let (old_key, _) = entries.remove(i);
                entries.insert(i, (old_key, value));
                assert(entries_view(entries@) =~= s.update(i as int, (s[i as int].0, v)));
            },
            Err(p) => {
                proof {
                    lemma_insert_at(s, p as int, k, v);
                }
                entries.insert(p, (key, value));
                assert(entries_view(entries@) =~= s.insert(p as int, (k, v)));
            },
        }
        self.entries = entries;
    }

    /// Takes off the entry with the greatest key.
    pub fn pop(&mut self) -> (r: Option<(BString, V)>)
        ensures
            match r {
                Some(e) => old(self)@.len() > 0 && (e.0@, e.1@) == old(self)@.last()
                    && final(self)@ == old(self)@.drop_last(),
                None => old(self)@.len() == 0 && final(self)@ == old(self)@,
            },
    {
        proof {
            use_type_invariant(&*self);
        }
        let ghost s = self@;
        let mut entries: Vec<(BString, V)> = Vec::new();
        std::mem::swap(&mut entries, &mut self.entries);
        assert(entries_view(entries@) == s);
        let r = entries.pop();
        proof {
            if s.len() > 0 {
                assert(entries_view(entries@) =~= s.drop_last());
                lemma_drop_last(s);
            } else {
                assert(entries_view(entries@) =~= s);
            }
        }
        self.entries = entries;
        r
    }

    /// Adds the entries of `other`, which replace those of the same keys.
    pub fn extend(&mut self, other: EntryMap<V>)
        ensures
            final(self).map() == old(self).map().union_prefer_right(other.map()),
    {
        let mut rest = other;
        let ghost o = rest.map();
        let ghost start = self.map();
        loop
            invariant
                start == old(self).map(),
                o == other.map(),
                start.union_prefer_right(o) == self.map().union_prefer_right(rest.map()),
            decreases rest@.len(),
        {
            proof {
                use_type_invariant(&rest);
            }
            let ghost before = rest@;
            match rest.pop() {
                Some((k, v)) => {
                    proof {
                        lemma_drop_last(before);
                    }
                    self.insert(k, v);
                    assert(start.union_prefer_right(o) =~= self.map().union_prefer_right(
                        rest.map(),
                    ));
                },
                None => {
                    assert(rest.map() =~= Map::<Seq<u8>, V::V>::empty());
                    assert(self.map().union_prefer_right(rest.map()) =~= self.map());
                    return ;
                },
            }
        }
    }
}

impl<V: MergeEntry> EntryMap<V> {
    /// Merges `value` into the entry of `key` as a later entry (see
    /// `merge_entry`), or adds it where there is none.
    pub fn merge_value(&mut self, key: BString, value: V)
        ensures
            final(self).map() == old(self).map().insert(
                key@,
                if old(self).map().contains_key(key@) {
                    merged::<V>(old(self).map()[key@], value@)
                } else {
                    value@
                },
            ),
    {
        proof {
            use_type_invariant(&*self);
        }
        let ghost k = key@;
        let ghost s = self@;
        let found = self.find(key.as_bytes());
        match found {
            Ok(i) => {
                proof {
                    lemma_map_at(s, i as int);
                }
                let mut entries: Vec<(BString, V)> = Vec::new();
                std::mem::swap(&mut entries, &mut self.entries);
                assert(entries_view(entries@) == s);
                let (old_key, mut entry) = entries.remove(i);
                let ghost before = entry@;
                merge_entry(&mut entry, value);
                let ghost v = entry@;
                proof {
                    lemma_update_at(s, i as int, v);
                }
                entries.insert(i, (old_key, entry));
                assert(entries_view(entries@) =~= s.update(i as int, (s[i as int].0, v)));
                self.entries = entries;
            },
            Err(p) => {
                proof {
                    if self.map().contains_key(k) {
                        let i = lemma_map_key(s, k);
                        lemma_lex_irreflexive(k);
                    }
                }
                self.insert(key, value);
            },
        }
    }
}

} // verus!
