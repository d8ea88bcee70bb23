//! How an entry of a later configuration layer combines with the entry of
//! the same key before it.

use vstd::prelude::*;

verus! {

/// The merge settings of an entry.
#[derive(Debug, Clone, Copy, PartialEq, Eq, Structural)]
pub struct Merge {
    pub only_if: OnlyIf,
    pub behavior: Behavior,
}

/// When an entry takes part in a merge. `bool` would leave unclear what
/// `false` means and would have no way to say "no condition", hence this
/// enum; `Always` is that "no condition" (written `""` in files).
#[derive(Debug, Clone, Copy, PartialEq, Eq, Structural)]
pub enum OnlyIf {
    Always,
    Present,
    NotPresent,
}

/// How two entries combine: field by field, or the later one replaces.
#[derive(Debug, Clone, Copy, PartialEq, Eq, Structural)]
pub enum Behavior {
    Merge,
    Replace,
}

impl Merge {
    /// The default settings: no condition, merge field by field.
    pub open spec fn new_spec() -> Merge {
        Merge { only_if: OnlyIf::Always, behavior: Behavior::Merge }
    }

    /// The default settings: no condition, merge field by field.
    pub fn new() -> (r: Merge)
        ensures
            r == Merge::new_spec(),
    {
        Merge { only_if: OnlyIf::Always, behavior: Behavior::Merge }
    }
}

/// An entry of a configuration map, which merges with a later entry.
pub trait MergeEntry: Sized + View {
    /// The merge settings of an entry.
    spec fn merge_of(v: Self::V) -> Merge;

    /// The entry with its merge settings replaced.
    spec fn with_merge(v: Self::V, m: Merge) -> Self::V;

    /// The field-by-field merge of the entry `a` with the later entry `b`.
    spec fn merged_entries(a: Self::V, b: Self::V) -> Self::V;

    /// Replacing the merge settings replaces just them.
    proof fn lemma_with_merge(v: Self::V, m: Merge)
        ensures
            Self::merge_of(Self::with_merge(v, m)) == m,
    ;

    /// The merge settings.
    fn merge_config(&self) -> (r: &Merge)
        ensures
            *r == Self::merge_of(self@),
    ;

    /// The merge settings, to change them.
    fn merge_config_mut(&mut self) -> (r: &mut Merge)
        ensures
            *r == Self::merge_of(old(self)@),
            final(self)@ == Self::with_merge(old(self)@, *final(r)),
    ;

    /// Merges the later entry `other` into this one field by field.
    fn merge_entries(&mut self, other: Self)
        ensures
            final(self)@ == Self::merged_entries(old(self)@, other@),
    ;
}

/// Merges the later entry `other` into `entry`, as the merge settings of
/// both say: a `NotPresent` entry gives way to a later `NotPresent` one, a
/// later `NotPresent` entry is ignored where there is one already, a later
/// `Present` entry is ignored where the one before is `NotPresent`; else the
/// entries merge field by field where both say `Merge`, and the later one
/// replaces the other otherwise.
pub fn merge_entry<T: MergeEntry>(entry: &mut T, other: T)
    ensures
        final(entry)@ == merged::<T>(old(entry)@, other@),
{
    let a = *entry.merge_config();
    let b = *other.merge_config();
    if a.only_if == OnlyIf::NotPresent && b.only_if == OnlyIf::NotPresent {
        // always use the freshest `NotPresent`
        *entry = other;
        return ;
    }
    if b.only_if == OnlyIf::NotPresent {
        // `other` is ignored where there already is an entry
        return ;
    }
    if a.only_if == OnlyIf::NotPresent && b.only_if == OnlyIf::Present {
        // a `NotPresent` entry does not count as present for `other`
        return ;
    }
    if a.only_if == OnlyIf::NotPresent && b.only_if == OnlyIf::Always {
        let m = entry.merge_config_mut();
        m.only_if = OnlyIf::Always;
    }
    let a2 = *entry.merge_config();
    if a2.behavior == Behavior::Merge && b.behavior == Behavior::Merge {
        entry.merge_entries(other);
    } else {
        *entry = other;
    }
}

/// The entry `a` after merging the later entry `b` into it.
pub open spec fn merged<T: MergeEntry>(a: T::V, b: T::V) -> T::V {
    let ma = T::merge_of(a);
    let mb = T::merge_of(b);
    if ma.only_if == OnlyIf::NotPresent && mb.only_if == OnlyIf::NotPresent {
        b
    } else if mb.only_if == OnlyIf::NotPresent {
        a
    } else if ma.only_if == OnlyIf::NotPresent && mb.only_if == OnlyIf::Present {
        a
    } else {
        let a2 = if ma.only_if == OnlyIf::NotPresent && mb.only_if == OnlyIf::Always {
            T::with_merge(a, Merge { only_if: OnlyIf::Always, ..ma })
        } else {
            a
        };
        if T::merge_of(a2).behavior == Behavior::Merge && mb.behavior == Behavior::Merge {
            T::merged_entries(a2, b)
        } else {
            b
        }
    }
}

/// What the merge settings promise: the freshest `NotPresent` entry wins; a
/// later `NotPresent` entry is ignored where there is an entry; a later
/// `Present` entry is ignored where the entry before is `NotPresent`;
/// otherwise a `Replace` on either side makes the later entry replace, and
/// `Merge` on both merges field by field, a `NotPresent` before an
/// unconditional later entry counting as unconditional.
pub proof fn law_merge_settings<T: MergeEntry>(a: T::V, b: T::V)
    ensures
        T::merge_of(a).only_if == OnlyIf::NotPresent && T::merge_of(b).only_if
            == OnlyIf::NotPresent ==> merged::<T>(a, b) == b,
        T::merge_of(a).only_if != OnlyIf::NotPresent && T::merge_of(b).only_if
            == OnlyIf::NotPresent ==> merged::<T>(a, b) == a,
        T::merge_of(a).only_if == OnlyIf::NotPresent && T::merge_of(b).only_if == OnlyIf::Present
            ==> merged::<T>(a, b) == a,
        T::merge_of(b).only_if != OnlyIf::NotPresent && !(T::merge_of(a).only_if
            == OnlyIf::NotPresent && T::merge_of(b).only_if == OnlyIf::Present) && (T::merge_of(
            a,
        ).behavior == Behavior::Replace || T::merge_of(b).behavior == Behavior::Replace)
            ==> merged::<T>(a, b) == b,
        T::merge_of(a).only_if != OnlyIf::NotPresent && T::merge_of(b).only_if
            != OnlyIf::NotPresent && T::merge_of(a).behavior == Behavior::Merge && T::merge_of(
            b,
        ).behavior == Behavior::Merge ==> merged::<T>(a, b) == T::merged_entries(a, b),
        T::merge_of(a).only_if == OnlyIf::NotPresent && T::merge_of(b).only_if == OnlyIf::Always
            && T::merge_of(a).behavior == Behavior::Merge && T::merge_of(b).behavior
            == Behavior::Merge ==> merged::<T>(a, b) == T::merged_entries(
            T::with_merge(a, Merge { only_if: OnlyIf::Always, ..T::merge_of(a) }),
            b,
        ),
{
    let ma = T::merge_of(a);
    T::lemma_with_merge(a, Merge { only_if: OnlyIf::Always, ..ma });
}

} // verus!
