//! The fields that every kind of entry has.

use crate::schemas::config::bstring::{opt_view, seq_view, BString};
use crate::schemas::config::merge::{merge_entry, merged, Merge, MergeEntry};
use vstd::prelude::*;

verus! {

/// The fields that every kind of entry has.
#[derive(Debug)]
pub struct Common {
    pub name: Option<BString>,
    pub alias: Vec<BString>,
    pub manifest: Option<BString>,
    pub default: bool,
    pub merge: Merge,
}

/// The common fields as mathematical values.
pub struct CommonView {
    pub name: Option<Seq<u8>>,
    pub alias: Seq<Seq<u8>>,
    pub manifest: Option<Seq<u8>>,
    pub default: bool,
    pub merge: Merge,
}

impl View for Common {
    type V = CommonView;

    open spec fn view(&self) -> CommonView {
        CommonView {
            name: opt_view(self.name),
            alias: seq_view(self.alias@),
            manifest: opt_view(self.manifest),
            default: self.default,
            merge: self.merge,
        }
    }
}

/// A kind of entry: each has the common fields.
pub trait Entry: View + Sized {
    /// The common fields of an entry.
    spec fn common_of(v: Self::V) -> CommonView;

    /// The common fields.
    fn common(&self) -> (r: &Common)
        ensures
            r@ == Self::common_of(self@),
    ;
}

/// `a` where it is present, else `b`.
pub open spec fn or_else<T>(a: Option<T>, b: Option<T>) -> Option<T> {
    match a {
        Some(_) => a,
        None => b,
    }
}

/// `a` where it is present, else `b`.
pub fn or_opt<T>(a: Option<T>, b: Option<T>) -> (r: Option<T>)
    ensures
        r == or_else(a, b),
{
    match a {
        Some(x) => Some(x),
        None => b,
    }
}

/// The common fields of no entry: nothing set, default merge settings.
pub open spec fn empty_common() -> CommonView {
    CommonView {
        name: None,
        alias: Seq::empty(),
        manifest: None,
        default: false,
        merge: Merge { only_if: crate::schemas::config::merge::OnlyIf::Always, behavior: crate::schemas::config::merge::Behavior::Merge },
    }
}

impl Common {
    /// The common fields of no entry: nothing set, default merge settings.
    pub fn new() -> (r: Common)
        ensures
            r@ == empty_common(),
    {
        let r = Common {
            name: None,
            alias: Vec::new(),
            manifest: None,
            default: false,
            merge: Merge::new(),
        };
        assert(r@.alias =~= Seq::<Seq<u8>>::empty());
        r
    }

    /// A copy of these fields.
    pub fn copy(&self) -> (r: Common)
        ensures
            r@ == self@,
    {
        Common {
            name: crate::schemas::config::bstring::clone_opt(&self.name),
            alias: crate::schemas::config::bstring::clone_list(&self.alias),
            manifest: crate::schemas::config::bstring::clone_opt(&self.manifest),
            default: self.default,
            merge: self.merge,
        }
    }
}

impl MergeEntry for Common {
    open spec fn merge_of(v: CommonView) -> Merge {
        v.merge
    }

    open spec fn with_merge(v: CommonView, m: Merge) -> CommonView {
        CommonView { merge: m, ..v }
    }

    /// The later entry's name and manifest win, its aliases come first, the
    /// default flag is set where either has it, and the merge settings stay.
    open spec fn merged_entries(a: CommonView, b: CommonView) -> CommonView {
        CommonView {
            name: or_else(b.name, a.name),
            alias: b.alias + a.alias,
            manifest: or_else(b.manifest, a.manifest),
            default: b.default || a.default,
            merge: a.merge,
        }
    }

    proof fn lemma_with_merge(v: CommonView, m: Merge) {
    }

    fn merge_config(&self) -> (r: &Merge) {
        &self.merge
    }

    fn merge_config_mut(&mut self) -> (r: &mut Merge) {
        &mut self.merge
    }

    fn merge_entries(&mut self, other: Common) {
        let Common { name, mut alias, manifest, default, merge: _ } = other;
        let mut s = Common::new();
        std::mem::swap(&mut s, self);
        let mut s_alias = s.alias;
        let ghost a1 = alias@;
        let ghost a2 = s_alias@;
        alias.append(&mut s_alias);
        assert(seq_view(alias@) =~= seq_view(a1) + seq_view(a2));
        *self = Common {
            name: or_opt(name, s.name),
            alias,
            manifest: or_opt(manifest, s.manifest),
            default: default || s.default,
            merge: s.merge,
        };
    }
}

impl Common {
    /// Merges the later fields `other` into these, as the merge settings of
    /// both say (see `merge_entry`).
    pub fn merge(&mut self, other: Common)
        ensures
            final(self)@ == merged::<Common>(old(self)@, other@),
    {
        merge_entry(self, other)
    }
}

} // verus!
