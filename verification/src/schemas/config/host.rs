//! Hosts: where repositories are cloned from.

use crate::schemas::config::bstring::{clone_opt, opt_view, BString};
use crate::schemas::config::common::{Entry, empty_common, or_else, or_opt, Common, CommonView};
use crate::schemas::config::merge::{merge_entry, merged, Merge, MergeEntry};
use vstd::prelude::*;

verus! {

/// A host entry.
#[derive(Debug)]
pub struct Host {
    pub host: Option<BString>,
    pub common: Common,
}

/// A host entry as mathematical values.
pub struct HostView {
    pub host: Option<Seq<u8>>,
    pub common: CommonView,
}

impl View for Host {
    type V = HostView;

    open spec fn view(&self) -> HostView {
        HostView { host: opt_view(self.host), common: self.common@ }
    }
}

impl Host {
    /// The host entry with nothing set.
    pub fn empty() -> (r: Host)
        ensures
            r@ == (HostView { host: None, common: empty_common() }),
    {
        Host { host: None, common: Common::new() }
    }

    /// The entry that the short form `host = "<url>"` stands for.
    pub fn from_short(host: BString) -> (r: Host)
        ensures
            r@ == (HostView { host: Some(host@), common: empty_common() }),
    {
        Host { host: Some(host), common: Common::new() }
    }

    /// A copy of this entry.
    pub fn copy(&self) -> (r: Host)
        ensures
            r@ == self@,
    {
        Host { host: clone_opt(&self.host), common: self.common.copy() }
    }

    /// Merges the later entry `other` into this one, as the merge settings of
    /// both say (see `merge_entry`).
    pub fn merge(&mut self, other: Host)
        ensures
            final(self)@ == merged::<Host>(old(self)@, other@),
    {
        merge_entry(self, other)
    }
}

impl MergeEntry for Host {
    open spec fn merge_of(v: HostView) -> Merge {
        v.common.merge
    }

    open spec fn with_merge(v: HostView, m: Merge) -> HostView {
        HostView { common: CommonView { merge: m, ..v.common }, ..v }
    }

    /// The later entry's host wins; the common fields of the later entry
    /// take those of this one in as a later entry would.
    open spec fn merged_entries(a: HostView, b: HostView) -> HostView {
        HostView { host: or_else(b.host, a.host), common: merged::<Common>(b.common, a.common) }
    }

    proof fn lemma_with_merge(v: HostView, m: Merge) {
    }

    fn merge_config(&self) -> (r: &Merge) {
        &self.common.merge
    }

    fn merge_config_mut(&mut self) -> (r: &mut Merge) {
        &mut self.common.merge
    }

    fn merge_entries(&mut self, other: Host) {
        let Host { host, mut common } = other;
        let mut s = Host::empty();
        std::mem::swap(&mut s, self);
        common.merge(s.common);
        *self = Host { host: or_opt(host, s.host), common };
    }
}

impl Entry for Host {
    open spec fn common_of(v: HostView) -> CommonView {
        v.common
    }

    fn common(&self) -> (r: &Common) {
        &self.common
    }
}

} // verus!
