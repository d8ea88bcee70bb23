//! Repos: bare repositories in the storage.

use crate::schemas::config::bstring::{clone_opt, opt_view, BString};
use crate::schemas::config::common::{Entry, empty_common, or_else, or_opt, Common, CommonView};
use crate::schemas::config::merge::{merge_entry, merged, Merge, MergeEntry};
use vstd::prelude::*;

verus! {

/// A repo entry.
#[derive(Debug)]
pub struct Repo {
    /// path pointing to the repo; a template may point to several
    pub path: Option<BString>,
    pub url: Option<BString>,
    pub common: Common,
}

/// A repo entry as mathematical values.
pub struct RepoView {
    pub path: Option<Seq<u8>>,
    pub url: Option<Seq<u8>>,
    pub common: CommonView,
}

impl View for Repo {
    type V = RepoView;

    open spec fn view(&self) -> RepoView {
        RepoView { path: opt_view(self.path), url: opt_view(self.url), common: self.common@ }
    }
}

impl Repo {
    /// The repo entry with nothing set.
    pub fn empty() -> (r: Repo)
        ensures
            r@ == (RepoView { path: None, url: None, common: empty_common() }),
    {
        Repo { path: None, url: None, common: Common::new() }
    }

    /// The entry that the short form `repo = "<name>"` stands for.
    pub fn from_short(name: BString) -> (r: Repo)
        ensures
            r@ == (RepoView {
                path: None,
                url: None,
                common: CommonView { name: Some(name@), ..empty_common() },
            }),
    {
        let mut common = Common::new();
        common.name = Some(name);
        Repo { path: None, url: None, common }
    }

    /// A copy of this entry.
    pub fn copy(&self) -> (r: Repo)
        ensures
            r@ == self@,
    {
        Repo { path: clone_opt(&self.path), url: clone_opt(&self.url), common: self.common.copy() }
    }

    /// Merges the later entry `other` into this one, as the merge settings of
    /// both say (see `merge_entry`).
    pub fn merge(&mut self, other: Repo)
        ensures
            final(self)@ == merged::<Repo>(old(self)@, other@),
    {
        merge_entry(self, other)
    }
}

impl MergeEntry for Repo {
    open spec fn merge_of(v: RepoView) -> Merge {
        v.common.merge
    }

    open spec fn with_merge(v: RepoView, m: Merge) -> RepoView {
        RepoView { common: CommonView { merge: m, ..v.common }, ..v }
    }

    /// The later entry's path and url win; the common fields merge field by
    /// field (see `Common`).
    open spec fn merged_entries(a: RepoView, b: RepoView) -> RepoView {
        RepoView {
            path: or_else(b.path, a.path),
            url: or_else(b.url, a.url),
            common: Common::merged_entries(a.common, b.common),
        }
    }

    proof fn lemma_with_merge(v: RepoView, m: Merge) {
    }

    fn merge_config(&self) -> (r: &Merge) {
        &self.common.merge
    }

    fn merge_config_mut(&mut self) -> (r: &mut Merge) {
        &mut self.common.merge
    }

    fn merge_entries(&mut self, other: Repo) {
        let Repo { path, url, common } = other;
        let mut s = Repo::empty();
        std::mem::swap(&mut s, self);
        let mut c = s.common;
        c.merge_entries(common);
        *self = Repo { path: or_opt(path, s.path), url: or_opt(url, s.url), common: c };
    }
}

/// The defaults that a repo names.
#[derive(Debug)]
pub struct RepoDefault {
    pub default: bool,
    /// The default host of this repo
    pub host: Option<BString>,
    /// The default tree of this repo
    pub tree: Option<BString>,
    /// The default open of this repo
    pub open: Option<BString>,
}

/// The defaults of a repo as mathematical values.
pub struct RepoDefaultView {
    pub default: bool,
    pub host: Option<Seq<u8>>,
    pub tree: Option<Seq<u8>>,
    pub open: Option<Seq<u8>>,
}

impl View for RepoDefault {
    type V = RepoDefaultView;

    open spec fn view(&self) -> RepoDefaultView {
        RepoDefaultView {
            default: self.default,
            host: opt_view(self.host),
            tree: opt_view(self.tree),
            open: opt_view(self.open),
        }
    }
}

impl RepoDefault {
    /// The defaults that the short form `default = <bool>` stands for.
    pub fn from_short(default: bool) -> (r: RepoDefault)
        ensures
            r@ == (RepoDefaultView { default, host: None, tree: None, open: None }),
    {
        RepoDefault { default, host: None, tree: None, open: None }
    }

    /// Merges the later defaults `other` into these: the flag is set where
    /// either has it, and each name of `other` wins where it is present.
    pub fn merge(&mut self, other: RepoDefault)
        ensures
            final(self)@ == (RepoDefaultView {
                default: other@.default || old(self)@.default,
                host: or_else(other@.host, old(self)@.host),
                tree: or_else(other@.tree, old(self)@.tree),
                open: or_else(other@.open, old(self)@.open),
            }),
    {
        let RepoDefault { default, host, tree, open } = other;
        let mut s = RepoDefault::from_short(false);
        std::mem::swap(&mut s, self);
        *self = RepoDefault {
            default: default || s.default,
            host: or_opt(host, s.host),
            tree: or_opt(tree, s.tree),
            open: or_opt(open, s.open),
        };
    }
}

impl Entry for Repo {
    open spec fn common_of(v: RepoView) -> CommonView {
        v.common
    }

    fn common(&self) -> (r: &Common) {
        &self.common
    }
}

} // verus!
