//! Trees: worktrees checked out of a repo.

use crate::schemas::config::bstring::{clone_opt, opt_view, BString};
use crate::schemas::config::common::{Entry, empty_common, or_else, or_opt, Common, CommonView};
use crate::schemas::config::merge::{merge_entry, merged, Merge, MergeEntry};
use vstd::prelude::*;

verus! {

/// A tree entry.
#[derive(Debug)]
pub struct Tree {
    /// path pointing to the tree; a template may point to several
    pub path: Option<BString>,
    pub branch: Option<BString>,
    pub common: Common,
}

/// A tree entry as mathematical values.
pub struct TreeView {
    pub path: Option<Seq<u8>>,
    pub branch: Option<Seq<u8>>,
    pub common: CommonView,
}

impl View for Tree {
    type V = TreeView;

    open spec fn view(&self) -> TreeView {
        TreeView { path: opt_view(self.path), branch: opt_view(self.branch), common: self.common@ }
    }
}

impl Tree {
    /// The tree entry with nothing set.
    pub fn empty() -> (r: Tree)
        ensures
            r@ == (TreeView { path: None, branch: None, common: empty_common() }),
    {
        Tree { path: None, branch: None, common: Common::new() }
    }

    /// The entry that the short form `tree = "<name>"` stands for.
    pub fn from_short(name: BString) -> (r: Tree)
        ensures
            r@ == (TreeView {
                path: None,
                branch: None,
                common: CommonView { name: Some(name@), ..empty_common() },
            }),
    {
        let mut common = Common::new();
        common.name = Some(name);
        Tree { path: None, branch: None, common }
    }

    /// A copy of this entry.
    pub fn copy(&self) -> (r: Tree)
        ensures
            r@ == self@,
    {
        Tree {
            path: clone_opt(&self.path),
            branch: clone_opt(&self.branch),
            common: self.common.copy(),
        }
    }

    /// Merges the later entry `other` into this one, as the merge settings of
    /// both say (see `merge_entry`).
    pub fn merge(&mut self, other: Tree)
        ensures
            final(self)@ == merged::<Tree>(old(self)@, other@),
    {
        merge_entry(self, other)
    }
}

impl MergeEntry for Tree {
    open spec fn merge_of(v: TreeView) -> Merge {
        v.common.merge
    }

    open spec fn with_merge(v: TreeView, m: Merge) -> TreeView {
        TreeView { common: CommonView { merge: m, ..v.common }, ..v }
    }

    /// The later entry's path and branch win; the common fields merge field
    /// by field (see `Common`).
    open spec fn merged_entries(a: TreeView, b: TreeView) -> TreeView {
        TreeView {
            path: or_else(b.path, a.path),
            branch: or_else(b.branch, a.branch),
            common: Common::merged_entries(a.common, b.common),
        }
    }

    proof fn lemma_with_merge(v: TreeView, m: Merge) {
    }

    fn merge_config(&self) -> (r: &Merge) {
        &self.common.merge
    }

    fn merge_config_mut(&mut self) -> (r: &mut Merge) {
        &mut self.common.merge
    }

    fn merge_entries(&mut self, other: Tree) {
        let Tree { path, branch, common } = other;
        let mut s = Tree::empty();
        std::mem::swap(&mut s, self);
        let mut c = s.common;
        c.merge_entries(common);
        *self = Tree { path: or_opt(path, s.path), branch: or_opt(branch, s.branch), common: c };
    }
}

/// The defaults that a tree names.
#[derive(Debug)]
pub struct TreeDefault {
    pub default: bool,
    /// The default host of this tree
    pub host: Option<BString>,
    /// The default open of this tree
    pub open: Option<BString>,
}

/// The defaults of a tree as mathematical values.
pub struct TreeDefaultView {
    pub default: bool,
    pub host: Option<Seq<u8>>,
    pub open: Option<Seq<u8>>,
}

impl View for TreeDefault {
    type V = TreeDefaultView;

    open spec fn view(&self) -> TreeDefaultView {
        TreeDefaultView { default: self.default, host: opt_view(self.host), open: opt_view(self.open) }
    }
}

impl TreeDefault {
    /// The defaults that the short form `default = <bool>` stands for.
    pub fn from_short(default: bool) -> (r: TreeDefault)
        ensures
            r@ == (TreeDefaultView { default, host: None, open: None }),
    {
        TreeDefault { default, host: None, open: None }
    }

    /// Merges the later defaults `other` into these: the flag is set where
    /// either has it, and each name of `other` wins where it is present.
    pub fn merge(&mut self, other: TreeDefault)
        ensures
            final(self)@ == (TreeDefaultView {
                default: other@.default || old(self)@.default,
                host: or_else(other@.host, old(self)@.host),
                open: or_else(other@.open, old(self)@.open),
            }),
    {
        let TreeDefault { default, host, open } = other;
        let mut s = TreeDefault::from_short(false);
        std::mem::swap(&mut s, self);
        *self = TreeDefault {
            default: default || s.default,
            host: or_opt(host, s.host),
            open: or_opt(open, s.open),
        };
    }
}

impl Entry for Tree {
    open spec fn common_of(v: TreeView) -> CommonView {
        v.common
    }

    fn common(&self) -> (r: &Common) {
        &self.common
    }
}

} // verus!
