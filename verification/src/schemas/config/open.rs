//! Opens: commands run in a tree or repo.

use crate::schemas::config::bstring::{clone_list, clone_opt, opt_view, seq_view, BString};
use crate::schemas::config::common::{Entry, empty_common, or_else, or_opt, Common, CommonView};
use crate::schemas::config::merge::{merge_entry, merged, Merge, MergeEntry};
use crate::schemas::utils::entry_map::EntryMap;
use vstd::prelude::*;

verus! {

/// An open entry.
#[derive(Debug)]
pub struct Open {
    pub command: Vec<BString>,
    pub directory: Option<BString>,
    pub environment: EntryMap<BString>,
    pub common: Common,
}

/// An open entry as mathematical values.
pub struct OpenView {
    pub command: Seq<Seq<u8>>,
    pub directory: Option<Seq<u8>>,
    pub environment: Map<Seq<u8>, Seq<u8>>,
    pub common: CommonView,
}

impl View for Open {
    type V = OpenView;

    open spec fn view(&self) -> OpenView {
        OpenView {
            command: seq_view(self.command@),
            directory: opt_view(self.directory),
            environment: self.environment.map(),
            common: self.common@,
        }
    }
}

/// A copy of a map of byte strings.
pub fn copy_env(m: &EntryMap<BString>) -> (r: EntryMap<BString>)
    ensures
        r.map() == m.map(),
{
    proof {
        use_type_invariant(m);
    }
    let mut r: EntryMap<BString> = EntryMap::new();
    proof {
        assert(r.map() =~= Map::<Seq<u8>, Seq<u8>>::empty());
    }
    let mut i: usize = 0;
    while i < m.len()
        invariant
            i <= m@.len(),
            crate::schemas::utils::entry_map::keys_sorted(m@),
            r.map() == crate::schemas::utils::entry_map::entries_map(m@.subrange(0, i as int)),
        decreases m@.len() - i,
    {
        let (k, v) = m.entry(i);
        let ghost before = m@.subrange(0, i as int);
        r.insert(k.clone(), v.clone());
        proof {
            let after = m@.subrange(0, i + 1);
            assert(after =~= before.push(m@[i as int]));
            assert(crate::schemas::utils::entry_map::keys_sorted(after));
            crate::schemas::utils::entry_map::lemma_drop_last(after);
            assert(after.drop_last() =~= before);
        }
        i = i + 1;
    }
    assert(m@.subrange(0, m@.len() as int) =~= m@);
    r
}

impl Open {
    /// The open entry with nothing set.
    pub fn empty() -> (r: Open)
        ensures
            r@ == (OpenView {
                command: Seq::empty(),
                directory: None,
                environment: Map::empty(),
                common: empty_common(),
            }),
    {
        let r = Open {
            command: Vec::new(),
            directory: None,
            environment: EntryMap::new(),
            common: Common::new(),
        };
        assert(r@.command =~= Seq::<Seq<u8>>::empty());
        assert(r@.environment =~= Map::<Seq<u8>, Seq<u8>>::empty());
        r
    }

    /// The entry that the short form `open = ["cmd", "arg", ...]` stands for.
    pub fn from_short(command: Vec<BString>) -> (r: Open)
        ensures
            r@ == (OpenView {
                command: seq_view(command@),
                directory: None,
                environment: Map::empty(),
                common: empty_common(),
            }),
    {
        let mut r = Open::empty();
        r.command = command;
        r
    }

    /// A copy of this entry.
    pub fn copy(&self) -> (r: Open)
        ensures
            r@ == self@,
    {
        Open {
            command: clone_list(&self.command),
            directory: clone_opt(&self.directory),
            environment: copy_env(&self.environment),
            common: self.common.copy(),
        }
    }

    /// Merges the later entry `other` into this one, as the merge settings of
    /// both say (see `merge_entry`).
    pub fn merge(&mut self, other: Open)
        ensures
            final(self)@ == merged::<Open>(old(self)@, other@),
    {
        merge_entry(self, other)
    }
}

impl MergeEntry for Open {
    open spec fn merge_of(v: OpenView) -> Merge {
        v.common.merge
    }

    open spec fn with_merge(v: OpenView, m: Merge) -> OpenView {
        OpenView { common: CommonView { merge: m, ..v.common }, ..v }
    }

    /// A non-empty command of this entry stays; the later entry's directory
    /// wins; the environments combine, this entry's values winning; the
    /// common fields of the later entry take those of this one in as a later
    /// entry would.
    open spec fn merged_entries(a: OpenView, b: OpenView) -> OpenView {
        OpenView {
            command: if a.command.len() != 0 {
                a.command
            } else {
                b.command
            },
            directory: or_else(b.directory, a.directory),
            environment: b.environment.union_prefer_right(a.environment),
            common: merged::<Common>(b.common, a.common),
        }
    }

    proof fn lemma_with_merge(v: OpenView, m: Merge) {
    }

    fn merge_config(&self) -> (r: &Merge) {
        &self.common.merge
    }

    fn merge_config_mut(&mut self) -> (r: &mut Merge) {
        &mut self.common.merge
    }

    fn merge_entries(&mut self, other: Open) {
        let Open { command, directory, mut environment, mut common } = other;
        let mut s = Open::empty();
        std::mem::swap(&mut s, self);
        let cmd = if s.command.len() != 0 {
            s.command
        } else {
            command
        };
        environment.extend(s.environment);
        common.merge(s.common);
        *self = Open {
            command: cmd,
            directory: or_opt(directory, s.directory),
            environment,
            common,
        };
    }
}

impl Entry for Open {
    open spec fn common_of(v: OpenView) -> CommonView {
        v.common
    }

    fn common(&self) -> (r: &Common) {
        &self.common
    }
}

} // verus!
