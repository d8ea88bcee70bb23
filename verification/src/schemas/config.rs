//! The configuration file: hosts, repos, trees and opens, merged in layers.

pub mod bstring;
pub mod checkout;
pub mod common;
pub mod host;
pub mod open;
pub mod repo;
pub mod tree;
pub mod merge;

use crate::schemas::config::bstring::{opt_view, BString};
use crate::schemas::config::common::{Common, CommonView, Entry};
use crate::schemas::config::host::{Host, HostView};
use crate::schemas::config::merge::{merged, Behavior, Merge, MergeEntry, OnlyIf};
use crate::schemas::config::open::{Open, OpenView};
use crate::schemas::config::repo::{Repo, RepoView};
use crate::schemas::config::tree::{Tree, TreeView};
use crate::schemas::utils::entry_map::{entries_map, keys_sorted, EntryMap};
use vstd::prelude::*;
use vstd::string::StringSliceAdditionalSpecFns;

verus! {

/// A configuration file.
#[derive(Debug)]
pub struct Config {
    pub host: EntryMap<Host>,
    pub repo: EntryMap<Repo>,
    pub tree: EntryMap<Tree>,
    pub open: EntryMap<Open>,
    pub default: ConfigDefault,
}

/// The names of the default entry of each kind.
#[derive(Debug)]
pub struct ConfigDefault {
    pub host: Option<BString>,
    pub repo: Option<BString>,
    pub tree: Option<BString>,
    pub open: Option<BString>,
}

/// The default names as byte sequences.
pub struct ConfigDefaultView {
    pub host: Option<Seq<u8>>,
    pub repo: Option<Seq<u8>>,
    pub tree: Option<Seq<u8>>,
    pub open: Option<Seq<u8>>,
}

impl View for ConfigDefault {
    type V = ConfigDefaultView;

    open spec fn view(&self) -> ConfigDefaultView {
        ConfigDefaultView {
            host: opt_view(self.host),
            repo: opt_view(self.repo),
            tree: opt_view(self.tree),
            open: opt_view(self.open),
        }
    }
}

impl ConfigDefault {
    /// No defaults named.
    pub fn new() -> (r: ConfigDefault)
        ensures
            r@ == (ConfigDefaultView { host: None, repo: None, tree: None, open: None }),
    {
        ConfigDefault { host: None, repo: None, tree: None, open: None }
    }
}

/// Where a configuration comes from.
#[derive(Debug, PartialEq, Eq, PartialOrd, Ord)]
pub enum ConfigSource {
    Unknown,
    Builtin,
    File(BString),
    Resolved,
}

/// A source as a mathematical value.
pub enum ConfigSourceView {
    Unknown,
    Builtin,
    File(Seq<u8>),
    Resolved,
}

impl View for ConfigSource {
    type V = ConfigSourceView;

    open spec fn view(&self) -> ConfigSourceView {
        match self {
            ConfigSource::Unknown => ConfigSourceView::Unknown,
            ConfigSource::Builtin => ConfigSourceView::Builtin,
            ConfigSource::File(p) => ConfigSourceView::File(p@),
            ConfigSource::Resolved => ConfigSourceView::Resolved,
        }
    }
}

/// The path of a source: that of a file, `<invalid>` otherwise.
pub open spec fn source_path(s: ConfigSourceView) -> Seq<u8> {
    match s {
        ConfigSourceView::File(p) => p,
        _ => "<invalid>".spec_bytes(),
    }
}

impl ConfigSource {
    /// The path of this source: that of a file, `<invalid>` otherwise.
    pub fn borrow(&self) -> (r: &[u8])
        ensures
            r@ == source_path(self@),
    {
        match self {
            ConfigSource::File(path) => path.as_bytes(),
            _ => "<invalid>".as_bytes(),
        }
    }

    /// Whether this source is the file `path`.
    pub fn eq_path(&self, path: &[u8]) -> (r: bool)
        ensures
            r == (self@ == ConfigSourceView::File(path@)),
    {
        match self {
            ConfigSource::Unknown => false,
            ConfigSource::Builtin => false,
            ConfigSource::File(p) => crate::bytes::bytes_eq(p.as_bytes(), path),
            ConfigSource::Resolved => false,
        }
    }

    /// Whether two sources are the same.
    pub fn same(&self, other: &ConfigSource) -> (r: bool)
        ensures
            r == (self@ == other@),
    {
        match (self, other) {
            (ConfigSource::Unknown, ConfigSource::Unknown) => true,
            (ConfigSource::Builtin, ConfigSource::Builtin) => true,
            (ConfigSource::Resolved, ConfigSource::Resolved) => true,
            (ConfigSource::File(_), _) => other.eq_path(self.borrow()),
            _ => false,
        }
    }

    /// A copy of this source.
    pub fn copy(&self) -> (r: ConfigSource)
        ensures
            r@ == self@,
    {
        match self {
            ConfigSource::Unknown => ConfigSource::Unknown,
            ConfigSource::Builtin => ConfigSource::Builtin,
            ConfigSource::File(p) => ConfigSource::File(p.clone()),
            ConfigSource::Resolved => ConfigSource::Resolved,
        }
    }
}

/// The map of `b` merged into `a`: an entry of one alone stays, and entries
/// of the same key merge, that of `b` as the later one.
pub open spec fn merged_maps<T: MergeEntry>(a: Map<Seq<u8>, T::V>, b: Map<Seq<u8>, T::V>) -> Map<
    Seq<u8>,
    T::V,
> {
    Map::new(
        |k: Seq<u8>| a.contains_key(k) || b.contains_key(k),
        |k: Seq<u8>|
            if a.contains_key(k) && b.contains_key(k) {
                merged::<T>(a[k], b[k])
            } else if a.contains_key(k) {
                a[k]
            } else {
                b[k]
            },
    )
}

/// Merges the entries of the later map `o` into `s`.
pub fn merge_entries<T: MergeEntry>(s: &mut EntryMap<T>, o: EntryMap<T>)
    ensures
        final(s).map() == merged_maps::<T>(old(s).map(), o.map()),
{
    let ghost start = s.map();
    let ghost om = o.map();
    let mut rest = o;
    assert(merged_maps::<T>(start, om) =~= merged_maps::<T>(s.map(), rest.map()));
    loop
        invariant
            start == old(s).map(),
            om == o.map(),
            merged_maps::<T>(start, om) == merged_maps::<T>(s.map(), rest.map()),
        decreases rest@.len(),
    {
        proof {
            use_type_invariant(&rest);
        }
        let ghost before = rest@;
        let ghost sm = s.map();
        let ghost rm = rest.map();
        match rest.pop() {
            Some((k, v)) => {
                proof {
                    crate::schemas::utils::entry_map::lemma_drop_last(before);
                }
                s.merge_value(k, v);
                assert(merged_maps::<T>(sm, rm) =~= merged_maps::<T>(s.map(), rest.map()));
            },
            None => {
                assert(rest.map() =~= Map::<Seq<u8>, T::V>::empty());
                assert(merged_maps::<T>(s.map(), rest.map()) =~= s.map());
                return ;
            },
        }
    }
}

/// The default name after a later layer names `other`: it is taken where
/// the map has an entry of that name.
pub open spec fn picked_default<V>(
    default: Option<Seq<u8>>,
    other: Option<Seq<u8>>,
    map: Map<Seq<u8>, V>,
) -> Option<Seq<u8>> {
    match other {
        Some(o) => if map.contains_key(o) {
            Some(o)
        } else {
            default
        },
        None => default,
    }
}

/// Takes the default name `other` of a later layer where `map` has an entry
/// of that name.
pub fn pick_default<T: View>(default: &mut Option<BString>, other: Option<BString>, map: &EntryMap<T>)
    ensures
        opt_view(*final(default)) == picked_default(opt_view(*old(default)), opt_view(other), map.map()),
{
    if let Some(o) = other {
        if map.contains_key(o.as_bytes()) {
            *default = Some(o);
        }
    }
}

/// The entry at place `i` is the first one flagged default.
pub open spec fn is_first_default<T: Entry>(s: Seq<(Seq<u8>, T::V)>, i: int) -> bool {
    &&& 0 <= i < s.len()
    &&& T::common_of(s[i].1).default
    &&& forall|j: int| 0 <= j < i ==> !T::common_of(#[trigger] s[j].1).default
}

/// The name of the default entry of a map: the first entry flagged default,
/// else the entry named `default`, else none.
pub open spec fn spec_find_default<T: Entry>(s: Seq<(Seq<u8>, T::V)>) -> Option<Seq<u8>> {
    if exists|i: int| is_first_default::<T>(s, i) {
        Some(s[choose|i: int| is_first_default::<T>(s, i)].0)
    } else if entries_map(s).contains_key("default".spec_bytes()) {
        Some("default".spec_bytes())
    } else {
        None
    }
}

/// The name of the default entry of `map`: the first entry (in key order)
/// flagged default, else the entry named `default`, else none.
pub fn find_default<T: Entry>(map: &EntryMap<T>) -> (r: Option<BString>)
    ensures
        opt_view(r) == spec_find_default::<T>(map@),
{
    let mut i: usize = 0;
    while i < map.len()
        invariant
            i <= map@.len(),
            forall|j: int| 0 <= j < i ==> !T::common_of(#[trigger] map@[j].1).default,
        decreases map@.len() - i,
    {
        let (k, v) = map.entry(i);
        if v.common().default {
            proof {
                assert(is_first_default::<T>(map@, i as int));
                let c = choose|c: int| is_first_default::<T>(map@, c);
                if c < i {
                } else if c > i {
                }
            }
            return Some(k.clone());
        }
        i = i + 1;
    }
    let name = BString::from_str("default");
    if map.contains_key(name.as_bytes()) {
        Some(name)
    } else {
        None
    }
}

/// A configuration as mathematical values: the maps of entries and the
/// default names.
pub struct ConfigView {
    pub host: Map<Seq<u8>, HostView>,
    pub repo: Map<Seq<u8>, RepoView>,
    pub tree: Map<Seq<u8>, TreeView>,
    pub open: Map<Seq<u8>, OpenView>,
    pub default: ConfigDefaultView,
}

impl View for Config {
    type V = ConfigView;

    open spec fn view(&self) -> ConfigView {
        ConfigView {
            host: self.host.map(),
            repo: self.repo.map(),
            tree: self.tree.map(),
            open: self.open.map(),
            default: self.default@,
        }
    }
}

/// Each default name of the configuration names an entry of its kind.
pub open spec fn defaults_exist(c: ConfigView) -> bool {
    &&& (c.default.host matches Some(k) ==> c.host.contains_key(k))
    &&& (c.default.repo matches Some(k) ==> c.repo.contains_key(k))
    &&& (c.default.tree matches Some(k) ==> c.tree.contains_key(k))
    &&& (c.default.open matches Some(k) ==> c.open.contains_key(k))
}

/// The configuration `a` after merging the later layer `b` into it.
pub open spec fn merged_config(a: ConfigView, b: ConfigView) -> ConfigView {
    let host = merged_maps::<Host>(a.host, b.host);
    let repo = merged_maps::<Repo>(a.repo, b.repo);
    let tree = merged_maps::<Tree>(a.tree, b.tree);
    let open = merged_maps::<Open>(a.open, b.open);
    ConfigView {
        host,
        repo,
        tree,
        open,
        default: ConfigDefaultView {
            host: picked_default(a.default.host, b.default.host, host),
            repo: picked_default(a.default.repo, b.default.repo, repo),
            tree: picked_default(a.default.tree, b.default.tree, tree),
            open: picked_default(a.default.open, b.default.open, open),
        },
    }
}

/// The default `"default"` entries of repos and trees that `default_config`
/// holds, with their literal templates.
pub open spec fn default_repo_entry() -> RepoView {
    RepoView {
        path: Some("$data-dir/repo/${host.name}/${repo.name}.git".spec_bytes()),
        url: Some("${repo.name}".spec_bytes()),
        common: CommonView {
            name: None,
            alias: Seq::empty(),
            manifest: Some("$data_dir/repo/repo-config.toml".spec_bytes()),
            default: true,
            merge: Merge { only_if: OnlyIf::NotPresent, behavior: Behavior::Replace },
        },
    }
}

/// The default tree entry of `default_config`.
pub open spec fn default_tree_entry() -> TreeView {
    TreeView {
        path: Some("$data_dir/tree/${host.name}/${repo.name}/${tree.name}".spec_bytes()),
        branch: Some("${tree.name}".spec_bytes()),
        common: CommonView {
            name: Some("${host.name}/${repo.name}/${tree.name}".spec_bytes()),
            alias: Seq::empty(),
            manifest: Some("$data_dir/tree/tree-config.toml".spec_bytes()),
            default: true,
            merge: Merge { only_if: OnlyIf::NotPresent, behavior: Behavior::Replace },
        },
    }
}

impl Config {
    /// The configuration with no entries and no defaults.
    pub fn new() -> (r: Config)
        ensures
            r@.host == Map::<Seq<u8>, HostView>::empty(),
            r@.repo == Map::<Seq<u8>, RepoView>::empty(),
            r@.tree == Map::<Seq<u8>, TreeView>::empty(),
            r@.open == Map::<Seq<u8>, OpenView>::empty(),
            r@.default == (ConfigDefaultView { host: None, repo: None, tree: None, open: None }),
    {
        let r = Config {
            host: EntryMap::new(),
            repo: EntryMap::new(),
            tree: EntryMap::new(),
            open: EntryMap::new(),
            default: ConfigDefault::new(),
        };
        assert(r@.host =~= Map::<Seq<u8>, HostView>::empty());
        assert(r@.repo =~= Map::<Seq<u8>, RepoView>::empty());
        assert(r@.tree =~= Map::<Seq<u8>, TreeView>::empty());
        assert(r@.open =~= Map::<Seq<u8>, OpenView>::empty());
        r
    }

    /// The built-in configuration: a `default` repo and a `default` tree,
    /// both flagged default and merged only where no such entry is present.
    pub fn default_config(_env: &crate::state::resolve::context::Dirs) -> (r: Config)
        ensures
            r@.host == Map::<Seq<u8>, HostView>::empty(),
            r@.repo == Map::<Seq<u8>, RepoView>::empty().insert(
                "default".spec_bytes(),
                default_repo_entry(),
            ),
            r@.tree == Map::<Seq<u8>, TreeView>::empty().insert(
                "default".spec_bytes(),
                default_tree_entry(),
            ),
            r@.open == Map::<Seq<u8>, OpenView>::empty(),
            r@.default == (ConfigDefaultView { host: None, repo: None, tree: None, open: None }),
    {
        let merge_default = Merge { only_if: OnlyIf::NotPresent, behavior: Behavior::Replace };
        let mut config = Config::new();
        let repo = Repo {
            path: Some(BString::from_str("$data-dir/repo/${host.name}/${repo.name}.git")),
            url: Some(BString::from_str("${repo.name}")),
            common: Common {
                name: None,
                alias: Vec::new(),
                manifest: Some(BString::from_str("$data_dir/repo/repo-config.toml")),
                default: true,
                merge: merge_default,
            },
        };
        assert(repo@.common.alias =~= Seq::<Seq<u8>>::empty());
        assert(repo@ == default_repo_entry());
        let tree = Tree {
            path: Some(BString::from_str("$data_dir/tree/${host.name}/${repo.name}/${tree.name}")),
            branch: Some(BString::from_str("${tree.name}")),
            common: Common {
                name: Some(BString::from_str("${host.name}/${repo.name}/${tree.name}")),
                alias: Vec::new(),
                manifest: Some(BString::from_str("$data_dir/tree/tree-config.toml")),
                default: true,
                merge: merge_default,
            },
        };
        assert(tree@.common.alias =~= Seq::<Seq<u8>>::empty());
        assert(tree@ == default_tree_entry());
        config.repo.insert(BString::from_str("default"), repo);
        config.tree.insert(BString::from_str("default"), tree);
        config
    }

    /// Names the default entry of each kind that names none: the first entry
    /// (in key order) flagged default, else the entry named `default`.
    pub fn resolve_defaults(&mut self)
        ensures
            final(self).host@ == old(self).host@,
            final(self).repo@ == old(self).repo@,
            final(self).tree@ == old(self).tree@,
            final(self).open@ == old(self).open@,
            final(self)@.host == old(self)@.host,
            final(self)@.repo == old(self)@.repo,
            final(self)@.tree == old(self)@.tree,
            final(self)@.open == old(self)@.open,
            final(self)@.default.host == or_else_default(
                old(self)@.default.host,
                spec_find_default::<Host>(old(self).host@),
            ),
            final(self)@.default.repo == or_else_default(
                old(self)@.default.repo,
                spec_find_default::<Repo>(old(self).repo@),
            ),
            final(self)@.default.tree == or_else_default(
                old(self)@.default.tree,
                spec_find_default::<Tree>(old(self).tree@),
            ),
            final(self)@.default.open == or_else_default(
                old(self)@.default.open,
                spec_find_default::<Open>(old(self).open@),
            ),
    {
        let mut d = ConfigDefault::new();
        std::mem::swap(&mut d, &mut self.default);
        let ConfigDefault { host, repo, tree, open } = d;
        let host = match host {
            Some(h) => Some(h),
            None => find_default(&self.host),
        };
        let repo = match repo {
            Some(h) => Some(h),
            None => find_default(&self.repo),
        };
        let tree = match tree {
            Some(h) => Some(h),
            None => find_default(&self.tree),
        };
        let open = match open {
            Some(h) => Some(h),
            None => find_default(&self.open),
        };
        self.default = ConfigDefault { host, repo, tree, open };
    }

    /// Merges the later layer `other` into this configuration: the entries
    /// merge key by key, and a default that `other` names is taken where an
    /// entry of that name is present after the merge.
    pub fn merge(&mut self, other: Config)
        ensures
            final(self)@ == merged_config(old(self)@, other@),
    {
        let Config { host, repo, tree, open, default } = other;
        merge_entries(&mut self.host, host);
        merge_entries(&mut self.repo, repo);
        merge_entries(&mut self.tree, tree);
        merge_entries(&mut self.open, open);
        let ConfigDefault { host: dh, repo: dr, tree: dt, open: d_open } = default;
        pick_default(&mut self.default.host, dh, &self.host);
        pick_default(&mut self.default.repo, dr, &self.repo);
        pick_default(&mut self.default.tree, dt, &self.tree);
        pick_default(&mut self.default.open, d_open, &self.open);
    }
}

/// The explicit default name where there is one, else the found one.
pub open spec fn or_else_default(explicit: Option<Seq<u8>>, found: Option<Seq<u8>>) -> Option<
    Seq<u8>,
> {
    match explicit {
        Some(_) => explicit,
        None => found,
    }
}

/// Merging a later layer keeps every entry, and keeps every default name
/// naming an entry.
pub proof fn law_merge_keeps_defaults(a: ConfigView, b: ConfigView)
    requires
        defaults_exist(a),
    ensures
        defaults_exist(merged_config(a, b)),
        a.host.dom().subset_of(merged_config(a, b).host.dom()),
        a.repo.dom().subset_of(merged_config(a, b).repo.dom()),
        a.tree.dom().subset_of(merged_config(a, b).tree.dom()),
        a.open.dom().subset_of(merged_config(a, b).open.dom()),
{
}

/// Merging adds exactly the keys of the later layer: an entry is present
/// after the merge where it was present in either layer.
pub proof fn law_merge_keys(a: ConfigView, b: ConfigView)
    ensures
        merged_config(a, b).host.dom() == a.host.dom() + b.host.dom(),
        merged_config(a, b).repo.dom() == a.repo.dom() + b.repo.dom(),
        merged_config(a, b).tree.dom() == a.tree.dom() + b.tree.dom(),
        merged_config(a, b).open.dom() == a.open.dom() + b.open.dom(),
{
    assert(merged_config(a, b).host.dom() =~= a.host.dom() + b.host.dom());
    assert(merged_config(a, b).repo.dom() =~= a.repo.dom() + b.repo.dom());
    assert(merged_config(a, b).tree.dom() =~= a.tree.dom() + b.tree.dom());
    assert(merged_config(a, b).open.dom() =~= a.open.dom() + b.open.dom());
}

/// The default merge settings: no condition, merge field by field.
pub open spec fn plain_merge(m: Merge) -> bool {
    m.only_if == OnlyIf::Always && m.behavior == Behavior::Merge
}

/// Merging a later tree into an earlier one, both with the default merge
/// settings: each of path and branch is the later tree's where it sets it,
/// and the earlier tree's only where the later one leaves it unset.
pub proof fn law_later_tree_fields_win(a: TreeView, b: TreeView)
    requires
        plain_merge(a.common.merge),
        plain_merge(b.common.merge),
    ensures
        b.path is Some ==> merged::<Tree>(a, b).path == b.path,
        b.path is None ==> merged::<Tree>(a, b).path == a.path,
        b.branch is Some ==> merged::<Tree>(a, b).branch == b.branch,
        b.branch is None ==> merged::<Tree>(a, b).branch == a.branch,
        b.common.name is Some ==> merged::<Tree>(a, b).common.name == b.common.name,
        b.common.name is None ==> merged::<Tree>(a, b).common.name == a.common.name,
{
}

/// Merging a later repo into an earlier one, both with the default merge
/// settings: each of path and url is the later repo's where it sets it, and
/// the earlier repo's only where the later one leaves it unset.
pub proof fn law_later_repo_fields_win(a: RepoView, b: RepoView)
    requires
        plain_merge(a.common.merge),
        plain_merge(b.common.merge),
    ensures
        b.path is Some ==> merged::<Repo>(a, b).path == b.path,
        b.path is None ==> merged::<Repo>(a, b).path == a.path,
        b.url is Some ==> merged::<Repo>(a, b).url == b.url,
        b.url is None ==> merged::<Repo>(a, b).url == a.url,
        b.common.name is Some ==> merged::<Repo>(a, b).common.name == b.common.name,
        b.common.name is None ==> merged::<Repo>(a, b).common.name == a.common.name,
{
}

/// Merging a later host into an earlier one, both with the default merge
/// settings: the host is the later one's where it sets it, and the earlier
/// one's only where the later one leaves it unset.
pub proof fn law_later_host_fields_win(a: HostView, b: HostView)
    requires
        plain_merge(a.common.merge),
        plain_merge(b.common.merge),
    ensures
        b.host is Some ==> merged::<Host>(a, b).host == b.host,
        b.host is None ==> merged::<Host>(a, b).host == a.host,
{
}

/// Merging a later open into an earlier one, both with the default merge
/// settings: the directory is the later one's where it sets it, and the
/// earlier one's only where the later one leaves it unset.
pub proof fn law_later_open_fields_win(a: OpenView, b: OpenView)
    requires
        plain_merge(a.common.merge),
        plain_merge(b.common.merge),
    ensures
        b.directory is Some ==> merged::<Open>(a, b).directory == b.directory,
        b.directory is None ==> merged::<Open>(a, b).directory == a.directory,
{
}

} // verus!
