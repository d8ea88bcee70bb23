use git_repo_manager::schemas::config::bstring::BString;
use git_repo_manager::schemas::config::common::Common;
use git_repo_manager::schemas::config::host::Host;
use git_repo_manager::schemas::config::merge::{Behavior, Merge, OnlyIf};
use git_repo_manager::schemas::config::open::Open;
use git_repo_manager::schemas::config::repo::{Repo, RepoDefault};
use git_repo_manager::schemas::config::tree::{Tree, TreeDefault};
use git_repo_manager::schemas::config::{pick_default, Config, ConfigSource};
use git_repo_manager::schemas::utils::entry_map::EntryMap;
use git_repo_manager::state::resolve::context::Dirs;

fn b(s: &str) -> BString {
    BString::from_str(s)
}

fn host(url: &str) -> Host {
    Host::from_short(b(url))
}

#[test]
fn default_config_has_default_repo_and_tree() {
    let dirs = Dirs { config_dir: b("/cfg"), data_dir: b("/data") };
    let config = Config::default_config(&dirs);
    assert_eq!(config.host.len(), 0);
    assert_eq!(config.open.len(), 0);
    let repo = config.repo.get(b"default").expect("a default repo");
    assert_eq!(repo.path, Some(b("$data-dir/repo/${host.name}/${repo.name}.git")));
    assert_eq!(repo.url, Some(b("${repo.name}")));
    assert_eq!(repo.common.manifest, Some(b("$data_dir/repo/repo-config.toml")));
    assert!(repo.common.default);
    assert_eq!(repo.common.merge, Merge { only_if: OnlyIf::NotPresent, behavior: Behavior::Replace });
    let tree = config.tree.get(b"default").expect("a default tree");
    assert_eq!(tree.common.name, Some(b("${host.name}/${repo.name}/${tree.name}")));
    assert_eq!(tree.branch, Some(b("${tree.name}")));
}

#[test]
fn merge_adds_entries_and_later_fields_win() {
    let mut a = Config::new();
    a.host.insert(b("gh"), host("https://github.com$"));
    a.host.insert(b("gl"), host("https://gitlab.com$"));
    let mut b2 = Config::new();
    b2.host.insert(b("gh"), host("git@github.com$"));
    b2.host.insert(b("sr"), host("https://sr.ht$"));
    a.merge(b2);
    assert_eq!(a.host.len(), 3);
    assert_eq!(a.host.get(b"gh").unwrap().host, Some(b("git@github.com$")));
    assert_eq!(a.host.get(b"gl").unwrap().host, Some(b("https://gitlab.com$")));
    assert_eq!(a.host.get(b"sr").unwrap().host, Some(b("https://sr.ht$")));
}

#[test]
fn merge_only_if_not_present_keeps_earlier_entry() {
    let mut earlier = Host::from_short(b("first"));
    let mut later = Host::from_short(b("second"));
    later.common.merge = Merge { only_if: OnlyIf::NotPresent, behavior: Behavior::Merge };
    earlier.merge(later);
    assert_eq!(earlier.host, Some(b("first")));
}

#[test]
fn merge_replace_takes_later_entry() {
    let mut earlier = Repo::from_short(b("a"));
    earlier.path = Some(b("/a"));
    let mut later = Repo::from_short(b("b"));
    later.common.merge = Merge { only_if: OnlyIf::Always, behavior: Behavior::Replace };
    earlier.merge(later);
    assert_eq!(earlier.common.name, Some(b("b")));
    assert_eq!(earlier.path, None);
}

#[test]
fn merge_keeps_fields_the_later_entry_lacks() {
    let mut earlier = Repo::from_short(b("a"));
    earlier.path = Some(b("/a"));
    earlier.common.alias.push(b("x"));
    let mut later = Repo::empty();
    later.url = Some(b("u"));
    later.common.alias.push(b("y"));
    earlier.merge(later);
    assert_eq!(earlier.common.name, Some(b("a")));
    assert_eq!(earlier.path, Some(b("/a")));
    assert_eq!(earlier.url, Some(b("u")));
    assert_eq!(earlier.common.alias, vec![b("y"), b("x")]);
}

#[test]
fn open_merge_keeps_earlier_command() {
    let mut earlier = Open::from_short(vec![b("vim")]);
    let later = Open::from_short(vec![b("emacs")]);
    earlier.merge(later);
    assert_eq!(earlier.command, vec![b("vim")]);
    let mut empty = Open::empty();
    empty.merge(Open::from_short(vec![b("nano")]));
    assert_eq!(empty.command, vec![b("nano")]);
}

#[test]
fn repo_and_tree_defaults_merge() {
    let mut d = RepoDefault::from_short(false);
    d.merge(RepoDefault { default: true, host: Some(b("gh")), tree: None, open: None });
    assert!(d.default);
    assert_eq!(d.host, Some(b("gh")));
    let mut t = TreeDefault::from_short(true);
    t.merge(TreeDefault { default: false, host: None, open: Some(b("vim")) });
    assert!(t.default);
    assert_eq!(t.open, Some(b("vim")));
}

#[test]
fn pick_default_takes_only_present_names() {
    let mut m: EntryMap<Host> = EntryMap::new();
    m.insert(b("gh"), host("x$"));
    let mut d = None;
    pick_default(&mut d, Some(b("nope")), &m);
    assert_eq!(d, None);
    pick_default(&mut d, Some(b("gh")), &m);
    assert_eq!(d, Some(b("gh")));
    pick_default(&mut d, None, &m);
    assert_eq!(d, Some(b("gh")));
}

#[test]
fn resolve_defaults_picks_first_flagged_then_default_key() {
    let mut c = Config::new();
    let mut a = host("a$");
    a.common.default = false;
    let mut z = host("z$");
    z.common.default = true;
    c.host.insert(b("a"), a);
    c.host.insert(b("z"), z);
    c.repo.insert(b("default"), Repo::empty());
    c.resolve_defaults();
    assert_eq!(c.default.host, Some(b("z")));
    assert_eq!(c.default.repo, Some(b("default")));
    assert_eq!(c.default.tree, None);
}

#[test]
fn resolve_defaults_keeps_explicit_default() {
    let mut c = Config::new();
    let mut z = host("z$");
    z.common.default = true;
    c.host.insert(b("z"), z);
    c.default.host = Some(b("explicit"));
    c.resolve_defaults();
    assert_eq!(c.default.host, Some(b("explicit")));
}

#[test]
fn config_source_paths() {
    let f = ConfigSource::File(b("/x"));
    assert_eq!(f.borrow(), b"/x");
    assert_eq!(ConfigSource::Builtin.borrow(), b"<invalid>");
    assert!(f.eq_path(b"/x"));
    assert!(!ConfigSource::Resolved.eq_path(b"/x"));
    assert!(f.same(&ConfigSource::File(b("/x"))));
    assert!(!f.same(&ConfigSource::Unknown));
}

#[test]
fn common_new_is_empty() {
    let c = Common::new();
    assert_eq!(c.name, None);
    assert!(c.alias.is_empty());
    assert!(!c.default);
    assert_eq!(c.merge, Merge::new());
}

#[test]
fn tree_from_short_names_it() {
    let t = Tree::from_short(b("main"));
    assert_eq!(t.common.name, Some(b("main")));
    assert_eq!(t.path, None);
}
