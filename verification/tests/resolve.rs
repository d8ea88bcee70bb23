use git_repo_manager::schemas::config::bstring::BString;
use git_repo_manager::schemas::config::host::Host;
use git_repo_manager::schemas::config::open::Open;
use git_repo_manager::schemas::config::repo::Repo;
use git_repo_manager::schemas::config::tree::Tree;
use git_repo_manager::schemas::config::{Config, ConfigSource};
use git_repo_manager::state::resolve::context::{Dirs, Environment, Manifests, ResolveError};
use git_repo_manager::state::resolve::expand::{has_var, template};
use git_repo_manager::state::resolve::resolved_task::{
    build_cmd, worktree_base, ResolvedTask, RunError, RunStep, WorktreeBase,
};
use git_repo_manager::state::resolve::context::Context;
use git_repo_manager::state::State;
use git_repo_manager::task::Task;

fn b(s: &str) -> BString {
    BString::from_str(s)
}

fn dirs() -> Dirs {
    Dirs { config_dir: b("/cfg"), data_dir: b("/data") }
}

fn env() -> Environment {
    let mut e = Environment::new();
    e.set(b("GH"), b("https://github.com"));
    e.set(b("EDITOR"), b("vim"));
    e
}

fn state_with(config: Config) -> State {
    let mut state = State::new(dirs());
    state.init_defaults(b("/cfg/config.toml"), config);
    state
}

fn hosts_and_repos() -> Config {
    let mut c = Config::new();
    let mut gh = Host::empty();
    gh.host = Some(b("${env.GH}"));
    c.host.insert(b("gh"), gh);
    let mut proj = Repo::empty();
    proj.path = Some(b("${dir.data}/${repo.name}"));
    proj.url = Some(b("${host.host}/${repo.name}"));
    c.repo.insert(b("proj"), proj);
    c
}

#[test]
fn task_names_resolve_to_expanded_entries() {
    let mut state = state_with(hosts_and_repos());
    let mut rt = ResolvedTask::default();
    let mut manifests = Manifests::new();
    let task = Task::from(b"+gh:proj");
    let r = state.resolve_task(task, &mut rt, &env(), &mut manifests);
    assert_eq!(r, Ok(()));
    let host = rt.host.as_ref().expect("a host");
    assert_eq!(host.host, Some(b("https://github.com")));
    let repo = rt.repo.as_ref().expect("a repo");
    assert_eq!(repo.path, Some(b("/data/proj")));
    assert_eq!(repo.url, Some(b("https://github.com/proj")));
    assert!(rt.tree.is_none());
    assert!(rt.open.is_none());
    assert_eq!(rt.new_repo, None);
}

#[test]
fn unknown_variable_is_an_error() {
    let mut c = Config::new();
    let mut gh = Host::empty();
    gh.host = Some(b("${nothing}"));
    c.host.insert(b("gh"), gh);
    let mut state = state_with(c);
    let mut rt = ResolvedTask::default();
    let mut manifests = Manifests::new();
    let r = state.resolve_task(Task::from(b"+gh"), &mut rt, &env(), &mut manifests);
    assert_eq!(r, Err(ResolveError::Unresolved(b("nothing"))));
}

#[test]
fn variable_of_unset_field_is_an_error() {
    let mut c = Config::new();
    c.host.insert(b("gh"), Host::empty());
    let mut proj = Repo::empty();
    proj.url = Some(b("${host.host}"));
    c.repo.insert(b("proj"), proj);
    let mut state = state_with(c);
    let mut rt = ResolvedTask::default();
    let mut manifests = Manifests::new();
    let r = state.resolve_task(Task::from(b"+gh:proj"), &mut rt, &env(), &mut manifests);
    assert_eq!(r, Err(ResolveError::Unset(b("host.host"))));
}

#[test]
fn alias_names_an_entry() {
    let mut c = Config::new();
    let mut gh = Host::empty();
    gh.host = Some(b("${env.GH}"));
    gh.common.alias.push(b("github"));
    c.host.insert(b("gh"), gh);
    let mut state = state_with(c);
    let mut rt = ResolvedTask::default();
    let mut manifests = Manifests::new();
    let r = state.resolve_task(Task::from(b"+github"), &mut rt, &env(), &mut manifests);
    assert_eq!(r, Ok(()));
    assert_eq!(rt.host.expect("a host").host, Some(b("https://github.com")));
}

#[test]
fn empty_part_picks_the_default_entry() {
    let mut c = Config::new();
    let mut a = Tree::empty();
    a.path = Some(b("${dir.data}"));
    let mut main = Tree::empty();
    main.path = Some(b("${dir.config}"));
    main.common.default = true;
    c.tree.insert(b("a"), a);
    c.tree.insert(b("main"), main);
    let mut state = state_with(c);
    let mut rt = ResolvedTask::default();
    let mut manifests = Manifests::new();
    let r = state.resolve_task(Task::from(b"@"), &mut rt, &env(), &mut manifests);
    assert_eq!(r, Ok(()));
    assert_eq!(rt.tree.expect("a tree").path, Some(b("/cfg")));
}

#[test]
fn open_without_name_is_named_by_its_key() {
    let mut c = Config::new();
    c.open.insert(b("edit"), Open::from_short(vec![b("${env.EDITOR}")]));
    let mut state = state_with(c);
    let mut rt = ResolvedTask::default();
    let mut manifests = Manifests::new();
    let r = state.resolve_task(Task::from(b"!edit"), &mut rt, &env(), &mut manifests);
    assert_eq!(r, Ok(()));
    let open = rt.open.expect("an open");
    assert_eq!(open.command, vec![b("vim")]);
    assert_eq!(open.common.name, Some(b("edit")));
}

#[test]
fn task_naming_nothing_resolves_nothing() {
    let mut state = state_with(hosts_and_repos());
    let mut rt = ResolvedTask::default();
    let mut manifests = Manifests::new();
    let r = state.resolve_task(Task::empty(), &mut rt, &env(), &mut manifests);
    assert_eq!(r, Ok(()));
    assert!(rt.host.is_none() && rt.repo.is_none() && rt.tree.is_none() && rt.open.is_none());
    assert_eq!(state.configs.stack.len(), 1);
}

fn manifest_layer() -> Config {
    let mut c = Config::new();
    let mut d = Repo::empty();
    d.path = Some(b("${dir.data}/${repo.name}"));
    d.common.name = Some(b("${repo.name}"));
    d.common.manifest = Some(b("${dir.config}"));
    c.repo.insert(b("default"), d);
    c
}

#[test]
fn manifest_not_read_yet_is_asked_for() {
    let mut state = state_with(manifest_layer());
    let mut rt = ResolvedTask::default();
    let mut manifests = Manifests::new();
    let r = state.resolve_task(Task::from(b":proj"), &mut rt, &env(), &mut manifests);
    assert_eq!(r, Err(ResolveError::NeedFile(b("/cfg"))));
}

#[test]
fn entry_not_in_manifest_is_new_there() {
    let mut state = state_with(manifest_layer());
    let mut rt = ResolvedTask::default();
    let mut manifests = Manifests::new();
    manifests.add(b("/cfg"), Config::new());
    let r = state.resolve_task(Task::from(b":proj"), &mut rt, &env(), &mut manifests);
    assert_eq!(r, Ok(()));
    let repo = rt.repo.expect("a repo");
    assert_eq!(repo.path, Some(b("/data/proj")));
    assert_eq!(repo.common.name, Some(b("proj")));
    assert_eq!(repo.common.manifest, None);
    assert_eq!(rt.new_repo, Some(b("/cfg")));
    assert!(manifests.files.is_empty());
    assert_eq!(state.configs.stack.len(), 2);
    assert!(state.configs.stack[1].same(&ConfigSource::File(b("/cfg"))));
}

#[test]
fn entry_found_in_manifest_is_taken_from_there() {
    let mut state = state_with(manifest_layer());
    let mut rt = ResolvedTask::default();
    let mut manifests = Manifests::new();
    let mut file = Config::new();
    let mut proj = Repo::empty();
    proj.common.alias.push(b("p"));
    file.repo.insert(b("proj"), proj);
    manifests.add(b("/cfg"), file);
    let r = state.resolve_task(Task::from(b":proj"), &mut rt, &env(), &mut manifests);
    assert_eq!(r, Ok(()));
    let repo = rt.repo.expect("a repo");
    assert_eq!(repo.path, None);
    assert_eq!(repo.common.alias, vec![b("p")]);
    assert_eq!(rt.new_repo, None);
}

#[test]
fn template_expands_variables_in_order() {
    let d = dirs();
    let e = env();
    let ctx = Context { dirs: &d, env: &e };
    let rt = ResolvedTask::default();
    let task = Task::from(b"+gh:proj");
    let r = template(b"${dir.data}/${host.name}/$repo.name", &ctx, &rt, task);
    assert_eq!(r, Ok(b("/data/gh/proj")));
    let lone = template(b"${env.GH}/x$", &ctx, &rt, task);
    assert_eq!(lone, Ok(b("https://github.com/x")));
    assert_eq!(template(b"${dir.other}", &ctx, &rt, task), Err(ResolveError::Unresolved(b("dir.other"))));
}

#[test]
fn has_var_finds_variables() {
    assert!(has_var(b"a/${b}"));
    assert!(!has_var(b""));
    assert!(!has_var(b"a$"));
}

#[test]
fn run_plan_follows_resolved_parts() {
    let mut rt = ResolvedTask::default();
    assert!(rt.run().is_empty());
    rt.open = Some(Open::empty());
    assert!(rt.run().is_empty());
    rt.repo = Some(Repo::empty());
    assert_eq!(rt.run(), vec![RunStep::Repo, RunStep::Open]);
    rt.tree = Some(Tree::empty());
    assert_eq!(rt.run(), vec![RunStep::Repo, RunStep::Tree, RunStep::Open]);
}

#[test]
fn run_steps_need_their_fields() {
    let mut rt = ResolvedTask::default();
    assert_eq!(rt.repo_path(), Err(RunError::RepoNeedsPath));
    assert_eq!(rt.clone_url(), Err(RunError::HostMissingFields));
    assert_eq!(rt.tree_target(), Err(RunError::TreeNeedsNameAndPath));
    assert_eq!(rt.open_path(), Err(RunError::MissingOpen));
    let mut repo = Repo::empty();
    repo.path = Some(b("/r"));
    rt.repo = Some(repo);
    rt.open = Some(Open::empty());
    assert_eq!(rt.repo_path(), Ok(&b"/r"[..]));
    assert_eq!(rt.open_path(), Ok(&b"/r"[..]));
    let mut tree = Tree::from_short(b("main"));
    tree.path = Some(b("/t"));
    rt.tree = Some(tree);
    assert_eq!(rt.open_path(), Ok(&b"/t"[..]));
    assert_eq!(rt.tree_target(), Ok((&b"main"[..], &b"/t"[..])));
    rt.open.as_mut().unwrap().directory = Some(b("/d"));
    assert_eq!(rt.open_path(), Ok(&b"/d"[..]));
    assert_eq!(rt.tree_update(), None);
    rt.new_tree = Some(b("/cfg/trees"));
    assert_eq!(rt.tree_update(), Some((&b"/cfg/trees"[..], &b"main"[..])));
    rt.host = Some(Host::from_short(b("https://h")));
    assert_eq!(rt.clone_url(), Ok(&b"https://h"[..]));
}

#[test]
fn open_without_any_path_fails() {
    let mut rt = ResolvedTask::default();
    rt.open = Some(Open::empty());
    rt.repo = Some(Repo::empty());
    assert_eq!(rt.open_path(), Err(RunError::OpenNeedsPath));
}

#[test]
fn command_splits_into_program_and_arguments() {
    assert_eq!(build_cmd(&vec![]), Err(RunError::EmptyCommand));
    let cmd = vec![b("git"), b("status"), b("-s")];
    let (p, a) = build_cmd(&cmd).unwrap();
    assert_eq!(p, &b("git"));
    assert_eq!(a, &[b("status"), b("-s")][..]);
}

#[test]
fn worktree_starts_from_local_then_remote_then_head() {
    assert_eq!(worktree_base(true, true), WorktreeBase::LocalBranch);
    assert_eq!(worktree_base(false, true), WorktreeBase::RemoteBranch);
    assert_eq!(worktree_base(false, false), WorktreeBase::Head);
}

#[test]
fn entry_resolved_before_is_kept() {
    let mut state = state_with(hosts_and_repos());
    let mut rt = ResolvedTask::default();
    rt.host = Some(Host::from_short(b("ssh://own$")));
    let mut manifests = Manifests::new();
    let r = state.resolve_task(Task::from(b"+gh"), &mut rt, &env(), &mut manifests);
    assert_eq!(r, Ok(()));
    assert_eq!(rt.host.expect("a host").host, Some(b("ssh://own$")));
    assert_eq!(state.configs.stack.len(), 1);
}

#[test]
fn resolving_twice_gives_the_same_entries() {
    let mut first = ResolvedTask::default();
    let mut second = ResolvedTask::default();
    let mut m1 = Manifests::new();
    let mut m2 = Manifests::new();
    let task = Task::from(b"+gh:proj");
    state_with(hosts_and_repos()).resolve_task(task, &mut first, &env(), &mut m1).unwrap();
    state_with(hosts_and_repos()).resolve_task(task, &mut second, &env(), &mut m2).unwrap();
    assert_eq!(first.repo.unwrap().url, second.repo.unwrap().url);
}

#[test]
fn manifest_entry_without_name_is_an_error() {
    let mut c = Config::new();
    let mut t = Tree::empty();
    t.common.default = true;
    t.common.manifest = Some(b("${dir.config}"));
    c.tree.insert(b("main"), t);
    let mut state = state_with(c);
    let mut rt = ResolvedTask::default();
    let mut manifests = Manifests::new();
    manifests.add(b("/cfg"), Config::new());
    let r = state.resolve_task(Task::from(b"@"), &mut rt, &env(), &mut manifests);
    assert_eq!(r, Err(ResolveError::NameMissing));
}

#[test]
fn layer_without_configuration_is_an_error() {
    let mut state = State::new(dirs());
    state.configs.stack.push(ConfigSource::Builtin);
    let mut rt = ResolvedTask::default();
    let mut manifests = Manifests::new();
    let r = state.resolve_task(Task::from(b"+gh"), &mut rt, &env(), &mut manifests);
    assert_eq!(
        r,
        Err(ResolveError::Stack(git_repo_manager::state::config_stack::StackError::NeedsMutableAccess))
    );
}
