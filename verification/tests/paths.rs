use git_repo_manager::cli::{CloneCommand, CloneError, GlobalArgs, Info, InfoKind, InfoRequest, Schema};
use git_repo_manager::schemas::config::bstring::BString;
use git_repo_manager::schemas::config::repo::Repo;
use git_repo_manager::schemas::config::Config;
use git_repo_manager::schemas::directories::{join_path, ProjectPaths, PROJECT_NAME};
use git_repo_manager::schemas::repo_manifest::{HexError, HexStrHash};
use git_repo_manager::state::app_name::AppName;
use git_repo_manager::schemas::config::ConfigSource;
use git_repo_manager::state::config_stack::{ConfigStack, Cursor, StackError};
use git_repo_manager::state::defaults::Defaults;
use git_repo_manager::state::project_dirs::ProjectDirs;
use git_repo_manager::state::resolve::context::Dirs;
use git_repo_manager::state::State;

fn b(s: &str) -> BString {
    BString::from_str(s)
}

#[test]
fn join_puts_one_slash_between() {
    assert_eq!(join_path(b"/cfg", b"config.toml"), b("/cfg/config.toml"));
    assert_eq!(join_path(b"/cfg/", b"config.toml"), b("/cfg/config.toml"));
    assert_eq!(join_path(b"", b"config.toml"), b("config.toml"));
}

#[test]
fn project_paths_and_global_args() {
    let dirs = Dirs { config_dir: b("/home/u/.config/grm"), data_dir: b("/home/u/.local/share/grm") };
    let paths = ProjectPaths::new(&dirs);
    assert_eq!(paths.config_file(), b"/home/u/.config/grm/config.toml");
    assert_eq!(paths.default_storage_dir(), b"/home/u/.local/share/grm");
    let args = GlobalArgs { config: None };
    assert_eq!(args.config_file(&paths), b"/home/u/.config/grm/config.toml");
    assert_eq!(args.paths(&paths).config_file, b"/home/u/.config/grm/config.toml");
    assert_eq!(args.default_storage(&paths), b"/home/u/.local/share/grm");
    let given = GlobalArgs { config: Some(b("/etc/grm.toml")) };
    assert_eq!(given.config_file(&paths), b"/etc/grm.toml");
    assert_eq!(PROJECT_NAME, "git-repo-manager");
}

#[test]
fn state_reads_given_or_default_config_file() {
    let state = State::new(Dirs { config_dir: b("/cfg"), data_dir: b("/data") });
    assert_eq!(state.config_path(&GlobalArgs { config: None }), b("/cfg/config.toml"));
    assert_eq!(state.config_path(&GlobalArgs { config: Some(b("/x.toml")) }), b("/x.toml"));
}

#[test]
fn init_defaults_pushes_a_layer() {
    let mut state = State::new(Dirs { config_dir: b("/cfg"), data_dir: b("/data") });
    state.init_defaults(b("/cfg/config.toml"), Config::new());
    assert_eq!(state.configs.stack.len(), 1);
    let cursor = state.configs.cursors().next().expect("a layer");
    let (src, _) = state.configs.with_cursor(cursor).expect("a stored layer");
    assert_eq!(src.borrow(), b"/cfg/config.toml");
}

#[test]
fn cursors_walk_the_stack_top_down() {
    let mut stack = ConfigStack::new();
    stack.push(ConfigSource::Builtin, Config::new());
    stack.push(ConfigSource::File(b("/a")), Config::new());
    let mut c = stack.cursors();
    assert_eq!(c.next().map(|x| x.pos), Some(1));
    assert_eq!(c.next().map(|x| x.pos), Some(0));
    assert!(c.next().is_none());
    let mut it = stack.into_iter();
    assert_eq!(it.next().map(|x| x.pos), Some(1));
    let far = Cursor { pos: 5 };
    assert!(stack.with_cursor(far).is_err());
}

#[test]
fn clone_finds_storage() {
    let mut c = Config::new();
    let mut plain = Repo::empty();
    plain.path = Some(b("/p"));
    c.repo.insert(b("a"), plain);
    let mut store = Repo::empty();
    store.path = Some(b("/storage"));
    store.common.default = true;
    c.repo.insert(b("b"), store);
    let cmd = CloneCommand { repo: b("x") };
    assert_eq!(cmd.run(c), Ok(b("/storage")));
    assert_eq!(cmd.run(Config::new()), Err(CloneError::NoStorage));
}

#[test]
fn info_requests() {
    assert_eq!(Info { pretty: true, info: InfoKind::Config }.run(), InfoRequest::Config { pretty: true });
    assert_eq!(Info { pretty: false, info: InfoKind::Paths }.run(), InfoRequest::Paths { pretty: false });
    assert_eq!(
        Info { pretty: true, info: InfoKind::Schema { schema: Schema::RepoManifest } }.run(),
        InfoRequest::Schema { schema: Schema::RepoManifest, pretty: true }
    );
    assert_eq!(Schema::Config.run(false), InfoRequest::Schema { schema: Schema::Config, pretty: false });
}

#[test]
fn hex_hash_round_trip() {
    let h = HexStrHash(0x0123_4567_89ab_cdef);
    let s = h.to_hex();
    assert_eq!(s, b"efcdab8967452301".to_vec());
    assert_eq!(HexStrHash::from_hex(&s), Ok(h));
    assert_eq!(HexStrHash::from_hex(b"EFCDAB8967452301"), Ok(h));
}

#[test]
fn hex_hash_errors() {
    assert_eq!(HexStrHash::from_hex(b"abc"), Err(HexError::OddLength));
    assert_eq!(HexStrHash::from_hex(b"abcd"), Err(HexError::InvalidStringLength));
    assert_eq!(
        HexStrHash::from_hex(b"00112233445566zz"),
        Err(HexError::InvalidHexCharacter { c: 'z', index: 14 })
    );
}

#[test]
fn choices_of_name_defaults_and_dirs() {
    assert_eq!(AppName::project_name().run(), "git-repo-manager");
    assert_eq!(AppName::custom("mine").run(), "mine");
    assert!(Defaults::no_defaults().run().config_path.is_none());
    let _ = ProjectDirs::from_app_name();
}

#[test]
fn mutable_access_to_layers() {
    let mut stack = ConfigStack::new();
    stack.push(ConfigSource::File(b("/a")), Config::new());
    stack.stack.push(ConfigSource::File(b("/b")));
    stack.stack.push(ConfigSource::Builtin);
    assert_eq!(stack.with_cursor_mut(Cursor { pos: 1 }).err(), Some(StackError::NotLoaded));
    assert_eq!(stack.with_cursor_mut(Cursor { pos: 2 }).err(), Some(StackError::OnlyFiles));
    assert_eq!(stack.with_cursor_mut(Cursor { pos: 3 }).err(), Some(StackError::CursorOutOfRange(3)));
    {
        let (src, config) = stack.with_cursor_mut(Cursor { pos: 0 }).expect("a stored layer");
        assert_eq!(src.borrow(), b"/a");
        config.host.insert(b("h"), git_repo_manager::schemas::config::host::Host::empty());
    }
    let (_, config) = stack.with_cursor(Cursor { pos: 0 }).expect("a stored layer");
    assert_eq!(config.host.len(), 1);
    stack.insert_store(ConfigSource::File(b("/a")), Config::new());
    let (_, config) = stack.with_cursor(Cursor { pos: 0 }).expect("a stored layer");
    assert_eq!(config.host.len(), 0);
}
