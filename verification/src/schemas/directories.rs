//! The paths of the program's files.

use crate::cli::GlobalArgs;
use crate::schemas::config::bstring::{opt_view, BString};
use crate::state::resolve::context::Dirs;
use vstd::prelude::*;
use vstd::string::StringSliceAdditionalSpecFns;

verus! {

/// The name of the program, which names its directories.
pub const PROJECT_NAME: &'static str = "git-repo-manager";

/// `/`, which separates the parts of a path.
pub const SLASH: u8 = 0x2f;

/// The path `a` with the relative path `b` appended: a `/` goes between
/// them unless `a` is empty or ends with one.
pub open spec fn path_join(a: Seq<u8>, b: Seq<u8>) -> Seq<u8> {
    if a.len() == 0 {
        b
    } else if a.last() == SLASH {
        a + b
    } else {
        a + seq![SLASH] + b
    }
}

/// Appends the relative path `b` to the path `a` (see `path_join`).
pub fn join_path(a: &[u8], b: &[u8]) -> (r: BString)
    ensures
        r@ == path_join(a@, b@),
{
    let mut v: Vec<u8> = Vec::new();
    let mut i: usize = 0;
    while i < a.len()
        invariant
            i <= a@.len(),
            v@ == a@.subrange(0, i as int),
        decreases a@.len() - i,
    {
        v.push(a[i]);
        assert(a@.subrange(0, i + 1) =~= a@.subrange(0, i as int).push(a@[i as int]));
        i = i + 1;
    }
    assert(a@.subrange(0, a@.len() as int) =~= a@);
    if a.len() > 0 && a[a.len() - 1] != SLASH {
        v.push(SLASH);
    }
    let ghost head = v@;
    let mut j: usize = 0;
    while j < b.len()
        invariant
            j <= b@.len(),
            v@ == head + b@.subrange(0, j as int),
        decreases b@.len() - j,
    {
        v.push(b[j]);
        assert(b@.subrange(0, j + 1) =~= b@.subrange(0, j as int).push(b@[j as int]));
        assert(head + b@.subrange(0, j + 1) =~= (head + b@.subrange(0, j as int)).push(b@[j as int]));
        j = j + 1;
    }
    assert(b@.subrange(0, b@.len() as int) =~= b@);
    proof {
        if a@.len() == 0 {
            assert(head =~= Seq::<u8>::empty());
            assert(v@ =~= b@);
        }
    }
    BString(v)
}

/// The default paths of the program's files.
#[derive(Debug)]
pub struct ProjectPaths {
    pub config_file: BString,
    pub default_storage_dir: BString,
}

impl ProjectPaths {
    /// The paths in the directories `dirs`: `config.toml` in the
    /// configuration directory, and the data directory as storage.
    pub fn new(dirs: &Dirs) -> (r: ProjectPaths)
        ensures
            r.config_file@ == path_join(dirs.config_dir@, "config.toml".spec_bytes()),
            r.default_storage_dir@ == dirs.data_dir@,
    {
        ProjectPaths {
            config_file: join_path(dirs.config_dir.as_bytes(), "config.toml".as_bytes()),
            default_storage_dir: dirs.data_dir.clone(),
        }
    }

    /// The default configuration file.
    pub fn config_file(&self) -> (r: &[u8])
        ensures
            r@ == self.config_file@,
    {
        self.config_file.as_bytes()
    }

    /// The default storage directory.
    pub fn default_storage_dir(&self) -> (r: &[u8])
        ensures
            r@ == self.default_storage_dir@,
    {
        self.default_storage_dir.as_bytes()
    }
}

/// The paths in use.
#[derive(Debug)]
pub struct Paths<'a> {
    pub config_file: &'a [u8],
}

/// The configuration file in use: the one given, else the default one.
pub open spec fn config_file_of(config: Option<Seq<u8>>, default: Seq<u8>) -> Seq<u8> {
    match config {
        Some(c) => c,
        None => default,
    }
}

impl GlobalArgs {
    /// The configuration file in use: the one given, else the default one of
    /// `paths`.
    pub fn config_file<'a>(&'a self, paths: &'a ProjectPaths) -> (r: &'a [u8])
        ensures
            r@ == config_file_of(opt_view(self.config), paths.config_file@),
    {
        match &self.config {
            Some(c) => c.as_bytes(),
            None => paths.config_file(),
        }
    }

    /// The storage directory in use: the default one of `paths`.
    pub fn default_storage<'a>(&self, paths: &'a ProjectPaths) -> (r: &'a [u8])
        ensures
            r@ == paths.default_storage_dir@,
    {
        paths.default_storage_dir()
    }

    /// The paths in use.
    pub fn paths<'a>(&'a self, paths: &'a ProjectPaths) -> (r: Paths<'a>)
        ensures
            r.config_file@ == config_file_of(opt_view(self.config), paths.config_file@),
    {
        Paths { config_file: self.config_file(paths) }
    }
}

} // verus!
