//! The commands of the program, as values: what each asks for.

use crate::schemas::config::bstring::BString;
use crate::schemas::config::repo::RepoView;
use crate::schemas::config::Config;
use vstd::prelude::*;

verus! {

/// The options of every command.
#[derive(Debug)]
pub struct GlobalArgs {
    /// The configuration file to read in place of the default one.
    pub config: Option<BString>,
}

/// Clones a repo into the storage.
#[derive(Debug)]
pub struct CloneCommand {
    pub repo: BString,
}

/// Why a clone cannot start.
#[derive(Debug, Clone, Copy, PartialEq, Eq)]
pub enum CloneError {
    /// No repo entry is a storage: flagged default, with a path.
    NoStorage,
}

/// The repo at place `i` is the first one that is a storage: flagged default
/// and with a path.
pub open spec fn is_first_storage(s: Seq<(Seq<u8>, RepoView)>, i: int) -> bool {
    &&& 0 <= i < s.len()
    &&& s[i].1.common.default && s[i].1.path is Some
    &&& forall|j: int| 0 <= j < i ==> !(#[trigger] s[j].1.common.default && s[j].1.path is Some)
}

/// The path of the first repo (in key order) that is a storage.
pub open spec fn storage_path(s: Seq<(Seq<u8>, RepoView)>) -> Option<Seq<u8>> {
    if exists|i: int| is_first_storage(s, i) {
        s[choose|i: int| is_first_storage(s, i)].1.path
    } else {
        None
    }
}

impl CloneCommand {
    /// Finds the storage to clone into in the configuration `config`, read
    /// from the configuration file: the path of the first repo (in key order)
    /// flagged default that has one.
    pub fn run(&self, config: Config) -> (r: Result<BString, CloneError>)
        ensures
            match storage_path(config.repo@) {
                Some(p) => r matches Ok(x) && x@ == p,
                None => r == Err::<BString, CloneError>(CloneError::NoStorage),
            },
    {
        let ghost repos = config.repo@;
        let mut cfg = config;
        cfg.resolve_defaults();
        let mut i: usize = 0;
        while i < cfg.repo.len()
            invariant
                cfg.repo@ == repos,
                repos == config.repo@,
                i <= repos.len(),
                forall|j: int| 0 <= j < i ==> !(#[trigger] repos[j].1.common.default && repos[j].1.path is Some),
            decreases repos.len() - i,
        {
            let (_, repo) = cfg.repo.entry(i);
            if repo.common.default {
                if let Some(path) = &repo.path {
                    proof {
                        assert(is_first_storage(repos, i as int));
                        let c = choose|c: int| is_first_storage(repos, c);
                        if c < i {
                            assert(!(repos[c].1.common.default && repos[c].1.path is Some));
                        } else if c > i {
                            assert(!(repos[i as int].1.common.default && repos[i as int].1.path is Some));
                        }
                    }
                    assert(storage_path(repos) == Some(path@));
                    return Ok(path.clone());
                }
            }
            i = i + 1;
        }
        Err(CloneError::NoStorage)
    }
}

/// Prints information about the program.
#[derive(Debug)]
pub struct Info {
    /// Pretty print output
    pub pretty: bool,
    pub info: InfoKind,
}

/// The information to print.
#[derive(Debug, Clone, Copy, PartialEq, Eq, Structural)]
pub enum InfoKind {
    Config,
    Paths,
    Schema { schema: Schema },
}

/// The files whose schema can be printed.
#[derive(Debug, Clone, Copy, PartialEq, Eq, Structural)]
pub enum Schema {
    Config,
    RepoManifest,
}

/// What an `info` command asks to print: the configuration, the paths, or
/// the schema of a file, pretty printed or not.
#[derive(Debug, Clone, Copy, PartialEq, Eq, Structural)]
pub enum InfoRequest {
    Config { pretty: bool },
    Paths { pretty: bool },
    Schema { schema: Schema, pretty: bool },
}

impl Info {
    /// What this command asks to print.
    pub fn run(self) -> (r: InfoRequest)
        ensures
            r == (match self.info {
                InfoKind::Config => InfoRequest::Config { pretty: self.pretty },
                InfoKind::Paths => InfoRequest::Paths { pretty: self.pretty },
                InfoKind::Schema { schema } => InfoRequest::Schema { schema, pretty: self.pretty },
            }),
    {
        let Info { pretty, info } = self;
        match info {
            InfoKind::Config => InfoRequest::Config { pretty },
            InfoKind::Schema { schema } => schema.run(pretty),
            InfoKind::Paths => InfoRequest::Paths { pretty },
        }
    }
}

impl Schema {
    /// Asks to print the schema of this file.
    pub fn run(self, pretty: bool) -> (r: InfoRequest)
        ensures
            r == (InfoRequest::Schema { schema: self, pretty }),
    {
        InfoRequest::Schema { schema: self, pretty }
    }
}

} // verus!
