//! The entries a task resolved to.

use crate::schemas::config::bstring::{opt_view, BString};
use crate::schemas::config::host::{Host, HostView};
use crate::schemas::config::open::{Open, OpenView};
use crate::schemas::config::repo::{Repo, RepoView};
use crate::schemas::config::tree::{Tree, TreeView};
use vstd::prelude::*;

verus! {

/// The entries that a task resolved to, and for each the manifest file in
/// which it was newly found.
#[derive(Debug)]
pub struct ResolvedTask {
    pub host: Option<Host>,
    pub repo: Option<Repo>,
    pub tree: Option<Tree>,
    pub open: Option<Open>,
    pub new_host: Option<BString>,
    pub new_repo: Option<BString>,
    pub new_tree: Option<BString>,
    pub new_open: Option<BString>,
}

/// A resolved task as mathematical values.
pub struct ResolvedView {
    pub host: Option<HostView>,
    pub repo: Option<RepoView>,
    pub tree: Option<TreeView>,
    pub open: Option<OpenView>,
    pub new_host: Option<Seq<u8>>,
    pub new_repo: Option<Seq<u8>>,
    pub new_tree: Option<Seq<u8>>,
    pub new_open: Option<Seq<u8>>,
}

/// The view of an optional value.
pub open spec fn opt_v<T: View>(o: Option<T>) -> Option<T::V> {
    match o {
        Some(x) => Some(x@),
        None => None,
    }
}

impl View for ResolvedTask {
    type V = ResolvedView;

    open spec fn view(&self) -> ResolvedView {
        ResolvedView {
            host: opt_v(self.host),
            repo: opt_v(self.repo),
            tree: opt_v(self.tree),
            open: opt_v(self.open),
            new_host: opt_view(self.new_host),
            new_repo: opt_view(self.new_repo),
            new_tree: opt_view(self.new_tree),
            new_open: opt_view(self.new_open),
        }
    }
}

/// The resolved task with nothing resolved.
pub open spec fn nothing_resolved() -> ResolvedView {
    ResolvedView {
        host: None,
        repo: None,
        tree: None,
        open: None,
        new_host: None,
        new_repo: None,
        new_tree: None,
        new_open: None,
    }
}

impl Default for ResolvedTask {
    fn default() -> (r: ResolvedTask)
        ensures
            r@ == nothing_resolved(),
    {
        ResolvedTask {
            host: None,
            repo: None,
            tree: None,
            open: None,
            new_host: None,
            new_repo: None,
            new_tree: None,
            new_open: None,
        }
    }
}

/// A step of running a resolved task.
#[derive(Debug, Clone, Copy, PartialEq, Eq, Structural)]
pub enum RunStep {
    /// Open the repo, cloning it where it is missing.
    Repo,
    /// Find or add the worktree of the tree.
    Tree,
    /// Run the command of the open.
    Open,
}

/// The steps of running a resolved task: nothing without a repo; else the
/// repo, then the tree and the open where they are resolved.
pub open spec fn run_plan(rt: ResolvedView) -> Seq<RunStep> {
    if rt.repo is None {
        Seq::empty()
    } else {
        seq![RunStep::Repo] + (if rt.tree is Some {
            seq![RunStep::Tree]
        } else {
            Seq::empty()
        }) + (if rt.open is Some {
            seq![RunStep::Open]
        } else {
            Seq::empty()
        })
    }
}

/// Why a step of running a resolved task cannot be taken.
#[derive(Debug, Clone, Copy, PartialEq, Eq, Structural)]
pub enum RunError {
    /// `repo needs path to be set`
    RepoNeedsPath,
    /// `host is missing required fields`: no url to clone from.
    HostMissingFields,
    /// `name and path of the tree must be defined`
    TreeNeedsNameAndPath,
    /// `missing open`
    MissingOpen,
    /// `open needs a path`
    OpenNeedsPath,
    /// `command needs to be non-empty`
    EmptyCommand,
}

/// Where a worktree starts from: the local branch of its name, else the
/// remote one, else the head.
#[derive(Debug, Clone, Copy, PartialEq, Eq, Structural)]
pub enum WorktreeBase {
    LocalBranch,
    RemoteBranch,
    Head,
}

/// Where a worktree starts from, given whether a local and a remote branch
/// of its name are found.
pub fn worktree_base(local_found: bool, remote_found: bool) -> (r: WorktreeBase)
    ensures
        r == (if local_found {
            WorktreeBase::LocalBranch
        } else if remote_found {
            WorktreeBase::RemoteBranch
        } else {
            WorktreeBase::Head
        }),
{
    if local_found {
        WorktreeBase::LocalBranch
    } else if remote_found {
        WorktreeBase::RemoteBranch
    } else {
        WorktreeBase::Head
    }
}

/// The program and the arguments of a command: its first word and the rest.
pub fn build_cmd(command: &Vec<BString>) -> (r: Result<(&BString, &[BString]), RunError>)
    ensures
        command@.len() == 0 ==> r == Err::<(&BString, &[BString]), RunError>(RunError::EmptyCommand),
        command@.len() > 0 ==> (r matches Ok((p, a)) && *p == command@[0] && a@ == command@.drop_first()),
{
    if command.len() == 0 {
        return Err(RunError::EmptyCommand);
    }
    let rest = vstd::slice::slice_subrange(command.as_slice(), 1, command.len());
    assert(rest@ =~= command@.drop_first());
    Ok((&command[0], rest))
}

impl ResolvedTask {
    /// The steps of running the resolved entries (see `run_plan`).
    pub fn run(&self) -> (r: Vec<RunStep>)
        ensures
            r@ == run_plan(self@),
    {
        let mut steps: Vec<RunStep> = Vec::new();
        if self.repo.is_none() {
            assert(steps@ =~= run_plan(self@));
            return steps;
        }
        steps.push(RunStep::Repo);
        if self.tree.is_some() {
            steps.push(RunStep::Tree);
        }
        if self.open.is_some() {
            steps.push(RunStep::Open);
        }
        assert(steps@ =~= run_plan(self@));
        steps
    }

    /// The path of the repo to open or clone.
    pub fn repo_path(&self) -> (r: Result<&[u8], RunError>)
        ensures
            match self@.repo {
                Some(rv) if rv.path is Some => r matches Ok(p) && p@ == rv.path.unwrap(),
                _ => r == Err::<&[u8], RunError>(RunError::RepoNeedsPath),
            },
    {
        match &self.repo {
            Some(repo) => match &repo.path {
                Some(p) => Ok(p.as_bytes()),
                None => Err(RunError::RepoNeedsPath),
            },
            None => Err(RunError::RepoNeedsPath),
        }
    }

    /// The url to clone a missing repo from: that of the host.
    pub fn clone_url(&self) -> (r: Result<&[u8], RunError>)
        ensures
            match self@.host {
                Some(h) if h.host is Some => r matches Ok(u) && u@ == h.host.unwrap(),
                _ => r == Err::<&[u8], RunError>(RunError::HostMissingFields),
            },
    {
        match &self.host {
            Some(host) => match &host.host {
                Some(u) => Ok(u.as_bytes()),
                None => Err(RunError::HostMissingFields),
            },
            None => Err(RunError::HostMissingFields),
        }
    }

    /// Where the repo was newly found in a manifest and has a name: the
    /// manifest file to record it in, and its name there.
    pub fn repo_update(&self) -> (r: Option<(&[u8], &[u8])>)
        ensures
            match (self@.new_repo, self@.repo) {
                (Some(f), Some(rv)) if rv.common.name is Some => r matches Some((a, b)) && a@ == f
                    && b@ == rv.common.name.unwrap(),
                _ => r is None,
            },
    {
        match (&self.new_repo, &self.repo) {
            (Some(f), Some(repo)) => match &repo.common.name {
                Some(n) => Some((f.as_bytes(), n.as_bytes())),
                None => None,
            },
            _ => None,
        }
    }

    /// The name and the path of the tree's worktree.
    pub fn tree_target(&self) -> (r: Result<(&[u8], &[u8]), RunError>)
        ensures
            match self@.tree {
                Some(t) if t.common.name is Some && t.path is Some => r matches Ok((n, p)) && n@
                    == t.common.name.unwrap() && p@ == t.path.unwrap(),
                _ => r == Err::<(&[u8], &[u8]), RunError>(RunError::TreeNeedsNameAndPath),
            },
    {
        match &self.tree {
            Some(tree) => match (&tree.common.name, &tree.path) {
                (Some(n), Some(p)) => Ok((n.as_bytes(), p.as_bytes())),
                _ => Err(RunError::TreeNeedsNameAndPath),
            },
            None => Err(RunError::TreeNeedsNameAndPath),
        }
    }

    /// Where the tree was newly found in a manifest: the manifest file to
    /// record it in, and its name there.
    pub fn tree_update(&self) -> (r: Option<(&[u8], &[u8])>)
        ensures
            match (self@.new_tree, self@.tree) {
                (Some(f), Some(t)) if t.common.name is Some => r matches Some((a, b)) && a@ == f
                    && b@ == t.common.name.unwrap(),
                _ => r is None,
            },
    {
        match (&self.new_tree, &self.tree) {
            (Some(f), Some(tree)) => match &tree.common.name {
                Some(n) => Some((f.as_bytes(), n.as_bytes())),
                None => None,
            },
            _ => None,
        }
    }

    /// The directory to run the open's command in: its own directory, else
    /// the tree's path, else the repo's path.
    pub fn open_path(&self) -> (r: Result<&[u8], RunError>)
        ensures
            match self@.open {
                None => r == Err::<&[u8], RunError>(RunError::MissingOpen),
                Some(o) => match (o.directory, self@.tree, self@.repo) {
                    (Some(d), _, _) => r matches Ok(p) && p@ == d,
                    (None, Some(t), _) if t.path is Some => r matches Ok(p) && p@ == t.path.unwrap(),
                    (None, _, Some(rv)) if rv.path is Some && !(self@.tree matches Some(t)
                        && t.path is Some) => r matches Ok(p) && p@ == rv.path.unwrap(),
                    _ => r == Err::<&[u8], RunError>(RunError::OpenNeedsPath),
                },
            },
    {
        let open = match &self.open {
            Some(o) => o,
            None => {
                return Err(RunError::MissingOpen);
            },
        };
        if let Some(d) = &open.directory {
            return Ok(d.as_bytes());
        }
        if let Some(tree) = &self.tree {
            if let Some(p) = &tree.path {
                return Ok(p.as_bytes());
            }
        }
        if let Some(repo) = &self.repo {
            if let Some(p) = &repo.path {
                return Ok(p.as_bytes());
            }
        }
        Err(RunError::OpenNeedsPath)
    }

    /// Where the open was newly found in a manifest and has a name: the
    /// manifest file to record it in, and its name there.
    pub fn open_update(&self) -> (r: Option<(&[u8], &[u8])>)
        ensures
            match (self@.new_open, self@.open) {
                (Some(f), Some(o)) if o.common.name is Some => r matches Some((a, b)) && a@ == f
                    && b@ == o.common.name.unwrap(),
                _ => r is None,
            },
    {
        match (&self.new_open, &self.open) {
            (Some(f), Some(open)) => match &open.common.name {
                Some(n) => Some((f.as_bytes(), n.as_bytes())),
                None => None,
            },
            _ => None,
        }
    }
}

} // verus!
