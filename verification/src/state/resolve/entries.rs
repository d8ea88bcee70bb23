//! The four kinds of entries as kinds to resolve.

use crate::schemas::config::bstring::{clone_list, BString};
use crate::schemas::config::common::Common;
use crate::schemas::config::host::{Host, HostView};
use crate::schemas::config::open::{Open, OpenView};
use crate::schemas::config::repo::{Repo, RepoView};
use crate::schemas::config::tree::{Tree, TreeView};
use crate::schemas::config::Config;
use crate::schemas::utils::entry_map::{lemma_sorted_entries, EntryMap};
use crate::state::resolve::context::{Context, ContextView, Out, ResolveError};
use crate::state::resolve::expand::{
    host_expand, open_expand, repo_expand, template_env, template_list, template_opt, tree_expand,
};
use crate::state::resolve::resolved_task::{ResolvedTask, ResolvedView};
use crate::state::resolve::Resolve;
use crate::task::{Task, TaskView};
use vstd::prelude::*;

verus! {

impl Resolve for Host {
    open spec fn slot(rt: ResolvedView) -> Option<HostView> {
        rt.host
    }

    open spec fn with_slot(rt: ResolvedView, v: Option<HostView>) -> ResolvedView {
        ResolvedView { host: v, ..rt }
    }

    open spec fn with_new(rt: ResolvedView, path: Seq<u8>) -> ResolvedView {
        ResolvedView { new_host: Some(path), ..rt }
    }

    open spec fn task_part(t: TaskView) -> Option<Seq<u8>> {
        t.host
    }

    open spec fn with_task_part(t: TaskView, name: Seq<u8>) -> TaskView {
        TaskView { host: Some(name), ..t }
    }

    open spec fn entries(c: Config) -> Seq<(Seq<u8>, HostView)> {
        c.host@
    }

    open spec fn spec_expand(ctx: ContextView, rt: ResolvedView, task: TaskView, key: Seq<u8>, v: HostView) -> Out<
        HostView,
    > {
        host_expand(ctx, rt, task, v)
    }

    fn has_slot(rt: &ResolvedTask) -> (r: bool) {
        rt.host.is_some()
    }

    fn take_slot(rt: &mut ResolvedTask) -> (r: Option<Host>) {
        let mut x = None;
        std::mem::swap(&mut x, &mut rt.host);
        x
    }

    fn put_slot(rt: &mut ResolvedTask, v: Host) {
        rt.host = Some(v);
    }

    fn put_new(rt: &mut ResolvedTask, path: BString) {
        rt.new_host = Some(path);
    }

    fn task_ref<'a>(task: Task<'a>) -> (r: Option<&'a [u8]>) {
        task.host
    }

    fn with_task_ref<'a>(task: Task<'a>, name: &'a [u8]) -> (r: Task<'a>) {
        Task { host: Some(name), ..task }
    }

    fn config_ref(config: &Config) -> (r: &EntryMap<Host>) {
        &config.host
    }

    fn expand(&self, key: &[u8], task: Task, ctx: &Context, rt: &ResolvedTask) -> (r: Result<Host, ResolveError>) {
        let host = template_opt(&self.host, ctx, rt, task)?;
        let name = template_opt(&self.common.name, ctx, rt, task)?;
        Ok(
            Host {
                host,
                common: Common {
                    name,
                    alias: clone_list(&self.common.alias),
                    manifest: None,
                    default: self.common.default,
                    merge: self.common.merge,
                },
            },
        )
    }
}

impl Resolve for Repo {
    open spec fn slot(rt: ResolvedView) -> Option<RepoView> {
        rt.repo
    }

    open spec fn with_slot(rt: ResolvedView, v: Option<RepoView>) -> ResolvedView {
        ResolvedView { repo: v, ..rt }
    }

    open spec fn with_new(rt: ResolvedView, path: Seq<u8>) -> ResolvedView {
        ResolvedView { new_repo: Some(path), ..rt }
    }

    open spec fn task_part(t: TaskView) -> Option<Seq<u8>> {
        t.repo
    }

    open spec fn with_task_part(t: TaskView, name: Seq<u8>) -> TaskView {
        TaskView { repo: Some(name), ..t }
    }

    open spec fn entries(c: Config) -> Seq<(Seq<u8>, RepoView)> {
        c.repo@
    }

    open spec fn spec_expand(ctx: ContextView, rt: ResolvedView, task: TaskView, key: Seq<u8>, v: RepoView) -> Out<
        RepoView,
    > {
        repo_expand(ctx, rt, task, v)
    }

    fn has_slot(rt: &ResolvedTask) -> (r: bool) {
        rt.repo.is_some()
    }

    fn take_slot(rt: &mut ResolvedTask) -> (r: Option<Repo>) {
        let mut x = None;
        std::mem::swap(&mut x, &mut rt.repo);
        x
    }

    fn put_slot(rt: &mut ResolvedTask, v: Repo) {
        rt.repo = Some(v);
    }

    fn put_new(rt: &mut ResolvedTask, path: BString) {
        rt.new_repo = Some(path);
    }

    fn task_ref<'a>(task: Task<'a>) -> (r: Option<&'a [u8]>) {
        task.repo
    }

    fn with_task_ref<'a>(task: Task<'a>, name: &'a [u8]) -> (r: Task<'a>) {
        Task { repo: Some(name), ..task }
    }

    fn config_ref(config: &Config) -> (r: &EntryMap<Repo>) {
        &config.repo
    }

    fn expand(&self, key: &[u8], task: Task, ctx: &Context, rt: &ResolvedTask) -> (r: Result<Repo, ResolveError>) {
        let path = template_opt(&self.path, ctx, rt, task)?;
        let url = template_opt(&self.url, ctx, rt, task)?;
        let name = template_opt(&self.common.name, ctx, rt, task)?;
        Ok(
            Repo {
                path,
                url,
                common: Common {
                    name,
                    alias: clone_list(&self.common.alias),
                    manifest: None,
                    default: self.common.default,
                    merge: self.common.merge,
                },
            },
        )
    }
}

impl Resolve for Tree {
    open spec fn slot(rt: ResolvedView) -> Option<TreeView> {
        rt.tree
    }

    open spec fn with_slot(rt: ResolvedView, v: Option<TreeView>) -> ResolvedView {
        ResolvedView { tree: v, ..rt }
    }

    open spec fn with_new(rt: ResolvedView, path: Seq<u8>) -> ResolvedView {
        ResolvedView { new_tree: Some(path), ..rt }
    }

    open spec fn task_part(t: TaskView) -> Option<Seq<u8>> {
        t.tree
    }

    open spec fn with_task_part(t: TaskView, name: Seq<u8>) -> TaskView {
        TaskView { tree: Some(name), ..t }
    }

    open spec fn entries(c: Config) -> Seq<(Seq<u8>, TreeView)> {
        c.tree@
    }

    open spec fn spec_expand(ctx: ContextView, rt: ResolvedView, task: TaskView, key: Seq<u8>, v: TreeView) -> Out<
        TreeView,
    > {
        tree_expand(ctx, rt, task, v)
    }

    fn has_slot(rt: &ResolvedTask) -> (r: bool) {
        rt.tree.is_some()
    }

    fn take_slot(rt: &mut ResolvedTask) -> (r: Option<Tree>) {
        let mut x = None;
        std::mem::swap(&mut x, &mut rt.tree);
        x
    }

    fn put_slot(rt: &mut ResolvedTask, v: Tree) {
        rt.tree = Some(v);
    }

    fn put_new(rt: &mut ResolvedTask, path: BString) {
        rt.new_tree = Some(path);
    }

    fn task_ref<'a>(task: Task<'a>) -> (r: Option<&'a [u8]>) {
        task.tree
    }

    fn with_task_ref<'a>(task: Task<'a>, name: &'a [u8]) -> (r: Task<'a>) {
        Task { tree: Some(name), ..task }
    }

    fn config_ref(config: &Config) -> (r: &EntryMap<Tree>) {
        &config.tree
    }

    fn expand(&self, key: &[u8], task: Task, ctx: &Context, rt: &ResolvedTask) -> (r: Result<Tree, ResolveError>) {
        let path = template_opt(&self.path, ctx, rt, task)?;
        let branch = template_opt(&self.branch, ctx, rt, task)?;
        let name = template_opt(&self.common.name, ctx, rt, task)?;
        Ok(
            Tree {
                path,
                branch,
                common: Common {
                    name,
                    alias: clone_list(&self.common.alias),
                    manifest: None,
                    default: self.common.default,
                    merge: self.common.merge,
                },
            },
        )
    }
}

impl Resolve for Open {
    open spec fn slot(rt: ResolvedView) -> Option<OpenView> {
        rt.open
    }

    open spec fn with_slot(rt: ResolvedView, v: Option<OpenView>) -> ResolvedView {
        ResolvedView { open: v, ..rt }
    }

    open spec fn with_new(rt: ResolvedView, path: Seq<u8>) -> ResolvedView {
        ResolvedView { new_open: Some(path), ..rt }
    }

    open spec fn task_part(t: TaskView) -> Option<Seq<u8>> {
        t.open
    }

    open spec fn with_task_part(t: TaskView, name: Seq<u8>) -> TaskView {
        TaskView { open: Some(name), ..t }
    }

    open spec fn entries(c: Config) -> Seq<(Seq<u8>, OpenView)> {
        c.open@
    }

    open spec fn spec_expand(ctx: ContextView, rt: ResolvedView, task: TaskView, key: Seq<u8>, v: OpenView) -> Out<
        OpenView,
    > {
        open_expand(ctx, rt, task, key, v)
    }

    fn has_slot(rt: &ResolvedTask) -> (r: bool) {
        rt.open.is_some()
    }

    fn take_slot(rt: &mut ResolvedTask) -> (r: Option<Open>) {
        let mut x = None;
        std::mem::swap(&mut x, &mut rt.open);
        x
    }

    fn put_slot(rt: &mut ResolvedTask, v: Open) {
        rt.open = Some(v);
    }

    fn put_new(rt: &mut ResolvedTask, path: BString) {
        rt.new_open = Some(path);
    }

    fn task_ref<'a>(task: Task<'a>) -> (r: Option<&'a [u8]>) {
        task.open
    }

    fn with_task_ref<'a>(task: Task<'a>, name: &'a [u8]) -> (r: Task<'a>) {
        Task { open: Some(name), ..task }
    }

    fn config_ref(config: &Config) -> (r: &EntryMap<Open>) {
        &config.open
    }

    fn expand(&self, key: &[u8], task: Task, ctx: &Context, rt: &ResolvedTask) -> (r: Result<Open, ResolveError>) {
        proof {
            use_type_invariant(&self.environment);
            lemma_sorted_entries(self.environment@);
        }
        let command = template_list(&self.command, ctx, rt, task)?;
        let environment = template_env(&self.environment, ctx, rt, task)?;
        let directory = template_opt(&self.directory, ctx, rt, task)?;
        let name = template_opt(&self.common.name, ctx, rt, task)?;
        let name = match name {
            Some(n) => Some(n),
            None => Some(BString::from_bytes(key)),
        };
        Ok(
            Open {
                command,
                directory,
                environment,
                common: Common {
                    name,
                    alias: clone_list(&self.common.alias),
                    manifest: None,
                    default: self.common.default,
                    merge: self.common.merge,
                },
            },
        )
    }
}

} // verus!
