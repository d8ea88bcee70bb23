//! Template variables and the expansion of templates.
//!
//! A variable is looked up in the entries resolved so far (host, repo, tree,
//! open, in this order), then in the names that the task gives, then among
//! the environment variables (`env.NAME`) and the program's directories
//! (`dir.config`, `dir.data`).

use crate::bytes::{bytes_eq, has_prefix};
use crate::schemas::config::bstring::BString;
use crate::schemas::config::host::{Host, HostView};
use crate::schemas::config::open::{Open, OpenView};
use crate::schemas::config::repo::{Repo, RepoView};
use crate::schemas::config::tree::{Tree, TreeView};
use crate::schemas::config::common::CommonView;
use crate::schemas::utils::entry_map::sorted_entries;
use crate::state::resolve::context::{fail_as, Context, ContextView, Out, ResolveError, ResolveErrorView};
use crate::state::resolve::resolved_task::{ResolvedTask, ResolvedView};
use crate::task::{Task, TaskView};
use crate::template::{law_step_takes_prefix, spec_next, Template, Token, TokenView};
use vstd::prelude::*;
use vstd::slice::slice_subrange;
use vstd::string::StringSliceAdditionalSpecFns;

verus! {

/// What looking up a variable gives: a value, nothing, an error, or a panic.
pub enum VarOut {
    Value(Seq<u8>),
    NoValue,
    Fail(ResolveErrorView),
    Panic,
}

/// The variable `name` that stands for a field: its value where it is set,
/// an error otherwise.
pub open spec fn field_var(field: Option<Seq<u8>>, name: Seq<u8>) -> VarOut {
    match field {
        Some(v) => VarOut::Value(v),
        None => VarOut::Fail(ResolveErrorView::Unset(name)),
    }
}

/// The variables of a host: `host.name` and `host.host`.
pub open spec fn host_var(h: HostView, name: Seq<u8>) -> VarOut {
    if name == "host.name".spec_bytes() {
        field_var(h.common.name, name)
    } else if name == "host.host".spec_bytes() {
        field_var(h.host, name)
    } else {
        VarOut::NoValue
    }
}

/// The variables of a repo: `repo.name`, `repo.path` and `repo.url`.
pub open spec fn repo_var(r: RepoView, name: Seq<u8>) -> VarOut {
    if name == "repo.name".spec_bytes() {
        field_var(r.common.name, name)
    } else if name == "repo.path".spec_bytes() {
        field_var(r.path, name)
    } else if name == "repo.url".spec_bytes() {
        field_var(r.url, name)
    } else {
        VarOut::NoValue
    }
}

/// The variables of a tree: `tree.name`, `tree.path` and `tree.branch`.
pub open spec fn tree_var(t: TreeView, name: Seq<u8>) -> VarOut {
    if name == "tree.name".spec_bytes() {
        field_var(t.common.name, name)
    } else if name == "tree.path".spec_bytes() {
        field_var(t.path, name)
    } else if name == "tree.branch".spec_bytes() {
        field_var(t.branch, name)
    } else {
        VarOut::NoValue
    }
}

/// The first element of a list, where it has one.
pub open spec fn first_of_list(s: Seq<Seq<u8>>) -> Option<Seq<u8>> {
    if s.len() > 0 {
        Some(s[0])
    } else {
        None
    }
}

/// The variables of an open: `open.name`, `open.command` (its first word)
/// and `open.directory`.
pub open spec fn open_var(o: OpenView, name: Seq<u8>) -> VarOut {
    if name == "open.name".spec_bytes() {
        field_var(o.common.name, name)
    } else if name == "open.command".spec_bytes() {
        field_var(first_of_list(o.command), name)
    } else if name == "open.directory".spec_bytes() {
        field_var(o.directory, name)
    } else {
        VarOut::NoValue
    }
}

/// `a`, or `b` where `a` gives nothing.
pub open spec fn or_next(a: VarOut, b: VarOut) -> VarOut {
    match a {
        VarOut::NoValue => b,
        _ => a,
    }
}

/// The variables that do not come from a resolved entry: the names of the
/// task's parts, `env.NAME` (a panic where `NAME` is not set) and
/// `dir.config`, `dir.data`.
pub open spec fn task_var(ctx: ContextView, task: TaskView, name: Seq<u8>) -> VarOut {
    let env = "env.".spec_bytes();
    let dir = "dir.".spec_bytes();
    if task.host is Some && name == "host.name".spec_bytes() {
        VarOut::Value(task.host.unwrap())
    } else if task.repo is Some && name == "repo.name".spec_bytes() {
        VarOut::Value(task.repo.unwrap())
    } else if task.tree is Some && name == "tree.name".spec_bytes() {
        VarOut::Value(task.tree.unwrap())
    } else if task.open is Some && name == "open.name".spec_bytes() {
        VarOut::Value(task.open.unwrap())
    } else if env.len() <= name.len() && name.subrange(0, env.len() as int) == env {
        let var = name.subrange(env.len() as int, name.len() as int);
        if ctx.env.contains_key(var) {
            VarOut::Value(ctx.env[var])
        } else {
            VarOut::Panic
        }
    } else if dir.len() <= name.len() && name.subrange(0, dir.len() as int) == dir {
        let d = name.subrange(dir.len() as int, name.len() as int);
        if d == "config".spec_bytes() {
            VarOut::Value(ctx.config_dir)
        } else if d == "data".spec_bytes() {
            VarOut::Value(ctx.data_dir)
        } else {
            VarOut::NoValue
        }
    } else {
        VarOut::NoValue
    }
}

/// The value of the variable `name`: from the first resolved entry that has
/// it, else from the task, the environment or the directories.
pub open spec fn arg_var(ctx: ContextView, rt: ResolvedView, task: TaskView, name: Seq<u8>) -> VarOut {
    let h = match rt.host {
        Some(h) => host_var(h, name),
        None => VarOut::NoValue,
    };
    let r = match rt.repo {
        Some(r) => repo_var(r, name),
        None => VarOut::NoValue,
    };
    let t = match rt.tree {
        Some(t) => tree_var(t, name),
        None => VarOut::NoValue,
    };
    let o = match rt.open {
        Some(o) => open_var(o, name),
        None => VarOut::NoValue,
    };
    or_next(h, or_next(r, or_next(t, or_next(o, task_var(ctx, task, name)))))
}

/// `s` in front of the value of an outcome.
pub open spec fn prepend(s: Seq<u8>, o: Out<Seq<u8>>) -> Out<Seq<u8>> {
    match o {
        Out::Value(x) => Out::Value(s + x),
        _ => o,
    }
}

/// The expansion of the template `b`: its tokens in order, text as it is and
/// each variable by its value. A variable without value is an error, and the
/// first error ends the expansion. Text that the reading does not advance
/// over is read again without end.
pub open spec fn expand_bytes(ctx: ContextView, rt: ResolvedView, task: TaskView, b: Seq<u8>) -> Out<
    Seq<u8>,
>
    decreases b.len(),
{
    let (tok, rest) = spec_next(b);
    match tok {
        None => Out::Value(Seq::empty()),
        Some(TokenView::Str(s)) => {
            if rest.len() < b.len() {
                prepend(s, expand_bytes(ctx, rt, task, rest))
            } else {
                Out::Stuck
            }
        },
        Some(TokenView::Var(v)) => match arg_var(ctx, rt, task, v) {
            VarOut::Value(x) => {
                if rest.len() < b.len() {
                    prepend(x, expand_bytes(ctx, rt, task, rest))
                } else {
                    Out::Stuck
                }
            },
            VarOut::NoValue => Out::Error(ResolveErrorView::Unresolved(v)),
            VarOut::Fail(e) => Out::Error(e),
            VarOut::Panic => Out::Panic,
        },
    }
}

/// Whether the template `b` has a variable; `None` where reading it never
/// ends before one is found.
pub open spec fn spec_has_var(b: Seq<u8>) -> Option<bool>
    decreases b.len(),
{
    let (tok, rest) = spec_next(b);
    match tok {
        None => Some(false),
        Some(TokenView::Var(_)) => Some(true),
        Some(TokenView::Str(_)) => {
            if rest.len() < b.len() {
                spec_has_var(rest)
            } else {
                None
            }
        },
    }
}

/// What `write_field` does: appends a set field, fails on an unset one.
fn write_field(field: &Option<BString>, name: &[u8], buf: &mut Vec<u8>) -> (r: Result<bool, ResolveError>)
    ensures
        match field_var(crate::schemas::config::bstring::opt_view(*field), name@) {
            VarOut::Value(v) => r == Ok::<bool, ResolveError>(true) && final(buf)@ == old(buf)@ + v,
            VarOut::Fail(e) => r matches Err(x) && x@ == e && final(buf)@ == old(buf)@,
            _ => false,
        },
{
    match field {
        Some(v) => {
            let mut bytes = v.0.clone();
            let ghost b = bytes@;
            assert(b == v@);
            buf.append(&mut bytes);
            Ok(true)
        },
        None => Err(ResolveError::Unset(BString::from_bytes(name))),
    }
}

/// What looking up a variable gave, against the exec result.
pub open spec fn var_is(o: VarOut, r: Result<bool, ResolveError>, before: Seq<u8>, after: Seq<u8>) -> bool {
    match o {
        VarOut::Value(v) => r == Ok::<bool, ResolveError>(true) && after == before + v,
        VarOut::NoValue => r == Ok::<bool, ResolveError>(false) && after == before,
        VarOut::Fail(e) => r matches Err(x) && x@ == e && after == before,
        VarOut::Panic => false,
    }
}

impl Host {
    /// Appends the value of the variable `name` where it is one of this
    /// host's (see `host_var`).
    pub fn expand_template_var(&self, name: &[u8], buf: &mut Vec<u8>) -> (r: Result<bool, ResolveError>)
        ensures
            var_is(host_var(self@, name@), r, old(buf)@, final(buf)@),
    {
        if bytes_eq(name, "host.name".as_bytes()) {
            write_field(&self.common.name, name, buf)
        } else if bytes_eq(name, "host.host".as_bytes()) {
            write_field(&self.host, name, buf)
        } else {
            Ok(false)
        }
    }
}

impl Repo {
    /// Appends the value of the variable `name` where it is one of this
    /// repo's (see `repo_var`).
    pub fn expand_template_var(&self, name: &[u8], buf: &mut Vec<u8>) -> (r: Result<bool, ResolveError>)
        ensures
            var_is(repo_var(self@, name@), r, old(buf)@, final(buf)@),
    {
        if bytes_eq(name, "repo.name".as_bytes()) {
            write_field(&self.common.name, name, buf)
        } else if bytes_eq(name, "repo.path".as_bytes()) {
            write_field(&self.path, name, buf)
        } else if bytes_eq(name, "repo.url".as_bytes()) {
            write_field(&self.url, name, buf)
        } else {
            Ok(false)
        }
    }
}

impl Tree {
    /// Appends the value of the variable `name` where it is one of this
    /// tree's (see `tree_var`).
    pub fn expand_template_var(&self, name: &[u8], buf: &mut Vec<u8>) -> (r: Result<bool, ResolveError>)
        ensures
            var_is(tree_var(self@, name@), r, old(buf)@, final(buf)@),
    {
        if bytes_eq(name, "tree.name".as_bytes()) {
            write_field(&self.common.name, name, buf)
        } else if bytes_eq(name, "tree.path".as_bytes()) {
            write_field(&self.path, name, buf)
        } else if bytes_eq(name, "tree.branch".as_bytes()) {
            write_field(&self.branch, name, buf)
        } else {
            Ok(false)
        }
    }
}

impl Open {
    /// Appends the value of the variable `name` where it is one of this
    /// open's (see `open_var`).
    pub fn expand_template_var(&self, name: &[u8], buf: &mut Vec<u8>) -> (r: Result<bool, ResolveError>)
        ensures
            var_is(open_var(self@, name@), r, old(buf)@, final(buf)@),
    {
        if bytes_eq(name, "open.name".as_bytes()) {
            write_field(&self.common.name, name, buf)
        } else if bytes_eq(name, "open.command".as_bytes()) {
            let first = if self.command.len() > 0 {
                Some(self.command[0].clone())
            } else {
                None
            };
            write_field(&first, name, buf)
        } else if bytes_eq(name, "open.directory".as_bytes()) {
            write_field(&self.directory, name, buf)
        } else {
            Ok(false)
        }
    }
}

/// The prefixes `env.` and `dir.` are four bytes long.
proof fn lemma_prefix_lengths()
    ensures
        "env.".spec_bytes().len() == 4,
        "dir.".spec_bytes().len() == 4,
{
    broadcast use vstd::string::is_ascii_spec_bytes;
    reveal_strlit("env.");
    reveal_strlit("dir.");
    assert(vstd::string::is_ascii("env."));
    assert(vstd::string::is_ascii("dir."));
}

/// Appends `bytes` to `buf`.
fn push_bytes(buf: &mut Vec<u8>, bytes: &[u8])
    ensures
        final(buf)@ == old(buf)@ + bytes@,
{
    let mut i: usize = 0;
    while i < bytes.len()
        invariant
            i <= bytes@.len(),
            buf@ == old(buf)@ + bytes@.subrange(0, i as int),
        decreases bytes@.len() - i,
    {
        buf.push(bytes[i]);
        assert(bytes@.subrange(0, i + 1) =~= bytes@.subrange(0, i as int).push(bytes@[i as int]));
        i = i + 1;
    }
    assert(bytes@.subrange(0, bytes@.len() as int) =~= bytes@);
}

/// Appends the value of the variable `name`: from the first resolved entry
/// that has it, else from the task, the environment or the directories (see
/// `arg_var`). Returns whether the variable has a value.
pub fn expand_template_var(
    ctx: &Context,
    rt: &ResolvedTask,
    task: Task,
    name: &[u8],
    buf: &mut Vec<u8>,
) -> (r: Result<bool, ResolveError>)
    requires
        !(arg_var(ctx@, rt@, task@, name@) is Panic),
    ensures
        var_is(arg_var(ctx@, rt@, task@, name@), r, old(buf)@, final(buf)@),
{
    if let Some(host) = &rt.host {
        if host.expand_template_var(name, buf)? {
            return Ok(true);
        }
    }
    if let Some(repo) = &rt.repo {
        if repo.expand_template_var(name, buf)? {
            return Ok(true);
        }
    }
    if let Some(tree) = &rt.tree {
        if tree.expand_template_var(name, buf)? {
            return Ok(true);
        }
    }
    if let Some(open) = &rt.open {
        if open.expand_template_var(name, buf)? {
            return Ok(true);
        }
    }
    proof {
        lemma_prefix_lengths();
    }
    if let Some(host) = task.host {
        if bytes_eq(name, "host.name".as_bytes()) {
            push_bytes(buf, host);
            return Ok(true);
        }
    }
    if let Some(repo) = task.repo {
        if bytes_eq(name, "repo.name".as_bytes()) {
            push_bytes(buf, repo);
            return Ok(true);
        }
    }
    if let Some(tree) = task.tree {
        if bytes_eq(name, "tree.name".as_bytes()) {
            push_bytes(buf, tree);
            return Ok(true);
        }
    }
    if let Some(open) = task.open {
        if bytes_eq(name, "open.name".as_bytes()) {
            push_bytes(buf, open);
            return Ok(true);
        }
    }
    if has_prefix(name, "env.".as_bytes()) {
        let var = slice_subrange(name, 4, name.len());
        match ctx.env.vars.get(var) {
            Some(value) => {
                push_bytes(buf, value.as_bytes());
                return Ok(true);
            },
            None => {
                // an unset variable is ruled out by the precondition
                assert(false);
                return Ok(false);
            },
        }
    }
    if has_prefix(name, "dir.".as_bytes()) {
        let d = slice_subrange(name, 4, name.len());
        if bytes_eq(d, "config".as_bytes()) {
            push_bytes(buf, ctx.dirs.config_dir.as_bytes());
            return Ok(true);
        } else if bytes_eq(d, "data".as_bytes()) {
            push_bytes(buf, ctx.dirs.data_dir.as_bytes());
            return Ok(true);
        }
        return Ok(false);
    }
    Ok(false)
}

/// Putting `a` and then `b` in front is putting `a + b` in front.
proof fn lemma_prepend_twice(a: Seq<u8>, b: Seq<u8>, o: Out<Seq<u8>>)
    ensures
        prepend(a, prepend(b, o)) == prepend(a + b, o),
{
    if let Out::Value(x) = o {
        assert(a + (b + x) =~= (a + b) + x);
    }
}

/// Expands the template `bytes` (see `expand_bytes`).
pub fn template(bytes: &[u8], ctx: &Context, rt: &ResolvedTask, task: Task) -> (r: Result<
    BString,
    ResolveError,
>)
    requires
        crate::state::resolve::context::finishes(expand_bytes(ctx@, rt@, task@, bytes@)),
    ensures
        crate::state::resolve::context::out_is::<BString>(expand_bytes(ctx@, rt@, task@, bytes@), r),
{
    let ghost total = expand_bytes(ctx@, rt@, task@, bytes@);
    let mut buf: Vec<u8> = Vec::new();
    let mut t = Template::new(bytes);
    assert(prepend(buf@, total) == total) by {
        if let Out::Value(x) = total {
            assert(buf@ + x =~= x);
        }
    }
    loop
        invariant
            total == expand_bytes(ctx@, rt@, task@, bytes@),
            crate::state::resolve::context::finishes(total),
            total == prepend(buf@, expand_bytes(ctx@, rt@, task@, t.bytes@)),
        decreases t.bytes@.len(),
    {
        let ghost b = t.bytes@;
        let ghost before = buf@;
        proof {
            law_step_takes_prefix(b);
        }
        match t.next() {
            None => {
                assert(buf@ + Seq::<u8>::empty() =~= buf@);
                return Ok(BString(buf));
            },
            Some(Token::Str(s)) => {
                assert(t.bytes@.len() < b.len());
                assert(expand_bytes(ctx@, rt@, task@, b) == prepend(s@, expand_bytes(ctx@, rt@, task@, t.bytes@)));
                push_bytes(&mut buf, s);
                proof {
                    lemma_prepend_twice(before, s@, expand_bytes(ctx@, rt@, task@, t.bytes@));
                }
            },
            Some(Token::Var(v)) => {
                let found = expand_template_var(ctx, rt, task, v, &mut buf)?;
                if !found {
                    return Err(ResolveError::Unresolved(BString::from_bytes(v)));
                }
                proof {
                    let x = buf@.subrange(before.len() as int, buf@.len() as int);
                    assert(buf@ =~= before + x);
                    if let VarOut::Value(w) = arg_var(ctx@, rt@, task@, v@) {
                        assert(x =~= w);
                    }
                    assert(arg_var(ctx@, rt@, task@, v@) == VarOut::Value(x));
                    assert(expand_bytes(ctx@, rt@, task@, b) == prepend(x, expand_bytes(ctx@, rt@, task@, t.bytes@)));
                    lemma_prepend_twice(before, x, expand_bytes(ctx@, rt@, task@, t.bytes@));
                }
            },
        }
    }
}

/// Whether the template `bytes` has a variable (see `spec_has_var`).
pub fn has_var(bytes: &[u8]) -> (r: bool)
    requires
        spec_has_var(bytes@) is Some,
    ensures
        spec_has_var(bytes@) == Some(r),
{
    let mut t = Template::new(bytes);
    loop
        invariant
            spec_has_var(bytes@) == spec_has_var(t.bytes@),
            spec_has_var(bytes@) is Some,
        decreases t.bytes@.len(),
    {
        let ghost b = t.bytes@;
        proof {
            law_step_takes_prefix(b);
        }
        match t.next() {
            None => {
                return false;
            },
            Some(Token::Var(_)) => {
                return true;
            },
            Some(Token::Str(_)) => {
                assert(t.bytes@.len() < b.len());
            },
        }
    }
}

/// The expansion of an optional template: none stays none.
pub open spec fn expand_opt(ctx: ContextView, rt: ResolvedView, task: TaskView, o: Option<Seq<u8>>) -> Out<
    Option<Seq<u8>>,
> {
    match o {
        None => Out::Value(None),
        Some(s) => match expand_bytes(ctx, rt, task, s) {
            Out::Value(x) => Out::Value(Some(x)),
            other => crate::state::resolve::context::fail_as(other),
        },
    }
}

/// Expands an optional template (see `expand_opt`).
pub fn template_opt(o: &Option<BString>, ctx: &Context, rt: &ResolvedTask, task: Task) -> (r: Result<
    Option<BString>,
    ResolveError,
>)
    requires
        crate::state::resolve::context::finishes(
            expand_opt(ctx@, rt@, task@, crate::schemas::config::bstring::opt_view(*o)),
        ),
    ensures
        match expand_opt(ctx@, rt@, task@, crate::schemas::config::bstring::opt_view(*o)) {
            Out::Value(v) => r matches Ok(x) && crate::schemas::config::bstring::opt_view(x) == v,
            Out::Error(e) => r matches Err(x) && x@ == e,
            _ => false,
        },
{
    match o {
        None => Ok(None),
        Some(s) => {
            let x = template(s.as_bytes(), ctx, rt, task)?;
            Ok(Some(x))
        },
    }
}

/// The common fields of an expanded entry: the name expanded, no manifest,
/// the rest as it was.
pub open spec fn expanded_common(c: CommonView, name: Option<Seq<u8>>) -> CommonView {
    CommonView { name, manifest: None, ..c }
}

/// The expansion of a host: its host and then its name.
pub open spec fn host_expand(ctx: ContextView, rt: ResolvedView, task: TaskView, h: HostView) -> Out<
    HostView,
> {
    match expand_opt(ctx, rt, task, h.host) {
        Out::Value(host) => match expand_opt(ctx, rt, task, h.common.name) {
            Out::Value(name) => Out::Value(HostView { host, common: expanded_common(h.common, name) }),
            other => fail_as(other),
        },
        other => fail_as(other),
    }
}

/// The expansion of a repo: its path, its url and then its name.
pub open spec fn repo_expand(ctx: ContextView, rt: ResolvedView, task: TaskView, r: RepoView) -> Out<
    RepoView,
> {
    match expand_opt(ctx, rt, task, r.path) {
        Out::Value(path) => match expand_opt(ctx, rt, task, r.url) {
            Out::Value(url) => match expand_opt(ctx, rt, task, r.common.name) {
                Out::Value(name) => Out::Value(
                    RepoView { path, url, common: expanded_common(r.common, name) },
                ),
                other => fail_as(other),
            },
            other => fail_as(other),
        },
        other => fail_as(other),
    }
}

/// The expansion of a tree: its path, its branch and then its name.
pub open spec fn tree_expand(ctx: ContextView, rt: ResolvedView, task: TaskView, t: TreeView) -> Out<
    TreeView,
> {
    match expand_opt(ctx, rt, task, t.path) {
        Out::Value(path) => match expand_opt(ctx, rt, task, t.branch) {
            Out::Value(branch) => match expand_opt(ctx, rt, task, t.common.name) {
                Out::Value(name) => Out::Value(
                    TreeView { path, branch, common: expanded_common(t.common, name) },
                ),
                other => fail_as(other),
            },
            other => fail_as(other),
        },
        other => fail_as(other),
    }
}

/// `l` in front of the list of an outcome.
pub open spec fn prepend_list(l: Seq<Seq<u8>>, o: Out<Seq<Seq<u8>>>) -> Out<Seq<Seq<u8>>> {
    match o {
        Out::Value(x) => Out::Value(l + x),
        _ => o,
    }
}

/// The expansion of a list of templates, in order; the first error ends it.
pub open spec fn expand_list(ctx: ContextView, rt: ResolvedView, task: TaskView, s: Seq<Seq<u8>>) -> Out<
    Seq<Seq<u8>>,
>
    decreases s.len(),
{
    if s.len() == 0 {
        Out::Value(Seq::empty())
    } else {
        match expand_bytes(ctx, rt, task, s[0]) {
            Out::Value(x) => prepend_list(seq![x], expand_list(ctx, rt, task, s.drop_first())),
            other => fail_as(other),
        }
    }
}

/// The map `m` under the map of an outcome, whose entries win.
pub open spec fn under_map(m: Map<Seq<u8>, Seq<u8>>, o: Out<Map<Seq<u8>, Seq<u8>>>) -> Out<
    Map<Seq<u8>, Seq<u8>>,
> {
    match o {
        Out::Value(x) => Out::Value(m.union_prefer_right(x)),
        _ => o,
    }
}

/// The expansion of the entries of an environment map, in order: each key
/// and then its value. A later entry wins where two keys expand alike.
pub open spec fn expand_env(
    ctx: ContextView,
    rt: ResolvedView,
    task: TaskView,
    e: Seq<(Seq<u8>, Seq<u8>)>,
) -> Out<Map<Seq<u8>, Seq<u8>>>
    decreases e.len(),
{
    if e.len() == 0 {
        Out::Value(Map::empty())
    } else {
        match expand_bytes(ctx, rt, task, e[0].0) {
            Out::Value(k) => match expand_bytes(ctx, rt, task, e[0].1) {
                Out::Value(v) => under_map(
                    Map::empty().insert(k, v),
                    expand_env(ctx, rt, task, e.drop_first()),
                ),
                other => fail_as(other),
            },
            other => fail_as(other),
        }
    }
}

/// The expansion of an open: its command, its environment (in key order),
/// its directory and then its name; without a name, it is named by its key.
pub open spec fn open_expand(
    ctx: ContextView,
    rt: ResolvedView,
    task: TaskView,
    key: Seq<u8>,
    o: OpenView,
) -> Out<OpenView> {
    match expand_list(ctx, rt, task, o.command) {
        Out::Value(command) => match expand_env(ctx, rt, task, sorted_entries(o.environment)) {
            Out::Value(environment) => match expand_opt(ctx, rt, task, o.directory) {
                Out::Value(directory) => match expand_opt(ctx, rt, task, o.common.name) {
                    Out::Value(name) => Out::Value(
                        OpenView {
                            command,
                            directory,
                            environment,
                            common: expanded_common(
                                o.common,
                                match name {
                                    Some(n) => Some(n),
                                    None => Some(key),
                                },
                            ),
                        },
                    ),
                    other => fail_as(other),
                },
                other => fail_as(other),
            },
            other => fail_as(other),
        },
        other => fail_as(other),
    }
}

/// Expands each template of a list, in order (see `expand_list`).
pub fn template_list(list: &Vec<BString>, ctx: &Context, rt: &ResolvedTask, task: Task) -> (r: Result<
    Vec<BString>,
    ResolveError,
>)
    requires
        crate::state::resolve::context::finishes(
            expand_list(ctx@, rt@, task@, crate::schemas::config::bstring::seq_view(list@)),
        ),
    ensures
        match expand_list(ctx@, rt@, task@, crate::schemas::config::bstring::seq_view(list@)) {
            Out::Value(v) => r matches Ok(x) && crate::schemas::config::bstring::seq_view(x@) == v,
            Out::Error(e) => r matches Err(x) && x@ == e,
            _ => false,
        },
{
    let ghost s = crate::schemas::config::bstring::seq_view(list@);
    let ghost total = expand_list(ctx@, rt@, task@, s);
    let mut out: Vec<BString> = Vec::new();
    let mut i: usize = 0;
    assert(s.subrange(0, s.len() as int) =~= s);
    assert(prepend_list(crate::schemas::config::bstring::seq_view(out@), total) == total) by {
        if let Out::Value(x) = total {
            assert(crate::schemas::config::bstring::seq_view(out@) + x =~= x);
        }
    }
    while i < list.len()
        invariant
            s == crate::schemas::config::bstring::seq_view(list@),
            total == expand_list(ctx@, rt@, task@, s),
            crate::state::resolve::context::finishes(total),
            i <= list@.len(),
            total == prepend_list(
                crate::schemas::config::bstring::seq_view(out@),
                expand_list(ctx@, rt@, task@, s.subrange(i as int, s.len() as int)),
            ),
        decreases list@.len() - i,
    {
        let ghost sub = s.subrange(i as int, s.len() as int);
        let ghost done = crate::schemas::config::bstring::seq_view(out@);
        assert(sub[0] == s[i as int]);
        assert(sub.drop_first() =~= s.subrange(i + 1, s.len() as int));
        let x = template(list[i].as_bytes(), ctx, rt, task)?;
        let ghost xv = x@;
        out.push(x);
        proof {
            let rest = expand_list(ctx@, rt@, task@, s.subrange(i + 1, s.len() as int));
            assert(crate::schemas::config::bstring::seq_view(out@) =~= done + seq![xv]);
            if let Out::Value(y) = rest {
                assert(done + (seq![xv] + y) =~= (done + seq![xv]) + y);
            }
        }
        i = i + 1;
    }
    proof {
        assert(s.subrange(i as int, s.len() as int) =~= Seq::<Seq<u8>>::empty());
        assert(crate::schemas::config::bstring::seq_view(out@) + Seq::<Seq<u8>>::empty() =~= crate::schemas::config::bstring::seq_view(out@));
    }
    Ok(out)
}

/// Expands each key and value of an environment map, in key order (see
/// `expand_env`).
pub fn template_env(
    env: &crate::schemas::utils::entry_map::EntryMap<BString>,
    ctx: &Context,
    rt: &ResolvedTask,
    task: Task,
) -> (r: Result<crate::schemas::utils::entry_map::EntryMap<BString>, ResolveError>)
    requires
        crate::state::resolve::context::finishes(expand_env(ctx@, rt@, task@, env@)),
    ensures
        match expand_env(ctx@, rt@, task@, env@) {
            Out::Value(v) => r matches Ok(x) && x.map() == v,
            Out::Error(e) => r matches Err(x) && x@ == e,
            _ => false,
        },
{
    let ghost s = env@;
    let ghost total = expand_env(ctx@, rt@, task@, s);
    let mut out: crate::schemas::utils::entry_map::EntryMap<BString> = crate::schemas::utils::entry_map::EntryMap::new();
    assert(out.map() =~= Map::<Seq<u8>, Seq<u8>>::empty());
    let mut i: usize = 0;
    assert(s.subrange(0, s.len() as int) =~= s);
    assert(under_map(out.map(), total) == total) by {
        if let Out::Value(x) = total {
            assert(out.map().union_prefer_right(x) =~= x);
        }
    }
    while i < env.len()
        invariant
            s == env@,
            total == expand_env(ctx@, rt@, task@, s),
            crate::state::resolve::context::finishes(total),
            i <= s.len(),
            total == under_map(out.map(), expand_env(ctx@, rt@, task@, s.subrange(i as int, s.len() as int))),
        decreases s.len() - i,
    {
        let ghost sub = s.subrange(i as int, s.len() as int);
        let ghost done = out.map();
        assert(sub[0] == s[i as int]);
        assert(sub.drop_first() =~= s.subrange(i + 1, s.len() as int));
        let (k, v) = env.entry(i);
        let kx = template(k.as_bytes(), ctx, rt, task)?;
        let vx = template(v.as_bytes(), ctx, rt, task)?;
        let ghost kv = kx@;
        let ghost vv = vx@;
        out.insert(kx, vx);
        proof {
            let rest = expand_env(ctx@, rt@, task@, s.subrange(i + 1, s.len() as int));
            if let Out::Value(y) = rest {
                assert(done.union_prefer_right(Map::empty().insert(kv, vv).union_prefer_right(y))
                    =~= done.insert(kv, vv).union_prefer_right(y));
            }
        }
        i = i + 1;
    }
    proof {
        assert(s.subrange(i as int, s.len() as int) =~= Seq::<(Seq<u8>, Seq<u8>)>::empty());
        assert(out.map().union_prefer_right(Map::<Seq<u8>, Seq<u8>>::empty()) =~= out.map());
    }
    Ok(out)
}

/// The variable names of the entries start with the letter of their kind.
proof fn lemma_variable_first_bytes()
    ensures
        "host.name".spec_bytes().len() > 0 && "host.name".spec_bytes()[0] == 0x68u8,
        "host.host".spec_bytes().len() > 0 && "host.host".spec_bytes()[0] == 0x68u8,
        "repo.name".spec_bytes().len() > 0 && "repo.name".spec_bytes()[0] == 0x72u8,
        "repo.path".spec_bytes().len() > 0 && "repo.path".spec_bytes()[0] == 0x72u8,
        "repo.url".spec_bytes().len() > 0 && "repo.url".spec_bytes()[0] == 0x72u8,
        "tree.name".spec_bytes().len() > 0 && "tree.name".spec_bytes()[0] == 0x74u8,
        "tree.path".spec_bytes().len() > 0 && "tree.path".spec_bytes()[0] == 0x74u8,
        "tree.branch".spec_bytes().len() > 0 && "tree.branch".spec_bytes()[0] == 0x74u8,
        "open.name".spec_bytes().len() > 0 && "open.name".spec_bytes()[0] == 0x6fu8,
        "open.command".spec_bytes().len() > 0 && "open.command".spec_bytes()[0] == 0x6fu8,
        "open.directory".spec_bytes().len() > 0 && "open.directory".spec_bytes()[0] == 0x6fu8,
{
    broadcast use vstd::string::is_ascii_spec_bytes;
    reveal_strlit("host.name");
    assert(vstd::string::is_ascii("host.name"));
    reveal_strlit("host.host");
    assert(vstd::string::is_ascii("host.host"));
    reveal_strlit("repo.name");
    assert(vstd::string::is_ascii("repo.name"));
    reveal_strlit("repo.path");
    assert(vstd::string::is_ascii("repo.path"));
    reveal_strlit("repo.url");
    assert(vstd::string::is_ascii("repo.url"));
    reveal_strlit("tree.name");
    assert(vstd::string::is_ascii("tree.name"));
    reveal_strlit("tree.path");
    assert(vstd::string::is_ascii("tree.path"));
    reveal_strlit("tree.branch");
    assert(vstd::string::is_ascii("tree.branch"));
    reveal_strlit("open.name");
    assert(vstd::string::is_ascii("open.name"));
    reveal_strlit("open.command");
    assert(vstd::string::is_ascii("open.command"));
    reveal_strlit("open.directory");
    assert(vstd::string::is_ascii("open.directory"));
}

/// The names the task gives are variables: where no resolved entry of a
/// kind is there, `${host.name}`, `${repo.name}`, `${tree.name}` and
/// `${open.name}` stand for the task's part of that kind, wherever it has one.
pub proof fn law_task_parts_are_variables(ctx: ContextView, rt: ResolvedView, task: TaskView)
    ensures
        rt.host is None && task.host is Some ==> arg_var(ctx, rt, task, "host.name".spec_bytes())
            == VarOut::Value(task.host.unwrap()),
        rt.repo is None && task.repo is Some ==> arg_var(ctx, rt, task, "repo.name".spec_bytes())
            == VarOut::Value(task.repo.unwrap()),
        rt.tree is None && task.tree is Some ==> arg_var(ctx, rt, task, "tree.name".spec_bytes())
            == VarOut::Value(task.tree.unwrap()),
        rt.open is None && task.open is Some ==> arg_var(ctx, rt, task, "open.name".spec_bytes())
            == VarOut::Value(task.open.unwrap()),
{
    lemma_variable_first_bytes();
}

} // verus!
