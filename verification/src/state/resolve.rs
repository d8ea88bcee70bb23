//! Resolving a task: finding, for each part it names, the entry of the
//! configuration layers that it stands for, following manifest files.

pub mod context;
pub mod entries;
pub mod expand;
pub mod resolved_task;

use crate::bytes::bytes_eq;
use crate::schemas::config::bstring::{seq_view, BString};
use crate::schemas::config::common::{Common, Entry};
use crate::schemas::config::host::Host;
use crate::schemas::config::open::Open;
use crate::schemas::config::repo::Repo;
use crate::schemas::config::tree::Tree;
use crate::schemas::config::{Config, ConfigSource, ConfigSourceView};
use crate::schemas::utils::entry_map::EntryMap;
use crate::state::config_stack::{lemma_store_layers, ConfigStack, StackError, StackView};
use crate::state::resolve::context::{
    context_of, done_is, fail_as, files_view, finishes, out_is, take_file, Context, ContextView,
    Environment, Manifests, Out, ResolveError, ResolveErrorView,
};
use crate::state::State;
use crate::state::resolve::expand::{expand_bytes, has_var, spec_has_var, template};
use crate::state::resolve::resolved_task::{opt_v, ResolvedTask, ResolvedView};
use crate::task::{opt_bytes, Task, TaskView};
use vstd::prelude::*;

verus! {

/// A kind of entry that a task part can resolve to: hosts, repos, trees and
/// opens.
pub trait Resolve: Entry + Sized {
    /// The entry of this kind that the task resolved to.
    spec fn slot(rt: ResolvedView) -> Option<Self::V>;

    /// The resolved task with the entry of this kind set to `v`.
    spec fn with_slot(rt: ResolvedView, v: Option<Self::V>) -> ResolvedView;

    /// The resolved task with the manifest of the entry of this kind set.
    spec fn with_new(rt: ResolvedView, path: Seq<u8>) -> ResolvedView;

    /// The part of the task that names an entry of this kind.
    spec fn task_part(t: TaskView) -> Option<Seq<u8>>;

    /// The task with its part of this kind set to `name`.
    spec fn with_task_part(t: TaskView, name: Seq<u8>) -> TaskView;

    /// The entries of this kind of a configuration, in key order.
    spec fn entries(c: Config) -> Seq<(Seq<u8>, Self::V)>;

    /// The entry `v` of key `key` with its templates expanded.
    spec fn spec_expand(ctx: ContextView, rt: ResolvedView, task: TaskView, key: Seq<u8>, v: Self::V) -> Out<
        Self::V,
    >;

    /// Whether the entry of this kind is resolved.
    fn has_slot(rt: &ResolvedTask) -> (r: bool)
        ensures
            r == (Self::slot(rt@) is Some),
    ;

    /// Takes the resolved entry of this kind out of `rt`.
    fn take_slot(rt: &mut ResolvedTask) -> (r: Option<Self>)
        ensures
            opt_v(r) == Self::slot(old(rt)@),
            final(rt)@ == Self::with_slot(old(rt)@, None),
    ;

    /// Sets the resolved entry of this kind.
    fn put_slot(rt: &mut ResolvedTask, v: Self)
        ensures
            final(rt)@ == Self::with_slot(old(rt)@, Some(v@)),
    ;

    /// Sets the manifest in which the entry of this kind was newly found.
    fn put_new(rt: &mut ResolvedTask, path: BString)
        ensures
            final(rt)@ == Self::with_new(old(rt)@, path@),
    ;

    /// The part of the task that names an entry of this kind.
    fn task_ref<'a>(task: Task<'a>) -> (r: Option<&'a [u8]>)
        ensures
            opt_bytes(r) == Self::task_part(task@),
    ;

    /// The task with its part of this kind set to `name`.
    fn with_task_ref<'a>(task: Task<'a>, name: &'a [u8]) -> (r: Task<'a>)
        ensures
            r@ == Self::with_task_part(task@, name@),
    ;

    /// The entries of this kind of a configuration.
    fn config_ref(config: &Config) -> (r: &EntryMap<Self>)
        ensures
            r@ == Self::entries(*config),
    ;

    /// This entry, of key `key`, with its templates expanded.
    fn expand(&self, key: &[u8], task: Task, ctx: &Context, rt: &ResolvedTask) -> (r: Result<
        Self,
        ResolveError,
    >)
        requires
            finishes(Self::spec_expand(ctx@, rt@, task@, key@, self@)),
        ensures
            out_is::<Self>(Self::spec_expand(ctx@, rt@, task@, key@, self@), r),
    ;
}

/// What the steps of a resolution change: the entries resolved so far, the
/// manifests read and still to be added as layers, and the manifests that
/// are not taken yet.
#[derive(Debug)]
pub struct ResolveArgs {
    pub resolved_task: ResolvedTask,
    pub store_queue: Vec<(BString, Config)>,
    pub stack_queue: Vec<BString>,
    pub manifests: Manifests,
}

/// The changing state of a resolution as mathematical values.
pub struct RState {
    pub rt: ResolvedView,
    pub store_q: Seq<(Seq<u8>, Config)>,
    pub stack_q: Seq<Seq<u8>>,
    pub files: Seq<(Seq<u8>, Config)>,
}

impl View for ResolveArgs {
    type V = RState;

    open spec fn view(&self) -> RState {
        RState {
            rt: self.resolved_task@,
            store_q: files_view(self.store_queue@),
            stack_q: seq_view(self.stack_queue@),
            files: self.manifests@,
        }
    }
}

/// How an entry is picked: by the name the task gives, as a manifest entry
/// for that name, or as the default.
#[derive(Debug, Clone, Copy, PartialEq, Eq, Structural)]
pub enum Lookup {
    ByTaskName,
    ByManifest,
    ByDefault,
}

/// How a walk over entries goes on: to the next one, or it stops with an
/// outcome.
pub enum Flow {
    Next,
    Stop(Out<()>),
}

/// The walk ends, at its end or with a value or an error.
pub open spec fn flow_finishes(f: Flow) -> bool {
    match f {
        Flow::Next => true,
        Flow::Stop(o) => finishes(o),
    }
}

/// How a walk over entries went.
#[derive(Debug)]
pub enum Step {
    Next,
    Stop(Result<(), ResolveError>),
}

/// The walk went as `f` says.
pub open spec fn step_is(f: Flow, s: Step) -> bool {
    match f {
        Flow::Next => s is Next,
        Flow::Stop(o) => s matches Step::Stop(r) && done_is(o, r),
    }
}

/// The entry `v` of key `key` is named `r`: by its key, its name or one of
/// its aliases.
pub open spec fn named<T: Resolve>(v: T::V, key: Seq<u8>, r: Seq<u8>) -> bool {
    key == r || T::common_of(v).name == Some(r) || T::common_of(v).alias.contains(r)
}

/// Whether the entry `v` of key `key` is picked for the task; `None` where
/// deciding it never ends.
///
/// By task name: the task names the entry. As a manifest entry: the entry
/// has a manifest and, where the task's part is empty, is flagged default,
/// else it is named by the part or its name is a template with a variable.
/// As the default: it is flagged default.
pub open spec fn lookup_hit<T: Resolve>(m: Lookup, v: T::V, key: Seq<u8>, task: TaskView) -> Option<
    bool,
> {
    let c = T::common_of(v);
    match m {
        Lookup::ByTaskName => match T::task_part(task) {
            None => Some(false),
            Some(r) => Some(named::<T>(v, key, r)),
        },
        Lookup::ByManifest => match T::task_part(task) {
            None => Some(false),
            Some(r) => if c.manifest is None {
                Some(false)
            } else if r.len() == 0 {
                Some(c.default)
            } else if key == r {
                Some(true)
            } else {
                match c.name {
                    Some(n) => if n == r {
                        Some(true)
                    } else {
                        match spec_has_var(n) {
                            Some(true) => Some(true),
                            Some(false) => Some(c.alias.contains(r)),
                            None => None,
                        }
                    },
                    None => Some(c.alias.contains(r)),
                }
            },
        },
        Lookup::ByDefault => Some(c.default),
    }
}

/// Tries the entry `v` of key `key`: where it is picked, it is resolved
/// (following its manifest) and becomes the entry of its kind.
pub open spec fn spec_apply<T: Resolve>(
    fuel: nat,
    m: Lookup,
    v: T::V,
    key: Seq<u8>,
    task: TaskView,
    ctx: ContextView,
    st: RState,
) -> (Out<()>, RState)
    decreases fuel, 1int,
{
    match lookup_hit::<T>(m, v, key, task) {
        None => (Out::Stuck, st),
        Some(false) => (Out::Value(()), st),
        Some(true) => {
            let (o, st2) = spec_expand_manifest::<T>(fuel, v, key, task, ctx, st);
            match o {
                Out::Value(x) => (Out::Value(()), RState { rt: T::with_slot(st2.rt, Some(x)), ..st2 }),
                other => (fail_as(other), st2),
            }
        },
    }
}

/// Resolves the entry `v` of key `key`. Without a manifest it is expanded.
/// With one, the manifest's path is expanded and its file taken, the entry's
/// name expanded, and the file's entries of this kind tried by that name; the
/// file is queued as a new layer. An entry found there is resolved in turn;
/// else this entry is expanded, marked as newly found in the file.
///
/// Each manifest followed takes one unit of `fuel`; without fuel, the
/// resolution is taken never to end.
pub open spec fn spec_expand_manifest<T: Resolve>(
    fuel: nat,
    v: T::V,
    key: Seq<u8>,
    task: TaskView,
    ctx: ContextView,
    st: RState,
) -> (Out<T::V>, RState)
    decreases fuel, 0int,
{
    match T::common_of(v).manifest {
        None => (T::spec_expand(ctx, st.rt, task, key, v), st),
        Some(mt) => if fuel == 0 {
            (Out::Stuck, st)
        } else {
            match expand_bytes(ctx, st.rt, task, mt) {
                Out::Value(path) => {
                    let (found, files) = take_file(st.files, path);
                    match found {
                        None => (Out::Error(ResolveErrorView::NeedFile(path)), st),
                        Some(config) => {
                            let st1 = RState { files, ..st };
                            match T::common_of(v).name {
                                None => (Out::Error(ResolveErrorView::NameMissing), st1),
                                Some(nt) => match expand_bytes(ctx, st1.rt, task, nt) {
                                    Out::Value(name) => {
                                        let (f, st2) = spec_in_config::<T>(
                                            (fuel - 1) as nat,
                                            Lookup::ByTaskName,
                                            T::entries(config),
                                            0,
                                            T::with_task_part(task, name),
                                            ctx,
                                            st1,
                                        );
                                        match f {
                                            Flow::Stop(Out::Error(e)) => (Out::Error(e), st2),
                                            Flow::Stop(Out::Stuck) => (Out::Stuck, st2),
                                            Flow::Stop(Out::Panic) => (Out::Panic, st2),
                                            _ => {
                                                let st3 = RState {
                                                    store_q: st2.store_q.push((path, config)),
                                                    stack_q: st2.stack_q.push(path),
                                                    ..st2
                                                };
                                                match T::slot(st3.rt) {
                                                    Some(val) => spec_expand_manifest::<T>(
                                                        (fuel - 1) as nat,
                                                        val,
                                                        key,
                                                        task,
                                                        ctx,
                                                        RState { rt: T::with_slot(st3.rt, None), ..st3 },
                                                    ),
                                                    None => {
                                                        let st4 = RState {
                                                            rt: T::with_new(st3.rt, path),
                                                            ..st3
                                                        };
                                                        (T::spec_expand(ctx, st4.rt, task, key, v), st4)
                                                    },
                                                }
                                            },
                                        }
                                    },
                                    other => (fail_as(other), st1),
                                },
                            }
                        },
                    }
                },
                other => (fail_as(other), st),
            }
        },
    }
}

/// Tries the entries `es` from place `i` on, while no entry of this kind is
/// resolved; the first error stops the walk.
pub open spec fn spec_in_config<T: Resolve>(
    fuel: nat,
    m: Lookup,
    es: Seq<(Seq<u8>, T::V)>,
    i: int,
    task: TaskView,
    ctx: ContextView,
    st: RState,
) -> (Flow, RState)
    decreases fuel, es.len() - i + 2,
{
    if i < 0 || i >= es.len() {
        (Flow::Next, st)
    } else if T::slot(st.rt) is Some {
        (Flow::Stop(Out::Value(())), st)
    } else {
        let (o, st2) = spec_apply::<T>(fuel, m, es[i].1, es[i].0, task, ctx, st);
        match o {
            Out::Value(_) => spec_in_config::<T>(fuel, m, es, i + 1, task, ctx, st2),
            other => (Flow::Stop(other), st2),
        }
    }
}

/// Whether the name of the common fields `c` is `r`.
fn name_is(c: &Common, r: &[u8]) -> (b: bool)
    ensures
        b == (c@.name == Some(r@)),
{
    match &c.name {
        Some(n) => bytes_eq(n.as_bytes(), r),
        None => false,
    }
}

/// Whether `r` is one of the aliases of the common fields `c`.
fn alias_has(c: &Common, r: &[u8]) -> (b: bool)
    ensures
        b == c@.alias.contains(r@),
{
    let mut i: usize = 0;
    while i < c.alias.len()
        invariant
            i <= c.alias@.len(),
            forall|j: int| 0 <= j < i ==> #[trigger] c@.alias[j] != r@,
        decreases c.alias@.len() - i,
    {
        if bytes_eq(c.alias[i].as_bytes(), r) {
            assert(c@.alias[i as int] == r@);
            return true;
        }
        i = i + 1;
    }
    false
}

/// Picks the entry `entry` of key `key` where the task names it (see
/// `lookup_hit`), and then resolves it (see `spec_apply`).
pub fn by_task_name<T: Resolve>(
    entry: &T,
    key: &[u8],
    task: Task,
    ctx: &Context,
    args: &mut ResolveArgs,
    Ghost(fuel): Ghost<nat>,
) -> (r: Result<(), ResolveError>)
    requires
        finishes(spec_apply::<T>(fuel, Lookup::ByTaskName, entry@, key@, task@, ctx@, old(args)@).0),
    ensures
        done_is(spec_apply::<T>(fuel, Lookup::ByTaskName, entry@, key@, task@, ctx@, old(args)@).0, r),
        final(args)@ == spec_apply::<T>(fuel, Lookup::ByTaskName, entry@, key@, task@, ctx@, old(args)@).1,
    decreases fuel, 1int,
{
    let hit = match T::task_ref(task) {
        None => false,
        Some(r) => bytes_eq(key, r) || name_is(entry.common(), r) || alias_has(entry.common(), r),
    };
    if hit {
        let v = expand_manifest(entry, key, task, ctx, args, Ghost(fuel))?;
        T::put_slot(&mut args.resolved_task, v);
    }
    Ok(())
}

/// Picks the entry `entry` of key `key` as a manifest entry for the task
/// (see `lookup_hit`), and then resolves it (see `spec_apply`).
pub fn by_manifest<T: Resolve>(
    entry: &T,
    key: &[u8],
    task: Task,
    ctx: &Context,
    args: &mut ResolveArgs,
    Ghost(fuel): Ghost<nat>,
) -> (r: Result<(), ResolveError>)
    requires
        finishes(spec_apply::<T>(fuel, Lookup::ByManifest, entry@, key@, task@, ctx@, old(args)@).0),
    ensures
        done_is(spec_apply::<T>(fuel, Lookup::ByManifest, entry@, key@, task@, ctx@, old(args)@).0, r),
        final(args)@ == spec_apply::<T>(fuel, Lookup::ByManifest, entry@, key@, task@, ctx@, old(args)@).1,
    decreases fuel, 1int,
{
    let hit = match T::task_ref(task) {
        None => false,
        Some(r) => {
            let c = entry.common();
            if c.manifest.is_none() {
                false
            } else if r.len() == 0 {
                c.default
            } else if bytes_eq(key, r) {
                true
            } else {
                match &c.name {
                    Some(n) => {
                        if bytes_eq(n.as_bytes(), r) {
                            true
                        } else if has_var(n.as_bytes()) {
                            true
                        } else {
                            alias_has(c, r)
                        }
                    },
                    None => alias_has(c, r),
                }
            }
        },
    };
    if hit {
        let v = expand_manifest(entry, key, task, ctx, args, Ghost(fuel))?;
        T::put_slot(&mut args.resolved_task, v);
    }
    Ok(())
}

/// Picks the entry `entry` of key `key` where it is flagged default, and then
/// resolves it (see `spec_apply`).
pub fn by_default<T: Resolve>(
    entry: &T,
    key: &[u8],
    task: Task,
    ctx: &Context,
    args: &mut ResolveArgs,
    Ghost(fuel): Ghost<nat>,
) -> (r: Result<(), ResolveError>)
    requires
        finishes(spec_apply::<T>(fuel, Lookup::ByDefault, entry@, key@, task@, ctx@, old(args)@).0),
    ensures
        done_is(spec_apply::<T>(fuel, Lookup::ByDefault, entry@, key@, task@, ctx@, old(args)@).0, r),
        final(args)@ == spec_apply::<T>(fuel, Lookup::ByDefault, entry@, key@, task@, ctx@, old(args)@).1,
    decreases fuel, 1int,
{
    if entry.common().default {
        let v = expand_manifest(entry, key, task, ctx, args, Ghost(fuel))?;
        T::put_slot(&mut args.resolved_task, v);
    }
    Ok(())
}

/// Resolves the entry `entry` of key `key`, following its manifest (see
/// `spec_expand_manifest`).
pub fn expand_manifest<T: Resolve>(
    entry: &T,
    key: &[u8],
    task: Task,
    ctx: &Context,
    args: &mut ResolveArgs,
    Ghost(fuel): Ghost<nat>,
) -> (r: Result<T, ResolveError>)
    requires
        finishes(spec_expand_manifest::<T>(fuel, entry@, key@, task@, ctx@, old(args)@).0),
    ensures
        out_is::<T>(spec_expand_manifest::<T>(fuel, entry@, key@, task@, ctx@, old(args)@).0, r),
        final(args)@ == spec_expand_manifest::<T>(fuel, entry@, key@, task@, ctx@, old(args)@).1,
    decreases fuel, 0int,
{
    let common = entry.common();
    match &common.manifest {
        None => entry.expand(key, task, ctx, &args.resolved_task),
        Some(mt) => {
            assert(fuel > 0);
            let path = template(mt.as_bytes(), ctx, &args.resolved_task, task)?;
            let config = match args.manifests.take(path.as_bytes()) {
                None => {
                    return Err(ResolveError::NeedFile(path));
                },
                Some(c) => c,
            };
            let name_t = match &common.name {
                None => {
                    return Err(ResolveError::NameMissing);
                },
                Some(n) => n,
            };
            let name = template(name_t.as_bytes(), ctx, &args.resolved_task, task)?;
            let task2 = T::with_task_ref(task, name.as_bytes());
            let step = resolve_in_config::<T>(
                Lookup::ByTaskName,
                T::config_ref(&config),
                task2,
                ctx,
                args,
                Ghost((fuel - 1) as nat),
            );
            if let Step::Stop(Err(e)) = step {
                return Err(e);
            }
            let ghost pv = path@;
            let ghost a2 = args@;
            args.stack_queue.push(path.clone());
            let new_path = path.clone();
            args.store_queue.push((path, config));
            assert(args@.store_q =~= a2.store_q.push((pv, config)));
            assert(args@.stack_q =~= a2.stack_q.push(pv));
            if T::has_slot(&args.resolved_task) {
                match T::take_slot(&mut args.resolved_task) {
                    Some(val) => expand_manifest(&val, key, task, ctx, args, Ghost((fuel - 1) as nat)),
                    None => {
                        // the slot was just found filled
                        assert(false);
                        Err(ResolveError::NameMissing)
                    },
                }
            } else {
                T::put_new(&mut args.resolved_task, new_path);
                entry.expand(key, task, ctx, &args.resolved_task)
            }
        },
    }
}

/// Tries the entries of `entries` in key order, while no entry of this kind
/// is resolved (see `spec_in_config`).
pub fn resolve_in_config<T: Resolve>(
    m: Lookup,
    entries: &EntryMap<T>,
    task: Task,
    ctx: &Context,
    args: &mut ResolveArgs,
    Ghost(fuel): Ghost<nat>,
) -> (r: Step)
    requires
        flow_finishes(spec_in_config::<T>(fuel, m, entries@, 0, task@, ctx@, old(args)@).0),
    ensures
        step_is(spec_in_config::<T>(fuel, m, entries@, 0, task@, ctx@, old(args)@).0, r),
        final(args)@ == spec_in_config::<T>(fuel, m, entries@, 0, task@, ctx@, old(args)@).1,
    decreases fuel, 2int,
{
    let ghost total = spec_in_config::<T>(fuel, m, entries@, 0, task@, ctx@, args@);
    let mut i: usize = 0;
    while i < entries.len()
        invariant
            total == spec_in_config::<T>(fuel, m, entries@, 0, task@, ctx@, old(args)@),
            total == spec_in_config::<T>(fuel, m, entries@, i as int, task@, ctx@, args@),
            flow_finishes(total.0),
            i <= entries@.len(),
        decreases entries@.len() - i,
    {
        if T::has_slot(&args.resolved_task) {
            return Step::Stop(Ok(()));
        }
        let (key, val) = entries.entry(i);
        let r = match m {
            Lookup::ByTaskName => by_task_name(val, key.as_bytes(), task, ctx, args, Ghost(fuel)),
            Lookup::ByManifest => by_manifest(val, key.as_bytes(), task, ctx, args, Ghost(fuel)),
            Lookup::ByDefault => by_default(val, key.as_bytes(), task, ctx, args, Ghost(fuel)),
        };
        if let Err(e) = r {
            return Step::Stop(Err(e));
        }
        i = i + 1;
    }
    Step::Next
}

/// Walks the layers from place `pos` down to the bottom, trying the entries
/// of this kind of each, while none is resolved.
pub open spec fn spec_in_stack<T: Resolve>(
    fuel: nat,
    m: Lookup,
    stack: StackView,
    pos: int,
    task: TaskView,
    ctx: ContextView,
    st: RState,
) -> (Flow, RState)
    decreases pos + 1,
{
    if pos < 0 {
        (Flow::Next, st)
    } else if T::slot(st.rt) is Some {
        (Flow::Stop(Out::Value(())), st)
    } else if pos >= stack.stack.len() {
        (Flow::Stop(Out::Error(ResolveErrorView::Stack(StackError::CursorOutOfRange(pos as usize)))), st)
    } else if !stack.store.contains_key(stack.stack[pos]) {
        (Flow::Stop(Out::Error(ResolveErrorView::Stack(StackError::NeedsMutableAccess))), st)
    } else {
        let (f, st2) = spec_in_config::<T>(
            fuel,
            m,
            T::entries(stack.store[stack.stack[pos]]),
            0,
            task,
            ctx,
            st,
        );
        match f {
            Flow::Next => spec_in_stack::<T>(fuel, m, stack, pos - 1, task, ctx, st2),
            _ => (f, st2),
        }
    }
}

/// The store after adding the queued manifests in order, each as the
/// configuration of its file.
pub open spec fn store_after(store: Map<ConfigSourceView, Config>, q: Seq<(Seq<u8>, Config)>) -> Map<
    ConfigSourceView,
    Config,
>
    decreases q.len(),
{
    if q.len() == 0 {
        store
    } else {
        store_after(store.insert(ConfigSourceView::File(q[0].0), q[0].1), q.drop_first())
    }
}

/// The sources of the files of the paths `q`.
pub open spec fn file_sources(q: Seq<Seq<u8>>) -> Seq<ConfigSourceView> {
    q.map_values(|p: Seq<u8>| ConfigSourceView::File(p))
}

/// The stack with the queued manifests added: to the store, and as layers
/// on top.
pub open spec fn with_queues(stack: StackView, st: RState) -> StackView {
    StackView {
        store: store_after(stack.store, st.store_q),
        stack: stack.stack + file_sources(st.stack_q),
    }
}

/// Resolves the entry of this kind over the whole stack, from the top layer
/// down; where that succeeds, the manifests read are added to the stack.
pub open spec fn spec_resolve_in_stack<T: Resolve>(
    fuel: nat,
    m: Lookup,
    stack: StackView,
    task: TaskView,
    ctx: ContextView,
    st: RState,
) -> (Out<()>, StackView, RState) {
    let (f, st2) = spec_in_stack::<T>(fuel, m, stack, stack.stack.len() - 1, task, ctx, st);
    let o = match f {
        Flow::Next => Out::Value(()),
        Flow::Stop(o) => o,
    };
    match o {
        Out::Value(_) => (
            Out::Value(()),
            with_queues(stack, st2),
            RState { store_q: Seq::empty(), stack_q: Seq::empty(), ..st2 },
        ),
        _ => (o, stack, st2),
    }
}

/// The kinds of entries.
#[derive(Debug, Clone, Copy, PartialEq, Eq, Structural)]
pub enum Kind {
    Host,
    Repo,
    Tree,
    Open,
}

/// A step of a resolution: resolving the entry of kind `k`, picked by `m`.
pub open spec fn spec_step(
    fuel: nat,
    k: Kind,
    m: Lookup,
    stack: StackView,
    task: TaskView,
    ctx: ContextView,
    st: RState,
) -> (Out<()>, StackView, RState) {
    match k {
        Kind::Host => spec_resolve_in_stack::<Host>(fuel, m, stack, task, ctx, st),
        Kind::Repo => spec_resolve_in_stack::<Repo>(fuel, m, stack, task, ctx, st),
        Kind::Tree => spec_resolve_in_stack::<Tree>(fuel, m, stack, task, ctx, st),
        Kind::Open => spec_resolve_in_stack::<Open>(fuel, m, stack, task, ctx, st),
    }
}

/// How the entry of a part is first picked: an empty part asks for the
/// default, any other (or none) for the entry it names.
pub open spec fn first_lookup(p: Option<Seq<u8>>) -> Lookup {
    if p == Some(Seq::<u8>::empty()) {
        Lookup::ByDefault
    } else {
        Lookup::ByTaskName
    }
}

/// The steps of resolving a task: each kind in turn, first by its part of
/// the task, then each kind again as a manifest entry.
pub open spec fn plan(t: TaskView) -> Seq<(Kind, Lookup)> {
    seq![
        (Kind::Host, first_lookup(t.host)),
        (Kind::Repo, first_lookup(t.repo)),
        (Kind::Tree, first_lookup(t.tree)),
        (Kind::Open, first_lookup(t.open)),
        (Kind::Host, Lookup::ByManifest),
        (Kind::Repo, Lookup::ByManifest),
        (Kind::Tree, Lookup::ByManifest),
        (Kind::Open, Lookup::ByManifest),
    ]
}

/// Runs the steps from place `i` on; the first that fails ends the run.
pub open spec fn run_steps(
    fuel: nat,
    steps: Seq<(Kind, Lookup)>,
    i: int,
    stack: StackView,
    task: TaskView,
    ctx: ContextView,
    st: RState,
) -> (Out<()>, StackView, RState)
    decreases steps.len() - i,
{
    if i < 0 || i >= steps.len() {
        (Out::Value(()), stack, st)
    } else {
        let (o, s2, st2) = spec_step(fuel, steps[i].0, steps[i].1, stack, task, ctx, st);
        match o {
            Out::Value(_) => run_steps(fuel, steps, i + 1, s2, task, ctx, st2),
            _ => (o, s2, st2),
        }
    }
}

/// The resolution of `task` over `stack`, starting from `rt` with the
/// manifests `files`, with `fuel` manifests to follow at most.
pub open spec fn resolution(
    fuel: nat,
    stack: StackView,
    task: TaskView,
    ctx: ContextView,
    rt: ResolvedView,
    files: Seq<(Seq<u8>, Config)>,
) -> (Out<()>, StackView, RState) {
    run_steps(
        fuel,
        plan(task),
        0,
        stack,
        task,
        ctx,
        RState { rt, store_q: Seq::empty(), stack_q: Seq::empty(), files },
    )
}

/// The resolution ends, with success or an error: it does not run on
/// without end and does not panic.
pub open spec fn resolves(
    stack: StackView,
    task: TaskView,
    ctx: ContextView,
    rt: ResolvedView,
    files: Seq<(Seq<u8>, Config)>,
) -> bool {
    exists|fuel: nat| finishes(#[trigger] resolution(fuel, stack, task, ctx, rt, files).0)
}

/// Enough fuel for a resolution that ends.
pub open spec fn resolve_fuel(
    stack: StackView,
    task: TaskView,
    ctx: ContextView,
    rt: ResolvedView,
    files: Seq<(Seq<u8>, Config)>,
) -> nat {
    choose|fuel: nat| finishes(#[trigger] resolution(fuel, stack, task, ctx, rt, files).0)
}

/// Resolves the entry of this kind over the whole stack (see
/// `spec_resolve_in_stack`).
pub fn resolve_in_stack<T: Resolve>(
    m: Lookup,
    configs: &mut ConfigStack,
    task: Task,
    ctx: &Context,
    args: &mut ResolveArgs,
    Ghost(fuel): Ghost<nat>,
) -> (r: Result<(), ResolveError>)
    requires
        old(configs).wf(),
        finishes(spec_resolve_in_stack::<T>(fuel, m, old(configs).layers(), task@, ctx@, old(args)@).0),
    ensures
        final(configs).wf(),
        done_is(spec_resolve_in_stack::<T>(fuel, m, old(configs).layers(), task@, ctx@, old(args)@).0, r),
        final(configs).layers() == spec_resolve_in_stack::<T>(fuel, m, old(configs).layers(), task@, ctx@, old(args)@).1,
        final(args)@ == spec_resolve_in_stack::<T>(fuel, m, old(configs).layers(), task@, ctx@, old(args)@).2,
{
    let ghost stack = configs.layers();
    let ghost total = spec_in_stack::<T>(fuel, m, stack, stack.stack.len() - 1, task@, ctx@, args@);
    let n = configs.stack.len();
    let mut cursors = configs.cursors();
    let mut stop: Step = Step::Next;
    loop
        invariant_except_break
            configs.wf(),
            configs.layers() == stack,
            stack.stack.len() == configs.stack@.len(),
            0 <= cursors.pos(),
            stop is Next,
            n == configs.stack@.len(),
            cursors.pos() == usize::MAX || cursors.pos() < configs.stack@.len(),
            total == spec_in_stack::<T>(
                fuel,
                m,
                stack,
                if cursors.pos() == usize::MAX { -1 } else { cursors.pos() },
                task@,
                ctx@,
                args@,
            ),
            flow_finishes(total.0),
        invariant
            configs.wf(),
            configs.layers() == stack,
        ensures
            step_is(total.0, stop),
            args@ == total.1,
        decreases (if cursors.pos() == usize::MAX { 0 } else { cursors.pos() + 1 }),
    {
        match cursors.next() {
            None => {
                break ;
            },
            Some(cur) => {
                if T::has_slot(&args.resolved_task) {
                    stop = Step::Stop(Ok(()));
                    break ;
                }
                match configs.with_cursor(cur) {
                    Err(e) => {
                        stop = Step::Stop(Err(ResolveError::Stack(e)));
                        break ;
                    },
                    Ok((_, config)) => {
                        let f = resolve_in_config::<T>(m, T::config_ref(config), task, ctx, args, Ghost(fuel));
                        if let Step::Stop(r) = f {
                            stop = Step::Stop(r);
                            break ;
                        }
                    },
                }
            },
        }
    }
    if let Step::Stop(Err(e)) = stop {
        return Err(e);
    }
    let ghost st2 = args@;
    let mut q: Vec<(BString, Config)> = Vec::new();
    std::mem::swap(&mut q, &mut args.store_queue);
    assert(store_after(stack.store, st2.store_q) == store_after(configs.layers().store, files_view(q@)));
    while q.len() > 0
        invariant
            configs.wf(),
            configs.layers().stack == stack.stack,
            store_after(stack.store, st2.store_q) == store_after(configs.layers().store, files_view(q@)),
        decreases q@.len(),
    {
        let ghost before = configs.layers();
        let ghost qv = files_view(q@);
        let ghost old_configs = *configs;
        let (p, c) = q.remove(0);
        assert(files_view(q@) =~= qv.drop_first());
        let ghost pv = p@;
        configs.insert_store(ConfigSource::File(p), c);
        proof {
            lemma_store_layers(&old_configs, configs, ConfigSourceView::File(pv), c);
        }
    }
    assert(files_view(q@) =~= Seq::<(Seq<u8>, Config)>::empty());
    let mut sq: Vec<BString> = Vec::new();
    std::mem::swap(&mut sq, &mut args.stack_queue);
    let mut i: usize = 0;
    while i < sq.len()
        invariant
            configs.wf(),
            configs.layers().store == store_after(stack.store, st2.store_q),
            seq_view(sq@) == st2.stack_q,
            i <= sq@.len(),
            configs.layers().stack == stack.stack + file_sources(st2.stack_q.subrange(0, i as int)),
        decreases sq@.len() - i,
    {
        let ghost before = configs.layers().stack;
        configs.stack.push(ConfigSource::File(sq[i].clone()));
        assert(configs.layers().stack =~= before.push(ConfigSourceView::File(st2.stack_q[i as int])));
        assert(file_sources(st2.stack_q.subrange(0, i + 1)) =~= file_sources(
            st2.stack_q.subrange(0, i as int),
        ).push(ConfigSourceView::File(st2.stack_q[i as int])));
        i = i + 1;
    }
    assert(st2.stack_q.subrange(0, i as int) =~= st2.stack_q);
    assert(args@.store_q =~= Seq::<(Seq<u8>, Config)>::empty());
    assert(args@.stack_q =~= Seq::<Seq<u8>>::empty());
    Ok(())
}

/// Runs one step of a resolution (see `spec_step`).
fn resolve_step(
    k: Kind,
    m: Lookup,
    configs: &mut ConfigStack,
    task: Task,
    ctx: &Context,
    args: &mut ResolveArgs,
    Ghost(fuel): Ghost<nat>,
) -> (r: Result<(), ResolveError>)
    requires
        old(configs).wf(),
        finishes(spec_step(fuel, k, m, old(configs).layers(), task@, ctx@, old(args)@).0),
    ensures
        final(configs).wf(),
        done_is(spec_step(fuel, k, m, old(configs).layers(), task@, ctx@, old(args)@).0, r),
        final(configs).layers() == spec_step(fuel, k, m, old(configs).layers(), task@, ctx@, old(args)@).1,
        final(args)@ == spec_step(fuel, k, m, old(configs).layers(), task@, ctx@, old(args)@).2,
{
    match k {
        Kind::Host => resolve_in_stack::<Host>(m, configs, task, ctx, args, Ghost(fuel)),
        Kind::Repo => resolve_in_stack::<Repo>(m, configs, task, ctx, args, Ghost(fuel)),
        Kind::Tree => resolve_in_stack::<Tree>(m, configs, task, ctx, args, Ghost(fuel)),
        Kind::Open => resolve_in_stack::<Open>(m, configs, task, ctx, args, Ghost(fuel)),
    }
}

/// How the entry of a part is first picked (see `first_lookup`).
fn first_lookup_of(p: Option<&[u8]>) -> (r: Lookup)
    ensures
        r == first_lookup(opt_bytes(p)),
{
    match p {
        Some(b) => {
            if b.len() == 0 {
                assert(b@ =~= Seq::<u8>::empty());
                Lookup::ByDefault
            } else {
                Lookup::ByTaskName
            }
        },
        None => Lookup::ByTaskName,
    }
}

/// The steps of resolving `task` (see `plan`).
fn plan_steps(task: Task) -> (r: Vec<(Kind, Lookup)>)
    ensures
        r@ == plan(task@),
{
    let r = vec![
        (Kind::Host, first_lookup_of(task.host)),
        (Kind::Repo, first_lookup_of(task.repo)),
        (Kind::Tree, first_lookup_of(task.tree)),
        (Kind::Open, first_lookup_of(task.open)),
        (Kind::Host, Lookup::ByManifest),
        (Kind::Repo, Lookup::ByManifest),
        (Kind::Tree, Lookup::ByManifest),
        (Kind::Open, Lookup::ByManifest),
    ];
    assert(r@ =~= plan(task@));
    r
}

impl State {
    /// Resolves `task` (see `resolve_task`).
    pub fn resolve(
        &mut self,
        task: Task,
        resolved_task: &mut ResolvedTask,
        env: &Environment,
        manifests: &mut Manifests,
    ) -> (r: Result<(), ResolveError>)
        requires
            old(self).configs.wf(),
            resolves(
                old(self).configs.layers(),
                task@,
                context_of(old(self).dirs, *env),
                old(resolved_task)@,
                old(manifests)@,
            ),
        ensures
            final(self).configs.wf(),
            final(self).dirs == old(self).dirs,
            done_is(
                resolved(
                    old(self).configs.layers(),
                    task@,
                    context_of(old(self).dirs, *env),
                    old(resolved_task)@,
                    old(manifests)@,
                ).0,
                r,
            ),
            final(self).configs.layers() == resolved(
                old(self).configs.layers(),
                task@,
                context_of(old(self).dirs, *env),
                old(resolved_task)@,
                old(manifests)@,
            ).1,
            final(resolved_task)@ == resolved(
                old(self).configs.layers(),
                task@,
                context_of(old(self).dirs, *env),
                old(resolved_task)@,
                old(manifests)@,
            ).2.rt,
            final(manifests)@ == resolved(
                old(self).configs.layers(),
                task@,
                context_of(old(self).dirs, *env),
                old(resolved_task)@,
                old(manifests)@,
            ).2.files,
    {
        self.resolve_task(task, resolved_task, env, manifests)
    }

    /// Resolves `task` over the layers of this state, with its directories,
    /// the environment `env` and the manifests read so far `manifests` (see
    /// `resolution`). The entries found go to `resolved_task`; the manifests
    /// followed are added to the layers and taken off `manifests`. Where a
    /// manifest is needed that is not read yet, the result is `NeedFile`.
    pub fn resolve_task(
        &mut self,
        task: Task,
        resolved_task: &mut ResolvedTask,
        env: &Environment,
        manifests: &mut Manifests,
    ) -> (r: Result<(), ResolveError>)
        requires
            old(self).configs.wf(),
            resolves(
                old(self).configs.layers(),
                task@,
                context_of(old(self).dirs, *env),
                old(resolved_task)@,
                old(manifests)@,
            ),
        ensures
            final(self).configs.wf(),
            final(self).dirs == old(self).dirs,
            done_is(
                resolved(
                    old(self).configs.layers(),
                    task@,
                    context_of(old(self).dirs, *env),
                    old(resolved_task)@,
                    old(manifests)@,
                ).0,
                r,
            ),
            final(self).configs.layers() == resolved(
                old(self).configs.layers(),
                task@,
                context_of(old(self).dirs, *env),
                old(resolved_task)@,
                old(manifests)@,
            ).1,
            final(resolved_task)@ == resolved(
                old(self).configs.layers(),
                task@,
                context_of(old(self).dirs, *env),
                old(resolved_task)@,
                old(manifests)@,
            ).2.rt,
            final(manifests)@ == resolved(
                old(self).configs.layers(),
                task@,
                context_of(old(self).dirs, *env),
                old(resolved_task)@,
                old(manifests)@,
            ).2.files,
    {
        let ctx = Context { dirs: &self.dirs, env };
        let ghost fuel = resolve_fuel(self.configs.layers(), task@, ctx@, resolved_task@, manifests@);
        let ghost total = resolution(fuel, self.configs.layers(), task@, ctx@, resolved_task@, manifests@);
        let mut rt = ResolvedTask::default();
        std::mem::swap(&mut rt, resolved_task);
        let mut files = Manifests::new();
        std::mem::swap(&mut files, manifests);
        let mut args = ResolveArgs {
            resolved_task: rt,
            store_queue: Vec::new(),
            stack_queue: Vec::new(),
            manifests: files,
        };
        assert(args@.store_q =~= Seq::<(Seq<u8>, Config)>::empty());
        assert(args@.stack_q =~= Seq::<Seq<u8>>::empty());
        let steps = plan_steps(task);
        let mut result: Result<(), ResolveError> = Ok(());
        let mut i: usize = 0;
        while i < steps.len()
            invariant_except_break
                self.configs.wf(),
                steps@ == plan(task@),
                i <= steps@.len(),
                finishes(total.0),
                result is Ok,
                total == run_steps(fuel, plan(task@), i as int, self.configs.layers(), task@, ctx@, args@),
            invariant
                self.configs.wf(),
                self.dirs == old(self).dirs,
                ctx@ == context_of(old(self).dirs, *env),
            ensures
                done_is(total.0, result),
                self.configs.layers() == total.1,
                args@ == total.2,
            decreases steps@.len() - i,
        {
            let (k, m) = steps[i];
            if let Err(e) = resolve_step(k, m, &mut self.configs, task, &ctx, &mut args, Ghost(fuel)) {
                result = Err(e);
                break ;
            }
            i = i + 1;
        }
        let ResolveArgs { resolved_task: rt, store_queue: _, stack_queue: _, manifests: files } = args;
        *resolved_task = rt;
        *manifests = files;
        result
    }
}

/// The resolution of `task` with enough fuel to end (see `resolution`).
pub open spec fn resolved(
    stack: StackView,
    task: TaskView,
    ctx: ContextView,
    rt: ResolvedView,
    files: Seq<(Seq<u8>, Config)>,
) -> (Out<()>, StackView, RState) {
    resolution(resolve_fuel(stack, task, ctx, rt, files), stack, task, ctx, rt, files)
}

/// Once the entry of a kind is resolved, resolving that kind again, by any
/// lookup, changes nothing: neither the resolved entries nor the layers.
pub proof fn law_resolved_entry_kept<T: Resolve>(
    fuel: nat,
    m: Lookup,
    stack: StackView,
    task: TaskView,
    ctx: ContextView,
    st: RState,
)
    requires
        T::slot(st.rt) is Some,
        st.store_q.len() == 0,
        st.stack_q.len() == 0,
    ensures
        spec_resolve_in_stack::<T>(fuel, m, stack, task, ctx, st) == (Out::<()>::Value(()), stack, st),
{
    assert(store_after(stack.store, st.store_q) == stack.store);
    assert(file_sources(st.stack_q) =~= Seq::<ConfigSourceView>::empty());
    assert(stack.stack + file_sources(st.stack_q) =~= stack.stack);
    assert(with_queues(stack, st) == stack);
    assert(RState { store_q: Seq::empty(), stack_q: Seq::empty(), ..st } == st) by {
        assert(st.store_q =~= Seq::<(Seq<u8>, Config)>::empty());
        assert(st.stack_q =~= Seq::<Seq<u8>>::empty());
    }
}

/// Without a part of this kind in the task, no entry of a config is picked
/// by its name or as a manifest entry: the walk changes nothing.
proof fn lemma_in_config_unnamed<T: Resolve>(
    fuel: nat,
    m: Lookup,
    es: Seq<(Seq<u8>, T::V)>,
    i: int,
    task: TaskView,
    ctx: ContextView,
    st: RState,
)
    requires
        T::task_part(task) is None,
        m != Lookup::ByDefault,
        T::slot(st.rt) is None,
    ensures
        spec_in_config::<T>(fuel, m, es, i, task, ctx, st) == (Flow::Next, st),
    decreases es.len() - i,
{
    if 0 <= i < es.len() {
        assert(lookup_hit::<T>(m, es[i].1, es[i].0, task) == Some(false));
        assert(spec_apply::<T>(fuel, m, es[i].1, es[i].0, task, ctx, st) == (Out::<()>::Value(()), st));
        lemma_in_config_unnamed::<T>(fuel, m, es, i + 1, task, ctx, st);
    }
}

/// Without a part of this kind in the task, the walk over the layers from
/// place `pos` down changes nothing, where each layer is stored.
proof fn lemma_in_stack_unnamed<T: Resolve>(
    fuel: nat,
    m: Lookup,
    stack: StackView,
    pos: int,
    task: TaskView,
    ctx: ContextView,
    st: RState,
)
    requires
        T::task_part(task) is None,
        m != Lookup::ByDefault,
        T::slot(st.rt) is None,
        pos < stack.stack.len(),
        forall|p: int| 0 <= p < stack.stack.len() ==> stack.store.contains_key(#[trigger] stack.stack[p]),
    ensures
        spec_in_stack::<T>(fuel, m, stack, pos, task, ctx, st) == (Flow::Next, st),
    decreases pos + 1,
{
    if pos >= 0 {
        assert(stack.store.contains_key(stack.stack[pos]));
        lemma_in_config_unnamed::<T>(fuel, m, T::entries(stack.store[stack.stack[pos]]), 0, task, ctx, st);
        lemma_in_stack_unnamed::<T>(fuel, m, stack, pos - 1, task, ctx, st);
    }
}

/// Without a part of this kind in the task, resolving the kind by its name
/// or as a manifest entry changes nothing, where each layer is stored and no
/// manifest is queued.
proof fn lemma_resolve_unnamed<T: Resolve>(
    fuel: nat,
    m: Lookup,
    stack: StackView,
    task: TaskView,
    ctx: ContextView,
    st: RState,
)
    requires
        T::task_part(task) is None,
        m != Lookup::ByDefault,
        st.store_q.len() == 0,
        st.stack_q.len() == 0,
        forall|p: int| 0 <= p < stack.stack.len() ==> stack.store.contains_key(#[trigger] stack.stack[p]),
    ensures
        spec_resolve_in_stack::<T>(fuel, m, stack, task, ctx, st) == (Out::<()>::Value(()), stack, st),
{
    if T::slot(st.rt) is Some {
        law_resolved_entry_kept::<T>(fuel, m, stack, task, ctx, st);
    } else {
        lemma_in_stack_unnamed::<T>(fuel, m, stack, stack.stack.len() - 1, task, ctx, st);
        lemma_no_queues(stack, st);
    }
}

/// Adding no queued manifests leaves the stack and the state as they are.
proof fn lemma_no_queues(stack: StackView, st: RState)
    requires
        st.store_q.len() == 0,
        st.stack_q.len() == 0,
    ensures
        with_queues(stack, st) == stack,
        (RState { store_q: Seq::empty(), stack_q: Seq::empty(), ..st }) == st,
{
    assert(store_after(stack.store, st.store_q) == stack.store);
    assert(file_sources(st.stack_q) =~= Seq::<ConfigSourceView>::empty());
    assert(stack.stack + file_sources(st.stack_q) =~= stack.stack);
    assert(st.store_q =~= Seq::<(Seq<u8>, Config)>::empty());
    assert(st.stack_q =~= Seq::<Seq<u8>>::empty());
}

/// The steps from place `i` on, none by default, for a task that names no
/// part, change nothing.
proof fn lemma_run_unnamed(
    fuel: nat,
    steps: Seq<(Kind, Lookup)>,
    i: int,
    stack: StackView,
    task: TaskView,
    ctx: ContextView,
    st: RState,
)
    requires
        task.host is None && task.repo is None && task.tree is None && task.open is None,
        forall|j: int| 0 <= j < steps.len() ==> (#[trigger] steps[j]).1 != Lookup::ByDefault,
        st.store_q.len() == 0,
        st.stack_q.len() == 0,
        forall|p: int| 0 <= p < stack.stack.len() ==> stack.store.contains_key(#[trigger] stack.stack[p]),
    ensures
        run_steps(fuel, steps, i, stack, task, ctx, st) == (Out::<()>::Value(()), stack, st),
    decreases steps.len() - i,
{
    if 0 <= i < steps.len() {
        let (k, m) = steps[i];
        assert(m != Lookup::ByDefault);
        match k {
            Kind::Host => lemma_resolve_unnamed::<Host>(fuel, m, stack, task, ctx, st),
            Kind::Repo => lemma_resolve_unnamed::<Repo>(fuel, m, stack, task, ctx, st),
            Kind::Tree => lemma_resolve_unnamed::<Tree>(fuel, m, stack, task, ctx, st),
            Kind::Open => lemma_resolve_unnamed::<Open>(fuel, m, stack, task, ctx, st),
        }
        lemma_run_unnamed(fuel, steps, i + 1, stack, task, ctx, st);
    }
}

/// A task that names no part resolves to nothing new: the resolved entries,
/// the layers and the manifests stay as they are, where each layer is
/// stored.
pub proof fn law_unnamed_task_changes_nothing(
    fuel: nat,
    stack: StackView,
    ctx: ContextView,
    rt: ResolvedView,
    files: Seq<(Seq<u8>, Config)>,
)
    requires
        forall|p: int| 0 <= p < stack.stack.len() ==> stack.store.contains_key(#[trigger] stack.stack[p]),
    ensures
        resolution(fuel, stack, TaskView { host: None, repo: None, tree: None, open: None }, ctx, rt, files)
            == (Out::<()>::Value(()), stack, RState { rt, store_q: Seq::empty(), stack_q: Seq::empty(), files }),
{
    let task = TaskView { host: None, repo: None, tree: None, open: None };
    let steps = plan(task);
    assert forall|j: int| 0 <= j < steps.len() implies (#[trigger] steps[j]).1 != Lookup::ByDefault by {}
    lemma_run_unnamed(
        fuel,
        steps,
        0,
        stack,
        task,
        ctx,
        RState { rt, store_q: Seq::empty(), stack_q: Seq::empty(), files },
    );
}

/// More fuel does not change trying an entry once the fuel suffices.
proof fn lemma_apply_fuel<T: Resolve>(
    f1: nat,
    f2: nat,
    m: Lookup,
    v: T::V,
    key: Seq<u8>,
    task: TaskView,
    ctx: ContextView,
    st: RState,
)
    requires
        f1 <= f2,
        !(spec_apply::<T>(f1, m, v, key, task, ctx, st).0 is Stuck),
    ensures
        spec_apply::<T>(f2, m, v, key, task, ctx, st) == spec_apply::<T>(f1, m, v, key, task, ctx, st),
    decreases f1, 1int,
{
    if lookup_hit::<T>(m, v, key, task) == Some(true) {
        lemma_expand_manifest_fuel::<T>(f1, f2, v, key, task, ctx, st);
    }
}

/// More fuel does not change resolving an entry once the fuel suffices.
proof fn lemma_expand_manifest_fuel<T: Resolve>(
    f1: nat,
    f2: nat,
    v: T::V,
    key: Seq<u8>,
    task: TaskView,
    ctx: ContextView,
    st: RState,
)
    requires
        f1 <= f2,
        !(spec_expand_manifest::<T>(f1, v, key, task, ctx, st).0 is Stuck),
    ensures
        spec_expand_manifest::<T>(f2, v, key, task, ctx, st) == spec_expand_manifest::<T>(
            f1,
            v,
            key,
            task,
            ctx,
            st,
        ),
    decreases f1, 0int,
{
    if let Some(mt) = T::common_of(v).manifest {
        if let Out::Value(path) = expand_bytes(ctx, st.rt, task, mt) {
            let (found, files) = take_file(st.files, path);
            if let Some(config) = found {
                let st1 = RState { files, ..st };
                if let Some(nt) = T::common_of(v).name {
                    if let Out::Value(name) = expand_bytes(ctx, st1.rt, task, nt) {
                        let t2 = T::with_task_part(task, name);
                        lemma_in_config_fuel::<T>(
                            (f1 - 1) as nat,
                            (f2 - 1) as nat,
                            Lookup::ByTaskName,
                            T::entries(config),
                            0,
                            t2,
                            ctx,
                            st1,
                        );
                        let (f, st2) = spec_in_config::<T>(
                            (f1 - 1) as nat,
                            Lookup::ByTaskName,
                            T::entries(config),
                            0,
                            t2,
                            ctx,
                            st1,
                        );
                        let st3 = RState {
                            store_q: st2.store_q.push((path, config)),
                            stack_q: st2.stack_q.push(path),
                            ..st2
                        };
                        if !(f matches Flow::Stop(Out::Error(_))) && !(f matches Flow::Stop(Out::Panic)) {
                            if let Some(val) = T::slot(st3.rt) {
                                lemma_expand_manifest_fuel::<T>(
                                    (f1 - 1) as nat,
                                    (f2 - 1) as nat,
                                    val,
                                    key,
                                    task,
                                    ctx,
                                    RState { rt: T::with_slot(st3.rt, None), ..st3 },
                                );
                            }
                        }
                    }
                }
            }
        }
    }
}

/// More fuel does not change a walk over entries once the fuel suffices.
proof fn lemma_in_config_fuel<T: Resolve>(
    f1: nat,
    f2: nat,
    m: Lookup,
    es: Seq<(Seq<u8>, T::V)>,
    i: int,
    task: TaskView,
    ctx: ContextView,
    st: RState,
)
    requires
        f1 <= f2,
        !(spec_in_config::<T>(f1, m, es, i, task, ctx, st).0 matches Flow::Stop(Out::Stuck)),
    ensures
        spec_in_config::<T>(f2, m, es, i, task, ctx, st) == spec_in_config::<T>(f1, m, es, i, task, ctx, st),
    decreases f1, es.len() - i + 2,
{
    if 0 <= i < es.len() && T::slot(st.rt) is None {
        lemma_apply_fuel::<T>(f1, f2, m, es[i].1, es[i].0, task, ctx, st);
        let (o, st2) = spec_apply::<T>(f1, m, es[i].1, es[i].0, task, ctx, st);
        if o is Value {
            lemma_in_config_fuel::<T>(f1, f2, m, es, i + 1, task, ctx, st2);
        }
    }
}

/// More fuel does not change a walk over the layers once the fuel suffices.
proof fn lemma_in_stack_fuel<T: Resolve>(
    f1: nat,
    f2: nat,
    m: Lookup,
    stack: StackView,
    pos: int,
    task: TaskView,
    ctx: ContextView,
    st: RState,
)
    requires
        f1 <= f2,
        !(spec_in_stack::<T>(f1, m, stack, pos, task, ctx, st).0 matches Flow::Stop(Out::Stuck)),
    ensures
        spec_in_stack::<T>(f2, m, stack, pos, task, ctx, st) == spec_in_stack::<T>(f1, m, stack, pos, task, ctx, st),
    decreases pos + 1,
{
    if 0 <= pos < stack.stack.len() && T::slot(st.rt) is None && stack.store.contains_key(stack.stack[pos]) {
        let es = T::entries(stack.store[stack.stack[pos]]);
        lemma_in_config_fuel::<T>(f1, f2, m, es, 0, task, ctx, st);
        let (f, st2) = spec_in_config::<T>(f1, m, es, 0, task, ctx, st);
        if f is Next {
            lemma_in_stack_fuel::<T>(f1, f2, m, stack, pos - 1, task, ctx, st2);
        }
    }
}

/// More fuel does not change the steps from place `i` on once the fuel
/// suffices.
proof fn lemma_run_fuel(
    f1: nat,
    f2: nat,
    steps: Seq<(Kind, Lookup)>,
    i: int,
    stack: StackView,
    task: TaskView,
    ctx: ContextView,
    st: RState,
)
    requires
        f1 <= f2,
        !(run_steps(f1, steps, i, stack, task, ctx, st).0 is Stuck),
    ensures
        run_steps(f2, steps, i, stack, task, ctx, st) == run_steps(f1, steps, i, stack, task, ctx, st),
    decreases steps.len() - i,
{
    if 0 <= i < steps.len() {
        let (k, m) = steps[i];
        match k {
            Kind::Host => lemma_in_stack_fuel::<Host>(f1, f2, m, stack, stack.stack.len() - 1, task, ctx, st),
            Kind::Repo => lemma_in_stack_fuel::<Repo>(f1, f2, m, stack, stack.stack.len() - 1, task, ctx, st),
            Kind::Tree => lemma_in_stack_fuel::<Tree>(f1, f2, m, stack, stack.stack.len() - 1, task, ctx, st),
            Kind::Open => lemma_in_stack_fuel::<Open>(f1, f2, m, stack, stack.stack.len() - 1, task, ctx, st),
        }
        let (o, s2, st2) = spec_step(f1, k, m, stack, task, ctx, st);
        if o is Value {
            lemma_run_fuel(f1, f2, steps, i + 1, s2, task, ctx, st2);
        }
    }
}

/// A resolution does not depend on the fuel: any fuel with which it ends
/// gives the result that `resolved` names.
pub proof fn law_resolution_independent_of_fuel(
    fuel: nat,
    stack: StackView,
    task: TaskView,
    ctx: ContextView,
    rt: ResolvedView,
    files: Seq<(Seq<u8>, Config)>,
)
    requires
        finishes(resolution(fuel, stack, task, ctx, rt, files).0),
    ensures
        resolved(stack, task, ctx, rt, files) == resolution(fuel, stack, task, ctx, rt, files),
{
    let f0 = resolve_fuel(stack, task, ctx, rt, files);
    assert(finishes(resolution(f0, stack, task, ctx, rt, files).0));
    let st = RState { rt, store_q: Seq::empty(), stack_q: Seq::empty(), files };
    if f0 <= fuel {
        lemma_run_fuel(f0, fuel, plan(task), 0, stack, task, ctx, st);
    } else {
        lemma_run_fuel(fuel, f0, plan(task), 0, stack, task, ctx, st);
    }
}

/// Looking an entry up by the task's name picks it exactly when the task's
/// part of its kind is its key, its name or one of its aliases. A picked
/// entry is resolved (following its manifest) into the slot of its kind; an
/// entry not picked changes nothing.
pub proof fn law_picked_by_task_name<T: Resolve>(
    fuel: nat,
    v: T::V,
    key: Seq<u8>,
    task: TaskView,
    ctx: ContextView,
    st: RState,
)
    ensures
        T::task_part(task) is None ==> spec_apply::<T>(fuel, Lookup::ByTaskName, v, key, task, ctx, st)
            == (Out::<()>::Value(()), st),
        (T::task_part(task) matches Some(r) && !(key == r || T::common_of(v).name == Some(r)
            || T::common_of(v).alias.contains(r))) ==> spec_apply::<T>(
            fuel,
            Lookup::ByTaskName,
            v,
            key,
            task,
            ctx,
            st,
        ) == (Out::<()>::Value(()), st),
        (T::task_part(task) matches Some(r) && (key == r || T::common_of(v).name == Some(r)
            || T::common_of(v).alias.contains(r))) ==> (match spec_expand_manifest::<T>(
            fuel,
            v,
            key,
            task,
            ctx,
            st,
        ) {
            (Out::Value(x), st2) => spec_apply::<T>(fuel, Lookup::ByTaskName, v, key, task, ctx, st)
                == (Out::<()>::Value(()), RState { rt: T::with_slot(st2.rt, Some(x)), ..st2 }),
            (o, st2) => spec_apply::<T>(fuel, Lookup::ByTaskName, v, key, task, ctx, st) == (
                fail_as::<T::V, ()>(o),
                st2,
            ),
        }),
{
}

} // verus!
