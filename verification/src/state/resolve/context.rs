//! What a resolution reads besides the configuration layers: the program's
//! directories, the environment variables, and the manifest files read so far.

use crate::schemas::config::bstring::BString;
use crate::schemas::config::Config;
use crate::schemas::utils::entry_map::EntryMap;
use crate::state::config_stack::StackError;
use vstd::prelude::*;

verus! {

/// The directories of the program, as byte strings.
#[derive(Debug)]
pub struct Dirs {
    pub config_dir: BString,
    pub data_dir: BString,
}

/// The environment variables of the process, by name.
#[derive(Debug)]
pub struct Environment {
    pub vars: EntryMap<BString>,
}

impl Environment {
    /// No variables set.
    pub fn new() -> (r: Environment)
        ensures
            r.vars.map() == Map::<Seq<u8>, Seq<u8>>::empty(),
    {
        let r = Environment { vars: EntryMap::new() };
        assert(r.vars.map() =~= Map::<Seq<u8>, Seq<u8>>::empty());
        r
    }

    /// Sets the variable `name` to `value`.
    pub fn set(&mut self, name: BString, value: BString)
        ensures
            final(self).vars.map() == old(self).vars.map().insert(name@, value@),
    {
        self.vars.insert(name, value);
    }
}

/// The configurations of manifest files, in the order they were read. A
/// resolution takes each one it reads off this list, the first of its path.
#[derive(Debug)]
pub struct Manifests {
    pub files: Vec<(BString, Config)>,
}

/// The files of a list of manifests: path and configuration.
pub open spec fn files_view(f: Seq<(BString, Config)>) -> Seq<(Seq<u8>, Config)> {
    f.map_values(|e: (BString, Config)| (e.0@, e.1))
}

impl View for Manifests {
    type V = Seq<(Seq<u8>, Config)>;

    open spec fn view(&self) -> Seq<(Seq<u8>, Config)> {
        files_view(self.files@)
    }
}

/// Place `i` holds the first file of path `p`.
pub open spec fn is_first_file(s: Seq<(Seq<u8>, Config)>, p: Seq<u8>, i: int) -> bool {
    &&& 0 <= i < s.len()
    &&& s[i].0 == p
    &&& forall|j: int| 0 <= j < i ==> #[trigger] s[j].0 != p
}

/// Taking the file of path `p` off the list `s`: its configuration, where
/// the list has one, and the list without it.
pub open spec fn take_file(s: Seq<(Seq<u8>, Config)>, p: Seq<u8>) -> (Option<Config>, Seq<(Seq<u8>, Config)>) {
    if exists|i: int| is_first_file(s, p, i) {
        let i = choose|i: int| is_first_file(s, p, i);
        (Some(s[i].1), s.remove(i))
    } else {
        (None, s)
    }
}

impl Manifests {
    /// No manifest read.
    pub fn new() -> (r: Manifests)
        ensures
            r@ == Seq::<(Seq<u8>, Config)>::empty(),
    {
        let r = Manifests { files: Vec::new() };
        assert(r@ =~= Seq::<(Seq<u8>, Config)>::empty());
        r
    }

    /// Adds the configuration read from `path`.
    pub fn add(&mut self, path: BString, config: Config)
        ensures
            final(self)@ == old(self)@.push((path@, config)),
    {
        let ghost p = path@;
        self.files.push((path, config));
        assert(self@ =~= old(self)@.push((p, config)));
    }

    /// Takes the first configuration of the file `path` off the list.
    pub fn take(&mut self, path: &[u8]) -> (r: Option<Config>)
        ensures
            (r, final(self)@) == take_file(old(self)@, path@),
    {
        let ghost s = self@;
        let mut i: usize = 0;
        while i < self.files.len()
            invariant
                s == self@,
                s == old(self)@,
                i <= s.len(),
                forall|j: int| 0 <= j < i ==> #[trigger] s[j].0 != path@,
            decreases s.len() - i,
        {
            if crate::bytes::bytes_eq(self.files[i].0.as_bytes(), path) {
                proof {
                    assert(is_first_file(s, path@, i as int));
                    let c = choose|c: int| is_first_file(s, path@, c);
                    if c < i {
                        assert(s[c].0 != path@);
                    } else if c > i {
                        assert(s[i as int].0 != path@);
                    }
                    assert(c == i);
                }
                let ghost before = self.files@;
                let entry = self.files.remove(i);
                assert(entry == before[i as int]);
                assert(s[i as int].1 == entry.1);
                assert(self@ =~= s.remove(i as int));
                assert(take_file(s, path@) == (Some(entry.1), s.remove(i as int)));
                let (_, config) = entry;
                return Some(config);
            }
            i = i + 1;
        }
        None
    }
}

/// Why a task could not be resolved.
#[derive(Debug, PartialEq, Eq)]
pub enum ResolveError {
    /// A variable of a template that nothing gives a value.
    Unresolved(BString),
    /// A variable that names a field of an entry that is not set yet.
    Unset(BString),
    /// An entry with a manifest has no name to look itself up by.
    NameMissing,
    /// A manifest file that has not been read yet.
    NeedFile(BString),
    /// A layer of the stack that cannot be had.
    Stack(StackError),
}

/// An error as a mathematical value.
pub enum ResolveErrorView {
    Unresolved(Seq<u8>),
    Unset(Seq<u8>),
    NameMissing,
    NeedFile(Seq<u8>),
    Stack(StackError),
}

impl View for ResolveError {
    type V = ResolveErrorView;

    open spec fn view(&self) -> ResolveErrorView {
        match self {
            ResolveError::Unresolved(v) => ResolveErrorView::Unresolved(v@),
            ResolveError::Unset(v) => ResolveErrorView::Unset(v@),
            ResolveError::NameMissing => ResolveErrorView::NameMissing,
            ResolveError::NeedFile(p) => ResolveErrorView::NeedFile(p@),
            ResolveError::Stack(e) => ResolveErrorView::Stack(*e),
        }
    }
}

/// How a step of resolution ends: with a value, with an error, never (it
/// runs on without end), or with a panic.
pub enum Out<T> {
    Value(T),
    Error(ResolveErrorView),
    Stuck,
    Panic,
}

/// The step ends, with a value or an error.
pub open spec fn finishes<T>(o: Out<T>) -> bool {
    o is Value || o is Error
}

/// An outcome that is no value, as an outcome of another type.
pub open spec fn fail_as<A, B>(o: Out<A>) -> Out<B> {
    match o {
        Out::Value(_) => Out::Stuck,
        Out::Error(e) => Out::Error(e),
        Out::Stuck => Out::Stuck,
        Out::Panic => Out::Panic,
    }
}

/// The result `r` is what the outcome `o` says.
pub open spec fn out_is<T: View>(o: Out<T::V>, r: Result<T, ResolveError>) -> bool {
    match o {
        Out::Value(v) => r matches Ok(x) && x@ == v,
        Out::Error(e) => r matches Err(x) && x@ == e,
        _ => false,
    }
}

/// The result `r`, which carries no value, is what the outcome `o` says.
pub open spec fn done_is<T>(o: Out<T>, r: Result<(), ResolveError>) -> bool {
    match o {
        Out::Value(_) => r is Ok,
        Out::Error(e) => r matches Err(x) && x@ == e,
        _ => false,
    }
}

/// What templates read besides the entries: the directories and the
/// environment variables.
pub struct Context<'a> {
    pub dirs: &'a Dirs,
    pub env: &'a Environment,
}

/// The context as mathematical values.
pub struct ContextView {
    pub config_dir: Seq<u8>,
    pub data_dir: Seq<u8>,
    pub env: Map<Seq<u8>, Seq<u8>>,
}

/// The context of the directories `dirs` and the environment `env`.
pub open spec fn context_of(dirs: Dirs, env: Environment) -> ContextView {
    ContextView { config_dir: dirs.config_dir@, data_dir: dirs.data_dir@, env: env.vars.map() }
}

impl<'a> View for Context<'a> {
    type V = ContextView;

    open spec fn view(&self) -> ContextView {
        context_of(*self.dirs, *self.env)
    }
}

} // verus!
