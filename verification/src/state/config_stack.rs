//! A stack of configuration layers, each read from its source once.

use crate::schemas::config::{Config, ConfigSource, ConfigSourceView};
use vstd::prelude::*;

verus! {

/// The configurations read so far, by source, and the order of the layers.
#[derive(Debug)]
pub struct ConfigStack {
    pub store: Vec<(ConfigSource, Config)>,
    pub stack: Vec<ConfigSource>,
}

/// A position in the stack of layers.
#[derive(Debug, Clone, Copy, PartialEq, Eq)]
pub struct Cursor {
    pub pos: usize,
}

/// The positions of the stack from the top layer down.
#[derive(Debug)]
pub struct Cursors {
    pos: usize,
}

/// The positions of the stack from the top layer down, as a walk over the
/// stack itself.
#[derive(Debug)]
pub struct IntoIter {
    pos: usize,
}

/// Why a layer could not be had.
#[derive(Debug, Clone, Copy, PartialEq, Eq)]
pub enum StackError {
    /// The cursor is past the top of the stack.
    CursorOutOfRange(usize),
    /// The layer has not been read yet, and reading needs mutable access.
    NeedsMutableAccess,
    /// The layer has not been read yet, and only files can be read.
    OnlyFiles,
    /// The layer is a file that has not been read yet.
    NotLoaded,
}

/// The sources of the store entries.
pub open spec fn store_sources(s: Seq<(ConfigSource, Config)>) -> Seq<ConfigSourceView> {
    s.map_values(|e: (ConfigSource, Config)| e.0@)
}

/// The place of the entry of source `src` in the store.
pub open spec fn store_index(s: Seq<(ConfigSource, Config)>, src: ConfigSourceView) -> int {
    choose|i: int| 0 <= i < s.len() && #[trigger] s[i].0@ == src
}

/// Whether the store has an entry of source `src`.
pub open spec fn store_has(s: Seq<(ConfigSource, Config)>, src: ConfigSourceView) -> bool {
    exists|i: int| 0 <= i < s.len() && #[trigger] s[i].0@ == src
}

/// A stack of layers as mathematical values.
pub struct StackView {
    pub store: Map<ConfigSourceView, Config>,
    pub stack: Seq<ConfigSourceView>,
}

impl ConfigStack {
    /// No source has two entries in the store.
    pub open spec fn wf(&self) -> bool {
        forall|i: int, j: int|
            0 <= i < j < self.store@.len() ==> #[trigger] self.store@[i].0@ != #[trigger] self.store@[j].0@
    }

    /// The configuration read from source `src`.
    pub open spec fn config_of(&self, src: ConfigSourceView) -> Config {
        self.store@[store_index(self.store@, src)].1
    }

    /// The stack as mathematical values: the configurations by source, and
    /// the sources of the layers from the bottom up.
    pub open spec fn layers(&self) -> StackView {
        StackView {
            store: Map::new(|s: ConfigSourceView| store_has(self.store@, s), |s: ConfigSourceView| self.config_of(s)),
            stack: self.stack@.map_values(|s: ConfigSource| s@),
        }
    }

    /// The empty stack.
    pub fn new() -> (r: ConfigStack)
        ensures
            r.wf(),
            r.store@.len() == 0,
            r.stack@.len() == 0,
    {
        ConfigStack { store: Vec::new(), stack: Vec::new() }
    }

    /// The place of the store entry of `src`.
    pub fn find(&self, src: &ConfigSource) -> (r: Option<usize>)
        requires
            self.wf(),
        ensures
            r matches Some(i) ==> i < self.store@.len() && self.store@[i as int].0@ == src@
                && store_index(self.store@, src@) == i,
            r is None ==> !store_has(self.store@, src@),
    {
        let mut i: usize = 0;
        while i < self.store.len()
            invariant
                self.wf(),
                i <= self.store@.len(),
                forall|j: int| 0 <= j < i ==> #[trigger] self.store@[j].0@ != src@,
            decreases self.store@.len() - i,
        {
            if self.store[i].0.same(src) {
                proof {
                    let c = store_index(self.store@, src@);
                    assert(store_has(self.store@, src@));
                    if c != i {
                        assert(self.store@[c].0@ == self.store@[i as int].0@);
                    }
                }
                return Some(i);
            }
            i = i + 1;
        }
        None
    }

    /// Adds the layer `config` read from `source` on top of the stack.
    pub fn push(&mut self, source: ConfigSource, config: Config)
        requires
            old(self).wf(),
        ensures
            final(self).wf(),
            final(self).stack@.len() == old(self).stack@.len() + 1,
            forall|i: int|
                0 <= i < old(self).stack@.len() ==> #[trigger] final(self).stack@[i]@ == old(
                    self,
                ).stack@[i]@,
            final(self).stack@.last()@ == source@,
            store_has(final(self).store@, source@),
            final(self).config_of(source@) == config,
            forall|src: ConfigSourceView|
                src != source@ ==> (store_has(final(self).store@, src) == store_has(
                    old(self).store@,
                    src,
                ) && (store_has(old(self).store@, src) ==> final(self).config_of(src) == old(
                    self,
                ).config_of(src))),
    {
        self.stack.push(source.copy());
        self.insert_store(source, config);
    }

    /// Stores `config` as read from `source`, in place of what was stored.
    pub fn insert_store(&mut self, source: ConfigSource, config: Config)
        requires
            old(self).wf(),
        ensures
            final(self).wf(),
            final(self).stack == old(self).stack,
            store_has(final(self).store@, source@),
            final(self).config_of(source@) == config,
            forall|src: ConfigSourceView|
                src != source@ ==> (store_has(final(self).store@, src) == store_has(
                    old(self).store@,
                    src,
                ) && (store_has(old(self).store@, src) ==> final(self).config_of(src) == old(
                    self,
                ).config_of(src))),
    {
        let ghost src = source@;
        let ghost old_store = self.store@;
        match self.find(&source) {
            Some(i) => {
                self.store.remove(i);
                self.store.insert(i, (source, config));
                proof {
                    let s = self.store@;
                    assert(s == old_store.update(i as int, s[i as int]));
                    assert forall|a: int, b: int| 0 <= a < b < s.len() implies #[trigger] s[a].0@
                        != #[trigger] s[b].0@ by {
                        if a != i && b != i {
                            assert(s[a] == old_store[a]);
                            assert(s[b] == old_store[b]);
                        } else if a == i {
                            assert(s[b] == old_store[b]);
                        } else {
                            assert(s[a] == old_store[a]);
                        }
                    }
                    assert(s[i as int].0@ == src);
                    assert(store_has(s, src));
                    let c = store_index(s, src);
                    if c != i {
                        assert(s[c].0@ == s[i as int].0@);
                    }
                    assert forall|q: ConfigSourceView| q != src implies (store_has(s, q)
                        == store_has(old_store, q) && (store_has(old_store, q) ==> s[store_index(
                        s,
                        q,
                    )].1 == old_store[store_index(old_store, q)].1)) by {
                        if store_has(old_store, q) {
                            let k = store_index(old_store, q);
                            assert(k != i);
                            assert(s[k] == old_store[k]);
                            assert(store_has(s, q));
                            let k2 = store_index(s, q);
                            if k2 != k {
                                assert(s[k2].0@ == s[k].0@);
                            }
                        }
                        if store_has(s, q) {
                            let k2 = store_index(s, q);
                            assert(k2 != i);
                            assert(s[k2] == old_store[k2]);
                        }
                    }
                }
            },
            None => {
                self.store.push((source, config));
                proof {
                    let s = self.store@;
                    let n = old_store.len() as int;
                    assert forall|a: int, b: int| 0 <= a < b < s.len() implies #[trigger] s[a].0@
                        != #[trigger] s[b].0@ by {
                        assert(s[a] == old_store[a]);
                        if b < n {
                            assert(s[b] == old_store[b]);
                        } else {
                            assert(!(0 <= a < old_store.len() && old_store[a].0@ == src));
                        }
                    }
                    assert(s[n].0@ == src);
                    assert(store_has(s, src));
                    let c = store_index(s, src);
                    if c != n {
                        assert(s[c] == old_store[c]);
                    }
                    assert forall|q: ConfigSourceView| q != src implies (store_has(s, q)
                        == store_has(old_store, q) && (store_has(old_store, q) ==> s[store_index(
                        s,
                        q,
                    )].1 == old_store[store_index(old_store, q)].1)) by {
                        if store_has(old_store, q) {
                            let k = store_index(old_store, q);
                            assert(s[k] == old_store[k]);
                            assert(store_has(s, q));
                            let k2 = store_index(s, q);
                            if k2 != k {
                                if k2 < n {
                                    assert(s[k2] == old_store[k2]);
                                }
                            }
                        }
                        if store_has(s, q) {
                            let k2 = store_index(s, q);
                            if k2 < n {
                                assert(s[k2] == old_store[k2]);
                            }
                        }
                    }
                }
            },
        }
    }

    /// The source and configuration of the layer at `cur`.
    pub fn with_cursor(&self, cur: Cursor) -> (r: Result<(&ConfigSource, &Config), StackError>)
        requires
            self.wf(),
        ensures
            cur.pos >= self.stack@.len() ==> r == Err::<(&ConfigSource, &Config), StackError>(
                StackError::CursorOutOfRange(cur.pos),
            ),
            cur.pos < self.stack@.len() && !store_has(self.store@, self.stack@[cur.pos as int]@)
                ==> r == Err::<(&ConfigSource, &Config), StackError>(
                StackError::NeedsMutableAccess,
            ),
            cur.pos < self.stack@.len() && store_has(self.store@, self.stack@[cur.pos as int]@)
                ==> r is Ok,
            r matches Ok((src, config)) ==> cur.pos < self.stack@.len() && src@ == self.stack@[
                cur.pos as int]@ && store_has(self.store@, src@) && *config == self.config_of(
                src@,
            ),
    {
        if cur.pos >= self.stack.len() {
            return Err(StackError::CursorOutOfRange(cur.pos));
        }
        let src = &self.stack[cur.pos];
        match self.find(src) {
            None => Err(StackError::NeedsMutableAccess),
            Some(i) => Ok((src, &self.store[i].1)),
        }
    }

    /// The source and configuration of the layer at `cur`, to change the
    /// configuration. A file that is not read yet is `NotLoaded`: the caller
    /// reads it, stores it with `insert_store` and asks again.
    pub fn with_cursor_mut(&mut self, cur: Cursor) -> (r: Result<
        (&ConfigSource, &mut Config),
        StackError,
    >)
        requires
            old(self).wf(),
        ensures
            cur.pos >= old(self).stack@.len() ==> r == Err::<(&ConfigSource, &mut Config), StackError>(
                StackError::CursorOutOfRange(cur.pos),
            ) && *final(self) == *old(self),
            cur.pos < old(self).stack@.len() && !store_has(
                old(self).store@,
                old(self).stack@[cur.pos as int]@,
            ) ==> *final(self) == *old(self) && (old(self).stack@[cur.pos as int] is File ==> r
                == Err::<(&ConfigSource, &mut Config), StackError>(StackError::NotLoaded)) && (!(
            old(self).stack@[cur.pos as int] is File) ==> r == Err::<
                (&ConfigSource, &mut Config),
                StackError,
            >(StackError::OnlyFiles)),
            r matches Ok((src, config)) ==> cur.pos < old(self).stack@.len() && src@ == old(
                self,
            ).stack@[cur.pos as int]@ && store_has(old(self).store@, src@) && *config == old(
                self,
            ).config_of(src@) && final(self).stack == old(self).stack && final(self).store@
                == old(self).store@.update(
                store_index(old(self).store@, src@),
                (old(self).store@[store_index(old(self).store@, src@)].0, *final(config)),
            ),
    {
        if cur.pos >= self.stack.len() {
            return Err(StackError::CursorOutOfRange(cur.pos));
        }
        match self.find(&self.stack[cur.pos]) {
            None => {
                if let ConfigSource::File(_) = &self.stack[cur.pos] {
                    Err(StackError::NotLoaded)
                } else {
                    Err(StackError::OnlyFiles)
                }
            },
            Some(i) => {
                let src = &self.stack[cur.pos];
                let entry = &mut self.store[i];
                Ok((src, &mut entry.1))
            },
        }
    }

    /// The positions of the stack from the top layer down.
    pub fn cursors(&self) -> (r: Cursors)
        ensures
            r.pos() == (if self.stack@.len() == 0 {
                usize::MAX as int
            } else {
                self.stack@.len() - 1
            }),
    {
        Cursors {
            pos: match self.stack.len().checked_sub(1) {
                Some(p) => p,
                None => usize::MAX,
            },
        }
    }
}

/// Storing a configuration replaces the one of its source in the map of
/// layers, and keeps the order of the layers.
pub proof fn lemma_store_layers(a: &ConfigStack, b: &ConfigStack, src: ConfigSourceView, config: Config)
    requires
        b.stack == a.stack,
        store_has(b.store@, src),
        b.config_of(src) == config,
        forall|s: ConfigSourceView|
            s != src ==> (#[trigger] store_has(b.store@, s) == store_has(a.store@, s) && (store_has(a.store@, s)
                ==> b.config_of(s) == a.config_of(s))),
    ensures
        b.layers() == (StackView { store: a.layers().store.insert(src, config), stack: a.layers().stack }),
{
    let m = a.layers().store.insert(src, config);
    assert forall|s: ConfigSourceView| #[trigger] b.layers().store.contains_key(s) == m.contains_key(s)
        by {
        if s != src {
            assert(store_has(b.store@, s) == store_has(a.store@, s));
        }
    }
    assert forall|s: ConfigSourceView| #[trigger] m.contains_key(s) implies b.layers().store[s] == m[s]
        by {
        if s != src {
            assert(store_has(b.store@, s) == store_has(a.store@, s));
        }
    }
    assert(b.layers().store =~= m);
}

impl Cursors {
    /// The next position to visit; `usize::MAX` once all are visited.
    pub closed spec fn pos(&self) -> int {
        self.pos as int
    }

    /// The next position, from the top layer down to the bottom one.
    pub fn next(&mut self) -> (r: Option<Cursor>)
        ensures
            old(self).pos() < usize::MAX ==> r == Some(Cursor { pos: old(self).pos() as usize })
                && final(self).pos() == (if old(self).pos() == 0 {
                usize::MAX as int
            } else {
                old(self).pos() - 1
            }),
            old(self).pos() == usize::MAX ==> r is None && final(self).pos() == old(self).pos(),
    {
        if self.pos < usize::MAX {
            let cur = Cursor { pos: self.pos };
            self.pos = match self.pos.checked_sub(1) {
                Some(p) => p,
                None => usize::MAX,
            };
            Some(cur)
        } else {
            None
        }
    }
}

impl ConfigStack {
    /// The walk over the positions of the stack from the top layer down.
    pub fn into_iter(&self) -> (r: IntoIter)
        ensures
            r.pos() == (if self.stack@.len() == 0 {
                usize::MAX as int
            } else {
                self.stack@.len() - 1
            }),
    {
        IntoIter {
            pos: match self.stack.len().checked_sub(1) {
                Some(p) => p,
                None => usize::MAX,
            },
        }
    }
}

impl IntoIter {
    /// The next position to visit; `usize::MAX` once all are visited.
    pub closed spec fn pos(&self) -> int {
        self.pos as int
    }

    /// The next position, from the top layer down to the bottom one.
    pub fn next(&mut self) -> (r: Option<Cursor>)
        ensures
            old(self).pos() < usize::MAX ==> r == Some(Cursor { pos: old(self).pos() as usize })
                && final(self).pos() == (if old(self).pos() == 0 {
                usize::MAX as int
            } else {
                old(self).pos() - 1
            }),
            old(self).pos() == usize::MAX ==> r is None && final(self).pos() == old(self).pos(),
    {
        if self.pos < usize::MAX {
            let cur = Cursor { pos: self.pos };
            self.pos = match self.pos.checked_sub(1) {
                Some(p) => p,
                None => usize::MAX,
            };
            Some(cur)
        } else {
            None
        }
    }
}

} // verus!
