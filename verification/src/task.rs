//! Task strings: `+host:repo@tree!open`, every part optional.
//!
//! A task names up to four entries of the configuration. Each part is
//! introduced by its separator byte; a leading part without a separator is a
//! repo, or a host where a `:` follows it.

use crate::bytes::{
    first_in_set, first_of, is_first_in_set, lemma_first_in_set, lemma_first_in_set_is, none_in_set,
};
use vstd::prelude::*;
use vstd::slice::slice_subrange;

verus! {

/// Separator that introduces the host part (`+`).
pub const HOST_SEP: u8 = 0x2b;

/// Separator that introduces the repo part (`:`).
pub const REPO_SEP: u8 = 0x3a;

/// Separator that introduces the tree part (`@`).
pub const TREE_SEP: u8 = 0x40;

/// Separator that introduces the open part (`!`).
pub const OPEN_SEP: u8 = 0x21;

/// The parts of a task, as byte slices of the string it was parsed from.
#[derive(Debug, Clone, Copy, PartialEq, Eq, PartialOrd, Ord)]
pub struct Task<'a> {
    pub host: Option<&'a [u8]>,
    pub repo: Option<&'a [u8]>,
    pub tree: Option<&'a [u8]>,
    pub open: Option<&'a [u8]>,
}

/// A task as mathematical byte sequences.
pub struct TaskView {
    pub host: Option<Seq<u8>>,
    pub repo: Option<Seq<u8>>,
    pub tree: Option<Seq<u8>>,
    pub open: Option<Seq<u8>>,
}

/// The bytes of an optional slice.
pub open spec fn opt_bytes(o: Option<&[u8]>) -> Option<Seq<u8>> {
    match o {
        Some(s) => Some(s@),
        None => None,
    }
}

impl<'a> View for Task<'a> {
    type V = TaskView;

    open spec fn view(&self) -> TaskView {
        TaskView {
            host: opt_bytes(self.host),
            repo: opt_bytes(self.repo),
            tree: opt_bytes(self.tree),
            open: opt_bytes(self.open),
        }
    }
}

/// The part of a task that the parser is reading.
#[derive(Debug, Clone, Copy, PartialEq, Eq, Structural)]
pub enum TokenKind {
    Leading,
    Host,
    Repo,
    Tree,
    Open,
}

/// Whether `b` is one of the four separator bytes.
pub open spec fn is_separator(b: u8) -> bool {
    b == HOST_SEP || b == REPO_SEP || b == TREE_SEP || b == OPEN_SEP
}

/// The part that a separator byte introduces.
pub open spec fn spec_kind(b: u8) -> TokenKind {
    if b == HOST_SEP {
        TokenKind::Host
    } else if b == REPO_SEP {
        TokenKind::Repo
    } else if b == TREE_SEP {
        TokenKind::Tree
    } else {
        TokenKind::Open
    }
}

/// The separators that may end the part `k`: those of the parts after it.
pub open spec fn spec_byteset(k: TokenKind) -> Seq<u8> {
    match k {
        TokenKind::Leading => seq![HOST_SEP, REPO_SEP, TREE_SEP, OPEN_SEP],
        TokenKind::Host => seq![REPO_SEP, TREE_SEP, OPEN_SEP],
        TokenKind::Repo => seq![TREE_SEP, OPEN_SEP],
        TokenKind::Tree => seq![OPEN_SEP],
        TokenKind::Open => seq![],
    }
}

impl TokenKind {
    /// The part that the separator `byte` introduces.
    pub fn kind(byte: u8) -> (r: TokenKind)
        requires
            is_separator(byte),
        ensures
            r == spec_kind(byte),
    {
        if byte == HOST_SEP {
            TokenKind::Host
        } else if byte == REPO_SEP {
            TokenKind::Repo
        } else if byte == TREE_SEP {
            TokenKind::Tree
        } else {
            TokenKind::Open
        }
    }

    /// The separators that end this part.
    pub fn byteset(&self) -> (r: &'static [u8])
        ensures
            r@ == spec_byteset(*self),
    {
        match self {
            TokenKind::Leading => {
                let s: &'static [u8; 4] = &[HOST_SEP, REPO_SEP, TREE_SEP, OPEN_SEP];
                assert(s@ =~= spec_byteset(*self));
                s
            },
            TokenKind::Host => {
                let s: &'static [u8; 3] = &[REPO_SEP, TREE_SEP, OPEN_SEP];
                assert(s@ =~= spec_byteset(*self));
                s
            },
            TokenKind::Repo => {
                let s: &'static [u8; 2] = &[TREE_SEP, OPEN_SEP];
                assert(s@ =~= spec_byteset(*self));
                s
            },
            TokenKind::Tree => {
                let s: &'static [u8; 1] = &[OPEN_SEP];
                assert(s@ =~= spec_byteset(*self));
                s
            },
            TokenKind::Open => {
                let s: &'static [u8; 0] = &[];
                assert(s@ =~= spec_byteset(*self));
                s
            },
        }
    }
}

/// The task with no parts.
pub open spec fn empty_task() -> TaskView {
    TaskView { host: None, repo: None, tree: None, open: None }
}

/// `t` with the part `k` set to `v` (the leading part, `None`, is the repo).
pub open spec fn with_part(t: TaskView, k: TokenKind, v: Seq<u8>) -> TaskView {
    match k {
        TokenKind::Host => TaskView { host: Some(v), ..t },
        TokenKind::Tree => TaskView { tree: Some(v), ..t },
        TokenKind::Open => TaskView { open: Some(v), ..t },
        _ => TaskView { repo: Some(v), ..t },
    }
}

/// The part that takes the bytes read in part `cur` when the separator of
/// part `next` ends them: a leading part is a host before `:`, else a repo.
pub open spec fn target_part(cur: TokenKind, next: TokenKind) -> TokenKind {
    if cur == TokenKind::Leading {
        if next == TokenKind::Repo {
            TokenKind::Host
        } else {
            TokenKind::Repo
        }
    } else {
        cur
    }
}

/// Parses `rest`, read as part `cur`, into `acc`.
pub open spec fn parse_rest(cur: TokenKind, rest: Seq<u8>, acc: TaskView) -> TaskView
    decreases rest.len(),
{
    match first_in_set(rest, spec_byteset(cur)) {
        None => {
            if cur == TokenKind::Leading && rest.len() == 0 {
                acc
            } else {
                with_part(acc, cur, rest)
            }
        },
        Some(i) => {
            if 0 <= i < rest.len() {
                let next = spec_kind(rest[i]);
                parse_rest(
                    next,
                    rest.subrange(i + 1, rest.len() as int),
                    with_part(acc, target_part(cur, next), rest.subrange(0, i)),
                )
            } else {
                acc
            }
        },
    }
}

/// The part that a task string starts in, and the bytes after its first separator.
pub open spec fn start_of(s: Seq<u8>) -> (TokenKind, Seq<u8>) {
    if s.len() > 0 && is_separator(s[0]) {
        (spec_kind(s[0]), s.drop_first())
    } else {
        (TokenKind::Leading, s)
    }
}

/// The task that a task string denotes.
pub open spec fn spec_parse(s: Seq<u8>) -> TaskView {
    parse_rest(start_of(s).0, start_of(s).1, empty_task())
}

/// The task strings that the parser accepts: a `+` may not end a leading
/// part that has no separator (the parser has no part for it there).
pub open spec fn parse_ok(s: Seq<u8>) -> bool {
    start_of(s).0 == TokenKind::Leading ==> match first_in_set(
        s,
        spec_byteset(TokenKind::Leading),
    ) {
        Some(i) => s[i] != HOST_SEP,
        None => true,
    }
}

/// The bytes `sep` followed by the part, or nothing where the part is absent.
pub open spec fn render_part(sep: u8, part: Option<Seq<u8>>) -> Seq<u8> {
    match part {
        Some(v) => seq![sep] + v,
        None => Seq::empty(),
    }
}

/// The task string that displays a task: each present part after its separator.
pub open spec fn spec_display(t: TaskView) -> Seq<u8> {
    render_part(HOST_SEP, t.host) + render_part(REPO_SEP, t.repo) + render_part(TREE_SEP, t.tree)
        + render_part(OPEN_SEP, t.open)
}

proof fn lemma_separators_of_byteset(k: TokenKind, b: u8)
    requires
        spec_byteset(k).contains(b),
    ensures
        is_separator(b),
        b != HOST_SEP ==> spec_kind(b) != TokenKind::Host,
{
    assert(spec_byteset(k).contains(b));
    let s = spec_byteset(k);
    let i = choose|i: int| 0 <= i < s.len() && s[i] == b;
    match k {
        TokenKind::Leading => {},
        TokenKind::Host => {},
        TokenKind::Repo => {},
        TokenKind::Tree => {},
        TokenKind::Open => {},
    }
}


/// The separator byte of a part.
pub open spec fn sep_of(k: TokenKind) -> u8 {
    match k {
        TokenKind::Host => HOST_SEP,
        TokenKind::Repo => REPO_SEP,
        TokenKind::Tree => TREE_SEP,
        _ => OPEN_SEP,
    }
}

/// The parts of `t` from part `k` on are all absent.
pub open spec fn absent_from(t: TaskView, k: TokenKind) -> bool {
    match k {
        TokenKind::Host => t.host is None && t.repo is None && t.tree is None && t.open is None,
        TokenKind::Repo => t.repo is None && t.tree is None && t.open is None,
        TokenKind::Tree => t.tree is None && t.open is None,
        TokenKind::Open => t.open is None,
        TokenKind::Leading => true,
    }
}

/// Each part of `t` is free of the separators that would end it early.
pub open spec fn parts_unambiguous(t: TaskView) -> bool {
    &&& (t.host matches Some(v) ==> none_in_set(v, spec_byteset(TokenKind::Host)))
    &&& (t.repo matches Some(v) ==> none_in_set(v, spec_byteset(TokenKind::Repo)))
    &&& (t.tree matches Some(v) ==> none_in_set(v, spec_byteset(TokenKind::Tree)))
}

/// The separator that displaying puts in front of a task string that starts
/// without one: `+` where its leading part is a host, else `:`.
pub open spec fn leading_sep(s: Seq<u8>) -> u8 {
    match first_in_set(s, spec_byteset(TokenKind::Leading)) {
        Some(i) => if s[i] == REPO_SEP {
            HOST_SEP
        } else {
            REPO_SEP
        },
        None => REPO_SEP,
    }
}

proof fn lemma_display_with_part(acc: TaskView, k: TokenKind, f: Seq<u8>)
    requires
        k != TokenKind::Leading,
        absent_from(acc, k),
    ensures
        spec_display(with_part(acc, k, f)) == spec_display(acc) + seq![sep_of(k)] + f,
{
    let e = Seq::<u8>::empty();
    match k {
        TokenKind::Host => {
            assert(spec_display(acc) =~= e);
            assert(spec_display(with_part(acc, k, f)) =~= seq![sep_of(k)] + f);
        },
        TokenKind::Repo => {
            assert(spec_display(acc) =~= render_part(HOST_SEP, acc.host));
            assert(spec_display(with_part(acc, k, f)) =~= render_part(HOST_SEP, acc.host) + (seq![
                sep_of(k),
            ] + f));
        },
        TokenKind::Tree => {
            assert(spec_display(acc) =~= render_part(HOST_SEP, acc.host) + render_part(
                REPO_SEP,
                acc.repo,
            ));
            assert(spec_display(with_part(acc, k, f)) =~= render_part(HOST_SEP, acc.host)
                + render_part(REPO_SEP, acc.repo) + (seq![sep_of(k)] + f));
        },
        TokenKind::Open => {
            assert(spec_display(with_part(acc, k, f)) =~= spec_display(acc) + (seq![sep_of(k)]
                + f));
        },
        TokenKind::Leading => {},
    }
}

proof fn lemma_byteset_later(k: TokenKind, b: u8)
    requires
        spec_byteset(k).contains(b),
    ensures
        is_separator(b),
        sep_of(spec_kind(b)) == b,
        spec_kind(b) != TokenKind::Leading,
        k != TokenKind::Leading ==> forall|t: TaskView|
            absent_from(t, k) ==> #[trigger] absent_from(with_part(t, k, Seq::empty()), spec_kind(b)),
{
    let s = spec_byteset(k);
    let i = choose|i: int| 0 <= i < s.len() && s[i] == b;
    assert forall|t: TaskView| k != TokenKind::Leading && absent_from(t, k) implies #[trigger] absent_from(
        with_part(t, k, Seq::empty()),
        spec_kind(b),
    ) by {}
}

proof fn lemma_display_parse_rest(k: TokenKind, rest: Seq<u8>, acc: TaskView)
    requires
        k != TokenKind::Leading,
        absent_from(acc, k),
    ensures
        spec_display(parse_rest(k, rest, acc)) == spec_display(acc) + seq![sep_of(k)] + rest,
    decreases rest.len(),
{
    lemma_first_in_set(rest, spec_byteset(k));
    match first_in_set(rest, spec_byteset(k)) {
        None => {
            lemma_display_with_part(acc, k, rest);
        },
        Some(i) => {
            let b = rest[i];
            lemma_byteset_later(k, b);
            let next = spec_kind(b);
            let acc2 = with_part(acc, k, rest.subrange(0, i));
            assert(absent_from(with_part(acc, k, Seq::empty()), next));
            assert(absent_from(acc2, next));
            lemma_display_parse_rest(next, rest.subrange(i + 1, rest.len() as int), acc2);
            lemma_display_with_part(acc, k, rest.subrange(0, i));
            assert(rest =~= rest.subrange(0, i) + seq![b] + rest.subrange(i + 1, rest.len() as int));
            assert(spec_display(parse_rest(k, rest, acc)) =~= spec_display(acc) + seq![sep_of(k)]
                + rest);
        },
    }
}

/// Displaying a parsed task string gives the string back: unchanged where it
/// starts with a separator or is empty, and otherwise behind the separator of
/// its leading part (`+` for a host, `:` for a repo).
pub proof fn law_display_of_parse(s: Seq<u8>)
    requires
        parse_ok(s),
    ensures
        spec_display(spec_parse(s)) == (if start_of(s).0 != TokenKind::Leading || s.len() == 0 {
            s
        } else {
            seq![leading_sep(s)] + s
        }),
{
    let e = empty_task();
    if start_of(s).0 != TokenKind::Leading {
        let k = start_of(s).0;
        lemma_display_parse_rest(k, s.drop_first(), e);
        assert(spec_display(e) =~= Seq::<u8>::empty());
        assert(s =~= seq![s[0]] + s.drop_first());
        assert(spec_display(spec_parse(s)) =~= s);
    } else {
        lemma_first_in_set(s, spec_byteset(TokenKind::Leading));
        assert(spec_display(e) =~= Seq::<u8>::empty());
        match first_in_set(s, spec_byteset(TokenKind::Leading)) {
            None => {
                if s.len() > 0 {
                    lemma_display_with_part(e, TokenKind::Repo, s);
                    assert(spec_display(spec_parse(s)) =~= seq![REPO_SEP] + s);
                }
            },
            Some(i) => {
                let b = s[i];
                lemma_byteset_later(TokenKind::Leading, b);
                let next = spec_kind(b);
                let target = target_part(TokenKind::Leading, next);
                let acc2 = with_part(e, target, s.subrange(0, i));
                lemma_display_with_part(e, target, s.subrange(0, i));
                lemma_display_parse_rest(next, s.subrange(i + 1, s.len() as int), acc2);
                assert(s =~= s.subrange(0, i) + seq![b] + s.subrange(i + 1, s.len() as int));
                assert(spec_display(spec_parse(s)) =~= seq![leading_sep(s)] + s);
            },
        }
    }
}

proof fn lemma_split_at_sep(k: TokenKind, v: Seq<u8>, b: u8, rest: Seq<u8>)
    requires
        none_in_set(v, spec_byteset(k)),
        spec_byteset(k).contains(b),
    ensures
        first_in_set(v + seq![b] + rest, spec_byteset(k)) == Some(v.len() as int),
        (v + seq![b] + rest)[v.len() as int] == b,
        (v + seq![b] + rest).subrange(0, v.len() as int) == v,
        (v + seq![b] + rest).subrange(v.len() + 1int, (v + seq![b] + rest).len() as int) == rest,
{
    let w = v + seq![b] + rest;
    assert forall|j: int| 0 <= j < v.len() implies !spec_byteset(k).contains(#[trigger] w[j]) by {
        assert(w[j] == v[j]);
    }
    assert(is_first_in_set(w, spec_byteset(k), v.len() as int));
    lemma_first_in_set_is(w, spec_byteset(k), Some(v.len() as int));
    assert(w.subrange(0, v.len() as int) =~= v);
    assert(w.subrange(v.len() + 1int, w.len() as int) =~= rest);
}

proof fn lemma_parse_last(k: TokenKind, v: Seq<u8>, acc: TaskView)
    requires
        k != TokenKind::Leading,
        none_in_set(v, spec_byteset(k)),
    ensures
        parse_rest(k, v, acc) == with_part(acc, k, v),
{
    lemma_first_in_set_is(v, spec_byteset(k), None);
}

/// The rendering of the parts after part `k`.
pub open spec fn display_after(t: TaskView, k: TokenKind) -> Seq<u8> {
    match k {
        TokenKind::Host => render_part(REPO_SEP, t.repo) + render_part(TREE_SEP, t.tree)
            + render_part(OPEN_SEP, t.open),
        TokenKind::Repo => render_part(TREE_SEP, t.tree) + render_part(OPEN_SEP, t.open),
        TokenKind::Tree => render_part(OPEN_SEP, t.open),
        _ => Seq::empty(),
    }
}

/// `acc` agrees with `t` on the parts before `k`, and has no part from `k` on.
pub open spec fn agrees_before(acc: TaskView, t: TaskView, k: TokenKind) -> bool {
    match k {
        TokenKind::Host => acc == empty_task(),
        TokenKind::Repo => acc == TaskView { host: t.host, ..empty_task() },
        TokenKind::Tree => acc == TaskView { host: t.host, repo: t.repo, ..empty_task() },
        _ => acc == TaskView { open: None, ..t },
    }
}

/// The value of part `k` of `t`.
pub open spec fn part_of(t: TaskView, k: TokenKind) -> Option<Seq<u8>> {
    match k {
        TokenKind::Host => t.host,
        TokenKind::Repo => t.repo,
        TokenKind::Tree => t.tree,
        TokenKind::Open => t.open,
        TokenKind::Leading => None,
    }
}

proof fn lemma_from_open(t: TaskView, acc: TaskView)
    requires
        t.open is Some,
        agrees_before(acc, t, TokenKind::Open),
    ensures
        parse_rest(TokenKind::Open, t.open.unwrap() + display_after(t, TokenKind::Open), acc)
            == t,
{
    let v = t.open.unwrap();
    assert(v + display_after(t, TokenKind::Open) =~= v);
    assert(none_in_set(v, spec_byteset(TokenKind::Open)));
    lemma_parse_last(TokenKind::Open, v, acc);
}

proof fn lemma_from_tree(t: TaskView, acc: TaskView)
    requires
        parts_unambiguous(t),
        t.tree is Some,
        agrees_before(acc, t, TokenKind::Tree),
    ensures
        parse_rest(TokenKind::Tree, t.tree.unwrap() + display_after(t, TokenKind::Tree), acc)
            == t,
{
    let k = TokenKind::Tree;
    let v = t.tree.unwrap();
    let acc2 = with_part(acc, k, v);
    match t.open {
        Some(o) => {
            lemma_split_at_sep(k, v, OPEN_SEP, o);
            assert(v + display_after(t, k) =~= v + seq![OPEN_SEP] + o);
            assert(agrees_before(acc2, t, TokenKind::Open));
            lemma_from_open(t, acc2);
            assert(o + display_after(t, TokenKind::Open) =~= o);
        },
        None => {
            assert(v + display_after(t, k) =~= v);
            lemma_parse_last(k, v, acc);
        },
    }
}

proof fn lemma_from_repo(t: TaskView, acc: TaskView)
    requires
        parts_unambiguous(t),
        t.repo is Some,
        agrees_before(acc, t, TokenKind::Repo),
    ensures
        parse_rest(TokenKind::Repo, t.repo.unwrap() + display_after(t, TokenKind::Repo), acc)
            == t,
{
    let k = TokenKind::Repo;
    let v = t.repo.unwrap();
    let acc2 = with_part(acc, k, v);
    if let Some(tr) = t.tree {
        let rest = tr + display_after(t, TokenKind::Tree);
        lemma_split_at_sep(k, v, TREE_SEP, rest);
        assert(v + display_after(t, k) =~= v + seq![TREE_SEP] + rest);
        assert(agrees_before(acc2, t, TokenKind::Tree));
        lemma_from_tree(t, acc2);
    } else if let Some(o) = t.open {
        lemma_split_at_sep(k, v, OPEN_SEP, o);
        assert(v + display_after(t, k) =~= v + seq![OPEN_SEP] + o);
        assert(agrees_before(acc2, t, TokenKind::Open));
        lemma_from_open(t, acc2);
        assert(o + display_after(t, TokenKind::Open) =~= o);
    } else {
        assert(v + display_after(t, k) =~= v);
        lemma_parse_last(k, v, acc);
    }
}

proof fn lemma_from_host(t: TaskView, acc: TaskView)
    requires
        parts_unambiguous(t),
        t.host is Some,
        agrees_before(acc, t, TokenKind::Host),
    ensures
        parse_rest(TokenKind::Host, t.host.unwrap() + display_after(t, TokenKind::Host), acc)
            == t,
{
    let k = TokenKind::Host;
    let v = t.host.unwrap();
    let acc2 = with_part(acc, k, v);
    if let Some(r) = t.repo {
        let rest = r + display_after(t, TokenKind::Repo);
        lemma_split_at_sep(k, v, REPO_SEP, rest);
        assert(v + display_after(t, k) =~= v + seq![REPO_SEP] + rest);
        assert(agrees_before(acc2, t, TokenKind::Repo));
        lemma_from_repo(t, acc2);
    } else if let Some(tr) = t.tree {
        let rest = tr + display_after(t, TokenKind::Tree);
        lemma_split_at_sep(k, v, TREE_SEP, rest);
        assert(v + display_after(t, k) =~= v + seq![TREE_SEP] + rest);
        assert(agrees_before(acc2, t, TokenKind::Tree));
        lemma_from_tree(t, acc2);
    } else if let Some(o) = t.open {
        lemma_split_at_sep(k, v, OPEN_SEP, o);
        assert(v + display_after(t, k) =~= v + seq![OPEN_SEP] + o);
        assert(agrees_before(acc2, t, TokenKind::Open));
        lemma_from_open(t, acc2);
        assert(o + display_after(t, TokenKind::Open) =~= o);
    } else {
        assert(v + display_after(t, k) =~= v);
        lemma_parse_last(k, v, acc);
    }
}

/// Parsing the display of a task gives the task back, where no part holds a
/// separator that would end it early (the host none of `:@!`, the repo none
/// of `@!`, the tree no `!`).
pub proof fn law_parse_of_display(t: TaskView)
    requires
        parts_unambiguous(t),
    ensures
        parse_ok(spec_display(t)),
        spec_parse(spec_display(t)) == t,
{
    let d = spec_display(t);
    let e = empty_task();
    let k = if t.host is Some {
        TokenKind::Host
    } else if t.repo is Some {
        TokenKind::Repo
    } else if t.tree is Some {
        TokenKind::Tree
    } else if t.open is Some {
        TokenKind::Open
    } else {
        TokenKind::Leading
    };
    if k == TokenKind::Leading {
        assert(d =~= Seq::<u8>::empty());
        lemma_first_in_set_is(d, spec_byteset(TokenKind::Leading), None);
        assert(spec_parse(d) == t);
    } else {
        let v = part_of(t, k).unwrap();
        assert(d =~= seq![sep_of(k)] + (v + display_after(t, k)));
        assert(d.drop_first() =~= v + display_after(t, k));
        assert(start_of(d).0 == k);
        assert(agrees_before(e, t, k));
        match k {
            TokenKind::Host => lemma_from_host(t, e),
            TokenKind::Repo => lemma_from_repo(t, e),
            TokenKind::Tree => lemma_from_tree(t, e),
            _ => lemma_from_open(t, e),
        }
    }
}

impl<'a> Task<'a> {
    /// The task with no parts.
    pub fn empty() -> (t: Task<'a>)
        ensures
            t@ == empty_task(),
    {
        Task { host: None, repo: None, tree: None, open: None }
    }

    /// Whether `from` accepts `bytes`: a `+` may not end a leading part.
    pub fn is_parsable(bytes: &[u8]) -> (r: bool)
        ensures
            r == parse_ok(bytes@),
    {
        if bytes.len() > 0 && (bytes[0] == HOST_SEP || bytes[0] == REPO_SEP || bytes[0] == TREE_SEP
            || bytes[0] == OPEN_SEP) {
            return true;
        }
        match first_of(bytes, TokenKind::Leading.byteset()) {
            Some(i) => bytes[i] != HOST_SEP,
            None => true,
        }
    }

    /// Parses a task string.
    ///
    /// A first byte that is a separator starts its part; otherwise the string
    /// starts with a repo, or with a host where the first separator is `:`.
    /// Each part runs to the next separator of a later part.
    pub fn from(bytes: &'a [u8]) -> (t: Task<'a>)
        requires
            parse_ok(bytes@),
        ensures
            t@ == spec_parse(bytes@),
    {
        let mut s = Task::empty();
        let mut current = TokenKind::Leading;
        let mut str = bytes;
        if str.len() > 0 && (str[0] == HOST_SEP || str[0] == REPO_SEP || str[0] == TREE_SEP
            || str[0] == OPEN_SEP) {
            current = TokenKind::kind(str[0]);
            str = slice_subrange(str, 1, str.len());
            assert(str@ =~= bytes@.drop_first());
        }
        loop
            invariant
                spec_parse(bytes@) == parse_rest(current, str@, s@),
                current == TokenKind::Leading ==> (s@ == empty_task() && str@ == bytes@
                    && parse_ok(bytes@) && start_of(bytes@).0 == TokenKind::Leading),
            decreases str@.len(),
        {
            let found = first_of(str, current.byteset());
            match found {
                None => {
                    match current {
                        TokenKind::Leading => {
                            if str.len() > 0 {
                                s.repo = Some(str);
                            }
                        },
                        TokenKind::Host => {
                            s.host = Some(str);
                        },
                        TokenKind::Repo => {
                            s.repo = Some(str);
                        },
                        TokenKind::Tree => {
                            s.tree = Some(str);
                        },
                        TokenKind::Open => {
                            s.open = Some(str);
                        },
                    }
                    return s;
                },
                Some(idx) => {
                    proof {
                        lemma_first_in_set(str@, spec_byteset(current));
                        lemma_separators_of_byteset(current, str@[idx as int]);
                    }
                    let next = TokenKind::kind(str[idx]);
                    let part = slice_subrange(str, 0, idx);
                    let ghost target = target_part(current, next);
                    match current {
                        TokenKind::Leading => {
                            if next == TokenKind::Repo {
                                s.host = Some(part);
                            } else {
                                s.repo = Some(part);
                            }
                        },
                        TokenKind::Host => {
                            s.host = Some(part);
                        },
                        TokenKind::Repo => {
                            s.repo = Some(part);
                        },
                        TokenKind::Tree => {
                            s.tree = Some(part);
                        },
                        TokenKind::Open => {
                            s.open = Some(part);
                        },
                    }
                    str = slice_subrange(str, idx + 1, str.len());
                    current = next;
                },
            }
        }
    }

    /// The task string of these parts: each present part after its separator,
    /// in the order host, repo, tree, open.
    pub fn to_bytes(&self) -> (r: Vec<u8>)
        ensures
            r@ == spec_display(self@),
    {
        let mut r: Vec<u8> = Vec::new();
        push_part(&mut r, HOST_SEP, self.host);
        push_part(&mut r, REPO_SEP, self.repo);
        push_part(&mut r, TREE_SEP, self.tree);
        push_part(&mut r, OPEN_SEP, self.open);
        r
    }
}

fn push_part(r: &mut Vec<u8>, sep: u8, part: Option<&[u8]>)
    ensures
        final(r)@ == old(r)@ + render_part(sep, opt_bytes(part)),
{
    match part {
        Some(p) => {
            let ghost before = r@;
            r.push(sep);
            let mut i: usize = 0;
            while i < p.len()
                invariant
                    i <= p@.len(),
                    r@ == before + seq![sep] + p@.subrange(0, i as int),
                decreases p@.len() - i,
            {
                r.push(p[i]);
                i = i + 1;
                assert(r@ =~= before + seq![sep] + p@.subrange(0, i as int));
            }
            assert(p@.subrange(0, p@.len() as int) =~= p@);
        },
        None => {
            assert(r@ =~= r@ + Seq::<u8>::empty());
        },
    }
}

} // verus!
