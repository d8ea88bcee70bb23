//! Path templates: text with `$name` and `${name}` variables.
//!
//! A template is read one token at a time. A step over text without `$`, or
//! over a `${` without its closing `}`, returns the whole rest as text and
//! does not advance: reading such a template never ends.

use crate::bytes::{first_in_set, first_of, lemma_first_in_set};
use vstd::prelude::*;
use vstd::slice::slice_subrange;

verus! {

/// `$`, which starts a variable.
pub const DOLLAR: u8 = 0x24;

/// `{`, which opens a delimited variable name.
pub const OPEN_BRACE: u8 = 0x7b;

/// `}`, which closes a delimited variable name.
pub const CLOSE_BRACE: u8 = 0x7d;

/// The bytes that end an undelimited variable name: ` \t\n()<>[]|&;/`.
pub open spec fn special_bytes() -> Seq<u8> {
    seq![0x20u8, 0x09u8, 0x0au8, 0x28u8, 0x29u8, 0x3cu8, 0x3eu8, 0x5bu8, 0x5du8, 0x7cu8, 0x26u8, 0x3bu8, 0x2fu8]
}

fn special() -> (r: &'static [u8])
    ensures
        r@ == special_bytes(),
{
    let s: &'static [u8; 13] = &[
        0x20u8,
        0x09u8,
        0x0au8,
        0x28u8,
        0x29u8,
        0x3cu8,
        0x3eu8,
        0x5bu8,
        0x5du8,
        0x7cu8,
        0x26u8,
        0x3bu8,
        0x2fu8,
    ];
    assert(s@ =~= special_bytes());
    s
}

fn dollar() -> (r: &'static [u8])
    ensures
        r@ == seq![DOLLAR],
{
    let s: &'static [u8; 1] = &[DOLLAR];
    assert(s@ =~= seq![DOLLAR]);
    s
}

fn close_brace() -> (r: &'static [u8])
    ensures
        r@ == seq![CLOSE_BRACE],
{
    let s: &'static [u8; 1] = &[CLOSE_BRACE];
    assert(s@ =~= seq![CLOSE_BRACE]);
    s
}

/// A token of a template: literal text, or the name of a variable.
#[derive(Debug, Clone, Copy, PartialEq, Eq, PartialOrd, Ord)]
pub enum Token<'a> {
    Str(&'a [u8]),
    Var(&'a [u8]),
}

/// A token as a mathematical value.
pub enum TokenView {
    Str(Seq<u8>),
    Var(Seq<u8>),
}

impl<'a> View for Token<'a> {
    type V = TokenView;

    open spec fn view(&self) -> TokenView {
        match self {
            Token::Str(s) => TokenView::Str(s@),
            Token::Var(v) => TokenView::Var(v@),
        }
    }
}

/// The view of an optional token.
pub open spec fn opt_token(t: Option<Token>) -> Option<TokenView> {
    match t {
        Some(t) => Some(t@),
        None => None,
    }
}

/// One step of reading the template `b`: the token it returns, and the bytes
/// that are left to read.
pub open spec fn spec_next(b: Seq<u8>) -> (Option<TokenView>, Seq<u8>) {
    if b.len() == 0 {
        (None, b)
    } else {
        match first_in_set(b, seq![DOLLAR]) {
            None => (Some(TokenView::Str(b)), b),
            Some(idx) => {
                if idx == 0 {
                    let s = b.drop_first();
                    if s.len() == 0 {
                        (None, b)
                    } else if s[0] == OPEN_BRACE {
                        let s2 = s.drop_first();
                        match first_in_set(s2, seq![CLOSE_BRACE]) {
                            None => (Some(TokenView::Str(b)), b),
                            Some(j) => (
                                Some(TokenView::Var(s2.subrange(0, j))),
                                s2.subrange(j + 1, s2.len() as int),
                            ),
                        }
                    } else {
                        let j = match first_in_set(s, special_bytes()) {
                            Some(j) => j,
                            None => s.len() as int,
                        };
                        (Some(TokenView::Var(s.subrange(0, j))), s.subrange(j, s.len() as int))
                    }
                } else {
                    (Some(TokenView::Str(b.subrange(0, idx))), b.subrange(idx, b.len() as int))
                }
            },
        }
    }
}

/// A template over a byte string, read token by token.
pub struct Template<'a> {
    pub bytes: &'a [u8],
}

/// The same reading of a template, as returned by `Template::tokenize`.
pub struct Tokenize<'a>(pub &'a [u8]);

/// Reads one token from `bytes`, returning it and the bytes left to read.
fn next_token<'a>(bytes: &'a [u8]) -> (r: (Option<Token<'a>>, &'a [u8]))
    ensures
        (opt_token(r.0), r.1@) == spec_next(bytes@),
{
    if bytes.len() == 0 {
        return (None, bytes);
    }
    let str = bytes;
    match first_of(str, dollar()) {
        None => (Some(Token::Str(str)), bytes),
        Some(0) => {
            let str = slice_subrange(str, 1, str.len());
            assert(str@ =~= bytes@.drop_first());
            if str.len() == 0 {
                (None, bytes)
            } else if str[0] == OPEN_BRACE {
                let str2 = slice_subrange(str, 1, str.len());
                assert(str2@ =~= str@.drop_first());
                match first_of(str2, close_brace()) {
                    None => (Some(Token::Str(bytes)), bytes),
                    Some(idx) => {
                        let rest = slice_subrange(str2, idx + 1, str2.len());
                        let var = slice_subrange(str2, 0, idx);
                        (Some(Token::Var(var)), rest)
                    },
                }
            } else {
                let idx = match first_of(str, special()) {
                    Some(i) => i,
                    None => str.len(),
                };
                let rest = slice_subrange(str, idx, str.len());
                let var = slice_subrange(str, 0, idx);
                (Some(Token::Var(var)), rest)
            }
        },
        Some(idx) => {
            let text = slice_subrange(str, 0, idx);
            let trailing = slice_subrange(str, idx, str.len());
            (Some(Token::Str(text)), trailing)
        },
    }
}

impl<'a> Template<'a> {
    /// A template over `bytes`.
    pub fn new(bytes: &'a [u8]) -> (t: Template<'a>)
        ensures
            t.bytes@ == bytes@,
    {
        Template { bytes }
    }

    /// Reads the next token.
    ///
    /// Text up to the next `$` is a `Str`; `${name}` and `$name` are a `Var`
    /// (`$name` ends before a byte of ` \t\n()<>[]|&;/`). At the end, or at a
    /// final lone `$`, there is no token. Text without `$`, and a `${`
    /// without `}`, are returned whole as a `Str` without advancing.
    pub fn next(&mut self) -> (r: Option<Token<'a>>)
        ensures
            (opt_token(r), final(self).bytes@) == spec_next(old(self).bytes@),
    {
        let (t, rest) = next_token(self.bytes);
        self.bytes = rest;
        t
    }

    /// The token reader over the same bytes.
    pub fn tokenize(&self) -> (t: Tokenize<'a>)
        ensures
            t.0@ == self.bytes@,
    {
        Tokenize(self.bytes)
    }
}

impl<'a> Tokenize<'a> {
    /// Reads the next token, as `Template::next` does.
    pub fn next(&mut self) -> (r: Option<Token<'a>>)
        ensures
            (opt_token(r), final(self).0@) == spec_next(old(self).0@),
    {
        let (t, rest) = next_token(self.0);
        self.0 = rest;
        t
    }
}

/// Every step of reading a template takes a piece off its front: it ends
/// with nothing (at the end, or at a final lone `$`), returns all of the rest
/// as text without advancing, or returns a token whose source — text as it
/// is, a variable as `$name` or `${name}` — followed by the bytes left is the
/// input, and then fewer bytes are left.
pub proof fn law_step_takes_prefix(b: Seq<u8>)
    ensures
        spec_next(b).0 is None ==> spec_next(b).1 == b && (b.len() == 0 || b == seq![DOLLAR]),
        spec_next(b).0 matches Some(TokenView::Str(s)) ==> (s == b && spec_next(b).1 == b) || (b
            == s + spec_next(b).1 && spec_next(b).1.len() < b.len() && s.len() > 0),
        spec_next(b).0 matches Some(TokenView::Var(v)) ==> spec_next(b).1.len() < b.len() && (b
            == seq![DOLLAR] + v + spec_next(b).1 || b == seq![DOLLAR, OPEN_BRACE] + v + seq![
            CLOSE_BRACE,
        ] + spec_next(b).1),
{
    if b.len() > 0 {
        lemma_first_in_set(b, seq![DOLLAR]);
        match first_in_set(b, seq![DOLLAR]) {
            None => {},
            Some(idx) => {
                if idx == 0 {
                    let s = b.drop_first();
                    assert(b[0] == DOLLAR);
                    if s.len() == 0 {
                        assert(b =~= seq![DOLLAR]);
                    } else if s[0] == OPEN_BRACE {
                        let s2 = s.drop_first();
                        lemma_first_in_set(s2, seq![CLOSE_BRACE]);
                        match first_in_set(s2, seq![CLOSE_BRACE]) {
                            None => {},
                            Some(j) => {
                                assert(s2[j] == CLOSE_BRACE);
                                assert(b =~= seq![DOLLAR, OPEN_BRACE] + s2.subrange(0, j) + seq![
                                    CLOSE_BRACE,
                                ] + s2.subrange(j + 1, s2.len() as int));
                            },
                        }
                    } else {
                        lemma_first_in_set(s, special_bytes());
                        let j = match first_in_set(s, special_bytes()) {
                            Some(j) => j,
                            None => s.len() as int,
                        };
                        assert(b =~= seq![DOLLAR] + s.subrange(0, j) + s.subrange(j, s.len() as int));
                    }
                } else {
                    assert(b =~= b.subrange(0, idx) + b.subrange(idx, b.len() as int));
                }
            },
        }
    }
}

/// The bytes that end a variable written without braces: space, tab,
/// newline, `(`, `)`, `<`, `>`, `[`, `]`, `|`, `&`, `;` and `/`.
pub open spec fn ends_bare_name(c: u8) -> bool {
    c == 0x20 || c == 0x09 || c == 0x0a || c == 0x28 || c == 0x29 || c == 0x3c || c == 0x3e
        || c == 0x5b || c == 0x5d || c == 0x7c || c == 0x26 || c == 0x3b || c == 0x2f
}

proof fn lemma_special_is_name_end(c: u8)
    ensures
        special_bytes().contains(c) == ends_bare_name(c),
{
    let s = special_bytes();
    if s.contains(c) {
        let i = choose|i: int| 0 <= i < s.len() && s[i] == c;
        assert(0 <= i < 13);
        if i == 0 {} else if i == 1 {} else if i == 2 {} else if i == 3 {} else if i == 4 {}
        else if i == 5 {} else if i == 6 {} else if i == 7 {} else if i == 8 {} else if i == 9 {}
        else if i == 10 {} else if i == 11 {} else {}
    }
    if ends_bare_name(c) {
        if c == 0x20 { assert(s[0] == c); }
        else if c == 0x09 { assert(s[1] == c); }
        else if c == 0x0a { assert(s[2] == c); }
        else if c == 0x28 { assert(s[3] == c); }
        else if c == 0x29 { assert(s[4] == c); }
        else if c == 0x3c { assert(s[5] == c); }
        else if c == 0x3e { assert(s[6] == c); }
        else if c == 0x5b { assert(s[7] == c); }
        else if c == 0x5d { assert(s[8] == c); }
        else if c == 0x7c { assert(s[9] == c); }
        else if c == 0x26 { assert(s[10] == c); }
        else if c == 0x3b { assert(s[11] == c); }
        else { assert(s[12] == c); }
    }
}

/// A variable written `$name`, without braces, runs exactly to the first
/// byte of ` \t\n()<>[]|&;/` or to the end: its name holds none of those
/// bytes (so letters, digits, `_`, `.` and `-` stay in it), and the bytes
/// left to read are empty or start with one of them.
pub proof fn law_bare_variable_extent(b: Seq<u8>)
    requires
        b.len() >= 2,
        b[0] == DOLLAR,
        b[1] != OPEN_BRACE,
    ensures
        (spec_next(b).0 matches Some(TokenView::Var(v)) && b == seq![DOLLAR] + v + spec_next(b).1
            && (forall|i: int| 0 <= i < v.len() ==> !ends_bare_name(#[trigger] v[i])) && (
        spec_next(b).1.len() == 0 || ends_bare_name(spec_next(b).1[0]))),
{
    law_step_takes_prefix(b);
    lemma_first_in_set(b, seq![DOLLAR]);
    assert(seq![DOLLAR].contains(b[0])) by {
        assert(seq![DOLLAR][0] == b[0]);
    }
    assert(first_in_set(b, seq![DOLLAR]) == Some(0int));
    let s = b.drop_first();
    assert(s[0] == b[1]);
    lemma_first_in_set(s, special_bytes());
    let j = match first_in_set(s, special_bytes()) {
        Some(j) => j,
        None => s.len() as int,
    };
    let v = s.subrange(0, j);
    let rest = s.subrange(j, s.len() as int);
    assert(spec_next(b) == (Some(TokenView::Var(v)), rest));
    assert forall|i: int| 0 <= i < v.len() implies !ends_bare_name(#[trigger] v[i]) by {
        assert(v[i] == s[i]);
        lemma_special_is_name_end(s[i]);
    }
    if rest.len() > 0 {
        assert(rest[0] == s[j]);
        lemma_special_is_name_end(s[j]);
    }
}

} // verus!
