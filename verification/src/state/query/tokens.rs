//! Splitting a query at `/` into tokens.

use crate::bytes::{bytes_eq, first_in_set, first_of, has_prefix, lemma_first_in_set};
use vstd::prelude::*;
use vstd::slice::slice_subrange;

verus! {

/// `/`, which separates the tokens of a query.
pub const SLASH: u8 = 0x2f;

fn slash() -> (r: &'static [u8])
    ensures
        r@ == seq![SLASH],
{
    let s: &'static [u8; 1] = &[SLASH];
    assert(s@ =~= seq![SLASH]);
    s
}

/// A reader of the tokens of a query.
pub struct QueryTokens<'a> {
    pub is_absolute: bool,
    pub query: &'a [u8],
}

/// A token of a query, with the query from the token on.
#[derive(Debug, Clone, Copy, PartialEq, Eq, PartialOrd, Ord)]
pub struct Token<'a> {
    pub token: &'a [u8],
    pub query: &'a [u8],
}

/// A query is absolute where it starts with `/`; its tokens follow that `/`.
pub open spec fn spec_qnew(q: Seq<u8>) -> (bool, Seq<u8>) {
    if q.len() > 0 && q[0] == SLASH {
        (true, q.drop_first())
    } else {
        (false, q)
    }
}

/// The next token of the query `q` (the token, the query from it on, and the
/// query after it), or `None` where `q` is empty.
pub open spec fn spec_qnext(q: Seq<u8>) -> Option<(Seq<u8>, Seq<u8>, Seq<u8>)> {
    if q.len() == 0 {
        None
    } else {
        match first_in_set(q, seq![SLASH]) {
            Some(i) => Some((q.subrange(0, i), q, q.subrange(i + 1, q.len() as int))),
            None => Some((q, q, Seq::empty())),
        }
    }
}

impl<'a> QueryTokens<'a> {
    /// The token reader of `query`; a leading `/` makes the query absolute.
    pub fn new(query: &'a [u8]) -> (r: QueryTokens<'a>)
        ensures
            (r.is_absolute, r.query@) == spec_qnew(query@),
    {
        let starts = has_prefix(query, slash());
        proof {
            if query@.len() > 0 && query@[0] == SLASH {
                assert(query@.subrange(0, 1) =~= seq![SLASH]);
            }
            if starts {
                assert(query@.subrange(0, 1)[0] == query@[0]);
            }
        }
        if starts {
            let q = slice_subrange(query, 1, query.len());
            assert(q@ =~= query@.drop_first());
            QueryTokens { is_absolute: true, query: q }
        } else {
            QueryTokens { is_absolute: false, query }
        }
    }

    /// Reads the next token: up to the next `/`, or the whole rest.
    pub fn next(&mut self) -> (r: Option<Token<'a>>)
        ensures
            final(self).is_absolute == old(self).is_absolute,
            match r {
                Some(t) => spec_qnext(old(self).query@) == Some(
                    (t.token@, t.query@, final(self).query@),
                ) && final(self).query@.len() < old(self).query@.len(),
                None => spec_qnext(old(self).query@) is None && final(self).query@ == old(
                    self,
                ).query@,
            },
    {
        if self.query.len() == 0 {
            return None;
        }
        let q = self.query;
        proof {
            lemma_first_in_set(q@, seq![SLASH]);
        }
        match first_of(q, slash()) {
            Some(i) => {
                let token = Token { token: slice_subrange(q, 0, i), query: q };
                self.query = slice_subrange(q, i + 1, q.len());
                Some(token)
            },
            None => {
                let token = Token { token: q, query: q };
                self.query = slice_subrange(q, q.len(), q.len());
                assert(self.query@ =~= Seq::<u8>::empty());
                Some(token)
            },
        }
    }
}

impl<'a> Token<'a> {
    /// Whether this is the last token of its query.
    pub fn is_last(&self) -> (r: bool)
        ensures
            r == (self.token@ == self.query@),
    {
        bytes_eq(self.token, self.query)
    }
}

} // verus!
