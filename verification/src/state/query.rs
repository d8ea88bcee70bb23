//! Matching queries such as `proj` or `/projects/author/proj` against
//! path templates.

pub mod tokens;

use crate::bytes::has_prefix;
use crate::state::query::tokens::{spec_qnew, spec_qnext, QueryTokens};
use crate::template::{law_step_takes_prefix, spec_next, Template, Token, TokenView};
use vstd::prelude::*;

verus! {

/// The result of matching a query against an entry.
#[derive(Debug, PartialEq, Eq, PartialOrd, Ord)]
pub struct QueryResult<'a, T> {
    pub key: &'a str,
    pub query: &'a [u8],
    pub val: T,
    pub partial: bool,
}

/// How matching ends: a match of the query from a token on (partial where
/// the query token is only a prefix of the text), no match, or no end.
pub enum MatchOutcome {
    Found(Seq<u8>, bool),
    NotFound,
    Diverges,
}

/// Matching from a state of the query reader (absolute or not, the current
/// query token with its query, the query left) and the template left.
pub open spec fn match_from(
    abs: bool,
    cur: Option<(Seq<u8>, Seq<u8>)>,
    qrest: Seq<u8>,
    tpl: Seq<u8>,
) -> MatchOutcome
    decreases qrest.len(), tpl.len(), if cur is Some {
        1int
    } else {
        0int
    },
{
    match cur {
        None => match spec_qnext(qrest) {
            None => MatchOutcome::NotFound,
            Some((t, tq, rest)) => {
                if rest.len() < qrest.len() {
                    match_from(abs, Some((t, tq)), rest, tpl)
                } else {
                    MatchOutcome::NotFound
                }
            },
        },
        Some((t, tq)) => {
            let (tk, tpl2) = spec_next(tpl);
            proof {
                law_step_takes_prefix(tpl);
            }
            match tk {
                Some(TokenView::Str(s)) => {
                    if t == tq {
                        if t.is_prefix_of(s) {
                            MatchOutcome::Found(tq, t.len() < s.len())
                        } else {
                            MatchOutcome::NotFound
                        }
                    } else if t == s {
                        match_from(true, None, qrest, tpl2)
                    } else if abs {
                        MatchOutcome::NotFound
                    } else if tpl2.len() < tpl.len() {
                        match_from(abs, cur, qrest, tpl2)
                    } else {
                        MatchOutcome::Diverges
                    }
                },
                Some(TokenView::Var(_)) => MatchOutcome::Found(tq, false),
                None => MatchOutcome::NotFound,
            }
        },
    }
}

/// Matching `query` against the template `val`.
pub open spec fn spec_match_query(query: Seq<u8>, val: Seq<u8>) -> MatchOutcome {
    match_from(spec_qnew(query).0, None, spec_qnew(query).1, val)
}

/// Matches `query` against the template `val`.
///
/// Query tokens are compared with the text tokens of the template in order;
/// once one equals a text token the query is absolute and the next text
/// token has to follow. The last query token matches text that starts with
/// it (partially where the text is longer); a variable matches any token.
pub fn match_query<'a>(query: &'a [u8], val: &'a [u8]) -> (r: Option<QueryResult<'a, ()>>)
    requires
        !(spec_match_query(query@, val@) is Diverges),
    ensures
        r matches Some(res) ==> spec_match_query(query@, val@) == MatchOutcome::Found(
            res.query@,
            res.partial,
        ) && res.key@ == Seq::<char>::empty(),
        r is None ==> spec_match_query(query@, val@) is NotFound,
{
    let ghost outcome = spec_match_query(query@, val@);
    proof {
        reveal_strlit("");
    }
    let mut tokens = QueryTokens::new(query);
    let mut template = Template::new(val);
    loop
        invariant
            outcome == match_from(tokens.is_absolute, None, tokens.query@, template.bytes@),
            !(outcome is Diverges),
            outcome == spec_match_query(query@, val@),
        decreases tokens.query@.len(),
    {
        let ghost qbefore = tokens.query@;
        match tokens.next() {
            Some(token) => {
                assert(tokens.query@.len() < qbefore.len());
                loop
                    invariant_except_break
                        outcome == match_from(
                            tokens.is_absolute,
                            Some((token.token@, token.query@)),
                            tokens.query@,
                            template.bytes@,
                        ),
                        !(outcome is Diverges),
                    invariant
                        tokens.query@.len() < qbefore.len(),
                        outcome == spec_match_query(query@, val@),
                    ensures
                        outcome == match_from(
                            tokens.is_absolute,
                            None,
                            tokens.query@,
                            template.bytes@,
                        ),
                        tokens.query@.len() < qbefore.len(),
                    decreases template.bytes@.len(),
                {
                    let ghost tbefore = template.bytes@;
                    proof {
                        law_step_takes_prefix(tbefore);
                    }
                    proof {
                        reveal_strlit("");
                    }
                    match template.next() {
                        Some(Token::Str(str)) => {
                            if token.is_last() {
                                if has_prefix(str, token.token) {
                                    return Some(
                                        QueryResult {
                                            key: "",
                                            query: token.query,
                                            val: (),
                                            partial: token.token.len() < str.len(),
                                        },
                                    );
                                } else {
                                    return None;
                                }
                            } else if crate::bytes::bytes_eq(token.token, str) {
                                tokens.is_absolute = true;
                                break ;
                            } else if tokens.is_absolute {
                                return None;
                            } else {
                                assert(template.bytes@.len() < tbefore.len());
                            }
                        },
                        Some(Token::Var(_)) => {
                            return Some(
                                QueryResult { key: "", query: token.query, val: (), partial: false },
                            );
                        },
                        None => {
                            return None;
                        },
                    }
                }
            },
            None => {
                return None;
            },
        }
    }
}

/// A variable of the template matches the query from the current token on,
/// whether or not that token is the last: the match is found, not partial,
/// with the query from that token.
pub proof fn law_variable_matches_rest(
    abs: bool,
    t: Seq<u8>,
    tq: Seq<u8>,
    qrest: Seq<u8>,
    tpl: Seq<u8>,
)
    requires
        spec_next(tpl).0 matches Some(TokenView::Var(_)),
    ensures
        match_from(abs, Some((t, tq)), qrest, tpl) == MatchOutcome::Found(tq, false),
{
}

/// A template that starts with a variable matches every query with a token:
/// the match is the whole query (after a leading `/`), not partial.
pub proof fn law_leading_variable_matches_query(query: Seq<u8>, val: Seq<u8>)
    requires
        spec_next(val).0 matches Some(TokenView::Var(_)),
        query.len() > 0 && !(query.len() == 1 && query[0] == tokens::SLASH),
    ensures
        spec_match_query(query, val) == MatchOutcome::Found(
            if query[0] == tokens::SLASH {
                query.drop_first()
            } else {
                query
            },
            false,
        ),
{
    let q = spec_qnew(query).1;
    assert(q.len() > 0);
    crate::bytes::lemma_first_in_set(q, seq![tokens::SLASH]);
    let (tk, tq, rest) = spec_qnext(q).unwrap();
    assert(rest.len() < q.len());
    law_variable_matches_rest(spec_qnew(query).0, tk, tq, rest, val);
}

} // verus!
