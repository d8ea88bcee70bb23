use git_repo_manager::state::query::match_query;
use git_repo_manager::state::query::tokens::{QueryTokens, Token};

fn collect<'a>(mut tokens: QueryTokens<'a>) -> Vec<Token<'a>> {
    let mut out = Vec::new();
    while let Some(t) = tokens.next() {
        out.push(t);
    }
    out
}

#[test]
fn absolute() {
    let str = b"/projects/author/proj";
    let tokens = QueryTokens::new(str);

    assert!(tokens.is_absolute);
    assert_eq!(
        collect(tokens),
        [
            Token {
                token: b"projects",
                query: b"projects/author/proj",
            },
            Token {
                token: b"author",
                query: b"author/proj",
            },
            Token {
                token: b"proj",
                query: b"proj",
            },
        ]
    );
}

#[test]
fn relative_query_is_not_absolute() {
    let tokens = QueryTokens::new(b"author/proj");
    assert!(!tokens.is_absolute);
    let all = collect(tokens);
    assert_eq!(all.len(), 2);
    assert!(!all[0].is_last());
    assert!(all[1].is_last());
}

#[test]
fn empty_query_has_no_tokens() {
    assert!(collect(QueryTokens::new(b"")).is_empty());
    let slash = QueryTokens::new(b"/");
    assert!(slash.is_absolute);
    assert!(collect(slash).is_empty());
}

#[test]
fn basic() {
    let r = match_query(b"proj", b"proj").expect("a match");
    assert_eq!(r.query, b"proj");
    assert!(!r.partial);
    assert_eq!(r.key, "");
}

#[test]
fn partial() {
    let r = match_query(b"p", b"proj").expect("a match");
    assert_eq!(r.query, b"p");
    assert!(r.partial);
}

#[test]
fn basic2() {
    let r = match_query(b"proj", b"proj").expect("a match");
    assert_eq!(r.query, b"proj");
    assert!(!r.partial);
}

#[test]
fn query_that_is_no_prefix_does_not_match() {
    assert!(match_query(b"other", b"proj").is_none());
}

#[test]
fn query_matches_variable() {
    let r = match_query(b"proj", b"${repo.name}").expect("a match");
    assert_eq!(r.query, b"proj");
    assert!(!r.partial);
}

#[test]
fn absolute_query_walks_the_text() {
    assert!(match_query(b"/projects/proj", b"projects/${repo.name}").is_none());
    let r = match_query(b"proj", b"projects/${repo.name}").expect("a match");
    assert_eq!(r.query, b"proj");
    assert!(r.partial);
}

#[test]
fn empty_query_matches_nothing() {
    assert!(match_query(b"", b"proj").is_none());
}
