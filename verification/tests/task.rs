use git_repo_manager::task::{Task, TokenKind};

fn check(s: &str, expected: Task) {
    let parsed = Task::from(s.as_bytes());
    assert_eq!(expected, parsed);
    let shown = parsed.to_bytes();
    assert_eq!(Task::from(&shown), expected);
}

#[test]
fn empty() {
    check("", Task { host: None, repo: None, tree: None, open: None });
}

#[test]
fn symbols_1() {
    check("+:@!", Task { host: Some(b""), repo: Some(b""), tree: Some(b""), open: Some(b"") });
}

#[test]
fn symbols_2() {
    check(":@!", Task { host: None, repo: Some(b""), tree: Some(b""), open: Some(b"") });
}

#[test]
fn symbols_3() {
    check(":@", Task { host: None, repo: Some(b""), tree: Some(b""), open: None });
}

#[test]
fn symbols_4() {
    check(":", Task { host: None, repo: Some(b""), tree: None, open: None });
}

#[test]
fn empty_open() {
    check("!", Task { host: None, repo: None, tree: None, open: Some(b"") });
}

#[test]
fn host_repo() {
    check("host:repo", Task { host: Some(b"host"), repo: Some(b"repo"), tree: None, open: None });
}

#[test]
fn repo_tree() {
    check("repo@tree", Task { host: None, repo: Some(b"repo"), tree: Some(b"tree"), open: None });
}

#[test]
fn repo_open() {
    check("repo!open", Task { host: None, repo: Some(b"repo"), tree: None, open: Some(b"open") });
}

#[test]
fn full() {
    check(
        "+host:repo@tree!open",
        Task { host: Some(b"host"), repo: Some(b"repo"), tree: Some(b"tree"), open: Some(b"open") },
    );
}

#[test]
fn display_writes_each_part_with_its_separator() {
    let t = Task { host: Some(b"h"), repo: Some(b"r"), tree: None, open: Some(b"o") };
    assert_eq!(t.to_bytes(), b"+h:r!o".to_vec());
    assert_eq!(Task::empty().to_bytes(), Vec::<u8>::new());
}

#[test]
fn leading_plus_then_plus_is_not_parsable() {
    assert!(!Task::is_parsable(b"a+b"));
    assert!(Task::is_parsable(b"+a:b"));
    assert!(Task::is_parsable(b"a:b@c"));
}

#[test]
fn separator_kinds() {
    assert_eq!(TokenKind::kind(b'+'), TokenKind::Host);
    assert_eq!(TokenKind::kind(b':'), TokenKind::Repo);
    assert_eq!(TokenKind::kind(b'@'), TokenKind::Tree);
    assert_eq!(TokenKind::kind(b'!'), TokenKind::Open);
    assert_eq!(TokenKind::Leading.byteset(), b"+:@!");
}
