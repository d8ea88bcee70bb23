use git_repo_manager::template::{Template, Token, Tokenize};

fn tokens<'a>(mut t: Template<'a>) -> Vec<Token<'a>> {
    let mut out = Vec::new();
    while let Some(tok) = t.next() {
        out.push(tok);
    }
    out
}

#[test]
fn template_test_1() {
    let template = Template::new(b"$HOME/projects/${host/name}/${repo/path}/${repo/url}");
    assert_eq!(
        tokens(template),
        [
            Token::Var(b"HOME"),
            Token::Str(b"/projects/"),
            Token::Var(b"host/name"),
            Token::Str(b"/"),
            Token::Var(b"repo/path"),
            Token::Str(b"/"),
            Token::Var(b"repo/url"),
        ]
    );
}

#[test]
fn tokenize_test_1() {
    let template = Template::new("$HOME/projects/${host/name}/${repo/path}/${repo/url}".as_bytes());
    let mut t: Tokenize = template.tokenize();
    let mut out = Vec::new();
    while let Some(tok) = t.next() {
        out.push(tok);
    }
    assert_eq!(
        out,
        [
            Token::Var(b"HOME"),
            Token::Str(b"/projects/"),
            Token::Var(b"host/name"),
            Token::Str(b"/"),
            Token::Var(b"repo/path"),
            Token::Str(b"/"),
            Token::Var(b"repo/url"),
        ]
    );
}

#[test]
fn text_without_variable_is_returned_without_advancing() {
    let mut t = Template::new(b"plain");
    assert_eq!(t.next(), Some(Token::Str(b"plain")));
    assert_eq!(t.bytes, b"plain");
    assert_eq!(t.next(), Some(Token::Str(b"plain")));
}

#[test]
fn lone_dollar_at_end_ends_the_template() {
    let mut t = Template::new(b"$");
    assert_eq!(t.next(), None);
    let mut u = Template::new(b"a$");
    assert_eq!(u.next(), Some(Token::Str(b"a")));
    assert_eq!(u.next(), None);
}

#[test]
fn unclosed_brace_is_text() {
    let mut t = Template::new(b"${open");
    assert_eq!(t.next(), Some(Token::Str(b"${open")));
    assert_eq!(t.bytes, b"${open");
}

#[test]
fn undelimited_variable_ends_at_special_byte() {
    let mut t = Template::new(b"$a b");
    assert_eq!(t.next(), Some(Token::Var(b"a")));
    assert_eq!(t.bytes, b" b");
    let mut u = Template::new(b"$x;y");
    assert_eq!(u.next(), Some(Token::Var(b"x")));
    assert_eq!(u.bytes, b";y");
}

#[test]
fn empty_template_has_no_token() {
    assert_eq!(Template::new(b"").next(), None);
}

#[test]
fn tokens_order_text_before_variables() {
    assert!(Token::Str(b"z") < Token::Var(b"a"));
    assert!(Token::Var(b"a") < Token::Var(b"b"));
}
