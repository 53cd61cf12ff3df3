use cube_url::error::ErrorKind;
use cube_url::expression::Expression;
use cube_url::scanner::Scanner;
use cube_url::template::Template;
use cube_url::token::Token;
use cube_url::url::{Protocol, Url};

#[test]
fn should_parse_query() {
    let url = Url::parse("http://localhost/users?hello=world&a=bcd").unwrap();
    assert_eq!(url.query.get("hello").unwrap(), "world");
    assert_eq!(url.query.get("a").unwrap(), "bcd");
}

#[test]
fn token_should_parse() {
    let mut scan = Scanner::from("http://localhost:3000/test?hello={world}");
    let mut token = Token::parse(&mut scan).unwrap();

    assert!(token.is_text());
    assert_eq!(token.to_string(), "http");

    token = Token::parse(&mut scan).unwrap();
    assert!(token.is_colon());
    assert_eq!(token.to_string(), ":");

    token = Token::parse(&mut scan).unwrap();
    assert!(token.is_slash());
    assert_eq!(token.to_string(), "/");

    token = Token::parse(&mut scan).unwrap();
    assert!(token.is_slash());
    assert_eq!(token.to_string(), "/");

    token = Token::parse(&mut scan).unwrap();
    assert!(token.is_text());
    assert_eq!(token.to_string(), "localhost");

    token = Token::parse(&mut scan).unwrap();
    assert!(token.is_colon());
    assert_eq!(token.to_string(), ":");

    token = Token::parse(&mut scan).unwrap();
    assert!(token.is_text());
    assert_eq!(token.to_string(), "3000");

    token = Token::parse(&mut scan).unwrap();
    assert!(token.is_slash());
    assert_eq!(token.to_string(), "/");

    token = Token::parse(&mut scan).unwrap();
    assert!(token.is_text());
    assert_eq!(token.to_string(), "test");

    token = Token::parse(&mut scan).unwrap();
    assert!(token.is_interrogate());
    assert_eq!(token.to_string(), "?");

    token = Token::parse(&mut scan).unwrap();
    assert!(token.is_text());
    assert_eq!(token.to_string(), "hello");

    token = Token::parse(&mut scan).unwrap();
    assert!(token.is_equals());
    assert_eq!(token.to_string(), "=");

    token = Token::parse(&mut scan).unwrap();
    assert!(token.is_ident());
    assert_eq!(token.to_string(), "{world}");
    assert!(scan.is_eof());
}

#[test]
fn mod_should_parse() {
    let mut scan = Scanner::from("http://localhost:*/(a|b)?hello={world}");
    let mut expr = Expression::parse(&mut scan).unwrap();

    assert!(expr.is_literal());
    assert_eq!(expr.to_string(), "http");

    expr = Expression::parse(&mut scan).unwrap();
    assert!(expr.is_literal());
    assert_eq!(expr.to_string(), ":");

    expr = Expression::parse(&mut scan).unwrap();
    assert!(expr.is_literal());
    assert_eq!(expr.to_string(), "/");

    expr = Expression::parse(&mut scan).unwrap();
    assert!(expr.is_literal());
    assert_eq!(expr.to_string(), "/");

    expr = Expression::parse(&mut scan).unwrap();
    assert!(expr.is_literal());
    assert_eq!(expr.to_string(), "localhost");

    expr = Expression::parse(&mut scan).unwrap();
    assert!(expr.is_wildcard());
    assert_eq!(expr.to_string(), ":*/");

    expr = Expression::parse(&mut scan).unwrap();
    assert!(expr.is_group());
    assert_eq!(expr.to_string(), "(a|b)");

    expr = Expression::parse(&mut scan).unwrap();
    assert!(expr.is_literal());
    assert_eq!(expr.to_string(), "?");

    expr = Expression::parse(&mut scan).unwrap();
    assert!(expr.is_literal());
    assert_eq!(expr.to_string(), "hello");

    expr = Expression::parse(&mut scan).unwrap();
    assert!(expr.is_var());
    assert_eq!(expr.to_string(), "={world}");
    assert!(scan.is_eof());
}

#[test]
fn should_parse() {
    let mut template = Template::parse("http://*lh*:3000/(a|b)?hello={world}").unwrap();
    template.0.reverse();
    let mut expr = template.0.pop().unwrap();

    assert!(expr.is_literal());
    assert_eq!(expr.to_string(), "http");

    expr = template.0.pop().unwrap();
    assert!(expr.is_literal());
    assert_eq!(expr.to_string(), ":");

    expr = template.0.pop().unwrap();
    assert!(expr.is_literal());
    assert_eq!(expr.to_string(), "/");

    expr = template.0.pop().unwrap();
    assert!(expr.is_wildcard());
    assert_eq!(expr.to_string(), "/*lh*:");

    expr = template.0.pop().unwrap();
    assert!(expr.is_literal());
    assert_eq!(expr.to_string(), "3000");

    expr = template.0.pop().unwrap();
    assert!(expr.is_literal());
    assert_eq!(expr.to_string(), "/");

    expr = template.0.pop().unwrap();
    assert!(expr.is_group());
    assert_eq!(expr.to_string(), "(a|b)");

    expr = template.0.pop().unwrap();
    assert!(expr.is_literal());
    assert_eq!(expr.to_string(), "?");

    expr = template.0.pop().unwrap();
    assert!(expr.is_literal());
    assert_eq!(expr.to_string(), "hello");

    expr = template.0.pop().unwrap();
    assert!(expr.is_var());
    assert_eq!(expr.to_string(), "={world}");
    assert!(template.0.is_empty());
}

#[test]
fn should_stringify() {
    let template = Template::parse("http://localhost:3000/(a|b)?hello={world}").unwrap();

    assert_eq!(
        template.to_string(),
        "http://localhost:3000/(a|b)?hello={world}"
    );
}

#[test]
fn should_evaluate() {
    let template = Template::parse("http://*:3000/(user|users)/{user}/orgs/{org_id}").unwrap();

    let mut url = template
        .eval("http://localhost:3000/user/1/orgs/test")
        .unwrap();

    assert_eq!(url.params.get("user").unwrap(), "1");
    assert_eq!(url.params.get("org_id").unwrap(), "test");

    url = template
        .eval("http://localhost:3000/users/1234/orgs/myorgid")
        .unwrap();

    assert_eq!(url.params.get("user").unwrap(), "1234");
    assert_eq!(url.params.get("org_id").unwrap(), "myorgid");
}

fn blank_url() -> Url {
    Url::parse("http://host").unwrap()
}

fn only_expression(pattern: &str) -> Expression {
    let mut template = Template::parse(pattern).unwrap();
    assert_eq!(template.0.len(), 1);
    template.0.pop().unwrap()
}

#[test]
fn alternation_matches_either_branch() {
    let group = only_expression("(a|b)");
    for input in ["a", "b"] {
        let mut scan = Scanner::from(input);
        let mut url = blank_url();
        assert!(group.eval(&mut scan, &mut url).is_ok());
        assert!(scan.is_eof());
    }
    let mut scan = Scanner::from("c");
    let mut url = blank_url();
    let error = group.eval(&mut scan, &mut url).unwrap_err();
    assert_eq!(error.errors.len(), 2);
    let text = error.to_string();
    assert!(text.contains("'a'"));
    assert!(text.contains("'b'"));
    assert_eq!(
        text,
        "no alternative matched: expected 'a', found 'c' at 0; expected 'b', found 'c' at 0; "
    );
}

#[test]
fn alternation_prefers_the_longer_branch() {
    let group = only_expression("(ab|a)");
    let mut scan = Scanner::from("ab");
    let mut url = blank_url();
    assert!(group.eval(&mut scan, &mut url).is_ok());
    assert_eq!(scan.right(), 2);
    assert!(scan.is_eof());
}

#[test]
fn alternation_ties_try_the_left_branch_first() {
    let group = only_expression("(ab|ac)");
    let mut scan = Scanner::from("ab");
    let mut url = blank_url();
    assert!(group.eval(&mut scan, &mut url).is_ok());
    assert_eq!(scan.right(), 2);
}

#[test]
fn failed_branch_leaves_the_position() {
    let logical = only_expression("abc|ab");
    assert!(logical.is_logical());
    let mut scan = Scanner::from("abd");
    let mut url = blank_url();
    assert!(logical.eval(&mut scan, &mut url).is_ok());
    assert_eq!(scan.right(), 2);

    let logical = only_expression("xyz|xy");
    let mut scan = Scanner::from("abd");
    let mut url = blank_url();
    assert!(logical.eval(&mut scan, &mut url).is_err());
    assert_eq!(scan.right(), 0);
    assert_eq!(scan.left(), 0);
}

#[test]
fn captures_stop_at_the_next_separator() {
    let template = Template::parse("http://*/user/{user}/orgs/{org_id}").unwrap();
    let url = template.eval("http://localhost/user/1234/orgs/myorgid").unwrap();
    assert_eq!(url.params.get("user").unwrap(), "1234");
    assert_eq!(url.params.get("org_id").unwrap(), "myorgid");
    assert_eq!(url.params.len(), 2);
}

#[test]
fn trailing_variable_binds_the_empty_rest() {
    let template = Template::parse("http://h/x{id}").unwrap();
    let url = template.eval("http://h/x").unwrap();
    assert_eq!(url.params.get("id").unwrap(), "");
    let url = template.eval("http://h/xyz").unwrap();
    assert_eq!(url.params.get("id").unwrap(), "yz");
}

#[test]
fn rendering_and_parsing_again_round_trips() {
    let patterns = [
        "http://*:3000/(user|users)/{user}/orgs/{org_id}",
        "http://*lh*:3000/(a|b)?hello={world}",
        "a|b|c*{x}y#!&",
        "((a)(b|cd))",
    ];
    for pattern in patterns {
        let first = Template::parse(pattern).unwrap();
        let text = first.to_string();
        assert_eq!(text, pattern);
        let second = Template::parse(&text).unwrap();
        assert_eq!(second.to_string(), text);
        assert_eq!(first.0.len(), second.0.len());
        for (a, b) in first.0.iter().zip(second.0.iter()) {
            assert_eq!(a.is_var(), b.is_var());
            assert_eq!(a.is_group(), b.is_group());
            assert_eq!(a.is_logical(), b.is_logical());
            assert_eq!(a.is_literal(), b.is_literal());
            assert_eq!(a.is_wildcard(), b.is_wildcard());
            assert_eq!(a.start(), b.start());
            assert_eq!(a.end(), b.end());
            assert_eq!(a.to_string(), b.to_string());
        }
    }
}

#[test]
fn compiling_twice_matches_the_same_urls() {
    let pattern = "http://*:3000/(user|users)/{user}/orgs/{org_id}";
    let first = Template::parse(pattern).unwrap();
    let second = Template::parse(pattern).unwrap();
    for input in [
        "http://localhost:3000/user/1/orgs/test",
        "http://localhost:3000/users/1234/orgs/myorgid",
        "http://localhost:3001/user/1/orgs/test",
        "http://localhost:3000/admin/1/orgs/test",
    ] {
        let a = first.eval(input);
        let b = second.eval(input);
        assert_eq!(a.is_ok(), b.is_ok());
        if let (Ok(a), Ok(b)) = (a, b) {
            assert_eq!(a.params.get("user"), b.params.get("user"));
            assert_eq!(a.params.get("org_id"), b.params.get("org_id"));
        }
    }
}

#[test]
fn mismatched_literal_fails_the_match() {
    let template = Template::parse("http://*:3000/(user|users)/{user}/orgs/{org_id}").unwrap();
    assert!(template.eval("http://localhost:3000/admin/1/orgs/test").is_err());
    assert!(template.eval("http://localhost:3000/user/1/teams/test").is_err());
}

#[test]
fn malformed_url_is_not_a_match_failure() {
    let template = Template::parse("http://*").unwrap();
    let error = template.eval("localhost/users").unwrap_err();
    assert!(error.to_string().contains("malformed URL"));
    assert_eq!(error.kind, ErrorKind::MalformedUrl);
    let other = Template::parse("ftp://*").unwrap();
    let error = other.eval("http://h").unwrap_err();
    assert_eq!(error.kind, ErrorKind::Mismatch);
}

#[test]
fn empty_pattern_matches_only_empty_text() {
    let template = Template::parse("").unwrap();
    assert!(template.0.is_empty());
    assert_eq!(template.to_string(), "");
    let error = template.eval("http://h").unwrap_err();
    assert_eq!(error.kind, ErrorKind::Mismatch);
    assert_eq!(error.to_string(), "unmatched input at 0");
}

#[test]
fn unterminated_identifier_is_a_syntax_error() {
    assert!(Template::parse("http://{user").is_err());
    let mut scan = Scanner::from("{abc");
    assert!(Token::parse(&mut scan).is_err());
    assert_eq!(scan.right(), 0);
}

#[test]
fn unclosed_group_is_a_syntax_error() {
    assert!(Template::parse("(a|b").is_err());
}

#[test]
fn dangling_pipe_is_a_syntax_error() {
    assert!(Template::parse("a|").is_err());
}

#[test]
fn alternation_groups_from_the_left() {
    let expr = only_expression("a|b|c");
    assert!(expr.is_logical());
    assert_eq!(expr.to_string(), "a|b|c");
    assert_eq!(expr.start(), 0);
    assert_eq!(expr.end(), 5);
    assert_eq!(expr.len(), 5);
}

#[test]
fn text_token_takes_one_character_then_letters_and_digits() {
    let mut scan = Scanner::from("-ab1.c");
    let token = Token::parse(&mut scan).unwrap();
    assert!(token.is_text());
    assert_eq!(token.to_string(), "-ab1");
    assert_eq!(token.start(), 0);
    assert_eq!(token.end(), 4);
}

#[test]
fn url_is_taken_apart() {
    let url = Url::parse("HTTPS://example.com:8080/a/b?x=1&y=2&x=3").unwrap();
    assert_eq!(url.protocol, Protocol::Https);
    assert_eq!(url.host(), "example.com:8080");
    assert_eq!(url.port(), Some(8080));
    assert_eq!(url.path(), "/a/b");
    assert_eq!(url.query.get("x").unwrap(), "3");
    assert_eq!(url.query.get("y").unwrap(), "2");
    assert_eq!(url.query.len(), 2);
    assert_eq!(url.base(), "https://example.com:8080");
    assert!(url.user().is_none());
    assert_eq!(url.params().len(), 0);
}

#[test]
fn unknown_scheme_is_kept_in_lower_case() {
    let url = Url::parse("Gopher://h").unwrap();
    assert_eq!(url.protocol, Protocol::Other("gopher".to_string()));
    assert_eq!(url.protocol().to_string(), "gopher");
    assert_eq!(Protocol::from("View-Source"), Protocol::ViewSource);
    assert_eq!(Protocol::from_lower("View-Source"), Protocol::Other("View-Source".to_string()));
}

#[test]
fn bad_port_is_rejected() {
    assert!(Url::parse("http://h:65536/").is_err());
    assert!(Url::parse("http://h:12a/").is_err());
    assert!(Url::parse("http://h:/").is_err());
    assert_eq!(Url::parse("http://h:65535/").unwrap().port(), Some(65535));
    assert_eq!(Url::parse("http://h/").unwrap().port(), None);
    assert_eq!(Url::parse("http://h:+80/").unwrap().port(), Some(80));
    assert!(Url::parse("http://h:+/").is_err());
    let error = Url::parse("http://h:x/").unwrap_err();
    assert_eq!(error.kind, ErrorKind::MalformedUrl);
}

#[test]
fn tokens_compare_by_kind_and_text() {
    let mut scan = Scanner::from("{a}/{a}:ab|ab");
    let first_ident = Token::parse(&mut scan).unwrap();
    let slash = Token::parse(&mut scan).unwrap();
    let second_ident = Token::parse(&mut scan).unwrap();
    let colon = Token::parse(&mut scan).unwrap();
    let first_text = Token::parse(&mut scan).unwrap();
    let pipe = Token::parse(&mut scan).unwrap();
    let second_text = Token::parse(&mut scan).unwrap();
    assert!(first_ident == second_ident);
    assert!(first_text == second_text);
    assert!(slash != colon);
    assert!(pipe != slash);
    assert!(first_ident != first_text);
    assert_eq!(second_ident.start(), 4);
}

#[test]
fn syntax_errors_name_the_offset() {
    let error = Template::parse("http://{user").unwrap_err();
    assert_eq!(error.to_string(), "expected '}' to close {user at 12");
    assert_eq!(error.kind, ErrorKind::Syntax);
    let error = Template::parse("x(a|b").unwrap_err();
    assert_eq!(error.to_string(), "expected ')' to close the group at 5");
    let error = Template::parse("a|").unwrap_err();
    assert_eq!(error.to_string(), "expected a token at 2");
    let mut scan = Scanner::from("=");
    let error = cube_url::token::Slash::parse(&mut scan).unwrap_err();
    assert_eq!(error.to_string(), "expected '/' at 0");
}

#[test]
fn literal_mismatch_names_the_offset() {
    let literal = only_expression("users");
    let mut scan = Scanner::from("user");
    let mut url = blank_url();
    let error = literal.eval(&mut scan, &mut url).unwrap_err();
    assert_eq!(error.to_string(), "expected 'users', found 'user' at 0; ");
    assert_eq!(error.kind, ErrorKind::Mismatch);
    assert_eq!(cube_url::error::decimal(1234567), "1234567");
    assert_eq!(cube_url::error::decimal(0), "0");
}

#[test]
fn leftover_input_is_a_mismatch() {
    let template = Template::parse("http://*/a").unwrap();
    assert!(template.eval("http://h/a").is_ok());
    let error = template.eval("http://h/ab").unwrap_err();
    assert_eq!(error.kind, ErrorKind::Mismatch);
    assert_eq!(error.to_string(), "unmatched input at 10");
}
