use cube_url::error::Error;
use cube_url::params::{Params, Query};
use cube_url::scanner::Scanner;

#[test]
fn params_keep_the_last_value() {
    let mut params = Params::new();
    assert_eq!(params.len(), 0);
    params.set("user", &"1".to_string());
    params.set("org", &"x".to_string());
    params.set("user", &"2".to_string());
    assert_eq!(params.len(), 2);
    assert_eq!(params.get("user").unwrap(), "2");
    assert!(params.has("org"));
    params.del("org");
    assert!(!params.has("org"));
    assert!(params.get("org").is_none());
    params.del("missing");
    assert_eq!(params.len(), 1);
}

#[test]
fn query_without_question_mark_is_empty() {
    let query = Query::parse("http://h/path").unwrap();
    assert_eq!(query.len(), 0);
}

#[test]
fn query_key_runs_up_to_the_equals_sign() {
    let query = Query::parse("?a&b=2&c").unwrap();
    assert_eq!(query.get("a&b").unwrap(), "2");
    assert_eq!(query.get("c").unwrap(), "");
    assert_eq!(query.len(), 2);
    let mut query = Query::new();
    query.set("k", &"v".to_string());
    assert!(query.has("k"));
    query.del("k");
    assert_eq!(query.len(), 0);
}

#[test]
fn error_text_joins_causes() {
    let mut error = Error::from_text("top: ".to_string());
    error.push(Error::from_text("one;".to_string()));
    error.push(Error::from_text("two".to_string()));
    assert_eq!(error.to_string(), "top: one;two");
    assert_eq!(Error::new().to_string(), "");
}

#[test]
fn scanner_commits_and_resets() {
    let mut scan = Scanner::from("ab://cd");
    assert_eq!(scan.peek(), Some('a'));
    scan.advance();
    scan.advance();
    assert_eq!(scan.count(), 2);
    assert_eq!(scan.to_string(), "ab");
    scan.reset();
    assert_eq!(scan.right(), 0);
    assert!(scan.seek(':'));
    assert_eq!(scan.commit(), "ab");
    scan.skip(3);
    assert_eq!(scan.left(), 5);
    assert!(!scan.seek('?'));
    assert!(scan.is_eof());
    assert_eq!(scan.commit(), "cd");
    scan.advance();
    assert!(scan.is_eof());
    assert_eq!(scan.peek(), None);
    let mut scan = Scanner::from("xx//yy");
    assert!(scan.seek_text(&vec!['/', '/']));
    assert_eq!(scan.right(), 2);
    assert!(!scan.seek_text(&vec!['z']));
    assert_eq!(scan.right(), 6);
}
