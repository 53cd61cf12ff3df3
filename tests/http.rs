use cube_url::http::{ContentType, Header, Method, Status};

#[test]
fn methods_read_and_write() {
    assert_eq!(Method::try_from("GET").unwrap(), Method::Get);
    assert_eq!(Method::try_from("DELETE").unwrap(), Method::Delete);
    assert_eq!(Method::Options.to_string(), "OPTIONS");
    let error = Method::try_from("get").unwrap_err();
    assert_eq!(error.to_string(), "get is not an http method");
}

#[test]
fn status_codes_and_reasons() {
    assert_eq!(Status::OK.as_u16(), 200);
    assert_eq!(Status::Teapot.reason(), "I'm a teapot");
    assert_eq!(Status::NotFound.to_string(), "Not Found");
    assert_eq!(Status::try_from(511).unwrap(), Status::NetworkAuthenticationRequired);
    assert_eq!(Status::try_from(226).unwrap(), Status::IMUsed);
    assert!(Status::try_from(209).is_err());
    assert!(Status::try_from(600).is_err());
    for code in 0..=u16::MAX {
        if let Ok(status) = Status::try_from(code) {
            assert_eq!(status.as_u16(), code);
        }
    }
}

#[test]
fn content_types_and_headers() {
    assert_eq!(ContentType::Json.to_string(), "application/json");
    assert_eq!(ContentType::PlainText.to_string(), "text/plain; charset=utf-8");
    assert_eq!(Header::from("keep-alive").to_string(), "keep-alive");
}
