use pastebin::parse::parse;
use pastebin::parse::ParseError;

#[test]
fn parse_full_request() {
    let req = parse(b"POST / HTTP/1.1\r\nHost: x\r\n\r\nhello").unwrap();
    assert_eq!(req.method, b"POST".to_vec());
    assert_eq!(req.target, b"/".to_vec());
    assert_eq!(req.version, b"HTTP/1.1".to_vec());
    assert_eq!(req.headers, b"Host: x".to_vec());
    assert_eq!(req.body, b"hello".to_vec());
}

#[test]
fn parse_empty_buffer_misses_method() {
    assert_eq!(parse(b"").unwrap_err(), ParseError::MissingMethod);
}

#[test]
fn parse_blank_buffer_misses_method() {
    assert_eq!(parse(b"  \r\n \t ").unwrap_err(), ParseError::MissingMethod);
}

#[test]
fn parse_lone_method_misses_uri() {
    assert_eq!(parse(b"GET").unwrap_err(), ParseError::MissingRequestUri);
}

#[test]
fn parse_method_and_target_miss_version() {
    assert_eq!(parse(b"GET /").unwrap_err(), ParseError::MissingHttpVersion);
}

#[test]
fn parse_version_without_crlf_misses_headers() {
    assert_eq!(parse(b"GET / HTTP/1.1").unwrap_err(), ParseError::MissingHeaders);
}

#[test]
fn parse_version_with_trailing_crlf_misses_headers() {
    assert_eq!(parse(b"GET / HTTP/1.1\r\n").unwrap_err(), ParseError::MissingHeaders);
}

#[test]
fn parse_headers_without_crlf_miss_body() {
    assert_eq!(parse(b"GET / HTTP/1.1\r\nHost: x").unwrap_err(), ParseError::MissingMessageBody);
}

#[test]
fn parse_headers_with_trailing_crlf_miss_body() {
    assert_eq!(
        parse(b"GET / HTTP/1.1\r\nHost: x\r\n\r\n").unwrap_err(),
        ParseError::MissingMessageBody
    );
}

#[test]
fn parse_keeps_body_verbatim() {
    let req = parse(b"POST / HTTP/1.1\r\nHost: x\r\n\r\nline1\r\nline2\r\n").unwrap();
    assert_eq!(req.body, b"line1\r\nline2\r\n".to_vec());
}

#[test]
fn parse_separates_tokens_on_any_whitespace() {
    let req = parse(b"POST\t/\nHTTP/1.1\r\nHost: x\r\n\r\nbody").unwrap();
    assert_eq!(req.method, b"POST".to_vec());
    assert_eq!(req.target, b"/".to_vec());
    assert_eq!(req.version, b"HTTP/1.1".to_vec());
}
