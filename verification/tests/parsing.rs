//! Tests of the request parser: request line, header block, body.

use minihttp::request::{header_value, parse, parse_header, request_complete};

#[test]
fn request_line_three_tokens() {
    let rl = parse_header(b"GET /index.html HTTP/1.1").expect("well-formed request line");
    assert_eq!(rl.method, b"GET".to_vec());
    assert_eq!(rl.path, b"/index.html".to_vec());
    assert_eq!(rl.version, b"HTTP/1.1".to_vec());
}

#[test]
fn request_line_two_tokens_has_empty_version() {
    let rl = parse_header(b"POST /files/a").expect("method and path suffice");
    assert_eq!(rl.method, b"POST".to_vec());
    assert_eq!(rl.path, b"/files/a".to_vec());
    assert_eq!(rl.version, Vec::<u8>::new());
}

#[test]
fn request_line_single_token_is_malformed() {
    assert!(parse_header(b"GET").is_none());
}

#[test]
fn request_line_empty_is_malformed() {
    assert!(parse_header(b"").is_none());
    assert!(parse_header(b"   ").is_none());
}

#[test]
fn request_line_tolerates_extra_whitespace() {
    let rl = parse_header(b"  GET   /   HTTP/1.1  ").expect("tokens are what count");
    assert_eq!(rl.method, b"GET".to_vec());
    assert_eq!(rl.path, b"/".to_vec());
    assert_eq!(rl.version, b"HTTP/1.1".to_vec());
}

#[test]
fn path_with_space_splits_at_the_space() {
    let rl = parse_header(b"GET /echo/a b HTTP/1.1").expect("still two tokens");
    assert_eq!(rl.path, b"/echo/a".to_vec());
}

#[test]
fn header_value_finds_a_header() {
    let block = b"Host: localhost\r\nUser-Agent: curl/7.64.1\r\nAccept: */*\r\n\r\n";
    let v = header_value(block, b"User-Agent").expect("header present");
    assert_eq!(v, b"curl/7.64.1".to_vec());
}

#[test]
fn header_value_missing_header_is_none() {
    let block = b"Host: localhost\r\n\r\n";
    assert!(header_value(block, b"User-Agent").is_none());
}

#[test]
fn header_value_last_occurrence_wins() {
    let block = b"X-K: first\r\nX-K: second\r\n\r\n";
    let v = header_value(block, b"X-K").expect("header present");
    assert_eq!(v, b"second".to_vec());
}

#[test]
fn header_value_skips_lines_without_separator() {
    let block = b"garbage-line\r\nHost: here\r\n\r\n";
    let v = header_value(block, b"Host").expect("well-formed line still counts");
    assert_eq!(v, b"here".to_vec());
}

#[test]
fn header_value_stops_at_blank_line() {
    let block = b"Host: here\r\n\r\nTrailer: body-text\r\n";
    assert!(header_value(block, b"Trailer").is_none());
}

#[test]
fn header_name_comparison_is_case_sensitive() {
    let block = b"user-agent: x\r\n\r\n";
    assert!(header_value(block, b"User-Agent").is_none());
}

#[test]
fn full_parse_extracts_line_headers_and_body() {
    let data = b"POST /files/n HTTP/1.1\r\nContent-Length: 5\r\n\r\nhello";
    let req = parse(data).expect("well-formed request");
    assert_eq!(req.line.method, b"POST".to_vec());
    assert_eq!(req.line.path, b"/files/n".to_vec());
    assert_eq!(req.headers.len(), 1);
    assert_eq!(req.headers[0].0, b"Content-Length".to_vec());
    assert_eq!(req.headers[0].1, b"5".to_vec());
    assert_eq!(req.body, Some(b"hello".to_vec()));
}

#[test]
fn full_parse_without_blank_line_has_no_body() {
    let data = b"GET / HTTP/1.1\r\nHost: h";
    let req = parse(data).expect("request line is terminated");
    assert_eq!(req.body, None);
}

#[test]
fn full_parse_without_crlf_is_malformed() {
    assert!(parse(b"GET / HTTP/1.1").is_none());
}

#[test]
fn full_parse_one_token_line_is_malformed() {
    assert!(parse(b"GET\r\n\r\n").is_none());
}

#[test]
fn request_complete_tracks_the_blank_line() {
    assert!(!request_complete(b"GET / HTTP/1.1\r\n"));
    assert!(request_complete(b"GET / HTTP/1.1\r\n\r\n"));
    assert!(request_complete(b"GET / HTTP/1.1\r\nHost: h\r\n\r\ntail"));
}
