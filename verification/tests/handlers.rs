//! Tests of the planner, the handler responses and their wire form.

use minihttp::response::{
    bad_request_response, file_get_response, file_post_response, health_response,
    not_found_response, serialize_response, text_response, StatusCode,
};
use minihttp::server::{plan_request, Action};

fn planned_response(data: &[u8], has_directory: bool) -> minihttp::response::Response {
    match plan_request(data, has_directory) {
        Action::Respond(r) => r,
        _ => panic!("expected a finished response"),
    }
}

#[test]
fn health_answers_200_with_empty_body() {
    let r = planned_response(b"GET / HTTP/1.1\r\n\r\n", false);
    assert_eq!(r.status, StatusCode::Success);
    assert!(r.body.is_empty());
    assert_eq!(serialize_response(&r), b"HTTP/1.1 200 OK\r\n\r\n".to_vec());
}

#[test]
fn health_ignores_the_method() {
    for m in [&b"GET"[..], b"POST", b"DELETE", b"HEAD"] {
        let mut data = m.to_vec();
        data.extend_from_slice(b" / HTTP/1.1\r\n\r\n");
        let r = planned_response(&data, true);
        assert_eq!(r.status, StatusCode::Success);
        assert!(r.body.is_empty());
    }
}

#[test]
fn echo_reflects_the_payload() {
    let r = planned_response(b"GET /echo/abc HTTP/1.1\r\n\r\n", false);
    assert_eq!(r.status, StatusCode::Success);
    assert_eq!(r.body, b"abc".to_vec());
    assert_eq!(
        serialize_response(&r),
        b"HTTP/1.1 200 OK\r\nContent-Type: text/plain\r\nContent-Length: 3\r\n\r\nabc".to_vec()
    );
}

#[test]
fn echo_content_length_counts_bytes() {
    let r = planned_response(b"GET /echo/a/b/c HTTP/1.1\r\n\r\n", false);
    assert_eq!(r.body, b"a/b/c".to_vec());
    assert_eq!(r.headers[1].0, b"Content-Length".to_vec());
    assert_eq!(r.headers[1].1, b"5".to_vec());
}

#[test]
fn user_agent_is_reflected() {
    let data = b"GET /user-agent HTTP/1.1\r\nHost: h\r\nUser-Agent: foobar/1.2.3\r\n\r\n";
    let r = planned_response(data, false);
    assert_eq!(r.status, StatusCode::Success);
    assert_eq!(r.body, b"foobar/1.2.3".to_vec());
    assert_eq!(
        serialize_response(&r),
        b"HTTP/1.1 200 OK\r\nContent-Type: text/plain\r\nContent-Length: 12\r\n\r\nfoobar/1.2.3"
            .to_vec()
    );
}

#[test]
fn user_agent_missing_is_bad_request() {
    let r = planned_response(b"GET /user-agent HTTP/1.1\r\nHost: h\r\n\r\n", false);
    assert_eq!(r.status, StatusCode::BadRequest);
    assert!(r.body.is_empty());
}

#[test]
fn malformed_request_line_is_bad_request() {
    let r = planned_response(b"GET\r\n\r\n", true);
    assert_eq!(r.status, StatusCode::BadRequest);
    assert_eq!(
        serialize_response(&r),
        b"HTTP/1.1 400 Bad Request\r\nContent-Length: 0\r\n\r\n".to_vec()
    );
}

#[test]
fn unterminated_request_line_is_bad_request() {
    let r = planned_response(b"GET / HTTP/1.1", true);
    assert_eq!(r.status, StatusCode::BadRequest);
}

#[test]
fn unmatched_path_is_404_with_content_length_zero() {
    let r = planned_response(b"GET /nothing/here HTTP/1.1\r\n\r\n", true);
    assert_eq!(r.status, StatusCode::NotFound);
    assert!(r.body.is_empty());
    assert_eq!(
        serialize_response(&r),
        b"HTTP/1.1 404 Not Found\r\nContent-Length: 0\r\n\r\n".to_vec()
    );
}

#[test]
fn file_get_becomes_a_read_action() {
    match plan_request(b"GET /files/f.txt HTTP/1.1\r\n\r\n", true) {
        Action::ReadFile { name } => assert_eq!(name, b"f.txt".to_vec()),
        _ => panic!("expected a read action"),
    }
}

#[test]
fn file_route_without_directory_is_404() {
    let r = planned_response(b"GET /files/f.txt HTTP/1.1\r\n\r\n", false);
    assert_eq!(r.status, StatusCode::NotFound);
}

#[test]
fn file_route_with_other_method_is_404() {
    let r = planned_response(b"DELETE /files/f.txt HTTP/1.1\r\nContent-Length: 2\r\n\r\nhi", true);
    assert_eq!(r.status, StatusCode::NotFound);
}

#[test]
fn failed_read_is_404_with_empty_body() {
    let r = file_get_response(None);
    assert_eq!(r.status, StatusCode::NotFound);
    assert!(r.body.is_empty());
    assert_eq!(
        serialize_response(&r),
        b"HTTP/1.1 404 Not Found\r\nContent-Length: 0\r\n\r\n".to_vec()
    );
}

#[test]
fn successful_read_carries_the_bytes_verbatim() {
    let r = file_get_response(Some(b"binary\x00\x01data".to_vec()));
    assert_eq!(r.status, StatusCode::Success);
    assert_eq!(r.body, b"binary\x00\x01data".to_vec());
    assert_eq!(
        serialize_response(&r),
        b"HTTP/1.1 200 OK\r\nContent-Type: application/octet-stream\r\nContent-Length: 12\r\n\r\nbinary\x00\x01data"
            .to_vec()
    );
}

#[test]
fn file_post_becomes_a_write_action() {
    let data = b"POST /files/up.txt HTTP/1.1\r\nContent-Length: 5\r\n\r\nhello";
    match plan_request(data, true) {
        Action::WriteFile { name, content, length } => {
            assert_eq!(name, b"up.txt".to_vec());
            assert_eq!(content, b"hello".to_vec());
            assert_eq!(length, 5);
        }
        _ => panic!("expected a write action"),
    }
}

#[test]
fn file_post_without_content_length_is_404() {
    let r = planned_response(b"POST /files/up.txt HTTP/1.1\r\nHost: h\r\n\r\nhello", true);
    assert_eq!(r.status, StatusCode::NotFound);
}

#[test]
fn file_post_with_unparsable_length_is_404() {
    let data = b"POST /files/up.txt HTTP/1.1\r\nContent-Length: five\r\n\r\nhello";
    let r = planned_response(data, true);
    assert_eq!(r.status, StatusCode::NotFound);
}

#[test]
fn file_post_without_body_separator_is_404() {
    let r = planned_response(b"POST /files/up.txt HTTP/1.1\r\nContent-Length: 5", true);
    assert_eq!(r.status, StatusCode::NotFound);
}

#[test]
fn upload_then_download_round_trip() {
    let data = b"POST /files/rt.txt HTTP/1.1\r\nContent-Length: 7\r\n\r\npayload";
    let written = match plan_request(data, true) {
        Action::WriteFile { content, length, .. } => {
            assert_eq!(length, content.len() as u64);
            content
        }
        _ => panic!("expected a write action"),
    };
    let r = file_get_response(Some(written.clone()));
    assert_eq!(r.status, StatusCode::Success);
    assert_eq!(r.body, b"payload".to_vec());
}

#[test]
fn repeated_download_of_same_bytes_is_identical() {
    let a = serialize_response(&file_get_response(Some(b"stable".to_vec())));
    let b = serialize_response(&file_get_response(Some(b"stable".to_vec())));
    assert_eq!(a, b);
}

#[test]
fn upload_outcome_responses() {
    let ok = file_post_response(true);
    assert_eq!(ok.status, StatusCode::Created);
    assert_eq!(serialize_response(&ok), b"HTTP/1.1 201 Created\r\n\r\n".to_vec());
    let failed = file_post_response(false);
    assert_eq!(failed.status, StatusCode::NotFound);
}

#[test]
fn builders_match_their_wire_forms() {
    assert_eq!(serialize_response(&health_response()), b"HTTP/1.1 200 OK\r\n\r\n".to_vec());
    assert_eq!(
        serialize_response(&not_found_response()),
        b"HTTP/1.1 404 Not Found\r\nContent-Length: 0\r\n\r\n".to_vec()
    );
    assert_eq!(
        serialize_response(&bad_request_response()),
        b"HTTP/1.1 400 Bad Request\r\nContent-Length: 0\r\n\r\n".to_vec()
    );
    assert_eq!(
        serialize_response(&text_response(b"hi")),
        b"HTTP/1.1 200 OK\r\nContent-Type: text/plain\r\nContent-Length: 2\r\n\r\nhi".to_vec()
    );
}
