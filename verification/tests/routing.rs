//! Tests of the route table and of the byte and numeral helpers.

use minihttp::bytes::{bytes_eq, find, starts_with, trim_trailing};
use minihttp::num::{parse_u64, u64_to_dec};
use minihttp::router::{route, RouteTarget};
use minihttp::server::resolve_path;

#[test]
fn root_selects_health() {
    assert!(matches!(route(b"/"), RouteTarget::Health));
}

#[test]
fn echo_captures_payload() {
    match route(b"/echo/abc") {
        RouteTarget::Echo(p) => assert_eq!(p, b"abc".to_vec()),
        _ => panic!("expected the echo route"),
    }
}

#[test]
fn echo_without_payload_is_unmatched() {
    assert!(matches!(route(b"/echo/"), RouteTarget::Unmatched));
}

#[test]
fn user_agent_route_is_exact() {
    assert!(matches!(route(b"/user-agent"), RouteTarget::UserAgent));
    assert!(matches!(route(b"/user-agent/"), RouteTarget::Unmatched));
}

#[test]
fn files_captures_name() {
    match route(b"/files/dir/f.txt") {
        RouteTarget::FileRoute(n) => assert_eq!(n, b"dir/f.txt".to_vec()),
        _ => panic!("expected the file route"),
    }
}

#[test]
fn files_with_empty_name_still_matches() {
    match route(b"/files/") {
        RouteTarget::FileRoute(n) => assert_eq!(n, Vec::<u8>::new()),
        _ => panic!("expected the file route"),
    }
}

#[test]
fn unknown_paths_are_unmatched() {
    assert!(matches!(route(b"/abc"), RouteTarget::Unmatched));
    assert!(matches!(route(b""), RouteTarget::Unmatched));
    assert!(matches!(route(b"/echo"), RouteTarget::Unmatched));
    assert!(matches!(route(b"/files"), RouteTarget::Unmatched));
}

#[test]
fn routing_is_case_sensitive() {
    assert!(matches!(route(b"/Echo/a"), RouteTarget::Unmatched));
}

#[test]
fn no_url_decoding_is_performed() {
    match route(b"/echo/%20a+b") {
        RouteTarget::Echo(p) => assert_eq!(p, b"%20a+b".to_vec()),
        _ => panic!("expected the echo route"),
    }
}

#[test]
fn parse_u64_reads_digits() {
    assert_eq!(parse_u64(b"0"), Some(0));
    assert_eq!(parse_u64(b"42"), Some(42));
    assert_eq!(parse_u64(b"007"), Some(7));
    assert_eq!(parse_u64(b"18446744073709551615"), Some(u64::MAX));
}

#[test]
fn parse_u64_rejects_non_numerals() {
    assert_eq!(parse_u64(b""), None);
    assert_eq!(parse_u64(b"12a"), None);
    assert_eq!(parse_u64(b"-3"), None);
    assert_eq!(parse_u64(b" 5"), None);
}

#[test]
fn parse_u64_rejects_overflow() {
    assert_eq!(parse_u64(b"18446744073709551616"), None);
    assert_eq!(parse_u64(b"99999999999999999999999"), None);
}

#[test]
fn u64_to_dec_renders_canonically() {
    assert_eq!(u64_to_dec(0), b"0".to_vec());
    assert_eq!(u64_to_dec(7), b"7".to_vec());
    assert_eq!(u64_to_dec(1234), b"1234".to_vec());
    assert_eq!(u64_to_dec(u64::MAX), b"18446744073709551615".to_vec());
}

#[test]
fn numeral_round_trip_on_samples() {
    for n in [0u64, 1, 9, 10, 255, 4096, 65535, u64::MAX] {
        assert_eq!(parse_u64(&u64_to_dec(n)), Some(n));
    }
}

#[test]
fn trim_trailing_removes_only_trailing_whitespace() {
    assert_eq!(trim_trailing(b"abc \r\n\t "), b"abc".to_vec());
    assert_eq!(trim_trailing(b"  abc"), b"  abc".to_vec());
    assert_eq!(trim_trailing(b"a b"), b"a b".to_vec());
    assert_eq!(trim_trailing(b""), Vec::<u8>::new());
}

#[test]
fn byte_helpers_compare_and_search() {
    assert!(bytes_eq(b"abc", b"abc"));
    assert!(!bytes_eq(b"abc", b"abd"));
    assert!(starts_with(b"/echo/x", b"/echo/"));
    assert!(!starts_with(b"/e", b"/echo/"));
    assert_eq!(find(b"a\r\nb", b"\r\n", 0), Some(1));
    assert_eq!(find(b"a\r\nb", b"\r\n", 2), None);
    assert_eq!(find(b"xyxy", b"xy", 1), Some(2));
}

#[test]
fn resolve_path_concatenates_verbatim() {
    assert_eq!(resolve_path(b"/tmp/", b"f.txt"), b"/tmp/f.txt".to_vec());
    assert_eq!(resolve_path(b"/tmp", b"f.txt"), b"/tmpf.txt".to_vec());
}
