//! The behavioural laws of the engine, stated once over the spec-level
//! pipeline (`parse_request`, `plan_of`, the response models) and proved
//! for every input, not just the ones a test happens to pick.

use vstd::prelude::*;

use crate::bytes::is_prefix;
use crate::bytes::is_space;
use crate::bytes::lemma_find_at_first;
use crate::num::dec_of;
use crate::num::lemma_parse_dec_of;
use crate::request::RequestLineModel;
use crate::request::RequestModel;
use crate::request::blank_line;
use crate::request::colon_space;
use crate::request::crlf;
use crate::request::lemma_tok_end_at;
use crate::request::lemma_tok_start_at;
use crate::request::lookup_header;
use crate::request::parse_headers;
use crate::request::parse_request;
use crate::response::StatusCode;
use crate::response::content_length_name;
use crate::response::file_get_model;
use crate::response::health_model;
use crate::response::not_found_model;
use crate::response::response_bytes;
use crate::response::text_model;
use crate::router::RouteModel;
use crate::router::echo_prefix;
use crate::router::files_prefix;
use crate::router::root_path;
use crate::router::route_of;
use crate::router::user_agent_path;
use crate::server::ActionModel;
use crate::server::dispatch_of;
use crate::server::get_token;
use crate::server::plan_of;
use crate::server::post_token;
use crate::server::stored_bytes;
use crate::server::user_agent_name;

verus! {

/// A request whose path is `/echo/` followed by a non-empty payload is
/// answered 200 with `Content-Length` equal to the payload's byte length
/// and a body exactly equal to the payload, whatever the method and
/// whether or not a serving directory is configured.
pub proof fn lemma_echo_reflects(
    data: Seq<u8>,
    req: RequestModel,
    has_directory: bool,
    payload: Seq<u8>,
)
    requires
        parse_request(data) == Some(req),
        req.line.path == echo_prefix() + payload,
        payload.len() > 0,
    ensures
        plan_of(data, has_directory) == ActionModel::Respond(text_model(payload)),
        text_model(payload).status == StatusCode::Success,
        text_model(payload).body == payload,
        lookup_header(text_model(payload).headers, content_length_name()) == Some(
            dec_of(payload.len()),
        ),
{
    let path = req.line.path;
    assert(path.len() == echo_prefix().len() + payload.len());
    assert(path != root_path());
    assert(path.subrange(0, echo_prefix().len() as int) =~= echo_prefix());
    assert(is_prefix(echo_prefix(), path));
    assert(path.skip(echo_prefix().len() as int) =~= payload);
    assert(route_of(path) == RouteModel::Echo(payload));
}

/// A request to `/user-agent` that carries a `User-Agent` header with
/// value `v` is answered 200 with body exactly `v`.
pub proof fn lemma_user_agent_reflects(
    data: Seq<u8>,
    req: RequestModel,
    has_directory: bool,
    v: Seq<u8>,
)
    requires
        parse_request(data) == Some(req),
        req.line.path == user_agent_path(),
        lookup_header(req.headers, user_agent_name()) == Some(v),
    ensures
        plan_of(data, has_directory) == ActionModel::Respond(text_model(v)),
        text_model(v).status == StatusCode::Success,
        text_model(v).body == v,
        lookup_header(text_model(v).headers, content_length_name()) == Some(dec_of(v.len())),
{
    let path = req.line.path;
    assert(path != root_path());
    assert(!is_prefix(echo_prefix(), path)) by {
        if is_prefix(echo_prefix(), path) {
            assert(path.subrange(0, echo_prefix().len() as int)[1] == path[1]);
        }
    }
    assert(route_of(path) == RouteModel::UserAgent);
}

/// A request to `/` is answered 200 with an empty body, whatever the
/// method.
pub proof fn lemma_health(data: Seq<u8>, req: RequestModel, has_directory: bool)
    requires
        parse_request(data) == Some(req),
        req.line.path == root_path(),
    ensures
        plan_of(data, has_directory) == ActionModel::Respond(health_model()),
        health_model().status == StatusCode::Success,
        health_model().body.len() == 0,
{
}

/// On a file route backed by a serving directory, `GET` becomes a read of
/// exactly the captured name, and a read that fails is answered 404 with
/// an empty body; any method other than `GET` and `POST` is answered 404
/// outright, whatever the body.
pub proof fn lemma_file_absent(
    data: Seq<u8>,
    req: RequestModel,
    has_directory: bool,
    name: Seq<u8>,
)
    requires
        parse_request(data) == Some(req),
        req.line.path == files_prefix() + name,
        has_directory,
    ensures
        req.line.method == get_token() ==> plan_of(data, has_directory)
            == ActionModel::ReadFile(name),
        file_get_model(None) == not_found_model(),
        req.line.method != get_token() && req.line.method != post_token() ==> plan_of(
            data,
            has_directory,
        ) == ActionModel::Respond(not_found_model()),
        not_found_model().status == StatusCode::NotFound,
        not_found_model().body.len() == 0,
{
    lemma_files_route(req.line.path, name);
}

/// A `POST` to `/files/<name>` whose `Content-Length` is the numeral of
/// the body's byte count becomes a write of exactly the body, and the
/// stored file then holds the body unchanged (no padding, no truncation);
/// reading those bytes back is answered 200 with the body itself.
pub proof fn lemma_upload_round_trip(
    data: Seq<u8>,
    req: RequestModel,
    has_directory: bool,
    name: Seq<u8>,
    content: Seq<u8>,
)
    requires
        parse_request(data) == Some(req),
        req.line.path == files_prefix() + name,
        req.line.method == post_token(),
        req.body == Some(content),
        lookup_header(req.headers, content_length_name()) == Some(dec_of(content.len())),
        content.len() <= u64::MAX,
        has_directory,
    ensures
        plan_of(data, has_directory) == ActionModel::WriteFile(
            name,
            content,
            content.len() as u64,
        ),
        stored_bytes(content, content.len() as u64) == content,
        file_get_model(Some(content)).status == StatusCode::Success,
        file_get_model(Some(content)).body == content,
        lookup_header(file_get_model(Some(content)).headers, content_length_name()) == Some(
            dec_of(content.len()),
        ),
{
    lemma_files_route(req.line.path, name);
    assert(req.line.method != get_token());
    lemma_parse_dec_of(content.len() as u64);
    assert(stored_bytes(content, content.len() as u64) =~= content);
}

/// Two downloads that read the same bytes are answered with bytewise
/// identical wire responses: the response is a function of the file
/// content alone. (That an unchanged file yields the same bytes twice is
/// the filesystem's part, outside this library.)
pub proof fn lemma_download_deterministic(c1: Option<Seq<u8>>, c2: Option<Seq<u8>>)
    requires
        c1 == c2,
    ensures
        response_bytes(file_get_model(c1)) == response_bytes(file_get_model(c2)),
{
}

/// A request whose path matches none of `/`, `/echo/` with a non-empty
/// remainder, `/user-agent` and `/files/` is answered 404 with
/// `Content-Length: 0` and an empty body.
pub proof fn lemma_unmatched(data: Seq<u8>, req: RequestModel, has_directory: bool)
    requires
        parse_request(data) == Some(req),
        req.line.path != root_path(),
        !(is_prefix(echo_prefix(), req.line.path) && req.line.path.len() > echo_prefix().len()),
        req.line.path != user_agent_path(),
        !is_prefix(files_prefix(), req.line.path),
    ensures
        plan_of(data, has_directory) == ActionModel::Respond(not_found_model()),
        not_found_model().status == StatusCode::NotFound,
        lookup_header(not_found_model().headers, content_length_name()) == Some(seq!['0' as u8]),
        not_found_model().body.len() == 0,
{
}

/// The version token the wire-level laws put on the request line.
pub open spec fn http_version_token() -> Seq<u8> {
    seq![
        'H' as u8,
        'T' as u8,
        'T' as u8,
        'P' as u8,
        '/' as u8,
        '1' as u8,
        '.' as u8,
        '1' as u8,
    ]
}

/// The raw bytes of a bodyless request: `method SP path SP version CRLF
/// CRLF` — a request line, no headers, and the blank-line separator.
pub open spec fn request_bytes(method: Seq<u8>, path: Seq<u8>) -> Seq<u8> {
    method + seq![' ' as u8] + path + seq![' ' as u8] + http_version_token() + crlf() + crlf()
}

/// Parsing such raw bytes recovers exactly the method, the path, the
/// version, no headers, and an empty body — for every method and path
/// made of non-whitespace bytes.
pub proof fn lemma_parse_request_bytes(method: Seq<u8>, path: Seq<u8>)
    requires
        method.len() > 0,
        path.len() > 0,
        forall|i: int| 0 <= i < method.len() ==> !is_space(method[i]),
        forall|i: int| 0 <= i < path.len() ==> !is_space(path[i]),
    ensures
        parse_request(request_bytes(method, path)) == Some(
            RequestModel {
                line: RequestLineModel { method, path, version: http_version_token() },
                headers: Seq::empty(),
                body: Some(Seq::empty()),
            },
        ),
{
    let m = method.len() as int;
    let p = path.len() as int;
    let line = method + seq![' ' as u8] + path + seq![' ' as u8] + http_version_token();
    let data = request_bytes(method, path);
    assert(line.len() == m + p + 10);
    assert(data =~= line + crlf() + crlf());
    assert(data.len() == line.len() + 4);

    // The line's whitespace sits exactly at the two separating spaces,
    // and the line holds no CR at all.
    assert forall|j: int| 0 <= j < line.len() implies line[j] != 13u8 && (is_space(line[j])
        <==> (j == m || j == m + 1 + p)) by {
        if j < m {
            assert(line[j] == method[j]);
        } else if j == m {
            assert(line[j] == (' ' as u8));
        } else if j < m + 1 + p {
            assert(line[j] == path[j - m - 1]);
        } else if j == m + 1 + p {
            assert(line[j] == (' ' as u8));
        } else {
            assert(line[j] == http_version_token()[j - (m + 2 + p)]);
        }
    };
    assert forall|j: int| 0 <= j < line.len() implies data[j] == line[j] by {};

    // The first CR LF, and the first blank line, both sit right after the
    // request line: nothing earlier starts with a CR.
    assert(data.subrange(line.len() as int, line.len() as int + 2) =~= crlf());
    assert forall|j: int| 0 <= j < line.len() as int implies (#[trigger] data.subrange(j, j + 2)) != crlf() by {
        assert(data.subrange(j, j + 2)[0] == data[j]);
    };
    lemma_find_at_first(data, crlf(), 0, line.len() as int);

    assert(data.subrange(line.len() as int, line.len() as int + 4) =~= blank_line());
    assert forall|j: int| 0 <= j < line.len() as int implies (#[trigger] data.subrange(j, j + 4)) != blank_line() by {
        assert(data.subrange(j, j + 4)[0] == data[j]);
    };
    lemma_find_at_first(data, blank_line(), 0, line.len() as int);
    assert(data.skip(line.len() as int + 4) =~= Seq::<u8>::empty());

    // Token boundaries of the request line.
    assert(data.take(line.len() as int) =~= line);
    lemma_tok_start_at(line, 0, 0);
    lemma_tok_end_at(line, 0, m);
    lemma_tok_start_at(line, m, m + 1);
    lemma_tok_end_at(line, m + 1, m + 1 + p);
    lemma_tok_start_at(line, m + 1 + p, m + 2 + p);
    lemma_tok_end_at(line, m + 2 + p, line.len() as int);
    assert(line.subrange(0, m) =~= method);
    assert(line.subrange(m + 1, m + 1 + p) =~= path);
    assert(line.subrange(m + 2 + p, line.len() as int) =~= http_version_token());

    // The header block is the empty line alone, so no headers.
    assert(data.skip(line.len() as int + 2) =~= crlf());
    assert(crlf().subrange(0, 2) =~= crlf());
    lemma_find_at_first(crlf(), crlf(), 0, 0);
    assert(parse_headers(crlf()) =~= Seq::<(Seq<u8>, Seq<u8>)>::empty());
}

/// Full-wire echo law: the raw request `GET /echo/<payload> HTTP/1.1`,
/// for any non-empty payload of non-whitespace bytes, is answered 200
/// with body exactly the payload and its byte length as `Content-Length`.
pub proof fn lemma_echo_wire(payload: Seq<u8>, has_directory: bool)
    requires
        payload.len() > 0,
        forall|i: int| 0 <= i < payload.len() ==> !is_space(payload[i]),
    ensures
        plan_of(request_bytes(get_token(), echo_prefix() + payload), has_directory)
            == ActionModel::Respond(text_model(payload)),
        text_model(payload).status == StatusCode::Success,
        text_model(payload).body == payload,
        lookup_header(text_model(payload).headers, content_length_name()) == Some(
            dec_of(payload.len()),
        ),
{
    let path = echo_prefix() + payload;
    assert forall|i: int| 0 <= i < path.len() implies !is_space(path[i]) by {
        if i < echo_prefix().len() {
            assert(path[i] == echo_prefix()[i]);
        } else {
            assert(path[i] == payload[i - echo_prefix().len()]);
        }
    };
    assert forall|i: int| 0 <= i < get_token().len() implies !is_space(get_token()[i]) by {};
    lemma_parse_request_bytes(get_token(), path);
    let req = RequestModel {
        line: RequestLineModel { method: get_token(), path, version: http_version_token() },
        headers: Seq::empty(),
        body: Some(Seq::empty()),
    };
    lemma_echo_reflects(request_bytes(get_token(), path), req, has_directory, payload);
}

/// Full-wire health law: the raw request `<method> / HTTP/1.1`, for any
/// non-empty method token of non-whitespace bytes, is answered 200 with
/// an empty body.
pub proof fn lemma_health_wire(method: Seq<u8>, has_directory: bool)
    requires
        method.len() > 0,
        forall|i: int| 0 <= i < method.len() ==> !is_space(method[i]),
    ensures
        plan_of(request_bytes(method, root_path()), has_directory) == ActionModel::Respond(
            health_model(),
        ),
        health_model().status == StatusCode::Success,
        health_model().body.len() == 0,
{
    assert forall|i: int| 0 <= i < root_path().len() implies !is_space(root_path()[i]) by {};
    lemma_parse_request_bytes(method, root_path());
    let req = RequestModel {
        line: RequestLineModel { method, path: root_path(), version: http_version_token() },
        headers: Seq::empty(),
        body: Some(Seq::empty()),
    };
    lemma_health(request_bytes(method, root_path()), req, has_directory);
}

/// Full-wire unmatched law: a raw request whose path (non-empty, of
/// non-whitespace bytes) matches no route is answered 404.
pub proof fn lemma_unmatched_wire(method: Seq<u8>, path: Seq<u8>, has_directory: bool)
    requires
        method.len() > 0,
        path.len() > 0,
        forall|i: int| 0 <= i < method.len() ==> !is_space(method[i]),
        forall|i: int| 0 <= i < path.len() ==> !is_space(path[i]),
        path != root_path(),
        !(is_prefix(echo_prefix(), path) && path.len() > echo_prefix().len()),
        path != user_agent_path(),
        !is_prefix(files_prefix(), path),
    ensures
        plan_of(request_bytes(method, path), has_directory) == ActionModel::Respond(
            not_found_model(),
        ),
        not_found_model().status == StatusCode::NotFound,
        lookup_header(not_found_model().headers, content_length_name()) == Some(seq!['0' as u8]),
        not_found_model().body.len() == 0,
{
    lemma_parse_request_bytes(method, path);
    let req = RequestModel {
        line: RequestLineModel { method, path, version: http_version_token() },
        headers: Seq::empty(),
        body: Some(Seq::empty()),
    };
    lemma_unmatched(request_bytes(method, path), req, has_directory);
}

/// Full-wire file-download law: the raw request `GET /files/<name>
/// HTTP/1.1`, for any name of non-whitespace bytes, becomes a read of
/// exactly that name, and a failed read is answered 404.
pub proof fn lemma_file_get_wire(name: Seq<u8>, has_directory: bool)
    requires
        forall|i: int| 0 <= i < name.len() ==> !is_space(name[i]),
        has_directory,
    ensures
        plan_of(request_bytes(get_token(), files_prefix() + name), has_directory)
            == ActionModel::ReadFile(name),
        file_get_model(None) == not_found_model(),
        not_found_model().status == StatusCode::NotFound,
        not_found_model().body.len() == 0,
{
    let path = files_prefix() + name;
    assert forall|i: int| 0 <= i < path.len() implies !is_space(path[i]) by {
        if i < files_prefix().len() {
            assert(path[i] == files_prefix()[i]);
        } else {
            assert(path[i] == name[i - files_prefix().len()]);
        }
    };
    lemma_parse_request_bytes(get_token(), path);
    let req = RequestModel {
        line: RequestLineModel { method: get_token(), path, version: http_version_token() },
        headers: Seq::empty(),
        body: Some(Seq::empty()),
    };
    lemma_file_absent(request_bytes(get_token(), path), req, has_directory, name);
}

/// The raw bytes of a request with one header line and a body:
/// `method SP path SP version CRLF hname ": " hvalue CRLF CRLF body`.
pub open spec fn request_bytes_with_header(
    method: Seq<u8>,
    path: Seq<u8>,
    hname: Seq<u8>,
    hvalue: Seq<u8>,
    body: Seq<u8>,
) -> Seq<u8> {
    method + seq![' ' as u8] + path + seq![' ' as u8] + http_version_token() + crlf() + hname
        + colon_space() + hvalue + crlf() + crlf() + body
}

/// Parsing such raw bytes recovers the request line, the one header pair
/// and the body exactly — for any header value free of CR and LF and any
/// body at all.
#[verifier::rlimit(80)]
pub proof fn lemma_parse_request_bytes_with_header(
    method: Seq<u8>,
    path: Seq<u8>,
    hname: Seq<u8>,
    hvalue: Seq<u8>,
    body: Seq<u8>,
)
    requires
        method.len() > 0,
        path.len() > 0,
        hname.len() > 0,
        forall|i: int| 0 <= i < method.len() ==> !is_space(method[i]),
        forall|i: int| 0 <= i < path.len() ==> !is_space(path[i]),
        forall|i: int| 0 <= i < hname.len() ==> hname[i] != 13u8 && hname[i] != 10u8 && hname[i]
            != (':' as u8),
        forall|i: int| 0 <= i < hvalue.len() ==> hvalue[i] != 13u8 && hvalue[i] != 10u8,
    ensures
        parse_request(request_bytes_with_header(method, path, hname, hvalue, body)) == Some(
            RequestModel {
                line: RequestLineModel { method, path, version: http_version_token() },
                headers: seq![(hname, hvalue)],
                body: Some(body),
            },
        ),
{
    let m = method.len() as int;
    let p = path.len() as int;
    let line = method + seq![' ' as u8] + path + seq![' ' as u8] + http_version_token();
    let hline = hname + colon_space() + hvalue;
    let ll = line.len() as int;
    let hl = hline.len() as int;
    let data = request_bytes_with_header(method, path, hname, hvalue, body);
    assert(line.len() == m + p + 10);
    assert(hline.len() == hname.len() + 2 + hvalue.len());
    assert(data =~= line + crlf() + hline + crlf() + crlf() + body);
    assert(data.len() == ll + hl + 6 + body.len());

    // Byte profiles: the line's whitespace sits exactly at the two
    // separating spaces and it holds no CR; the header line holds no CR
    // and no LF, and no colon before the separator.
    assert forall|j: int| 0 <= j < ll implies line[j] != 13u8 && (is_space(line[j]) <==> (j == m
        || j == m + 1 + p)) by {
        if j < m {
            assert(line[j] == method[j]);
        } else if j == m {
            assert(line[j] == (' ' as u8));
        } else if j < m + 1 + p {
            assert(line[j] == path[j - m - 1]);
        } else if j == m + 1 + p {
            assert(line[j] == (' ' as u8));
        } else {
            assert(line[j] == http_version_token()[j - (m + 2 + p)]);
        }
    };
    assert forall|j: int| 0 <= j < hl implies hline[j] != 13u8 && hline[j] != 10u8 by {
        if j < hname.len() {
            assert(hline[j] == hname[j]);
        } else if j < hname.len() + 2 {
            assert(hline[j] == colon_space()[j - hname.len()]);
        } else {
            assert(hline[j] == hvalue[j - hname.len() - 2]);
        }
    };
    assert forall|j: int| 0 <= j < ll implies data[j] == line[j] by {};
    assert(data[ll] == 13u8 && data[ll + 1] == 10u8);
    assert forall|j: int| 0 <= j < hl implies data[ll + 2 + j] == hline[j] by {};

    // The first CR LF terminates the request line.
    assert(data.subrange(ll, ll + 2) =~= crlf());
    assert forall|j: int| 0 <= j < ll implies (#[trigger] data.subrange(j, j + 2))
        != crlf() by {
        assert(data.subrange(j, j + 2)[0] == data[j]);
    };
    lemma_find_at_first(data, crlf(), 0, ll);

    // The first blank line sits right after the header line.
    assert(data.subrange(ll + 2 + hl, ll + 6 + hl) =~= blank_line());
    assert forall|j: int| 0 <= j < ll + 2 + hl implies (#[trigger] data.subrange(j, j + 4))
        != blank_line() by {
        if j < ll {
            assert(data.subrange(j, j + 4)[0] == data[j]);
        } else if j == ll {
            assert(data.subrange(j, j + 4)[2] == data[ll + 2]);
            assert(data[ll + 2] == hline[0]);
        } else if j == ll + 1 {
            assert(data.subrange(j, j + 4)[0] == data[j]);
        } else {
            assert(data.subrange(j, j + 4)[0] == data[j]);
            assert(data[j] == hline[j - ll - 2]);
        }
    };
    lemma_find_at_first(data, blank_line(), 0, ll + 2 + hl);
    assert(data.skip(ll + 2 + hl + 4) =~= body);

    // Token boundaries of the request line.
    assert(data.take(ll) =~= line);
    lemma_tok_start_at(line, 0, 0);
    lemma_tok_end_at(line, 0, m);
    lemma_tok_start_at(line, m, m + 1);
    lemma_tok_end_at(line, m + 1, m + 1 + p);
    lemma_tok_start_at(line, m + 1 + p, m + 2 + p);
    lemma_tok_end_at(line, m + 2 + p, ll);
    assert(line.subrange(0, m) =~= method);
    assert(line.subrange(m + 1, m + 1 + p) =~= path);
    assert(line.subrange(m + 2 + p, ll) =~= http_version_token());

    // The header block parses to the one pair.
    let rest = data.skip(ll + 2);
    assert(rest =~= hline + crlf() + crlf() + body);
    assert forall|j: int| 0 <= j < hl implies rest[j] == hline[j] by {};
    assert(rest.subrange(hl, hl + 2) =~= crlf());
    assert forall|j: int| 0 <= j < hl implies (#[trigger] rest.subrange(j, j + 2))
        != crlf() by {
        assert(rest.subrange(j, j + 2)[0] == rest[j]);
    };
    lemma_find_at_first(rest, crlf(), 0, hl);
    assert(rest.take(hl) =~= hline);
    assert(hline.subrange(hname.len() as int, hname.len() as int + 2) =~= colon_space());
    assert forall|j: int| 0 <= j < hname.len() as int implies (#[trigger] hline.subrange(
        j,
        j + 2,
    )) != colon_space() by {
        assert(hline.subrange(j, j + 2)[0] == hline[j]);
        assert(hline[j] == hname[j]);
    };
    lemma_find_at_first(hline, colon_space(), 0, hname.len() as int);
    assert(hline.take(hname.len() as int) =~= hname);
    assert(hline.skip(hname.len() as int + 2) =~= hvalue);

    let rest2 = rest.skip(hl + 2);
    assert(rest2 =~= crlf() + body);
    assert(rest2.subrange(0, 2) =~= crlf());
    lemma_find_at_first(rest2, crlf(), 0, 0);
    assert(parse_headers(rest2) =~= Seq::<(Seq<u8>, Seq<u8>)>::empty());
    assert(parse_headers(rest) =~= seq![(hname, hvalue)]);
}

/// Full-wire user-agent law: the raw request `GET /user-agent HTTP/1.1`
/// carrying `User-Agent: <v>`, for any value `v` free of CR and LF, is
/// answered 200 with body exactly `v`.
pub proof fn lemma_user_agent_wire(v: Seq<u8>, has_directory: bool)
    requires
        forall|i: int| 0 <= i < v.len() ==> v[i] != 13u8 && v[i] != 10u8,
    ensures
        plan_of(
            request_bytes_with_header(
                get_token(),
                user_agent_path(),
                user_agent_name(),
                v,
                Seq::empty(),
            ),
            has_directory,
        ) == ActionModel::Respond(text_model(v)),
        text_model(v).status == StatusCode::Success,
        text_model(v).body == v,
        lookup_header(text_model(v).headers, content_length_name()) == Some(dec_of(v.len())),
{
    lemma_parse_request_bytes_with_header(
        get_token(),
        user_agent_path(),
        user_agent_name(),
        v,
        Seq::empty(),
    );
    let req = RequestModel {
        line: RequestLineModel {
            method: get_token(),
            path: user_agent_path(),
            version: http_version_token(),
        },
        headers: seq![(user_agent_name(), v)],
        body: Some(Seq::empty()),
    };
    lemma_user_agent_reflects(
        request_bytes_with_header(get_token(), user_agent_path(), user_agent_name(), v, Seq::empty()),
        req,
        has_directory,
        v,
    );
}

/// Full-wire upload law: the raw request `POST /files/<name> HTTP/1.1`
/// carrying `Content-Length: <numeral of the body's byte count>` and the
/// body itself becomes a write of exactly that body, which the stored
/// file then holds unchanged; reading it back is answered 200 with the
/// body.
pub proof fn lemma_upload_wire(name: Seq<u8>, content: Seq<u8>, has_directory: bool)
    requires
        forall|i: int| 0 <= i < name.len() ==> !is_space(name[i]),
        content.len() <= u64::MAX,
        has_directory,
    ensures
        plan_of(
            request_bytes_with_header(
                post_token(),
                files_prefix() + name,
                content_length_name(),
                dec_of(content.len()),
                content,
            ),
            has_directory,
        ) == ActionModel::WriteFile(name, content, content.len() as u64),
        stored_bytes(content, content.len() as u64) == content,
        file_get_model(Some(content)).status == StatusCode::Success,
        file_get_model(Some(content)).body == content,
{
    let path = files_prefix() + name;
    assert forall|i: int| 0 <= i < path.len() implies !is_space(path[i]) by {
        if i < files_prefix().len() {
            assert(path[i] == files_prefix()[i]);
        } else {
            assert(path[i] == name[i - files_prefix().len()]);
        }
    };
    crate::num::lemma_dec_of_val(content.len());
    let numeral = dec_of(content.len());
    assert forall|i: int| 0 <= i < numeral.len() implies numeral[i] != 13u8 && numeral[i]
        != 10u8 by {
        assert(crate::num::is_digit(numeral[i]));
    };
    lemma_parse_request_bytes_with_header(
        post_token(),
        path,
        content_length_name(),
        numeral,
        content,
    );
    let req = RequestModel {
        line: RequestLineModel { method: post_token(), path, version: http_version_token() },
        headers: seq![(content_length_name(), numeral)],
        body: Some(content),
    };
    lemma_upload_round_trip(
        request_bytes_with_header(post_token(), path, content_length_name(), numeral, content),
        req,
        has_directory,
        name,
        content,
    );
}

/// A path of the form `/files/<name>` selects the file route and captures
/// exactly `<name>`.
proof fn lemma_files_route(path: Seq<u8>, name: Seq<u8>)
    requires
        path == files_prefix() + name,
    ensures
        route_of(path) == RouteModel::FileRoute(name),
{
    assert(path.len() == files_prefix().len() + name.len());
    assert(path != root_path());
    assert(path[1] == files_prefix()[1]);
    assert(!is_prefix(echo_prefix(), path)) by {
        if is_prefix(echo_prefix(), path) {
            assert(path.subrange(0, echo_prefix().len() as int)[1] == path[1]);
        }
    }
    assert(path != user_agent_path()) by {
        if path == user_agent_path() {
            assert(path[1] == user_agent_path()[1]);
        }
    }
    assert(path.subrange(0, files_prefix().len() as int) =~= files_prefix());
    assert(is_prefix(files_prefix(), path));
    assert(path.skip(files_prefix().len() as int) =~= name);
}

} // verus!
