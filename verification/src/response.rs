//! Response construction and wire serialization: the status codes the
//! server emits, one builder per handler outcome, and the serializer that
//! lays a response out as `status line CRLF *(header CRLF) CRLF body`.

use vstd::prelude::*;

use crate::bytes::append_bytes;
use crate::num::dec_of;
use crate::num::u64_to_dec;
use crate::request::colon_space;
use crate::request::colon_space_bytes;
use crate::request::crlf;
use crate::request::crlf_bytes;
use crate::request::pairs_view;

verus! {

/// The status codes this server can send.
#[derive(Clone, Copy, PartialEq, Eq, Structural, Debug)]
pub enum StatusCode {
    /// 200 OK.
    Success,
    /// 201 Created.
    Created,
    /// 400 Bad Request.
    BadRequest,
    /// 404 Not Found.
    NotFound,
}

/// Status line of a successful response.
pub open spec fn ok_line() -> Seq<u8> {
    seq!['H' as u8, 'T' as u8, 'T' as u8, 'P' as u8, '/' as u8, '1' as u8, '.' as u8, '1' as u8, ' ' as u8, '2' as u8, '0' as u8, '0' as u8, ' ' as u8, 'O' as u8, 'K' as u8]
}

/// Builds `ok_line` as a vector: the bytes of `"HTTP/1.1 200 OK"`.
pub fn ok_line_bytes() -> (out: Vec<u8>)
    ensures
        out@ == ok_line(),
{
    let mut out: Vec<u8> = Vec::new();
    out.push('H' as u8);
    out.push('T' as u8);
    out.push('T' as u8);
    out.push('P' as u8);
    out.push('/' as u8);
    out.push('1' as u8);
    out.push('.' as u8);
    out.push('1' as u8);
    out.push(' ' as u8);
    out.push('2' as u8);
    out.push('0' as u8);
    out.push('0' as u8);
    out.push(' ' as u8);
    out.push('O' as u8);
    out.push('K' as u8);
    proof {
        assert(out@ =~= ok_line());
    }
    out
}

/// Status line after a successful file upload.
pub open spec fn created_line() -> Seq<u8> {
    seq!['H' as u8, 'T' as u8, 'T' as u8, 'P' as u8, '/' as u8, '1' as u8, '.' as u8, '1' as u8, ' ' as u8, '2' as u8, '0' as u8, '1' as u8, ' ' as u8, 'C' as u8, 'r' as u8, 'e' as u8, 'a' as u8, 't' as u8, 'e' as u8, 'd' as u8]
}

/// Builds `created_line` as a vector: the bytes of `"HTTP/1.1 201 Created"`.
pub fn created_line_bytes() -> (out: Vec<u8>)
    ensures
        out@ == created_line(),
{
    let mut out: Vec<u8> = Vec::new();
    out.push('H' as u8);
    out.push('T' as u8);
    out.push('T' as u8);
    out.push('P' as u8);
    out.push('/' as u8);
    out.push('1' as u8);
    out.push('.' as u8);
    out.push('1' as u8);
    out.push(' ' as u8);
    out.push('2' as u8);
    out.push('0' as u8);
    out.push('1' as u8);
    out.push(' ' as u8);
    out.push('C' as u8);
    out.push('r' as u8);
    out.push('e' as u8);
    out.push('a' as u8);
    out.push('t' as u8);
    out.push('e' as u8);
    out.push('d' as u8);
    proof {
        assert(out@ =~= created_line());
    }
    out
}

/// Status line for a malformed request.
pub open spec fn bad_request_line() -> Seq<u8> {
    seq!['H' as u8, 'T' as u8, 'T' as u8, 'P' as u8, '/' as u8, '1' as u8, '.' as u8, '1' as u8, ' ' as u8, '4' as u8, '0' as u8, '0' as u8, ' ' as u8, 'B' as u8, 'a' as u8, 'd' as u8, ' ' as u8, 'R' as u8, 'e' as u8, 'q' as u8, 'u' as u8, 'e' as u8, 's' as u8, 't' as u8]
}

/// Builds `bad_request_line` as a vector: the bytes of `"HTTP/1.1 400 Bad Request"`.
pub fn bad_request_line_bytes() -> (out: Vec<u8>)
    ensures
        out@ == bad_request_line(),
{
    let mut out: Vec<u8> = Vec::new();
    out.push('H' as u8);
    out.push('T' as u8);
    out.push('T' as u8);
    out.push('P' as u8);
    out.push('/' as u8);
    out.push('1' as u8);
    out.push('.' as u8);
    out.push('1' as u8);
    out.push(' ' as u8);
    out.push('4' as u8);
    out.push('0' as u8);
    out.push('0' as u8);
    out.push(' ' as u8);
    out.push('B' as u8);
    out.push('a' as u8);
    out.push('d' as u8);
    out.push(' ' as u8);
    out.push('R' as u8);
    out.push('e' as u8);
    out.push('q' as u8);
    out.push('u' as u8);
    out.push('e' as u8);
    out.push('s' as u8);
    out.push('t' as u8);
    proof {
        assert(out@ =~= bad_request_line());
    }
    out
}

/// Status line for an unmatched route or a failed file action.
pub open spec fn not_found_line() -> Seq<u8> {
    seq!['H' as u8, 'T' as u8, 'T' as u8, 'P' as u8, '/' as u8, '1' as u8, '.' as u8, '1' as u8, ' ' as u8, '4' as u8, '0' as u8, '4' as u8, ' ' as u8, 'N' as u8, 'o' as u8, 't' as u8, ' ' as u8, 'F' as u8, 'o' as u8, 'u' as u8, 'n' as u8, 'd' as u8]
}

/// Builds `not_found_line` as a vector: the bytes of `"HTTP/1.1 404 Not Found"`.
pub fn not_found_line_bytes() -> (out: Vec<u8>)
    ensures
        out@ == not_found_line(),
{
    let mut out: Vec<u8> = Vec::new();
    out.push('H' as u8);
    out.push('T' as u8);
    out.push('T' as u8);
    out.push('P' as u8);
    out.push('/' as u8);
    out.push('1' as u8);
    out.push('.' as u8);
    out.push('1' as u8);
    out.push(' ' as u8);
    out.push('4' as u8);
    out.push('0' as u8);
    out.push('4' as u8);
    out.push(' ' as u8);
    out.push('N' as u8);
    out.push('o' as u8);
    out.push('t' as u8);
    out.push(' ' as u8);
    out.push('F' as u8);
    out.push('o' as u8);
    out.push('u' as u8);
    out.push('n' as u8);
    out.push('d' as u8);
    proof {
        assert(out@ =~= not_found_line());
    }
    out
}

/// Name of the content-type header.
pub open spec fn content_type_name() -> Seq<u8> {
    seq!['C' as u8, 'o' as u8, 'n' as u8, 't' as u8, 'e' as u8, 'n' as u8, 't' as u8, '-' as u8, 'T' as u8, 'y' as u8, 'p' as u8, 'e' as u8]
}

/// Builds `content_type_name` as a vector: the bytes of `"Content-Type"`.
pub fn content_type_name_bytes() -> (out: Vec<u8>)
    ensures
        out@ == content_type_name(),
{
    let mut out: Vec<u8> = Vec::new();
    out.push('C' as u8);
    out.push('o' as u8);
    out.push('n' as u8);
    out.push('t' as u8);
    out.push('e' as u8);
    out.push('n' as u8);
    out.push('t' as u8);
    out.push('-' as u8);
    out.push('T' as u8);
    out.push('y' as u8);
    out.push('p' as u8);
    out.push('e' as u8);
    proof {
        assert(out@ =~= content_type_name());
    }
    out
}

/// Name of the content-length header.
pub open spec fn content_length_name() -> Seq<u8> {
    seq!['C' as u8, 'o' as u8, 'n' as u8, 't' as u8, 'e' as u8, 'n' as u8, 't' as u8, '-' as u8, 'L' as u8, 'e' as u8, 'n' as u8, 'g' as u8, 't' as u8, 'h' as u8]
}

/// Builds `content_length_name` as a vector: the bytes of `"Content-Length"`.
pub fn content_length_name_bytes() -> (out: Vec<u8>)
    ensures
        out@ == content_length_name(),
{
    let mut out: Vec<u8> = Vec::new();
    out.push('C' as u8);
    out.push('o' as u8);
    out.push('n' as u8);
    out.push('t' as u8);
    out.push('e' as u8);
    out.push('n' as u8);
    out.push('t' as u8);
    out.push('-' as u8);
    out.push('L' as u8);
    out.push('e' as u8);
    out.push('n' as u8);
    out.push('g' as u8);
    out.push('t' as u8);
    out.push('h' as u8);
    proof {
        assert(out@ =~= content_length_name());
    }
    out
}

/// Content type of echo and user-agent bodies.
pub open spec fn text_plain_type() -> Seq<u8> {
    seq!['t' as u8, 'e' as u8, 'x' as u8, 't' as u8, '/' as u8, 'p' as u8, 'l' as u8, 'a' as u8, 'i' as u8, 'n' as u8]
}

/// Builds `text_plain_type` as a vector: the bytes of `"text/plain"`.
pub fn text_plain_type_bytes() -> (out: Vec<u8>)
    ensures
        out@ == text_plain_type(),
{
    let mut out: Vec<u8> = Vec::new();
    out.push('t' as u8);
    out.push('e' as u8);
    out.push('x' as u8);
    out.push('t' as u8);
    out.push('/' as u8);
    out.push('p' as u8);
    out.push('l' as u8);
    out.push('a' as u8);
    out.push('i' as u8);
    out.push('n' as u8);
    proof {
        assert(out@ =~= text_plain_type());
    }
    out
}

/// Content type of file downloads.
pub open spec fn octet_stream_type() -> Seq<u8> {
    seq!['a' as u8, 'p' as u8, 'p' as u8, 'l' as u8, 'i' as u8, 'c' as u8, 'a' as u8, 't' as u8, 'i' as u8, 'o' as u8, 'n' as u8, '/' as u8, 'o' as u8, 'c' as u8, 't' as u8, 'e' as u8, 't' as u8, '-' as u8, 's' as u8, 't' as u8, 'r' as u8, 'e' as u8, 'a' as u8, 'm' as u8]
}

/// Builds `octet_stream_type` as a vector: the bytes of `"application/octet-stream"`.
pub fn octet_stream_type_bytes() -> (out: Vec<u8>)
    ensures
        out@ == octet_stream_type(),
{
    let mut out: Vec<u8> = Vec::new();
    out.push('a' as u8);
    out.push('p' as u8);
    out.push('p' as u8);
    out.push('l' as u8);
    out.push('i' as u8);
    out.push('c' as u8);
    out.push('a' as u8);
    out.push('t' as u8);
    out.push('i' as u8);
    out.push('o' as u8);
    out.push('n' as u8);
    out.push('/' as u8);
    out.push('o' as u8);
    out.push('c' as u8);
    out.push('t' as u8);
    out.push('e' as u8);
    out.push('t' as u8);
    out.push('-' as u8);
    out.push('s' as u8);
    out.push('t' as u8);
    out.push('r' as u8);
    out.push('e' as u8);
    out.push('a' as u8);
    out.push('m' as u8);
    proof {
        assert(out@ =~= octet_stream_type());
    }
    out
}

/// The status line emitted for each status code.
pub open spec fn status_line_of(s: StatusCode) -> Seq<u8> {
    match s {
        StatusCode::Success => ok_line(),
        StatusCode::Created => created_line(),
        StatusCode::BadRequest => bad_request_line(),
        StatusCode::NotFound => not_found_line(),
    }
}

/// Builds the status line for `s`.
pub fn status_line_bytes(s: StatusCode) -> (out: Vec<u8>)
    ensures
        out@ == status_line_of(s),
{
    match s {
        StatusCode::Success => ok_line_bytes(),
        StatusCode::Created => created_line_bytes(),
        StatusCode::BadRequest => bad_request_line_bytes(),
        StatusCode::NotFound => not_found_line_bytes(),
    }
}

/// Spec-level response: status, header pairs in emission order, body.
#[verifier::ext_equal]
pub struct ResponseModel {
    pub status: StatusCode,
    pub headers: Seq<(Seq<u8>, Seq<u8>)>,
    pub body: Seq<u8>,
}

/// A response ready to serialize.
pub struct Response {
    pub status: StatusCode,
    pub headers: Vec<(Vec<u8>, Vec<u8>)>,
    pub body: Vec<u8>,
}

impl View for Response {
    type V = ResponseModel;

    open spec fn view(&self) -> ResponseModel {
        ResponseModel {
            status: self.status,
            headers: pairs_view(self.headers@),
            body: self.body@,
        }
    }
}

/// The health response: 200 with no headers and no body.
pub open spec fn health_model() -> ResponseModel {
    ResponseModel { status: StatusCode::Success, headers: seq![], body: seq![] }
}

/// A plain-text 200 response: `Content-Type: text/plain`, a
/// `Content-Length` equal to the byte length of `body`, and `body` itself,
/// verbatim. Echo and user-agent responses both take this shape.
pub open spec fn text_model(body: Seq<u8>) -> ResponseModel {
    ResponseModel {
        status: StatusCode::Success,
        headers: seq![
            (content_type_name(), text_plain_type()),
            (content_length_name(), dec_of(body.len())),
        ],
        body: body,
    }
}

/// The 404 response: `Content-Length: 0` and an empty body.
pub open spec fn not_found_model() -> ResponseModel {
    ResponseModel {
        status: StatusCode::NotFound,
        headers: seq![(content_length_name(), seq!['0' as u8])],
        body: seq![],
    }
}

/// The 400 response to a malformed request: `Content-Length: 0`, empty body.
pub open spec fn bad_request_model() -> ResponseModel {
    ResponseModel {
        status: StatusCode::BadRequest,
        headers: seq![(content_length_name(), seq!['0' as u8])],
        body: seq![],
    }
}

/// The response to a file download: when the file could be read, 200 with
/// `Content-Type: application/octet-stream`, a `Content-Length` equal to
/// the byte count, and the raw bytes as body; otherwise the 404 response.
pub open spec fn file_get_model(content: Option<Seq<u8>>) -> ResponseModel {
    match content {
        Some(c) => ResponseModel {
            status: StatusCode::Success,
            headers: seq![
                (content_type_name(), octet_stream_type()),
                (content_length_name(), dec_of(c.len())),
            ],
            body: c,
        },
        None => not_found_model(),
    }
}

/// The response to a file upload: 201 with no headers and no body when the
/// write succeeded, otherwise the 404 response.
pub open spec fn file_post_model(ok: bool) -> ResponseModel {
    if ok {
        ResponseModel { status: StatusCode::Created, headers: seq![], body: seq![] }
    } else {
        not_found_model()
    }
}

/// Builds the health response.
pub fn health_response() -> (r: Response)
    ensures
        r@ == health_model(),
{
    let r = Response { status: StatusCode::Success, headers: Vec::new(), body: Vec::new() };
    proof {
        assert(r@ =~= health_model());
    }
    r
}

/// Builds a plain-text 200 response carrying `body` verbatim.
pub fn text_response(body: &[u8]) -> (r: Response)
    ensures
        r@ == text_model(body@),
{
    let mut headers: Vec<(Vec<u8>, Vec<u8>)> = Vec::new();
    headers.push((content_type_name_bytes(), text_plain_type_bytes()));
    let n = body.len();
    headers.push((content_length_name_bytes(), u64_to_dec(n as u64)));
    let r = Response {
        status: StatusCode::Success,
        headers,
        body: crate::bytes::copy_range(body, 0, n),
    };
    proof {
        assert(body@.subrange(0, n as int) =~= body@);
        assert(r@ =~= text_model(body@));
    }
    r
}

/// Builds the 404 response.
pub fn not_found_response() -> (r: Response)
    ensures
        r@ == not_found_model(),
{
    let mut headers: Vec<(Vec<u8>, Vec<u8>)> = Vec::new();
    let mut zero: Vec<u8> = Vec::new();
    zero.push('0' as u8);
    headers.push((content_length_name_bytes(), zero));
    let r = Response { status: StatusCode::NotFound, headers, body: Vec::new() };
    proof {
        assert(r@.headers =~= not_found_model().headers);
        assert(r@ =~= not_found_model());
    }
    r
}

/// Builds the 400 response.
pub fn bad_request_response() -> (r: Response)
    ensures
        r@ == bad_request_model(),
{
    let mut headers: Vec<(Vec<u8>, Vec<u8>)> = Vec::new();
    let mut zero: Vec<u8> = Vec::new();
    zero.push('0' as u8);
    headers.push((content_length_name_bytes(), zero));
    let r = Response { status: StatusCode::BadRequest, headers, body: Vec::new() };
    proof {
        assert(r@.headers =~= bad_request_model().headers);
        assert(r@ =~= bad_request_model());
    }
    r
}

/// Builds the response to a file download from what the read returned:
/// the raw bytes on success, `None` on any read failure.
pub fn file_get_response(content: Option<Vec<u8>>) -> (r: Response)
    ensures
        content matches Some(c) ==> r@ == file_get_model(Some(c@)),
        content is None ==> r@ == file_get_model(None),
{
    match content {
        Some(c) => {
            let mut headers: Vec<(Vec<u8>, Vec<u8>)> = Vec::new();
            headers.push((content_type_name_bytes(), octet_stream_type_bytes()));
            let n = c.len();
            headers.push((content_length_name_bytes(), u64_to_dec(n as u64)));
            let r = Response { status: StatusCode::Success, headers, body: c };
            proof {
                assert(r@ =~= file_get_model(Some(r.body@)));
            }
            r
        },
        None => not_found_response(),
    }
}

/// Builds the response to a file upload from whether the write succeeded.
pub fn file_post_response(ok: bool) -> (r: Response)
    ensures
        r@ == file_post_model(ok),
{
    if ok {
        let r = Response { status: StatusCode::Created, headers: Vec::new(), body: Vec::new() };
        proof {
            assert(r@ =~= file_post_model(true));
        }
        r
    } else {
        not_found_response()
    }
}

/// One serialized header line: `name ": " value CRLF`.
pub open spec fn header_line_bytes(kv: (Seq<u8>, Seq<u8>)) -> Seq<u8> {
    kv.0 + colon_space() + kv.1 + crlf()
}

/// The serialized header block: every header line in order.
pub open spec fn headers_bytes(hs: Seq<(Seq<u8>, Seq<u8>)>) -> Seq<u8>
    decreases hs.len(),
{
    if hs.len() == 0 {
        seq![]
    } else {
        headers_bytes(hs.drop_last()) + header_line_bytes(hs.last())
    }
}

/// The full wire form of a response:
/// `status line CRLF *(header line) CRLF body`.
pub open spec fn response_bytes(r: ResponseModel) -> Seq<u8> {
    status_line_of(r.status) + crlf() + headers_bytes(r.headers) + crlf() + r.body
}

/// Serializes a response into its wire form.
pub fn serialize_response(r: &Response) -> (out: Vec<u8>)
    ensures
        out@ == response_bytes(r@),
{
    let mut out = status_line_bytes(r.status);
    let terminator = crlf_bytes();
    let sep = colon_space_bytes();
    append_bytes(&mut out, terminator.as_slice());
    let ghost hs = pairs_view(r.headers@);
    let mut i: usize = 0;
    proof {
        assert(headers_bytes(hs.take(0)) =~= Seq::<u8>::empty());
        assert(out@ =~= status_line_of(r.status) + crlf() + headers_bytes(hs.take(0)));
    }
    while i < r.headers.len()
        invariant
            i <= r.headers@.len(),
            hs == pairs_view(r.headers@),
            terminator@ == crlf(),
            sep@ == colon_space(),
            out@ == status_line_of(r.status) + crlf() + headers_bytes(hs.take(i as int)),
        decreases r.headers@.len() - i,
    {
        let kv = &r.headers[i];
        append_bytes(&mut out, kv.0.as_slice());
        append_bytes(&mut out, sep.as_slice());
        append_bytes(&mut out, kv.1.as_slice());
        append_bytes(&mut out, terminator.as_slice());
        proof {
            assert(hs.take(i + 1).drop_last() =~= hs.take(i as int));
            assert(hs.take(i + 1).last() == (kv.0@, kv.1@));
            assert(out@ =~= status_line_of(r.status) + crlf() + headers_bytes(hs.take(i + 1)));
        }
        i = i + 1;
    }
    append_bytes(&mut out, terminator.as_slice());
    append_bytes(&mut out, r.body.as_slice());
    proof {
        assert(hs.take(r.headers@.len() as int) =~= hs);
        assert(out@ =~= response_bytes(r@));
    }
    out
}

} // verus!
