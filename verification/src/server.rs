//! The request planner: from the raw bytes of one request to either a
//! finished response or a file action for the caller to carry out.
//!
//! File reads and writes are the one effect the library cannot perform
//! itself; the planner hands them out as explicit actions, and the
//! response builders in `response` turn each outcome back into a response.

use vstd::prelude::*;

use crate::bytes::copy_range;
use crate::num::parse_dec;
use crate::num::parse_u64;
use crate::request::lookup_header;
use crate::request::lookup_value;
use crate::request::parse;
use crate::request::parse_request;
use crate::request::ParsedRequest;
use crate::request::RequestModel;
use crate::response::bad_request_model;
use crate::response::bad_request_response;
use crate::response::health_model;
use crate::response::health_response;
use crate::response::not_found_model;
use crate::response::not_found_response;
use crate::response::text_model;
use crate::response::text_response;
use crate::response::Response;
use crate::response::ResponseModel;
use crate::router::route;
use crate::router::route_of;
use crate::router::RouteModel;
use crate::router::RouteTarget;

verus! {

/// Name of the header the user-agent route reflects.
pub open spec fn user_agent_name() -> Seq<u8> {
    seq!['U' as u8, 's' as u8, 'e' as u8, 'r' as u8, '-' as u8, 'A' as u8, 'g' as u8, 'e' as u8, 'n' as u8, 't' as u8]
}

/// Builds `user_agent_name` as a vector: the bytes of `"User-Agent"`.
pub fn user_agent_name_bytes() -> (out: Vec<u8>)
    ensures
        out@ == user_agent_name(),
{
    let mut out: Vec<u8> = Vec::new();
    out.push('U' as u8);
    out.push('s' as u8);
    out.push('e' as u8);
    out.push('r' as u8);
    out.push('-' as u8);
    out.push('A' as u8);
    out.push('g' as u8);
    out.push('e' as u8);
    out.push('n' as u8);
    out.push('t' as u8);
    proof {
        assert(out@ =~= user_agent_name());
    }
    out
}

/// The download method on file routes.
pub open spec fn get_token() -> Seq<u8> {
    seq!['G' as u8, 'E' as u8, 'T' as u8]
}

/// Builds `get_token` as a vector: the bytes of `"GET"`.
pub fn get_token_bytes() -> (out: Vec<u8>)
    ensures
        out@ == get_token(),
{
    let mut out: Vec<u8> = Vec::new();
    out.push('G' as u8);
    out.push('E' as u8);
    out.push('T' as u8);
    proof {
        assert(out@ =~= get_token());
    }
    out
}

/// The upload method on file routes.
pub open spec fn post_token() -> Seq<u8> {
    seq!['P' as u8, 'O' as u8, 'S' as u8, 'T' as u8]
}

/// Builds `post_token` as a vector: the bytes of `"POST"`.
pub fn post_token_bytes() -> (out: Vec<u8>)
    ensures
        out@ == post_token(),
{
    let mut out: Vec<u8> = Vec::new();
    out.push('P' as u8);
    out.push('O' as u8);
    out.push('S' as u8);
    out.push('T' as u8);
    proof {
        assert(out@ =~= post_token());
    }
    out
}

/// Spec-level action.
pub enum ActionModel {
    /// Send this finished response.
    Respond(ResponseModel),
    /// Read the named file and answer with `file_get_model` of the result.
    ReadFile(Seq<u8>),
    /// Create or truncate the named file, write the content, then set the
    /// file length; answer with `file_post_model` of the outcome.
    WriteFile(Seq<u8>, Seq<u8>, u64),
}

/// What one request asks the caller to do.
pub enum Action {
    /// Send this finished response.
    Respond(Response),
    /// Read the named file and answer with `file_get_response` of the result.
    ReadFile { name: Vec<u8> },
    /// Create or truncate the named file, write `content`, then set the
    /// file's length to `length`; answer with `file_post_response`.
    WriteFile { name: Vec<u8>, content: Vec<u8>, length: u64 },
}

impl View for Action {
    type V = ActionModel;

    open spec fn view(&self) -> ActionModel {
        match self {
            Action::Respond(r) => ActionModel::Respond(r@),
            Action::ReadFile { name } => ActionModel::ReadFile(name@),
            Action::WriteFile { name, content, length } => ActionModel::WriteFile(
                name@,
                content@,
                *length,
            ),
        }
    }
}

/// What a parsed request resolves to, by the route table:
/// - `/` answers 200 with an empty body, whatever the method;
/// - `/echo/<payload>` answers the payload as plain text;
/// - `/user-agent` answers the `User-Agent` value, or 400 when the header
///   is absent;
/// - `/files/<name>` is a read action under `GET` and, under `POST` with a
///   body and a parsable `Content-Length`, a write action; anything else
///   on it answers 404, as does any file route without a serving
///   directory;
/// - every other path answers 404.
pub open spec fn dispatch_of(req: RequestModel, has_directory: bool) -> ActionModel {
    match route_of(req.line.path) {
        RouteModel::Health => ActionModel::Respond(health_model()),
        RouteModel::Echo(payload) => ActionModel::Respond(text_model(payload)),
        RouteModel::UserAgent => match lookup_header(req.headers, user_agent_name()) {
            Some(v) => ActionModel::Respond(text_model(v)),
            None => ActionModel::Respond(bad_request_model()),
        },
        RouteModel::FileRoute(name) => {
            if !has_directory {
                ActionModel::Respond(not_found_model())
            } else if req.line.method == get_token() {
                ActionModel::ReadFile(name)
            } else if req.line.method == post_token() {
                match req.body {
                    None => ActionModel::Respond(not_found_model()),
                    Some(content) => match lookup_header(
                        req.headers,
                        crate::response::content_length_name(),
                    ) {
                        None => ActionModel::Respond(not_found_model()),
                        Some(lv) => match parse_dec(lv) {
                            Some(n) => ActionModel::WriteFile(name, content, n),
                            None => ActionModel::Respond(not_found_model()),
                        },
                    },
                }
            } else {
                ActionModel::Respond(not_found_model())
            }
        },
        RouteModel::Unmatched => ActionModel::Respond(not_found_model()),
    }
}

/// What the raw bytes of a request resolve to: a 400 response when the
/// request is malformed, else `dispatch_of` the parsed request.
pub open spec fn plan_of(data: Seq<u8>, has_directory: bool) -> ActionModel {
    match parse_request(data) {
        None => ActionModel::Respond(bad_request_model()),
        Some(req) => dispatch_of(req, has_directory),
    }
}

/// Resolves a parsed request to its action.
pub fn dispatch_request(req: &ParsedRequest, has_directory: bool) -> (a: Action)
    ensures
        a@ == dispatch_of(req@, has_directory),
{
    let target = route(req.line.path.as_slice());
    match target {
        RouteTarget::Health => Action::Respond(health_response()),
        RouteTarget::Echo(payload) => Action::Respond(text_response(payload.as_slice())),
        RouteTarget::UserAgent => {
            let ua = user_agent_name_bytes();
            match lookup_value(&req.headers, ua.as_slice()) {
                Some(v) => Action::Respond(text_response(v.as_slice())),
                None => Action::Respond(bad_request_response()),
            }
        },
        RouteTarget::FileRoute(name) => {
            if !has_directory {
                return Action::Respond(not_found_response());
            }
            let get = get_token_bytes();
            if crate::bytes::bytes_eq(req.line.method.as_slice(), get.as_slice()) {
                return Action::ReadFile { name };
            }
            let post = post_token_bytes();
            if !crate::bytes::bytes_eq(req.line.method.as_slice(), post.as_slice()) {
                return Action::Respond(not_found_response());
            }
            match &req.body {
                None => Action::Respond(not_found_response()),
                Some(content) => {
                    let cl = crate::response::content_length_name_bytes();
                    match lookup_value(&req.headers, cl.as_slice()) {
                        None => Action::Respond(not_found_response()),
                        Some(lv) => match parse_u64(lv.as_slice()) {
                            Some(n) => {
                                let copied = copy_range(content.as_slice(), 0, content.len());
                                proof {
                                    assert(copied@ =~= content@);
                                }
                                Action::WriteFile { name, content: copied, length: n }
                            },
                            None => Action::Respond(not_found_response()),
                        },
                    }
                },
            }
        },
        RouteTarget::Unmatched => Action::Respond(not_found_response()),
    }
}

/// Resolves the raw bytes of one request to its action.
pub fn plan_request(data: &[u8], has_directory: bool) -> (a: Action)
    ensures
        a@ == plan_of(data@, has_directory),
{
    match parse(data) {
        None => Action::Respond(bad_request_response()),
        Some(req) => dispatch_request(&req, has_directory),
    }
}

/// A run of `n` zero bytes.
pub open spec fn zeros(n: nat) -> Seq<u8> {
    Seq::new(n, |i| 0u8)
}

/// The bytes a file holds after a write action: the content written, then
/// the length set, which truncates a longer file and zero-pads a shorter
/// one. When `length` equals the content's byte count the file holds the
/// content exactly.
pub open spec fn stored_bytes(content: Seq<u8>, length: u64) -> Seq<u8> {
    if content.len() >= length {
        content.take(length as int)
    } else {
        content + zeros((length - content.len()) as nat)
    }
}

/// Joins the serving directory and a file name by plain concatenation: no
/// separator is added and no normalization or traversal guard is applied.
pub fn resolve_path(directory: &[u8], name: &[u8]) -> (out: Vec<u8>)
    ensures
        out@ == directory@ + name@,
{
    let mut out = copy_range(directory, 0, directory.len());
    crate::bytes::append_bytes(&mut out, name);
    proof {
        assert(directory@.subrange(0, directory@.len() as int) =~= directory@);
    }
    out
}

} // verus!
