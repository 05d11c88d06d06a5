//! The fixed route table: an ordered list of exact and prefix patterns
//! over the request path, checked first match wins, case-sensitive, with
//! no decoding of the path.

use vstd::prelude::*;

use crate::bytes::bytes_eq;
use crate::bytes::copy_range;
use crate::bytes::is_prefix;
use crate::bytes::starts_with;

verus! {

/// The health-check route.
pub open spec fn root_path() -> Seq<u8> {
    seq!['/' as u8]
}

/// Builds `root_path` as a vector: the bytes of `"/"`.
pub fn root_path_bytes() -> (out: Vec<u8>)
    ensures
        out@ == root_path(),
{
    let mut out: Vec<u8> = Vec::new();
    out.push('/' as u8);
    proof {
        assert(out@ =~= root_path());
    }
    out
}

/// Prefix of the echo route; the payload follows it.
pub open spec fn echo_prefix() -> Seq<u8> {
    seq!['/' as u8, 'e' as u8, 'c' as u8, 'h' as u8, 'o' as u8, '/' as u8]
}

/// Builds `echo_prefix` as a vector: the bytes of `"/echo/"`.
pub fn echo_prefix_bytes() -> (out: Vec<u8>)
    ensures
        out@ == echo_prefix(),
{
    let mut out: Vec<u8> = Vec::new();
    out.push('/' as u8);
    out.push('e' as u8);
    out.push('c' as u8);
    out.push('h' as u8);
    out.push('o' as u8);
    out.push('/' as u8);
    proof {
        assert(out@ =~= echo_prefix());
    }
    out
}

/// The user-agent reflection route.
pub open spec fn user_agent_path() -> Seq<u8> {
    seq!['/' as u8, 'u' as u8, 's' as u8, 'e' as u8, 'r' as u8, '-' as u8, 'a' as u8, 'g' as u8, 'e' as u8, 'n' as u8, 't' as u8]
}

/// Builds `user_agent_path` as a vector: the bytes of `"/user-agent"`.
pub fn user_agent_path_bytes() -> (out: Vec<u8>)
    ensures
        out@ == user_agent_path(),
{
    let mut out: Vec<u8> = Vec::new();
    out.push('/' as u8);
    out.push('u' as u8);
    out.push('s' as u8);
    out.push('e' as u8);
    out.push('r' as u8);
    out.push('-' as u8);
    out.push('a' as u8);
    out.push('g' as u8);
    out.push('e' as u8);
    out.push('n' as u8);
    out.push('t' as u8);
    proof {
        assert(out@ =~= user_agent_path());
    }
    out
}

/// Prefix of the file routes; the file name follows it.
pub open spec fn files_prefix() -> Seq<u8> {
    seq!['/' as u8, 'f' as u8, 'i' as u8, 'l' as u8, 'e' as u8, 's' as u8, '/' as u8]
}

/// Builds `files_prefix` as a vector: the bytes of `"/files/"`.
pub fn files_prefix_bytes() -> (out: Vec<u8>)
    ensures
        out@ == files_prefix(),
{
    let mut out: Vec<u8> = Vec::new();
    out.push('/' as u8);
    out.push('f' as u8);
    out.push('i' as u8);
    out.push('l' as u8);
    out.push('e' as u8);
    out.push('s' as u8);
    out.push('/' as u8);
    proof {
        assert(out@ =~= files_prefix());
    }
    out
}

/// Spec-level routing outcome.
pub enum RouteModel {
    /// `/`: the health check, whatever the method.
    Health,
    /// `/echo/<payload>`: echo the captured payload back.
    Echo(Seq<u8>),
    /// `/user-agent`: reflect the `User-Agent` header.
    UserAgent,
    /// `/files/<name>`: a file download or upload, by method.
    FileRoute(Seq<u8>),
    /// No pattern matched.
    Unmatched,
}

/// The handler a path selects, with what the pattern captured.
pub enum RouteTarget {
    /// `/`: the health check, whatever the method.
    Health,
    /// `/echo/<payload>`: echo the captured payload back.
    Echo(Vec<u8>),
    /// `/user-agent`: reflect the `User-Agent` header.
    UserAgent,
    /// `/files/<name>`: a file download or upload, by method.
    FileRoute(Vec<u8>),
    /// No pattern matched.
    Unmatched,
}

impl View for RouteTarget {
    type V = RouteModel;

    open spec fn view(&self) -> RouteModel {
        match self {
            RouteTarget::Health => RouteModel::Health,
            RouteTarget::Echo(p) => RouteModel::Echo(p@),
            RouteTarget::UserAgent => RouteModel::UserAgent,
            RouteTarget::FileRoute(n) => RouteModel::FileRoute(n@),
            RouteTarget::Unmatched => RouteModel::Unmatched,
        }
    }
}

/// The route table, in priority order: `/` exactly; then `/echo/` with at
/// least one byte captured after it; then `/user-agent` exactly; then
/// `/files/` with the (possibly empty) remainder captured; else unmatched.
pub open spec fn route_of(path: Seq<u8>) -> RouteModel {
    if path == root_path() {
        RouteModel::Health
    } else if is_prefix(echo_prefix(), path) && path.len() > echo_prefix().len() {
        RouteModel::Echo(path.skip(echo_prefix().len() as int))
    } else if path == user_agent_path() {
        RouteModel::UserAgent
    } else if is_prefix(files_prefix(), path) {
        RouteModel::FileRoute(path.skip(files_prefix().len() as int))
    } else {
        RouteModel::Unmatched
    }
}

/// Matches `path` against the route table.
pub fn route(path: &[u8]) -> (r: RouteTarget)
    ensures
        r@ == route_of(path@),
{
    let root = root_path_bytes();
    if bytes_eq(path, root.as_slice()) {
        return RouteTarget::Health;
    }
    let echo = echo_prefix_bytes();
    if starts_with(path, echo.as_slice()) && path.len() > echo.len() {
        let payload = copy_range(path, echo.len(), path.len());
        proof {
            assert(payload@ =~= path@.skip(echo_prefix().len() as int));
        }
        return RouteTarget::Echo(payload);
    }
    let ua = user_agent_path_bytes();
    if bytes_eq(path, ua.as_slice()) {
        return RouteTarget::UserAgent;
    }
    let files = files_prefix_bytes();
    if starts_with(path, files.as_slice()) {
        let name = copy_range(path, files.len(), path.len());
        proof {
            assert(name@ =~= path@.skip(files_prefix().len() as int));
        }
        return RouteTarget::FileRoute(name);
    }
    RouteTarget::Unmatched
}

} // verus!
