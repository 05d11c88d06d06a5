//! HTTP/1.1 request parsing: the request line (method, path, version), the
//! header block, and the body after the blank-line separator.
//!
//! Every executable function is proved equal to a spec-level parse over
//! `Seq<u8>`, so the wire grammar is stated once, mathematically.

use vstd::prelude::*;

use crate::bytes::copy_range;
use crate::bytes::find;
use crate::bytes::find_at;
use crate::bytes::is_space;
use crate::bytes::space;

verus! {

/// The two-byte line terminator CR LF.
pub open spec fn crlf() -> Seq<u8> {
    seq![13u8, 10u8]
}

/// The four-byte blank-line separator CR LF CR LF between headers and body.
pub open spec fn blank_line() -> Seq<u8> {
    seq![13u8, 10u8, 13u8, 10u8]
}

/// The two-byte header separator `": "`.
pub open spec fn colon_space() -> Seq<u8> {
    seq![(':' as u8), (' ' as u8)]
}

/// Builds the CR LF terminator.
pub fn crlf_bytes() -> (out: Vec<u8>)
    ensures
        out@ == crlf(),
{
    let mut out: Vec<u8> = Vec::new();
    out.push(13u8);
    out.push(10u8);
    proof {
        assert(out@ =~= crlf());
    }
    out
}

/// Builds the CR LF CR LF separator.
pub fn blank_line_bytes() -> (out: Vec<u8>)
    ensures
        out@ == blank_line(),
{
    let mut out: Vec<u8> = Vec::new();
    out.push(13u8);
    out.push(10u8);
    out.push(13u8);
    out.push(10u8);
    proof {
        assert(out@ =~= blank_line());
    }
    out
}

/// Builds the `": "` separator.
pub fn colon_space_bytes() -> (out: Vec<u8>)
    ensures
        out@ == colon_space(),
{
    let mut out: Vec<u8> = Vec::new();
    out.push(':' as u8);
    out.push(' ' as u8);
    proof {
        assert(out@ =~= colon_space());
    }
    out
}

/// First non-whitespace position at or after `i`, or the length of `s`.
pub open spec fn tok_start(s: Seq<u8>, i: int) -> int
    decreases s.len() - i when 0 <= i
{
    if i >= s.len() {
        s.len() as int
    } else if is_space(s[i]) {
        tok_start(s, i + 1)
    } else {
        i
    }
}

/// First whitespace position at or after `i`, or the length of `s`.
pub open spec fn tok_end(s: Seq<u8>, i: int) -> int
    decreases s.len() - i when 0 <= i
{
    if i >= s.len() {
        s.len() as int
    } else if is_space(s[i]) {
        i
    } else {
        tok_end(s, i + 1)
    }
}

/// Where everything in `[i, k)` is whitespace and `k` is the end or a
/// non-whitespace byte, the whitespace scan stops at `k`.
pub proof fn lemma_tok_start_at(s: Seq<u8>, i: int, k: int)
    requires
        0 <= i <= k <= s.len(),
        forall|j: int| i <= j < k ==> is_space(s[j]),
        k == s.len() || !is_space(s[k]),
    ensures
        tok_start(s, i) == k,
    decreases k - i,
{
    if i < k {
        lemma_tok_start_at(s, i + 1, k);
    }
}

/// Where nothing in `[i, k)` is whitespace and `k` is the end or a
/// whitespace byte, the token scan stops at `k`.
pub proof fn lemma_tok_end_at(s: Seq<u8>, i: int, k: int)
    requires
        0 <= i <= k <= s.len(),
        forall|j: int| i <= j < k ==> !is_space(s[j]),
        k == s.len() || is_space(s[k]),
    ensures
        tok_end(s, i) == k,
    decreases k - i,
{
    if i < k {
        lemma_tok_end_at(s, i + 1, k);
    }
}

/// A request line as parsed: `method`, `path` and `version` are the first
/// three whitespace-separated tokens.
pub struct RequestLine {
    pub method: Vec<u8>,
    pub path: Vec<u8>,
    pub version: Vec<u8>,
}

/// Spec-level request line.
#[verifier::ext_equal]
pub struct RequestLineModel {
    pub method: Seq<u8>,
    pub path: Seq<u8>,
    pub version: Seq<u8>,
}

impl View for RequestLine {
    type V = RequestLineModel;

    open spec fn view(&self) -> RequestLineModel {
        RequestLineModel { method: self.method@, path: self.path@, version: self.version@ }
    }
}

/// What parsing a request line yields: the first two whitespace-separated
/// tokens are the method and the path, both required non-empty; a third
/// token, if present, is the version (empty otherwise).
pub open spec fn parse_request_line(line: Seq<u8>) -> Option<RequestLineModel> {
    let m0 = tok_start(line, 0);
    let m1 = tok_end(line, m0);
    let p0 = tok_start(line, m1);
    let p1 = tok_end(line, p0);
    let v0 = tok_start(line, p1);
    let v1 = tok_end(line, v0);
    if m0 < m1 && p0 < p1 {
        Some(
            RequestLineModel {
                method: line.subrange(m0, m1),
                path: line.subrange(p0, p1),
                version: line.subrange(v0, v1),
            },
        )
    } else {
        None
    }
}

/// Scans to the first non-whitespace byte at or after `i`.
fn scan_tok_start(s: &[u8], i: usize) -> (r: usize)
    requires
        i <= s@.len(),
    ensures
        r == tok_start(s@, i as int),
        i <= r <= s@.len(),
{
    let mut j: usize = i;
    while j < s.len() && space(s[j])
        invariant
            i <= j <= s@.len(),
            tok_start(s@, i as int) == tok_start(s@, j as int),
        decreases s@.len() - j,
    {
        j = j + 1;
    }
    j
}

/// Scans to the first whitespace byte at or after `i`.
fn scan_tok_end(s: &[u8], i: usize) -> (r: usize)
    requires
        i <= s@.len(),
    ensures
        r == tok_end(s@, i as int),
        i <= r <= s@.len(),
{
    let mut j: usize = i;
    while j < s.len() && !space(s[j])
        invariant
            i <= j <= s@.len(),
            tok_end(s@, i as int) == tok_end(s@, j as int),
        decreases s@.len() - j,
    {
        j = j + 1;
    }
    j
}

/// Parses a request line into its method, path and version tokens; `None`
/// when fewer than two tokens are present.
pub fn parse_header(line: &[u8]) -> (r: Option<RequestLine>)
    ensures
        r matches Some(rl) ==> parse_request_line(line@) == Some(rl@),
        r is None ==> parse_request_line(line@) is None,
{
    let m0 = scan_tok_start(line, 0);
    let m1 = scan_tok_end(line, m0);
    let p0 = scan_tok_start(line, m1);
    let p1 = scan_tok_end(line, p0);
    let v0 = scan_tok_start(line, p1);
    let v1 = scan_tok_end(line, v0);
    if m0 < m1 && p0 < p1 {
        Some(
            RequestLine {
                method: copy_range(line, m0, m1),
                path: copy_range(line, p0, p1),
                version: copy_range(line, v0, v1),
            },
        )
    } else {
        None
    }
}

/// What splitting one header line on the first `": "` yields: the name
/// before it and the value after it; `None` when the separator is absent.
pub open spec fn split_header_line(line: Seq<u8>) -> Option<(Seq<u8>, Seq<u8>)> {
    match find_at(line, colon_space(), 0) {
        Some(i) => Some((line.take(i), line.skip(i + 2))),
        None => None,
    }
}

/// End of the first line of `s`: the position of the first CR LF, or the
/// length of `s` when no CR LF remains (clamped into bounds).
pub open spec fn line_end(s: Seq<u8>) -> int {
    match find_at(s, crlf(), 0) {
        Some(i) => if 0 <= i <= s.len() {
            i
        } else {
            s.len() as int
        },
        None => s.len() as int,
    }
}

/// Header lines of `s`, in order, up to (not including) the first empty
/// line: each line that contains `": "` contributes one (name, value)
/// pair, and every other line is skipped.
pub open spec fn parse_headers(s: Seq<u8>) -> Seq<(Seq<u8>, Seq<u8>)>
    decreases s.len(),
{
    if s.len() == 0 {
        seq![]
    } else {
        let le = line_end(s);
        if le == 0 {
            seq![]
        } else {
            let line = s.take(le);
            let rest = if le + 2 <= s.len() {
                s.skip(le + 2)
            } else {
                Seq::empty()
            };
            let tail = parse_headers(rest);
            match split_header_line(line) {
                Some(kv) => seq![kv] + tail,
                None => tail,
            }
        }
    }
}

/// Value of the last header named `name`, or `None` when absent: when one
/// name occurs on several lines the last occurrence wins.
pub open spec fn lookup_header(hs: Seq<(Seq<u8>, Seq<u8>)>, name: Seq<u8>) -> Option<Seq<u8>>
    decreases hs.len(),
{
    if hs.len() == 0 {
        None
    } else if hs.last().0 == name {
        Some(hs.last().1)
    } else {
        lookup_header(hs.drop_last(), name)
    }
}

/// View of a vector of header pairs.
pub open spec fn pairs_view(v: Seq<(Vec<u8>, Vec<u8>)>) -> Seq<(Seq<u8>, Seq<u8>)> {
    v.map(|i: int, p: (Vec<u8>, Vec<u8>)| (p.0@, p.1@))
}

/// Splits one header line on its first `": "`.
fn split_line(line: &[u8]) -> (r: Option<(Vec<u8>, Vec<u8>)>)
    ensures
        r matches Some(kv) ==> split_header_line(line@) == Some((kv.0@, kv.1@)),
        r is None ==> split_header_line(line@) is None,
{
    let sep = colon_space_bytes();
    proof {
        assert(sep@.len() == 2);
    }
    let fr = find(line, sep.as_slice(), 0);
    match fr {
        Some(i) => {
            let n = line.len();
            proof {
                assert(i + sep@.len() <= line@.len());
            }
            let name = copy_range(line, 0, i);
            let value = copy_range(line, i + 2, n);
            proof {
                assert(line@.take(i as int) =~= line@.subrange(0, i as int));
                assert(line@.skip(i + 2) =~= line@.subrange(i + 2, line@.len() as int));
            }
            Some((name, value))
        },
        None => None,
    }
}

/// Parses the header block of `s`: every line before the first empty line,
/// keeping the lines that split on `": "`.
pub fn parse_header_block(s: &[u8]) -> (v: Vec<(Vec<u8>, Vec<u8>)>)
    ensures
        pairs_view(v@) == parse_headers(s@),
    decreases s@.len(),
{
    if s.len() == 0 {
        let v: Vec<(Vec<u8>, Vec<u8>)> = Vec::new();
        proof {
            assert(pairs_view(v@) =~= parse_headers(s@));
        }
        return v;
    }
    let terminator = crlf_bytes();
    match find(s, terminator.as_slice(), 0) {
        None => {
            // One final unterminated line; nothing follows it.
            let line = copy_range(s, 0, s.len());
            proof {
                assert(line_end(s@) == s@.len() as int);
                assert(s@.take(s@.len() as int) =~= s@);
                assert(parse_headers(Seq::<u8>::empty()) =~= Seq::<(Seq<u8>, Seq<u8>)>::empty());
            }
            let mut v: Vec<(Vec<u8>, Vec<u8>)> = Vec::new();
            match split_line(line.as_slice()) {
                Some(kv) => {
                    let ghost kvm = (kv.0@, kv.1@);
                    v.push(kv);
                    proof {
                        assert(pairs_view(v@) =~= seq![kvm] + parse_headers(Seq::<u8>::empty()));
                    }
                },
                None => {
                    proof {
                        assert(pairs_view(v@) =~= parse_headers(s@));
                    }
                },
            }
            v
        },
        Some(i) => {
            proof {
                assert(line_end(s@) == i as int);
            }
            if i == 0 {
                let v: Vec<(Vec<u8>, Vec<u8>)> = Vec::new();
                proof {
                    assert(pairs_view(v@) =~= parse_headers(s@));
                }
                return v;
            }
            let line = copy_range(s, 0, i);
            let rest = copy_range(s, i + 2, s.len());
            proof {
                assert(line@ =~= s@.take(i as int));
                assert(rest@ =~= s@.skip(i + 2));
            }
            let mut v = parse_header_block(rest.as_slice());
            match split_line(line.as_slice()) {
                Some(kv) => {
                    let ghost kvm = (kv.0@, kv.1@);
                    let ghost tail = v@;
                    v.insert(0, kv);
                    proof {
                        assert(v@ =~= seq![kv] + tail);
                        assert(pairs_view(v@) =~= seq![kvm] + pairs_view(tail));
                    }
                    v
                },
                None => v,
            }
        },
    }
}

/// Parses the header block of `headers` and returns the value of the last
/// line named `name`, or `None` when no such header is present.
pub fn header_value(headers: &[u8], name: &[u8]) -> (r: Option<Vec<u8>>)
    ensures
        r matches Some(v) ==> lookup_header(parse_headers(headers@), name@) == Some(v@),
        r is None ==> lookup_header(parse_headers(headers@), name@) is None,
{
    let pairs = parse_header_block(headers);
    lookup_value(&pairs, name)
}

/// Returns the value of the last pair named `name`, or `None`.
pub fn lookup_value(pairs: &Vec<(Vec<u8>, Vec<u8>)>, name: &[u8]) -> (r: Option<Vec<u8>>)
    ensures
        r matches Some(v) ==> lookup_header(pairs_view(pairs@), name@) == Some(v@),
        r is None ==> lookup_header(pairs_view(pairs@), name@) is None,
{
    let ghost hs = pairs_view(pairs@);
    let mut i: usize = pairs.len();
    proof {
        assert(pairs_view(pairs@).take(i as int) =~= pairs_view(pairs@));
    }
    while i > 0
        invariant
            i <= pairs@.len(),
            hs == pairs_view(pairs@),
            lookup_header(hs, name@) == lookup_header(pairs_view(pairs@).take(i as int), name@),
        decreases i,
    {
        let p = &pairs[i - 1];
        proof {
            assert(pairs_view(pairs@).take(i as int).last() == (p.0@, p.1@));
            assert(pairs_view(pairs@).take(i as int).drop_last() =~= pairs_view(pairs@).take(
                i - 1,
            ));
        }
        if crate::bytes::bytes_eq(p.0.as_slice(), name) {
            let value = copy_range(p.1.as_slice(), 0, p.1.len());
            proof {
                assert(pairs_view(pairs@).take(i as int).len() == i);
                assert(lookup_header(pairs_view(pairs@).take(i as int), name@) == Some(p.1@));
                assert(value@ =~= p.1@);
            }
            return Some(value);
        }
        i = i - 1;
    }
    proof {
        assert(pairs_view(pairs@).take(0) =~= Seq::<(Seq<u8>, Seq<u8>)>::empty());
    }
    None
}

/// Spec-level parsed request: the request line, the header pairs, and the
/// body when the blank-line separator was present.
#[verifier::ext_equal]
pub struct RequestModel {
    pub line: RequestLineModel,
    pub headers: Seq<(Seq<u8>, Seq<u8>)>,
    pub body: Option<Seq<u8>>,
}

/// A fully parsed request.
pub struct ParsedRequest {
    pub line: RequestLine,
    pub headers: Vec<(Vec<u8>, Vec<u8>)>,
    pub body: Option<Vec<u8>>,
}

impl View for ParsedRequest {
    type V = RequestModel;

    open spec fn view(&self) -> RequestModel {
        RequestModel {
            line: self.line@,
            headers: pairs_view(self.headers@),
            body: match self.body {
                Some(b) => Some(b@),
                None => None,
            },
        }
    }
}

/// The body of a raw request: everything after the first blank-line
/// separator, or absent when no separator occurs.
pub open spec fn body_of(data: Seq<u8>) -> Option<Seq<u8>> {
    match find_at(data, blank_line(), 0) {
        Some(i) => Some(data.skip(i + 4)),
        None => None,
    }
}

/// What parsing a whole raw request yields: `None` (a malformed request)
/// when no CR LF terminates a request line or the line has fewer than two
/// tokens; otherwise the request line, the headers that follow it, and the
/// body after the first blank line.
pub open spec fn parse_request(data: Seq<u8>) -> Option<RequestModel> {
    match find_at(data, crlf(), 0) {
        None => None,
        Some(i) => {
            match parse_request_line(data.take(i)) {
                None => None,
                Some(rl) => Some(
                    RequestModel {
                        line: rl,
                        headers: parse_headers(data.skip(i + 2)),
                        body: body_of(data),
                    },
                ),
            }
        },
    }
}

/// Parses a raw request: request line, header block and body.
pub fn parse(data: &[u8]) -> (r: Option<ParsedRequest>)
    ensures
        r matches Some(pr) ==> parse_request(data@) == Some(pr@),
        r is None ==> parse_request(data@) is None,
{
    let terminator = crlf_bytes();
    let fr = find(data, terminator.as_slice(), 0);
    match fr {
        None => None,
        Some(i) => {
            let line_slice = vstd::slice::slice_subrange(data, 0, i);
            proof {
                assert(line_slice@ =~= data@.take(i as int));
            }
            match parse_header(line_slice) {
                None => None,
                Some(rl) => {
                    let n = data.len();
                    let rest = vstd::slice::slice_subrange(data, i + 2, n);
                    proof {
                        assert(rest@ =~= data@.skip(i + 2));
                    }
                    let headers = parse_header_block(rest);
                    let sep = blank_line_bytes();
                    let fb = find(data, sep.as_slice(), 0);
                    let body = match fb {
                        Some(j) => {
                            let m = data.len();
                            proof {
                                assert(j + sep@.len() <= data@.len());
                            }
                            let b = copy_range(data, j + 4, m);
                            proof {
                                assert(b@ =~= data@.skip(j + 4));
                            }
                            Some(b)
                        },
                        None => None,
                    };
                    Some(ParsedRequest { line: rl, headers, body })
                },
            }
        },
    }
}

/// True when the buffered bytes already hold a full header block, that is,
/// the blank-line separator has been seen.
pub fn request_complete(data: &[u8]) -> (r: bool)
    ensures
        r <==> find_at(data@, blank_line(), 0) is Some,
{
    let sep = blank_line_bytes();
    let fb = find(data, sep.as_slice(), 0);
    match fb {
        Some(_) => true,
        None => false,
    }
}

} // verus!
