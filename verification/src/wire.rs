//! What the library takes from the crates that know HTTP: the parse of a
//! request head, the canonical forms of a method, a target and a header
//! name, reason phrases, dates, JSON strings and the web socket handshake.
//! Each is a call behind a contract that names the call's result.

use http::{Request, Version as HttpVersion};
use tungstenite::handshake::server::create_response;
use vstd::prelude::*;

verus! {

/// The HTTP versions that the server speaks.
#[derive(Debug, Copy, Clone, PartialEq, Eq, Structural)]
pub enum Version {
    Http10,
    Http11,
}

/// The names and values that a list of headers holds.
pub open spec fn pairs(headers: Seq<(Vec<u8>, Vec<u8>)>) -> Seq<(Seq<u8>, Seq<u8>)> {
    headers.map_values(|h: (Vec<u8>, Vec<u8>)| (h.0@, h.1@))
}

/// A request head as the parser found it in the buffer.
#[derive(Debug)]
pub struct RawHead {
    pub method: Vec<u8>,
    pub target: Vec<u8>,
    /// The minor version: 0 for HTTP/1.0, 1 for HTTP/1.1.
    pub version: u8,
    pub headers: Vec<(Vec<u8>, Vec<u8>)>,
    /// How many bytes of the buffer the head takes.
    pub len: usize,
}

/// What the parser makes of a buffer.
#[derive(Debug)]
pub enum HeadParse {
    /// The bytes are no request head; the text says why.
    Invalid(String),
    /// The bytes may be the beginning of a request head.
    Partial,
    /// The buffer begins with a whole request head.
    Complete(RawHead),
}

/// What a [`RawHead`] holds.
pub ghost struct RawHeadView {
    pub method: Seq<u8>,
    pub target: Seq<u8>,
    pub version: u8,
    pub headers: Seq<(Seq<u8>, Seq<u8>)>,
    pub len: usize,
}

/// What a [`HeadParse`] holds.
pub ghost enum HeadParseView {
    Invalid(Seq<char>),
    Partial,
    Complete(RawHeadView),
}

impl View for RawHead {
    type V = RawHeadView;

    open spec fn view(&self) -> RawHeadView {
        RawHeadView {
            method: self.method@,
            target: self.target@,
            version: self.version,
            headers: pairs(self.headers@),
            len: self.len,
        }
    }
}

impl View for HeadParse {
    type V = HeadParseView;

    open spec fn view(&self) -> HeadParseView {
        match self {
            HeadParse::Invalid(why) => HeadParseView::Invalid(why@),
            HeadParse::Partial => HeadParseView::Partial,
            HeadParse::Complete(head) => HeadParseView::Complete(head@),
        }
    }
}

/// How many headers a request head may have.
pub const MAX_HEADERS: usize = 16;

/// What `httparse` makes of `src` as a request head, with room for
/// [`MAX_HEADERS`] headers.
pub uninterp spec fn httparse_request(src: Seq<u8>) -> HeadParseView;

/// `httparse::Request::parse` on room for [`MAX_HEADERS`] headers. A complete head
/// ends inside the buffer and has no more headers than there is room for;
/// more headers than that make the bytes invalid.
#[verifier::external_body]
pub(crate) fn parse_request_head(src: &[u8]) -> (r: HeadParse)
    ensures
        r@ == httparse_request(src@),
        r matches HeadParse::Complete(head) ==> head.len <= src@.len() && head.headers@.len()
            <= MAX_HEADERS,
{
    let mut slots = [::httparse::EMPTY_HEADER; MAX_HEADERS];
    let mut req = ::httparse::Request::new(&mut slots);
    match req.parse(src) {
        Err(e) => HeadParse::Invalid(format!("{:?}", e)),
        Ok(::httparse::Status::Partial) => HeadParse::Partial,
        Ok(::httparse::Status::Complete(len)) => HeadParse::Complete(RawHead {
            method: req.method.unwrap_or_default().as_bytes().to_vec(),
            target: req.path.unwrap_or_default().as_bytes().to_vec(),
            version: req.version.unwrap_or_default(),
            headers: req.headers.iter().map(|h| (h.name.as_bytes().to_vec(), h.value.to_vec())).collect(),
            len,
        }),
    }
}

/// The method that `http` reads from `src`, as it writes it; none where it
/// takes `src` for no method.
pub uninterp spec fn http_method(src: Seq<u8>) -> Option<Seq<u8>>;

/// `http::Method::from_bytes`, then `Method::as_str`.
#[verifier::external_body]
pub(crate) fn canonical_method(src: &[u8]) -> (r: Option<Vec<u8>>)
    ensures
        match r {
            Some(m) => http_method(src@) == Some(m@),
            None => http_method(src@) is None,
        },
{
    ::http::Method::from_bytes(src).ok().map(|m| m.as_str().as_bytes().to_vec())
}

/// The path of the request target `src` as `http` reads it; none where it
/// takes `src` for no target.
pub uninterp spec fn http_uri_path(src: Seq<u8>) -> Option<Seq<u8>>;

/// `http::Uri::try_from` on the bytes, then `Uri::path`.
#[verifier::external_body]
pub(crate) fn uri_path(src: &[u8]) -> (r: Option<Vec<u8>>)
    ensures
        match r {
            Some(p) => http_uri_path(src@) == Some(p@),
            None => http_uri_path(src@) is None,
        },
{
    ::http::Uri::try_from(src).ok().map(|u| u.path().as_bytes().to_vec())
}

/// The header name that `http` reads from `src`, in the form it keeps and
/// writes names in; none where it takes `src` for no header name.
pub uninterp spec fn http_header_name(src: Seq<u8>) -> Option<Seq<u8>>;

/// `http::header::HeaderName::from_bytes`, then `HeaderName::as_str`.
#[verifier::external_body]
pub(crate) fn canonical_header_name(src: &[u8]) -> (r: Option<Vec<u8>>)
    ensures
        match r {
            Some(n) => http_header_name(src@) == Some(n@),
            None => http_header_name(src@) is None,
        },
{
    ::http::header::HeaderName::from_bytes(src).ok().map(|n| n.as_str().as_bytes().to_vec())
}

/// The reason phrase that `http` knows for the status `code`; none for a
/// number that is no status or has no phrase.
pub uninterp spec fn http_reason(code: u16) -> Option<Seq<char>>;

/// `http::StatusCode::from_u16`, then `StatusCode::canonical_reason`.
#[verifier::external_body]
pub(crate) fn canonical_reason(code: u16) -> (r: Option<String>)
    ensures
        match r {
            Some(text) => http_reason(code) == Some(text@),
            None => http_reason(code) is None,
        },
{
    ::http::StatusCode::from_u16(code).ok().and_then(|s| s.canonical_reason()).map(|t| t.to_string())
}

/// The first second that `httpdate` does not format: the year 10000.
pub const DATE_LIMIT: u64 = 253402300800;

/// The IMF-fixdate of the instant `secs` seconds after the Unix epoch.
pub uninterp spec fn http_date(secs: u64) -> Seq<u8>;

/// `httpdate::fmt_http_date` on the instant `secs` seconds after the epoch.
/// The formatter panics from the year 10000 on, which the precondition
/// excludes.
#[verifier::external_body]
pub(crate) fn imf_fixdate(secs: u64) -> (r: Vec<u8>)
    requires
        secs < DATE_LIMIT,
    ensures
        r@ == http_date(secs),
{
    let at = std::time::UNIX_EPOCH + std::time::Duration::from_secs(secs);
    ::httpdate::fmt_http_date(at).into_bytes()
}

/// `text` as a JSON string, quoted and escaped, as `serde_json` writes it.
pub uninterp spec fn json_string(text: Seq<char>) -> Seq<u8>;

/// `serde_json::to_vec` on a string. It cannot fail: a string has no value
/// that cannot be written, and the only other error is one of the writer,
/// which here is a vector and takes every write.
#[verifier::external_body]
pub(crate) fn json_quote(text: &str) -> (r: Vec<u8>)
    ensures
        r@ == json_string(text@),
{
    ::serde_json::to_vec(text).unwrap_or_default()
}

/// The status and the headers of the response that accepts a web socket
/// handshake.
#[derive(Debug)]
pub struct Handshake {
    pub status: u16,
    pub headers: Vec<(Vec<u8>, Vec<u8>)>,
}

/// What a [`Handshake`] holds.
pub ghost struct HandshakeView {
    pub status: u16,
    pub headers: Seq<(Seq<u8>, Seq<u8>)>,
}

impl View for Handshake {
    type V = HandshakeView;

    open spec fn view(&self) -> HandshakeView {
        HandshakeView { status: self.status, headers: pairs(self.headers@) }
    }
}

/// The status and headers with which `tungstenite` answers the request of
/// the given method, target, version and headers; or, where it refuses the
/// request as a handshake or `http` takes the values for no request, the
/// error as its `Debug` writes it.
pub uninterp spec fn ws_handshake(
    method: Seq<u8>,
    target: Seq<u8>,
    version: Version,
    headers: Seq<(Seq<u8>, Seq<u8>)>,
) -> Result<HandshakeView, Seq<char>>;

/// `tungstenite::handshake::server::create_response` on the request that
/// `http::Request::builder` makes of the values.
#[verifier::external_body]
pub(crate) fn handshake_response(
    method: &[u8],
    target: &[u8],
    version: Version,
    headers: &Vec<(Vec<u8>, Vec<u8>)>,
) -> (r: Result<Handshake, String>)
    ensures
        match r {
            Ok(h) => ws_handshake(method@, target@, version, pairs(headers@)) == Ok::<
                HandshakeView,
                Seq<char>,
            >(h@),
            Err(why) => ws_handshake(method@, target@, version, pairs(headers@)) == Err::<
                HandshakeView,
                Seq<char>,
            >(why@),
        },
{
    let v = match version {
        Version::Http10 => HttpVersion::HTTP_10,
        Version::Http11 => HttpVersion::HTTP_11,
    };
    let mut b = Request::builder().method(method).uri(target).version(v);
    for (k, v) in headers {
        b = b.header(k.as_slice(), v.as_slice());
    }
    let req = b.body(()).map_err(|e| format!("{:?}", e))?;
    let res = create_response(&req).map_err(|e| format!("{:?}", e))?;
    let pairs = res.headers().iter().map(|(k, v)| (k.as_str().as_bytes().to_vec(), v.as_bytes().to_vec()));
    Ok(Handshake { status: res.status().as_u16(), headers: pairs.collect() })
}

} // verus!
