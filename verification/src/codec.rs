//! The HTTP/1.x codec: the decoding of a request head out of a buffer and
//! the framing of a response head into one.

use crate::buffer::{buffer_as_slice, buffer_extend, buffer_split_to, buffered};
use crate::request::{Builder, HeadView, RequestHead};
use crate::results::{Error, ErrorKind, ErrorView};
use crate::text::{ascii, ascii_bytes, copy_bytes, decimal, decimal_bytes, push_bytes};
use crate::wire::{
    canonical_header_name, canonical_method, canonical_reason, http_date, http_header_name,
    http_method, http_reason, http_uri_path, httparse_request, imf_fixdate, pairs,
    parse_request_head, uri_path, HeadParse, HeadParseView, RawHead, RawHeadView, Version,
    DATE_LIMIT,
};
use vstd::prelude::*;
use vstd::string::*;
use vstd::utf8::encode_utf8;

verus! {

/// Whether a byte may stand in a header value: anything but a control
/// character other than the tab.
pub open spec fn is_value_byte(b: u8) -> bool {
    (b >= 32 && b != 127) || b == 9
}

/// Whether `value` may be a header value.
pub open spec fn is_value(value: Seq<u8>) -> bool {
    forall|i: int| 0 <= i < value.len() ==> is_value_byte(#[trigger] value[i])
}

/// Whether every header of the list has a value that may be one.
pub open spec fn all_values(headers: Seq<(Seq<u8>, Seq<u8>)>) -> bool {
    forall|i: int| 0 <= i < headers.len() ==> is_value((#[trigger] headers[i]).1)
}

/// Tests [`is_value`].
pub fn check_value(value: &[u8]) -> (r: bool)
    ensures
        r == is_value(value@),
{
    let mut i: usize = 0;
    while i < value.len()
        invariant
            i <= value@.len(),
            forall|k: int| 0 <= k < i ==> is_value_byte(#[trigger] value@[k]),
        decreases value@.len() - i,
    {
        let b = value[i];
        if !((b >= 32 && b != 127) || b == 9) {
            assert(!is_value_byte(value@[i as int]));
            return false;
        }
        i += 1;
    }
    true
}

/// The version that a minor version number stands for.
pub open spec fn version_of(minor: u8) -> Option<Version> {
    if minor == 0 {
        Some(Version::Http10)
    } else if minor == 1 {
        Some(Version::Http11)
    } else {
        None
    }
}

/// The headers with each name in its canonical form; none where one of
/// the names is no header name.
pub open spec fn canonical_headers(headers: Seq<(Seq<u8>, Seq<u8>)>) -> Option<
    Seq<(Seq<u8>, Seq<u8>)>,
>
    decreases headers.len(),
{
    if headers.len() == 0 {
        Some(Seq::empty())
    } else {
        match (canonical_headers(headers.drop_last()), http_header_name(headers.last().0)) {
            (Some(init), Some(name)) => Some(init.push((name, headers.last().1))),
            _ => None,
        }
    }
}

/// The message of the error for bytes that are no request head.
pub open spec fn parse_failed_message(why: Seq<char>) -> Seq<char> {
    "failed to parse http request: "@ + why
}

/// The message of the error for a version other than 1.0 and 1.1.
pub open spec fn version_message() -> Seq<char> {
    "only HTTP/1.0 or 1.1 accepted"@
}

/// The message of the error for a header value with a byte that may not
/// stand in one.
pub open spec fn header_message() -> Seq<char> {
    "header decode error"@
}

/// What becomes of a parsed head: a decode fault for a version that is not
/// accepted or a header value that may not be one; otherwise the head with
/// method, path and header names in canonical form, or no head where one
/// of them is refused.
pub open spec fn built(raw: RawHeadView) -> Result<Option<HeadView>, ErrorView> {
    match version_of(raw.version) {
        None => Err(ErrorView { kind: ErrorKind::DecodeFault, message: version_message() }),
        Some(version) => if !all_values(raw.headers) {
            Err(ErrorView { kind: ErrorKind::DecodeFault, message: header_message() })
        } else {
            Ok(
                assembled(
                    raw,
                    version,
                    http_method(raw.method),
                    http_uri_path(raw.target),
                    canonical_headers(raw.headers),
                ),
            )
        },
    }
}

/// What decoding gives for a parse: a decode fault for invalid bytes,
/// nothing yet for a partial head, and for a complete one what [`built`]
/// says.
pub open spec fn decode_result(parse: HeadParseView) -> Result<
    Option<Option<HeadView>>,
    ErrorView,
> {
    match parse {
        HeadParseView::Invalid(why) => Err(
            ErrorView { kind: ErrorKind::DecodeFault, message: parse_failed_message(why) },
        ),
        HeadParseView::Partial => Ok(None),
        HeadParseView::Complete(raw) => match built(raw) {
            Ok(head) => Ok(Some(head)),
            Err(e) => Err(e),
        },
    }
}

/// What decoding leaves in the buffer: a complete head leaves it, anything
/// else stays.
pub open spec fn rest_after(parse: HeadParseView, buffer: Seq<u8>) -> Seq<u8> {
    match parse {
        HeadParseView::Complete(raw) => buffer.skip(raw.len as int),
        _ => buffer,
    }
}

fn check_values(headers: &Vec<(Vec<u8>, Vec<u8>)>) -> (r: bool)
    ensures
        r == all_values(pairs(headers@)),
{
    let mut i: usize = 0;
    while i < headers.len()
        invariant
            i <= headers@.len(),
            forall|k: int| 0 <= k < i ==> is_value((#[trigger] pairs(headers@)[k]).1),
        decreases headers@.len() - i,
    {
        assert(pairs(headers@)[i as int].1 == headers@[i as int].1@);
        if !check_value(headers[i].1.as_slice()) {
            return false;
        }
        i += 1;
    }
    true
}

fn canonicalize(headers: &Vec<(Vec<u8>, Vec<u8>)>) -> (r: Option<Vec<(Vec<u8>, Vec<u8>)>>)
    ensures
        match r {
            Some(out) => canonical_headers(pairs(headers@)) == Some(pairs(out@)),
            None => canonical_headers(pairs(headers@)) is None,
        },
{
    let mut out: Vec<(Vec<u8>, Vec<u8>)> = Vec::new();
    let mut i: usize = 0;
    let ghost all = pairs(headers@);
    assert(all.subrange(0, 0) =~= Seq::empty());
    assert(pairs(out@) =~= Seq::empty());
    while i < headers.len()
        invariant
            i <= headers@.len(),
            all == pairs(headers@),
            canonical_headers(all.subrange(0, i as int)) == Some(pairs(out@)),
        decreases headers@.len() - i,
    {
        let ghost prefix = all.subrange(0, i + 1);
        assert(prefix.drop_last() =~= all.subrange(0, i as int));
        assert(prefix.last() == (headers@[i as int].0@, headers@[i as int].1@));
        match canonical_header_name(headers[i].0.as_slice()) {
            Some(name) => {
                let ghost before = out@;
                out.push((name, copy_bytes(headers[i].1.as_slice())));
                assert(pairs(out@) =~= pairs(before).push((name@, headers@[i as int].1@)));
            },
            None => {
                proof {
                    lemma_refused_stays_refused(all, i + 1);
                }
                return None;
            },
        }
        i += 1;
    }
    assert(all.subrange(0, i as int) =~= all);
    Some(out)
}

/// Once a name is refused, more headers do not mend the list.
proof fn lemma_refused_stays_refused(headers: Seq<(Seq<u8>, Seq<u8>)>, k: int)
    requires
        0 <= k <= headers.len(),
        canonical_headers(headers.subrange(0, k)) is None,
    ensures
        canonical_headers(headers) is None,
    decreases headers.len() - k,
{
    if k == headers.len() {
        assert(headers.subrange(0, k) =~= headers);
    } else {
        let next = headers.subrange(0, k + 1);
        assert(next.drop_last() =~= headers.subrange(0, k));
        lemma_refused_stays_refused(headers, k + 1);
    }
}

/// The head made of a parsed head, its version, and the canonical forms
/// of its method, of its path and of its headers: there is none where one
/// of the three was refused.
pub open spec fn assembled(
    raw: RawHeadView,
    version: Version,
    method: Option<Seq<u8>>,
    path: Option<Seq<u8>>,
    headers: Option<Seq<(Seq<u8>, Seq<u8>)>>,
) -> Option<HeadView> {
    match (method, path, headers) {
        (Some(method), Some(path), Some(headers)) => Some(
            HeadView { method, target: raw.target, path, version, headers },
        ),
        _ => None,
    }
}

/// Puts a head together: see [`assembled`].
pub fn assemble_head(
    raw: RawHead,
    version: Version,
    method: Option<Vec<u8>>,
    path: Option<Vec<u8>>,
    headers: Option<Vec<(Vec<u8>, Vec<u8>)>>,
) -> (r: Builder)
    ensures
        r@ == assembled(
            raw@,
            version,
            match method {
                Some(m) => Some(m@),
                None => None,
            },
            match path {
                Some(p) => Some(p@),
                None => None,
            },
            match headers {
                Some(h) => Some(pairs(h@)),
                None => None,
            },
        ),
{
    let head = match (method, path, headers) {
        (Some(method), Some(path), Some(headers)) => Some(
            RequestHead { method, target: raw.target, path, version, headers },
        ),
        _ => None,
    };
    Builder { head }
}

/// Makes the head of a request out of what the parser found.
pub fn build_head(raw: RawHead) -> (r: Result<Builder, Error>)
    ensures
        match (r, built(raw@)) {
            (Ok(builder), Ok(head)) => builder@ == head,
            (Err(e), Err(view)) => e@ == view,
            _ => false,
        },
{
    let version = if raw.version == 0 {
        Version::Http10
    } else if raw.version == 1 {
        Version::Http11
    } else {
        return Err(
            Error::new_with_kind(
                ErrorKind::DecodeFault,
                String::from_str("only HTTP/1.0 or 1.1 accepted"),
            ),
        );
    };
    if !check_values(&raw.headers) {
        return Err(
            Error::new_with_kind(ErrorKind::DecodeFault, String::from_str("header decode error")),
        );
    }
    let method = canonical_method(raw.method.as_slice());
    let path = uri_path(raw.target.as_slice());
    let headers = canonicalize(&raw.headers);
    Ok(assemble_head(raw, version, method, path, headers))
}

/// Decodes the request head at the front of `src`. A complete head leaves
/// the buffer, so that what stays is the body; bytes that are only the
/// beginning of a head stay for the next attempt.
pub fn decode(src: &mut ::bytes::BytesMut) -> (r: Result<Option<Builder>, Error>)
    ensures
        buffered(*final(src)) == rest_after(
            httparse_request(buffered(*old(src))),
            buffered(*old(src)),
        ),
        match (r, decode_result(httparse_request(buffered(*old(src))))) {
            (Ok(Some(builder)), Ok(Some(head))) => builder@ == head,
            (Ok(None), Ok(None)) => true,
            (Err(e), Err(view)) => e@ == view,
            _ => false,
        },
{
    match parse_request_head(buffer_as_slice(src)) {
        HeadParse::Invalid(why) => {
            let mut message = String::from_str("failed to parse http request: ");
            message.append(why.as_str());
            Err(Error::new_with_kind(ErrorKind::DecodeFault, message))
        },
        HeadParse::Partial => Ok(None),
        HeadParse::Complete(raw) => {
            let _head_bytes = buffer_split_to(src, raw.len);
            match build_head(raw) {
                Ok(builder) => Ok(Some(builder)),
                Err(e) => Err(e),
            }
        },
    }
}

/// The end of a line.
pub open spec fn crlf() -> Seq<u8> {
    seq![13u8, 10u8]
}

/// A version as it stands in a status line.
pub open spec fn version_text(version: Version) -> Seq<u8> {
    match version {
        Version::Http10 => ascii("HTTP/1.0"@),
        Version::Http11 => ascii("HTTP/1.1"@),
    }
}

/// The reason phrase behind a status code: the canonical one, or a note
/// that there is none.
pub open spec fn reason_text(status: u16) -> Seq<u8> {
    match http_reason(status) {
        Some(text) => encode_utf8(text),
        None => ascii("<unknown status code>"@),
    }
}

/// The first line of a response whose status has the reason phrase
/// `reason`.
pub open spec fn status_line_with(version: Version, status: u16, reason: Seq<u8>) -> Seq<u8> {
    version_text(version) + seq![32u8] + decimal(status as nat) + seq![32u8] + reason + crlf()
}

/// The first line of a response.
pub open spec fn status_line(version: Version, status: u16) -> Seq<u8> {
    status_line_with(version, status, reason_text(status))
}

/// One header as a line.
pub open spec fn header_line(name: Seq<u8>, value: Seq<u8>) -> Seq<u8> {
    name + seq![58u8, 32u8] + value + crlf()
}

/// The headers as lines, in their order.
pub open spec fn header_lines(headers: Seq<(Seq<u8>, Seq<u8>)>) -> Seq<u8>
    decreases headers.len(),
{
    if headers.len() == 0 {
        Seq::empty()
    } else {
        header_lines(headers.drop_last()) + header_line(headers.last().0, headers.last().1)
    }
}

/// The head of a response as it goes on the wire: the status line with
/// the reason phrase `reason`, the server, the length of the body and the
/// date, the headers of the application in their order, and an empty line.
pub open spec fn head_bytes(
    server: Seq<u8>,
    version: Version,
    status: u16,
    reason: Seq<u8>,
    headers: Seq<(Seq<u8>, Seq<u8>)>,
    content_length: nat,
    date: Seq<u8>,
) -> Seq<u8> {
    status_line_with(version, status, reason) + header_line(ascii("Server"@), server) + header_line(
        ascii("Content-Length"@),
        decimal(content_length),
    ) + header_line(ascii("Date"@), date) + header_lines(headers) + crlf()
}

/// The head of a response as it goes on the wire, with the reason phrase
/// of its status: see [`head_bytes`].
pub open spec fn framed_head(
    server: Seq<u8>,
    version: Version,
    status: u16,
    headers: Seq<(Seq<u8>, Seq<u8>)>,
    content_length: nat,
    date: Seq<u8>,
) -> Seq<u8> {
    head_bytes(server, version, status, reason_text(status), headers, content_length, date)
}

/// Frames the head of a response: see [`head_bytes`].
pub fn frame_head(
    server: &[u8],
    version: Version,
    status: u16,
    reason: &[u8],
    headers: &Vec<(Vec<u8>, Vec<u8>)>,
    content_length: usize,
    date: &[u8],
) -> (r: Vec<u8>)
    ensures
        r@ == head_bytes(
            server@,
            version,
            status,
            reason@,
            pairs(headers@),
            content_length as nat,
            date@,
        ),
{
    let mut out: Vec<u8> = Vec::new();
    write_status_line(&mut out, version, status, reason);
    proof {
        reveal_strlit("Server");
        reveal_strlit("Content-Length");
        reveal_strlit("Date");
    }
    write_header(&mut out, ascii_bytes("Server").as_slice(), server);
    let length = decimal_bytes(content_length as u64);
    write_header(&mut out, ascii_bytes("Content-Length").as_slice(), length.as_slice());
    write_header(&mut out, ascii_bytes("Date").as_slice(), date);
    let ghost fixed = out@;
    let mut i: usize = 0;
    assert(pairs(headers@).subrange(0, 0) =~= Seq::empty());
    assert(out@ =~= fixed + header_lines(pairs(headers@).subrange(0, 0)));
    while i < headers.len()
        invariant
            i <= headers@.len(),
            out@ == fixed + header_lines(pairs(headers@).subrange(0, i as int)),
        decreases headers@.len() - i,
    {
        let ghost prefix = pairs(headers@).subrange(0, i + 1);
        assert(prefix.drop_last() =~= pairs(headers@).subrange(0, i as int));
        assert(prefix.last() == (headers@[i as int].0@, headers@[i as int].1@));
        write_header(&mut out, headers[i].0.as_slice(), headers[i].1.as_slice());
        assert(out@ =~= fixed + header_lines(prefix));
        i += 1;
    }
    assert(pairs(headers@).subrange(0, i as int) =~= pairs(headers@));
    out.push(13);
    out.push(10);
    assert(out@ =~= head_bytes(
        server@,
        version,
        status,
        reason@,
        pairs(headers@),
        content_length as nat,
        date@,
    ));
    out
}

/// An instant at which a response is framed, in whole seconds since the
/// Unix epoch.
#[derive(Debug, Clone, Copy, PartialEq, Eq, Structural)]
pub struct Now {
    secs: u64,
}

impl Now {
    /// A date can be written for the instant.
    #[verifier::type_invariant]
    spec fn dated(self) -> bool {
        self.secs < DATE_LIMIT
    }

    pub closed spec fn secs(self) -> u64 {
        self.secs
    }

    /// The instant's `Date` header value.
    pub open spec fn text(self) -> Seq<u8> {
        http_date(self.secs())
    }

    pub fn unix_secs(&self) -> (r: u64)
        ensures
            r == self.secs(),
    {
        self.secs
    }
}

/// The instant `unix_secs` seconds after the epoch, if a date can be
/// written for it: the years of four digits.
pub fn now(unix_secs: u64) -> (r: Option<Now>)
    ensures
        r is Some <==> unix_secs < DATE_LIMIT,
        r matches Some(n) ==> n.secs() == unix_secs,
{
    if unix_secs < DATE_LIMIT {
        Some(Now { secs: unix_secs })
    } else {
        None
    }
}

/// The date that was rendered last, kept for the responses of the same
/// second.
#[derive(Debug)]
pub struct LastRenderedNow {
    bytes: Vec<u8>,
    unix_date: u64,
}

impl LastRenderedNow {
    /// What is kept, if anything, is the date of the second it is kept for.
    #[verifier::type_invariant]
    spec fn wf(&self) -> bool {
        self.bytes@.len() > 0 ==> self.bytes@ == http_date(self.unix_date)
    }

    pub closed spec fn rendered(&self) -> Seq<u8> {
        self.bytes@
    }

    /// Nothing is rendered yet.
    pub fn new() -> (r: Self)
        ensures
            r.rendered() == Seq::<u8>::empty(),
    {
        LastRenderedNow { bytes: Vec::new(), unix_date: 0 }
    }

    /// The date that was rendered last.
    pub fn buffer(&self) -> (r: &Vec<u8>)
        ensures
            r@ == self.rendered(),
    {
        &self.bytes
    }

    fn update(&mut self, now_unix: u64)
        requires
            now_unix < DATE_LIMIT,
        ensures
            final(self).rendered() == http_date(now_unix),
    {
        *self = LastRenderedNow { bytes: imf_fixdate(now_unix), unix_date: now_unix };
    }

    /// The `Date` header value of `now`, rendered anew only where the
    /// second has changed.
    pub fn render(&mut self, now: Now) -> (r: &Vec<u8>)
        ensures
            r@ == now.text(),
            final(self).rendered() == now.text(),
    {
        proof {
            use_type_invariant(&now);
            use_type_invariant(&*self);
        }
        if self.bytes.len() == 0 || self.unix_date != now.secs {
            self.update(now.secs);
        }
        &self.bytes
    }
}

/// The codec of one server: its name for the `Server` header, and the date
/// it rendered last.
#[derive(Debug)]
pub struct HttpCodec {
    server: Vec<u8>,
    last: LastRenderedNow,
}

impl HttpCodec {
    pub closed spec fn server(&self) -> Seq<u8> {
        self.server@
    }

    /// The codec of the server that calls itself `server`.
    pub fn new(server: &str) -> (r: Self)
        ensures
            r.server() == encode_utf8(server@),
    {
        Self { server: copy_bytes(server.as_bytes()), last: LastRenderedNow::new() }
    }

    /// Appends the head of a response to `dst`: see [`framed_head`].
    pub fn encode(
        &mut self,
        version: Version,
        status: u16,
        headers: &Vec<(Vec<u8>, Vec<u8>)>,
        dst: &mut ::bytes::BytesMut,
        content_length: usize,
        now: Now,
    )
        ensures
            final(self).server() == old(self).server(),
            buffered(*final(dst)) == buffered(*old(dst)) + framed_head(
                old(self).server(),
                version,
                status,
                pairs(headers@),
                content_length as nat,
                now.text(),
            ),
    {
        proof {
            reveal_strlit("<unknown status code>");
        }
        let reason = match canonical_reason(status) {
            Some(text) => copy_bytes(text.as_str().as_bytes()),
            None => ascii_bytes("<unknown status code>"),
        };
        let date = self.last.render(now);
        let out = frame_head(
            self.server.as_slice(),
            version,
            status,
            reason.as_slice(),
            headers,
            content_length,
            date.as_slice(),
        );
        buffer_extend(dst, out.as_slice());
    }

    /// Decodes the request head at the front of `src`: see [`decode`].
    pub fn decode(&self, src: &mut ::bytes::BytesMut) -> (r: Result<Option<Builder>, Error>)
        ensures
            buffered(*final(src)) == rest_after(
                httparse_request(buffered(*old(src))),
                buffered(*old(src)),
            ),
            match (r, decode_result(httparse_request(buffered(*old(src))))) {
                (Ok(Some(builder)), Ok(Some(head))) => builder@ == head,
                (Ok(None), Ok(None)) => true,
                (Err(e), Err(view)) => e@ == view,
                _ => false,
            },
    {
        decode(src)
    }
}

fn write_status_line(out: &mut Vec<u8>, version: Version, status: u16, reason: &[u8])
    ensures
        final(out)@ == old(out)@ + status_line_with(version, status, reason@),
{
    let ghost before = out@;
    proof {
        reveal_strlit("HTTP/1.0");
        reveal_strlit("HTTP/1.1");
    }
    let version_bytes = match version {
        Version::Http10 => ascii_bytes("HTTP/1.0"),
        Version::Http11 => ascii_bytes("HTTP/1.1"),
    };
    push_bytes(out, version_bytes.as_slice());
    out.push(32);
    let code = decimal_bytes(status as u64);
    push_bytes(out, code.as_slice());
    out.push(32);
    push_bytes(out, reason);
    out.push(13);
    out.push(10);
    assert(out@ =~= before + status_line_with(version, status, reason@));
}

fn write_header(out: &mut Vec<u8>, name: &[u8], value: &[u8])
    ensures
        final(out)@ == old(out)@ + header_line(name@, value@),
{
    let ghost before = out@;
    push_bytes(out, name);
    out.push(58);
    out.push(32);
    push_bytes(out, value);
    out.push(13);
    out.push(10);
    assert(out@ =~= before + header_line(name@, value@));
}

} // verus!
