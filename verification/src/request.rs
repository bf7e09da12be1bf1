//! Requests: the head that the codec decodes, the accumulator that gathers
//! a request from the bytes of a connection, and the request that a handler
//! sees.

use crate::buffer::{buffer_as_slice, buffer_extend, buffer_from, buffer_len, buffered};
use crate::codec::{decode, decode_result, rest_after};
use crate::results::{too_many_bytes_err, too_many_bytes_message, Error, ErrorKind, ErrorView};
use crate::text::{
    ascii, ascii_bytes, copy_bytes, eq_ignore_ascii_case, parse_decimal, parsed_decimal,
    same_ignoring_case,
};
use crate::vars::Vars;
use crate::wire::{httparse_request, pairs, Version};
use vstd::prelude::*;
use vstd::string::*;

verus! {

/// Whether every byte of a header value is a printable ASCII character or
/// a tab: only such a value can be read as text.
pub open spec fn is_visible(value: Seq<u8>) -> bool {
    forall|i: int| 0 <= i < value.len() ==> (32 <= #[trigger] value[i] < 127 || value[i] == 9)
}

/// Tests [`is_visible`].
pub fn check_visible(value: &[u8]) -> (r: bool)
    ensures
        r == is_visible(value@),
{
    let mut i: usize = 0;
    while i < value.len()
        invariant
            i <= value@.len(),
            forall|k: int| 0 <= k < i ==> (32 <= #[trigger] value@[k] < 127 || value@[k] == 9),
        decreases value@.len() - i,
    {
        let b = value[i];
        if !((32 <= b && b < 127) || b == 9) {
            return false;
        }
        i += 1;
    }
    true
}

/// The value of the first header at or after `from` whose name is `name`,
/// whatever the case of its letters.
pub open spec fn first_value_from(
    headers: Seq<(Seq<u8>, Seq<u8>)>,
    name: Seq<u8>,
    from: int,
) -> Option<Seq<u8>>
    decreases headers.len() - from,
{
    if from < 0 || from >= headers.len() {
        None
    } else if same_ignoring_case(headers[from].0, name) {
        Some(headers[from].1)
    } else {
        first_value_from(headers, name, from + 1)
    }
}

/// The value of the first header named `name`.
pub open spec fn first_value(headers: Seq<(Seq<u8>, Seq<u8>)>, name: Seq<u8>) -> Option<Seq<u8>> {
    first_value_from(headers, name, 0)
}

/// Whether the first header named `name` holds the text `val`, whatever the
/// case of its letters.
pub open spec fn has_value(headers: Seq<(Seq<u8>, Seq<u8>)>, name: Seq<u8>, val: Seq<u8>) -> bool {
    match first_value(headers, name) {
        Some(v) => is_visible(v) && same_ignoring_case(v, val),
        None => false,
    }
}

/// The value of the first header named `name`.
pub fn header_value<'a>(headers: &'a Vec<(Vec<u8>, Vec<u8>)>, name: &[u8]) -> (r: Option<
    &'a Vec<u8>,
>)
    ensures
        match r {
            Some(v) => first_value(pairs(headers@), name@) == Some(v@),
            None => first_value(pairs(headers@), name@) is None,
        },
{
    let mut i: usize = 0;
    while i < headers.len()
        invariant
            i <= headers@.len(),
            first_value(pairs(headers@), name@) == first_value_from(
                pairs(headers@),
                name@,
                i as int,
            ),
        decreases headers@.len() - i,
    {
        assert(pairs(headers@)[i as int] == (headers@[i as int].0@, headers@[i as int].1@));
        if eq_ignore_ascii_case(headers[i].0.as_slice(), name) {
            return Some(&headers[i].1);
        }
        i += 1;
    }
    None
}

/// Whether the first header named `name` holds the text `val`, whatever the
/// case of its letters.
pub fn has_header(headers: &Vec<(Vec<u8>, Vec<u8>)>, name: &[u8], val: &[u8]) -> (r: bool)
    ensures
        r == has_value(pairs(headers@), name@, val@),
{
    match header_value(headers, name) {
        Some(v) => check_visible(v.as_slice()) && eq_ignore_ascii_case(v.as_slice(), val),
        None => false,
    }
}

/// The name of the header that says what becomes of the connection.
pub open spec fn connection() -> Seq<u8> {
    ascii("connection"@)
}

/// The name of the header that names the protocol to change to.
pub open spec fn upgrade() -> Seq<u8> {
    ascii("upgrade"@)
}

/// The name of the header that gives the length of the body.
pub open spec fn content_length_name() -> Seq<u8> {
    ascii("content-length"@)
}

/// The `Connection` value that asks to keep the connection.
pub open spec fn keep_alive() -> Seq<u8> {
    ascii("keep-alive"@)
}

/// The `Upgrade` value that asks for a web socket.
pub open spec fn websocket() -> Seq<u8> {
    ascii("websocket"@)
}

pub(crate) fn connection_bytes() -> (r: Vec<u8>)
    ensures
        r@ == connection(),
{
    proof {
        reveal_strlit("connection");
    }
    ascii_bytes("connection")
}

pub(crate) fn upgrade_bytes() -> (r: Vec<u8>)
    ensures
        r@ == upgrade(),
{
    proof {
        reveal_strlit("upgrade");
    }
    ascii_bytes("upgrade")
}

fn content_length_bytes() -> (r: Vec<u8>)
    ensures
        r@ == content_length_name(),
{
    proof {
        reveal_strlit("content-length");
    }
    ascii_bytes("content-length")
}

pub(crate) fn keep_alive_bytes() -> (r: Vec<u8>)
    ensures
        r@ == keep_alive(),
{
    proof {
        reveal_strlit("keep-alive");
    }
    ascii_bytes("keep-alive")
}

fn websocket_bytes() -> (r: Vec<u8>)
    ensures
        r@ == websocket(),
{
    proof {
        reveal_strlit("websocket");
    }
    ascii_bytes("websocket")
}

/// The head of a request: method, target and its path, version, and the
/// headers in the order they came, their names in canonical form.
#[derive(Debug)]
pub struct RequestHead {
    pub method: Vec<u8>,
    pub target: Vec<u8>,
    pub path: Vec<u8>,
    pub version: Version,
    pub headers: Vec<(Vec<u8>, Vec<u8>)>,
}

/// What a [`RequestHead`] holds.
pub ghost struct HeadView {
    pub method: Seq<u8>,
    pub target: Seq<u8>,
    pub path: Seq<u8>,
    pub version: Version,
    pub headers: Seq<(Seq<u8>, Seq<u8>)>,
}

impl View for RequestHead {
    type V = HeadView;

    open spec fn view(&self) -> HeadView {
        HeadView {
            method: self.method@,
            target: self.target@,
            path: self.path@,
            version: self.version,
            headers: pairs(self.headers@),
        }
    }
}

/// A request head in the making: the head, or nothing where one of its
/// parts was refused. A builder without a head gives no request.
#[derive(Debug)]
pub struct Builder {
    pub head: Option<RequestHead>,
}

impl View for Builder {
    type V = Option<HeadView>;

    open spec fn view(&self) -> Option<HeadView> {
        match self.head {
            Some(h) => Some(h@),
            None => None,
        }
    }
}

impl Builder {
    /// The headers, if the builder has a head.
    pub fn headers_ref(&self) -> (r: Option<&Vec<(Vec<u8>, Vec<u8>)>>)
        ensures
            match r {
                Some(h) => self@ is Some && pairs(h@) == self@->0.headers,
                None => self@ is None,
            },
    {
        match &self.head {
            Some(h) => Some(&h.headers),
            None => None,
        }
    }
}

/// The length that a head announces for the body: the number in its first
/// `Content-Length` header, or 0 where there is none that can be read.
pub open spec fn announced_length(head: Option<HeadView>) -> nat {
    match head {
        Some(h) => match first_value(h.headers, content_length_name()) {
            Some(v) => if is_visible(v) {
                match parsed_decimal(v, usize::MAX as nat) {
                    Some(n) => n,
                    None => 0,
                }
            } else {
                0
            },
            None => 0,
        },
        None => 0,
    }
}

/// Whether a head asks to keep the connection or to change its protocol.
pub open spec fn asks_keepalive(head: Option<HeadView>) -> bool {
    match head {
        Some(h) => has_value(h.headers, connection(), keep_alive()) || has_value(
            h.headers,
            connection(),
            upgrade(),
        ),
        None => false,
    }
}

/// Whether a head asks to change the connection into a web socket.
pub open spec fn asks_websocket(head: Option<HeadView>) -> bool {
    match head {
        Some(h) => has_value(h.headers, connection(), upgrade()) && has_value(
            h.headers,
            upgrade(),
            websocket(),
        ),
        None => false,
    }
}

/// A request that is still arriving.
pub struct RawRequest {
    request: Option<Builder>,
    data: ::bytes::BytesMut,
    // Total bytes read.
    bytes: usize,
    timeout: Option<u64>,
    // Cached from the head: see `wf`.
    content_length: usize,
    upgrade_keepalive: bool,
    upgrade_websocket: bool,
}

/// What a [`RawRequest`] holds.
pub ghost struct RawView {
    /// The head, once it is decoded: `Some(None)` is a head that was parsed
    /// and then refused.
    pub head: Option<Option<HeadView>>,
    /// The bytes that are buffered: the whole input before the head is
    /// decoded, the body after.
    pub data: Seq<u8>,
    /// How many bytes have arrived in all.
    pub bytes: nat,
    /// The instant after which the request has timed out.
    pub deadline: Option<u64>,
}

impl RawView {
    /// The head, where it is decoded and was not refused.
    pub open spec fn usable(self) -> Option<HeadView> {
        match self.head {
            Some(Some(head)) => Some(head),
            _ => None,
        }
    }
}

impl View for RawRequest {
    type V = RawView;

    closed spec fn view(&self) -> RawView {
        RawView {
            head: match self.request {
                Some(b) => Some(b@),
                None => None,
            },
            data: buffered(self.data),
            bytes: self.bytes as nat,
            deadline: self.timeout,
        }
    }
}

/// The message of the error for validating a request without a head.
pub open spec fn no_request_message() -> Seq<char> {
    "request validation failed - no request object"@
}

/// What a request becomes when `data` arrives, and the error that this
/// gives, if any. A head that is not decoded yet is looked for in all that
/// is buffered; once it is found, it leaves the buffer, and what follows is
/// body.
pub open spec fn fed(before: RawView, data: Seq<u8>) -> (RawView, Option<ErrorView>) {
    let buffer = before.data + data;
    let bytes = before.bytes + data.len();
    if before.head is Some {
        (RawView { head: before.head, data: buffer, bytes, deadline: before.deadline }, None)
    } else {
        let parse = httparse_request(buffer);
        (
            RawView {
                head: match decode_result(parse) {
                    Ok(head) => head,
                    Err(_) => None,
                },
                data: rest_after(parse, buffer),
                bytes,
                deadline: before.deadline,
            },
            match decode_result(parse) {
                Ok(_) => None,
                Err(e) => Some(e),
            },
        )
    }
}

impl RawRequest {
    /// The cached length and the two cached flags say what the head says.
    /// They are functions of the head, so the view holds the head alone.
    pub closed spec fn wf(&self) -> bool {
        &&& self.content_length == announced_length(self@.usable())
        &&& self.upgrade_keepalive == asks_keepalive(self@.usable())
        &&& self.upgrade_websocket == asks_websocket(self@.usable())
    }

    /// A request of which nothing has arrived, to be whole by `timeout`.
    pub open spec fn empty(timeout: u64) -> RawView {
        RawView { head: None, data: Seq::empty(), bytes: 0, deadline: Some(timeout) }
    }

    /// The length that the head announces for the body; 0 before the head
    /// is decoded.
    pub open spec fn content_length(&self) -> nat {
        announced_length(self@.usable())
    }

    /// Whether the request is whole: the head is decoded and the body that
    /// it announces is buffered.
    pub open spec fn is_ready(&self) -> bool {
        self@.head is Some && self@.data.len() >= self.content_length()
    }

    /// A request whose first bytes are `data`, to be whole by `timeout`.
    pub fn new(data: Vec<u8>, timeout: u64) -> (r: Result<Self, Error>)
        ensures
            match (r, fed(RawRequest::empty(timeout), data@)) {
                (Ok(req), (view, None)) => req@ == view && req.wf(),
                (Err(e), (_, Some(view))) => e@ == view,
                _ => false,
            },
    {
        let mut req = Self {
            request: None,
            bytes: data.len(),
            data: buffer_from(data.as_slice()),
            timeout: Some(timeout),
            content_length: 0,
            upgrade_keepalive: false,
            upgrade_websocket: false,
        };
        assert(Seq::<u8>::empty() + data@ =~= data@);
        match req.try_decode() {
            Ok(()) => Ok(req),
            Err(e) => Err(e),
        }
    }

    /// Takes the bytes that arrived next.
    pub fn next(&mut self, data: Vec<u8>) -> (r: Result<(), Error>)
        requires
            old(self).wf(),
            old(self)@.bytes + data@.len() <= usize::MAX,
        ensures
            final(self).wf(),
            final(self)@ == fed(old(self)@, data@).0,
            match (r, fed(old(self)@, data@).1) {
                (Ok(()), None) => true,
                (Err(e), Some(view)) => e@ == view,
                _ => false,
            },
    {
        if data.len() > 0 {
            self.bytes += data.len();
            self.push(data);
        } else {
            assert(self@.data + data@ =~= self@.data);
        }
        self.try_decode()
    }

    /// How many bytes have arrived in all.
    pub fn len(&self) -> (r: usize)
        ensures
            r == self@.bytes,
    {
        self.bytes
    }

    /// Whether the request is whole. A request that is ready has its head,
    /// and at least as many bytes of body as the head announces.
    pub fn ready(&self) -> (r: bool)
        requires
            self.wf(),
        ensures
            r == self.is_ready(),
            r ==> self@.head is Some && self@.data.len() >= self.content_length(),
    {
        if self.request.is_none() {
            return false;
        }
        if self.content_length > 0 {
            if buffer_len(&self.data) < self.content_length {
                return false;
            }
        }
        true
    }

    pub fn is_upgrade_keepalive(&self) -> (r: bool)
        requires
            self.wf(),
        ensures
            r == asks_keepalive(self@.usable()),
    {
        self.upgrade_keepalive
    }

    pub fn is_upgrade_websocket(&self) -> (r: bool)
        requires
            self.wf(),
        ensures
            r == asks_websocket(self@.usable()),
    {
        self.upgrade_websocket
    }

    /// The request for a handler: the head, what is buffered as its body,
    /// and whether it asks for a web socket. It is taken from a request
    /// that is ready; there is none where the head was refused.
    pub fn extract(self) -> (r: Option<Request>)
        requires
            self.wf(),
            self.is_ready(),
        ensures
            match (r, self@.usable()) {
                (Some(req), Some(head)) => req@ == (RequestView {
                    head,
                    body: self@.data,
                    vars: None,
                    websocket: asks_websocket(Some(head)),
                }),
                (None, None) => true,
                _ => false,
            },
    {
        let is_websocket = self.upgrade_websocket;
        match self.request {
            Some(builder) => {
                let body = copy_bytes(buffer_as_slice(&self.data));
                match builder.head {
                    Some(head) => Some(Request::new(head, body, is_websocket)),
                    None => None,
                }
            },
            None => None,
        }
    }

    /// Whether the request's deadline has passed at the instant `now`.
    pub fn check_timeout(&self, now: u64) -> (r: bool)
        ensures
            r == (self@.deadline matches Some(deadline) && now > deadline),
    {
        match self.timeout {
            Some(timeout) => now > timeout,
            None => false,
        }
    }

    /// Whether the request may go on: its head is decoded and announces no
    /// more than `max_bytes_received` bytes.
    pub fn validate(&self, max_bytes_received: usize) -> (r: Result<(), Error>)
        requires
            self.wf(),
        ensures
            match r {
                Ok(()) => self@.head is Some && self.content_length() <= max_bytes_received,
                Err(e) => if self@.head is None {
                    e@ == (ErrorView { kind: ErrorKind::ServerFault, message: no_request_message() })
                } else {
                    self.content_length() > max_bytes_received && e@ == (ErrorView {
                        kind: ErrorKind::PayloadTooLarge,
                        message: too_many_bytes_message(
                            self.content_length(),
                            max_bytes_received as nat,
                        ),
                    })
                },
            },
    {
        if self.request.is_none() {
            return Err(
                Error::new_with_kind(
                    ErrorKind::ServerFault,
                    String::from_str("request validation failed - no request object"),
                ),
            );
        }
        // Check payload size.
        if self.content_length > 0 {
            if self.content_length > max_bytes_received {
                return Err(too_many_bytes_err(self.content_length, max_bytes_received));
            }
        }
        Ok(())
    }

    // private
    fn try_decode(&mut self) -> (r: Result<(), Error>)
        requires
            old(self).wf(),
        ensures
            final(self).wf(),
            final(self)@ == fed(old(self)@, Seq::empty()).0,
            match (r, fed(old(self)@, Seq::empty()).1) {
                (Ok(()), None) => true,
                (Err(e), Some(view)) => e@ == view,
                _ => false,
            },
    {
        assert(self@.data + Seq::<u8>::empty() =~= self@.data);
        if self.request.is_none() {
            match decode(&mut self.data) {
                Ok(found) => {
                    self.request = found;
                },
                Err(e) => {
                    return Err(e);
                },
            }
        }
        self.extract_upgrade_opts();
        self.extract_content_length();
        Ok(())
    }

    fn push(&mut self, body: Vec<u8>)
        requires
            old(self).wf(),
        ensures
            final(self).wf(),
            final(self)@ == (RawView { data: old(self)@.data + body@, ..old(self)@ }),
    {
        buffer_extend(&mut self.data, body.as_slice());
    }

    fn extract_upgrade_opts(&mut self)
        ensures
            final(self)@ == old(self)@,
            final(self).content_length == old(self).content_length,
            final(self).upgrade_keepalive == asks_keepalive(final(self)@.usable()),
            final(self).upgrade_websocket == asks_websocket(final(self)@.usable()),
    {
        self.upgrade_keepalive = false;
        self.upgrade_websocket = false;
        if let Some(req) = self.request.as_ref() {
            if let Some(headers) = req.headers_ref() {
                let connection = connection_bytes();
                let upgrade = upgrade_bytes();
                let keep_alive = keep_alive_bytes();
                let websocket = websocket_bytes();
                let upgrades = has_header(headers, connection.as_slice(), upgrade.as_slice());
                if has_header(headers, connection.as_slice(), keep_alive.as_slice()) || upgrades {
                    self.upgrade_keepalive = true;
                }
                if upgrades && has_header(headers, upgrade.as_slice(), websocket.as_slice()) {
                    self.upgrade_websocket = true;
                }
            }
        }
    }

    fn extract_content_length(&mut self)
        ensures
            final(self)@ == old(self)@,
            final(self).upgrade_keepalive == old(self).upgrade_keepalive,
            final(self).upgrade_websocket == old(self).upgrade_websocket,
            final(self).content_length == announced_length(final(self)@.usable()),
    {
        self.content_length = 0;
        if let Some(req) = self.request.as_ref() {
            if let Some(headers) = req.headers_ref() {
                let name = content_length_bytes();
                if let Some(val) = header_value(headers, name.as_slice()) {
                    if check_visible(val.as_slice()) {
                        if let Some(n) = parse_decimal(val.as_slice(), usize::MAX as u64) {
                            self.content_length = n as usize;
                        }
                    }
                }
            }
        }
    }
}

/// A request as a handler sees it.
#[derive(Debug)]
pub struct Request {
    head: RequestHead,
    body: Vec<u8>,
    vars: Option<Vars>,
    websocket: bool,
}

/// What a [`Request`] holds.
pub ghost struct RequestView {
    pub head: HeadView,
    pub body: Seq<u8>,
    /// What the route captured from the path, once the request is routed.
    pub vars: Option<Map<Seq<u8>, Seq<u8>>>,
    pub websocket: bool,
}

impl View for Request {
    type V = RequestView;

    closed spec fn view(&self) -> RequestView {
        RequestView {
            head: self.head@,
            body: self.body@,
            vars: match self.vars {
                Some(v) => Some(v@),
                None => None,
            },
            websocket: self.websocket,
        }
    }
}

/// Whether the connection stays open behind the answer to a request of
/// this head: always under HTTP/1.1, under HTTP/1.0 where the request asks
/// for it.
pub open spec fn keeps_alive(head: HeadView) -> bool {
    head.version != Version::Http10 || has_value(head.headers, connection(), keep_alive())
}

impl Request {
    pub fn new(head: RequestHead, body: Vec<u8>, websocket: bool) -> (r: Self)
        ensures
            r@ == (RequestView { head: head@, body: body@, vars: None, websocket }),
    {
        Self { head, body, vars: None, websocket }
    }

    pub fn is_websocket(&self) -> (r: bool)
        ensures
            r == self@.websocket,
    {
        self.websocket
    }

    /// Sets what the route captured from the path.
    pub fn vars(&mut self, vars: Vars)
        ensures
            final(self)@ == (RequestView { vars: Some(vars@), ..old(self)@ }),
    {
        self.vars = Some(vars);
    }

    /// What the route captured under `key`.
    pub fn var(&self, key: &[u8]) -> (r: Option<&Vec<u8>>)
        ensures
            match r {
                Some(v) => self@.vars matches Some(vars) && vars.contains_key(key@) && vars[key@]
                    == v@,
                None => self@.vars matches Some(vars) ==> !vars.contains_key(key@),
            },
    {
        match &self.vars {
            Some(vars) => vars.get(key),
            None => None,
        }
    }

    /// The first header named `key`, if its value is text.
    pub fn header(&self, key: &[u8]) -> (r: Option<&Vec<u8>>)
        ensures
            match r {
                Some(v) => first_value(self@.head.headers, key@) == Some(v@) && is_visible(v@),
                None => first_value(self@.head.headers, key@) matches Some(v) ==> !is_visible(v),
            },
    {
        match header_value(&self.head.headers, key) {
            Some(v) => if check_visible(v.as_slice()) {
                Some(v)
            } else {
                None
            },
            None => None,
        }
    }

    pub fn has_header_value(&self, key: &[u8], val: &[u8]) -> (r: bool)
        ensures
            r == has_value(self@.head.headers, key@, val@),
    {
        has_header(&self.head.headers, key, val)
    }

    pub fn should_keep_alive(&self) -> (r: bool)
        ensures
            r == keeps_alive(self@.head),
    {
        let connection = connection_bytes();
        let keep_alive = keep_alive_bytes();
        match self.head.version {
            Version::Http10 => self.has_header_value(connection.as_slice(), keep_alive.as_slice()),
            Version::Http11 => true,
        }
    }

    pub fn method(&self) -> (r: &Vec<u8>)
        ensures
            r@ == self@.head.method,
    {
        &self.head.method
    }

    /// The request target as it was sent.
    pub fn uri(&self) -> (r: &Vec<u8>)
        ensures
            r@ == self@.head.target,
    {
        &self.head.target
    }

    /// The path of the request target.
    pub fn path(&self) -> (r: &Vec<u8>)
        ensures
            r@ == self@.head.path,
    {
        &self.head.path
    }

    pub fn version(&self) -> (r: Version)
        ensures
            r == self@.head.version,
    {
        self.head.version
    }

    pub fn headers(&self) -> (r: &Vec<(Vec<u8>, Vec<u8>)>)
        ensures
            pairs(r@) == self@.head.headers,
    {
        &self.head.headers
    }

    pub fn body(&self) -> (r: &Vec<u8>)
        ensures
            r@ == self@.body,
    {
        &self.body
    }
}

} // verus!
