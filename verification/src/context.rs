//! What a handler works with: the request, typed attributes, the builder of
//! outbound calls, and the web socket of the request if it has one.

use crate::connection::{Deferred, DeferredView};
use crate::deferral::{defers_full_message, Deferral};
use crate::httpc::{no_builder_message, HttpcCallFuture, HttpcReactor};
use crate::request::Request;
use crate::results::{Error, ErrorKind, ErrorView};
use crate::websocket::{Message, MessageView, SocketView, WebSocket};
use vstd::prelude::*;
use vstd::string::*;

verus! {

/// How long an outbound call may take, in milliseconds, unless the builder
/// says otherwise.
pub const FETCH_DEFAULT_TIMEOUT_MS: u64 = 2500;

/// The method of an outbound call.
#[derive(Debug, Clone, Copy, PartialEq, Eq, Structural)]
pub enum FetchMethod {
    Get,
    Post,
    Put,
    Patch,
    Delete,
    Options,
    Head,
}

/// One step in the description of an outbound call. The steps are taken
/// in their order: a later one may replace what an earlier one has set.
#[derive(Debug)]
pub enum FetchStep {
    /// Use TLS.
    Https,
    /// Give up after so many milliseconds.
    TimeoutMs(u64),
    Host(String),
    Port(u16),
    Method(FetchMethod),
    /// Set the whole path, as it goes on the wire.
    Path(String),
    /// Add one segment behind the path, percent-encoded on the way.
    PathSegment(String),
    /// Set host, port, path and query from a URL.
    Url(String),
    Header(String, String),
    Body(Vec<u8>),
}

/// What a [`FetchStep`] holds.
pub ghost enum FetchStepView {
    Https,
    TimeoutMs(u64),
    Host(Seq<char>),
    Port(u16),
    Method(FetchMethod),
    Path(Seq<char>),
    PathSegment(Seq<char>),
    Url(Seq<char>),
    Header(Seq<char>, Seq<char>),
    Body(Seq<u8>),
}

impl View for FetchStep {
    type V = FetchStepView;

    open spec fn view(&self) -> FetchStepView {
        match self {
            FetchStep::Https => FetchStepView::Https,
            FetchStep::TimeoutMs(ms) => FetchStepView::TimeoutMs(*ms),
            FetchStep::Host(h) => FetchStepView::Host(h@),
            FetchStep::Port(p) => FetchStepView::Port(*p),
            FetchStep::Method(m) => FetchStepView::Method(*m),
            FetchStep::Path(p) => FetchStepView::Path(p@),
            FetchStep::PathSegment(s) => FetchStepView::PathSegment(s@),
            FetchStep::Url(u) => FetchStepView::Url(u@),
            FetchStep::Header(k, v) => FetchStepView::Header(k@, v@),
            FetchStep::Body(b) => FetchStepView::Body(b@),
        }
    }
}

/// The description of an outbound call: the steps that make it.
#[derive(Debug)]
pub struct FetchRequest {
    pub steps: Vec<FetchStep>,
}

impl View for FetchRequest {
    type V = Seq<FetchStepView>;

    open spec fn view(&self) -> Seq<FetchStepView> {
        self.steps@.map_values(|s: FetchStep| s@)
    }
}

/// The description that a builder begins with: the default timeout, and
/// TLS if asked for.
pub open spec fn blank_fetch(https: bool) -> Seq<FetchStepView> {
    if https {
        seq![FetchStepView::TimeoutMs(FETCH_DEFAULT_TIMEOUT_MS), FetchStepView::Https]
    } else {
        seq![FetchStepView::TimeoutMs(FETCH_DEFAULT_TIMEOUT_MS)]
    }
}

/// Whether the HTTP client takes `url` for a URL.
pub uninterp spec fn httpc_accepts_url(url: Seq<char>) -> bool;

/// `mio_httpc::CallBuilder::url` on a new builder: whether it takes the
/// text for a URL.
#[verifier::external_body]
fn url_accepted(url: &str) -> (r: bool)
    ensures
        r == httpc_accepts_url(url@),
{
    ::mio_httpc::CallBuilder::new().url(url).is_ok()
}

/// The message of the error for a URL that is none.
pub open spec fn bad_url_message() -> Seq<char> {
    "failed to set url"@
}

/// The builder of an outbound call. It is used up by the fetch.
#[derive(Debug)]
pub struct HttpFetchBuilder {
    builder: Option<FetchRequest>,
}

impl View for HttpFetchBuilder {
    type V = Option<Seq<FetchStepView>>;

    closed spec fn view(&self) -> Option<Seq<FetchStepView>> {
        match self.builder {
            Some(b) => Some(b@),
            None => None,
        }
    }
}

impl HttpFetchBuilder {
    fn new() -> (r: Self)
        ensures
            r@ == Some(blank_fetch(false)),
    {
        let mut steps: Vec<FetchStep> = Vec::new();
        steps.push(FetchStep::TimeoutMs(FETCH_DEFAULT_TIMEOUT_MS));
        let request = FetchRequest { steps };
        assert(request@ =~= blank_fetch(false));
        Self { builder: Some(request) }
    }

    fn step(&mut self, step: FetchStep)
        requires
            old(self)@ is Some,
        ensures
            final(self)@ == Some(old(self)@->0.push(step@)),
    {
        let mut b = self.builder.take().unwrap();
        let ghost before = b@;
        b.steps.push(step);
        assert(b@ =~= before.push(step@));
        self.builder = Some(b);
    }

    /// The builder of a call over TLS.
    pub fn https() -> (r: Self)
        ensures
            r@ == Some(blank_fetch(true)),
    {
        let mut new = Self::new();
        new.step(FetchStep::Https);
        assert(new@->0 =~= blank_fetch(true));
        new
    }

    /// The builder of a call in the clear.
    pub fn http() -> (r: Self)
        ensures
            r@ == Some(blank_fetch(false)),
    {
        Self::new()
    }

    /// Whether the builder can still be used.
    pub fn is_usable(&self) -> (r: bool)
        ensures
            r == self@ is Some,
    {
        self.builder.is_some()
    }

    pub fn host(&mut self, host: &str)
        requires
            old(self)@ is Some,
        ensures
            final(self)@ == Some(old(self)@->0.push(FetchStepView::Host(host@))),
    {
        self.step(FetchStep::Host(String::from_str(host)));
    }

    pub fn port(&mut self, port: u16)
        requires
            old(self)@ is Some,
        ensures
            final(self)@ == Some(old(self)@->0.push(FetchStepView::Port(port))),
    {
        self.step(FetchStep::Port(port));
    }

    pub fn method(&mut self, method: FetchMethod)
        requires
            old(self)@ is Some,
        ensures
            final(self)@ == Some(old(self)@->0.push(FetchStepView::Method(method))),
    {
        self.step(FetchStep::Method(method));
    }

    /// Set full path. No percent encoding is done.
    pub fn path(&mut self, path: &str)
        requires
            old(self)@ is Some,
        ensures
            final(self)@ == Some(old(self)@->0.push(FetchStepView::Path(path@))),
    {
        self.step(FetchStep::Path(String::from_str(path)));
    }

    /// Add a single segment of path. Parts are delimited by / which are
    /// added automatically. Any path unsafe characters are percent encoded.
    pub fn path_segment(&mut self, path_segment: &str)
        requires
            old(self)@ is Some,
        ensures
            final(self)@ == Some(old(self)@->0.push(FetchStepView::PathSegment(path_segment@))),
    {
        self.step(FetchStep::PathSegment(String::from_str(path_segment)));
    }

    /// Set full URL. A text that the HTTP client does not take for a URL is
    /// refused, and the builder stays as it is.
    pub fn url(&mut self, url: &str) -> (r: Result<(), Error>)
        requires
            old(self)@ is Some,
        ensures
            match r {
                Ok(()) => httpc_accepts_url(url@) && final(self)@ == Some(
                    old(self)@->0.push(FetchStepView::Url(url@)),
                ),
                Err(e) => !httpc_accepts_url(url@) && final(self)@ == old(self)@ && e@
                    == (ErrorView {
                    kind: ErrorKind::HttpClientError,
                    message: bad_url_message(),
                }),
            },
    {
        if !url_accepted(url) {
            return Err(
                Error::new_with_kind(
                    ErrorKind::HttpClientError,
                    String::from_str("failed to set url"),
                ),
            );
        }
        self.step(FetchStep::Url(String::from_str(url)));
        Ok(())
    }

    pub fn header(&mut self, key: &str, value: &str)
        requires
            old(self)@ is Some,
        ensures
            final(self)@ == Some(old(self)@->0.push(FetchStepView::Header(key@, value@))),
    {
        self.step(FetchStep::Header(String::from_str(key), String::from_str(value)));
    }

    pub fn body(&mut self, body: Vec<u8>)
        requires
            old(self)@ is Some,
        ensures
            final(self)@ == Some(old(self)@->0.push(FetchStepView::Body(body@))),
    {
        self.step(FetchStep::Body(body));
    }

    /// Hands the call to the reactor and returns its future. A builder
    /// that was used already gives a future that resolves to an error.
    pub fn fetch(&mut self, httpc: &mut HttpcReactor<FetchRequest>) -> (r: HttpcCallFuture)
        requires
            old(httpc).inv(),
        ensures
            final(httpc).inv(),
            final(self)@ is None,
            r.id == old(httpc).next_call(),
            final(httpc).calls().dom() == old(httpc).calls().dom().insert(r.id),
            forall|id: u64|
                id != r.id && old(httpc).calls().contains_key(id) ==> final(httpc).calls()[id]
                    == #[trigger] old(httpc).calls()[id],
            match old(self)@ {
                Some(request) => {
                    &&& final(httpc).calls()[r.id]@.builder matches Some(b)
                    &&& b@ == request
                    &&& final(httpc).calls()[r.id]@.err is None
                    &&& !final(httpc).calls()[r.id]@.call
                    &&& final(httpc).pending() == old(httpc).pending().push(r.id)
                    &&& final(httpc).waker().ready
                },
                None => {
                    &&& final(httpc).calls()[r.id]@.builder is None
                    &&& final(httpc).calls()[r.id]@.err == Some(
                        ErrorView {
                            kind: ErrorKind::HttpClientError,
                            message: no_builder_message(),
                        },
                    )
                    &&& final(httpc).pending() == old(httpc).pending()
                    &&& final(httpc).waker() == old(httpc).waker()
                },
            },
    {
        match self.builder.take() {
            Some(builder) => httpc.call(builder),
            None => httpc.failed_call(
                Error::new_with_kind(
                    ErrorKind::HttpClientError,
                    String::from_str("fetch() called with no builder."),
                ),
            ),
        }
    }

    /// Sets the method, and the body if one is given, and fetches.
    fn fetch_as(
        &mut self,
        method: FetchMethod,
        body: Option<Vec<u8>>,
        httpc: &mut HttpcReactor<FetchRequest>,
    ) -> (r: HttpcCallFuture)
        requires
            old(self)@ is Some,
            old(httpc).inv(),
        ensures
            fetched(old(self)@->0, method, body, *old(httpc), *final(httpc), r),
            final(self)@ is None,
    {
        self.method(method);
        match body {
            Some(body) => {
                self.body(body);
            },
            None => {},
        }
        self.fetch(httpc)
    }

    /// Fetches with the method `GET`.
    pub fn get(&mut self, httpc: &mut HttpcReactor<FetchRequest>) -> (r: HttpcCallFuture)
        requires
            old(self)@ is Some,
            old(httpc).inv(),
        ensures
            fetched(old(self)@->0, FetchMethod::Get, None, *old(httpc), *final(httpc), r),
            final(self)@ is None,
    {
        self.fetch_as(FetchMethod::Get, None, httpc)
    }

    /// Fetches with the method `POST` and the body `body`.
    pub fn post(&mut self, body: Vec<u8>, httpc: &mut HttpcReactor<FetchRequest>) -> (r: HttpcCallFuture)
        requires
            old(self)@ is Some,
            old(httpc).inv(),
        ensures
            fetched(old(self)@->0, FetchMethod::Post, Some(body), *old(httpc), *final(httpc), r),
            final(self)@ is None,
    {
        self.fetch_as(FetchMethod::Post, Some(body), httpc)
    }

    /// Fetches with the method `PUT` and the body `body`.
    pub fn put(&mut self, body: Vec<u8>, httpc: &mut HttpcReactor<FetchRequest>) -> (r: HttpcCallFuture)
        requires
            old(self)@ is Some,
            old(httpc).inv(),
        ensures
            fetched(old(self)@->0, FetchMethod::Put, Some(body), *old(httpc), *final(httpc), r),
            final(self)@ is None,
    {
        self.fetch_as(FetchMethod::Put, Some(body), httpc)
    }

    /// Fetches with the method `PATCH` and the body `body`.
    pub fn patch(&mut self, body: Vec<u8>, httpc: &mut HttpcReactor<FetchRequest>) -> (r: HttpcCallFuture)
        requires
            old(self)@ is Some,
            old(httpc).inv(),
        ensures
            fetched(old(self)@->0, FetchMethod::Patch, Some(body), *old(httpc), *final(httpc), r),
            final(self)@ is None,
    {
        self.fetch_as(FetchMethod::Patch, Some(body), httpc)
    }

    /// Fetches with the method `DELETE`.
    pub fn delete(&mut self, httpc: &mut HttpcReactor<FetchRequest>) -> (r: HttpcCallFuture)
        requires
            old(self)@ is Some,
            old(httpc).inv(),
        ensures
            fetched(old(self)@->0, FetchMethod::Delete, None, *old(httpc), *final(httpc), r),
            final(self)@ is None,
    {
        self.fetch_as(FetchMethod::Delete, None, httpc)
    }

    /// Fetches with the method `OPTIONS`.
    pub fn options(&mut self, httpc: &mut HttpcReactor<FetchRequest>) -> (r: HttpcCallFuture)
        requires
            old(self)@ is Some,
            old(httpc).inv(),
        ensures
            fetched(old(self)@->0, FetchMethod::Options, None, *old(httpc), *final(httpc), r),
            final(self)@ is None,
    {
        self.fetch_as(FetchMethod::Options, None, httpc)
    }

    /// Fetches with the method `HEAD`.
    pub fn head(&mut self, httpc: &mut HttpcReactor<FetchRequest>) -> (r: HttpcCallFuture)
        requires
            old(self)@ is Some,
            old(httpc).inv(),
        ensures
            fetched(old(self)@->0, FetchMethod::Head, None, *old(httpc), *final(httpc), r),
            final(self)@ is None,
    {
        self.fetch_as(FetchMethod::Head, None, httpc)
    }
}

/// The steps of a call that is fetched with `method`, and with `body` if
/// one is given, behind the steps `before`.
pub open spec fn fetch_steps(
    before: Seq<FetchStepView>,
    method: FetchMethod,
    body: Option<Vec<u8>>,
) -> Seq<FetchStepView> {
    let with_method = before.push(FetchStepView::Method(method));
    match body {
        Some(b) => with_method.push(FetchStepView::Body(b@)),
        None => with_method,
    }
}

/// Whether the reactor `after` is the reactor `before` with one more call,
/// whose future is `r`: the call of the steps [`fetch_steps`], which waits
/// to be spawned; the other calls are as they were, and the waker is
/// triggered.
pub open spec fn fetched(
    steps: Seq<FetchStepView>,
    method: FetchMethod,
    body: Option<Vec<u8>>,
    before: HttpcReactor<FetchRequest>,
    after: HttpcReactor<FetchRequest>,
    r: HttpcCallFuture,
) -> bool {
    &&& after.inv()
    &&& r.id == before.next_call()
    &&& after.calls().dom() == before.calls().dom().insert(r.id)
    &&& forall|id: u64|
        id != r.id && before.calls().contains_key(id) ==> after.calls()[id]
            == #[trigger] before.calls()[id]
    &&& after.calls()[r.id]@.builder matches Some(b)
    &&& b@ == fetch_steps(steps, method, body)
    &&& after.calls()[r.id]@.err is None
    &&& !after.calls()[r.id]@.call
    &&& after.pending() == before.pending().push(r.id)
    &&& after.waker().ready
}

/// The map that a list of attributes stands for: a later value of a key
/// replaces an earlier one.
pub open spec fn attributes<V>(entries: Seq<(String, V)>) -> Map<Seq<char>, V>
    decreases entries.len(),
{
    if entries.len() == 0 {
        Map::empty()
    } else {
        attributes(entries.drop_last()).insert(entries.last().0@, entries.last().1)
    }
}

/// The message of the fault for subscribing on a request that is none for
/// a web socket.
pub open spec fn subscribe_refused_message() -> Seq<char> {
    "attempt to call Context->subscribe when request is not a web socket"@
}

/// The message of the fault for sending on a request that is none for a web
/// socket.
pub open spec fn send_refused_message() -> Seq<char> {
    "attempt to call Context->send when request is not a web socket"@
}

/// What a handler works with.
#[derive(Debug)]
pub struct Context<V> {
    request: Request,
    ws: bool,
    data: Vec<(String, V)>,
}

impl<V> Context<V> {
    pub closed spec fn spec_request(&self) -> Request {
        self.request
    }

    /// Whether a web socket is bound to the context.
    pub closed spec fn bound(&self) -> bool {
        self.ws
    }

    /// The attributes by their keys.
    pub closed spec fn data(&self) -> Map<Seq<char>, V> {
        attributes(self.data@)
    }

    /// Whether the request is one for a web socket and a web socket is
    /// bound.
    pub open spec fn websocket(&self) -> bool {
        self.bound() && self.spec_request()@.websocket
    }

    /// The context of `request`, without attributes; `ws` says whether a
    /// web socket is bound to it.
    pub fn new(request: Request, ws: bool) -> (r: Self)
        ensures
            r.spec_request() == request,
            r.bound() == ws,
            r.data() == Map::<Seq<char>, V>::empty(),
    {
        Self { request, ws, data: Vec::new() }
    }

    pub fn request(&self) -> (r: &Request)
        ensures
            *r == self.spec_request(),
    {
        &self.request
    }

    /// Gives the request back, with what was done to it.
    pub fn into_request(self) -> (r: Request)
        ensures
            r == self.spec_request(),
    {
        self.request
    }

    // Web Sockets
    pub fn is_websocket(&self) -> (r: bool)
        ensures
            r == self.websocket(),
    {
        self.ws && self.request.is_websocket()
    }

    /// Subscribes `handler` to the messages of the web socket. Fails on a
    /// request that is none for a web socket.
    pub fn subscribe<S: Copy>(&self, ws: &mut WebSocket<S>, handler: S) -> (r: Result<(), Error>)
        ensures
            r is Ok <==> self.websocket(),
            match r {
                Ok(()) => final(ws)@ == (SocketView {
                    subscriptions: old(ws)@.subscriptions.push(handler),
                    ..old(ws)@
                }),
                Err(e) => final(ws)@ == old(ws)@ && e@ == (ErrorView {
                    kind: ErrorKind::WSFault,
                    message: subscribe_refused_message(),
                }),
            },
    {
        if !self.is_websocket() {
            return Err(
                Error::new_with_kind(
                    ErrorKind::WSFault,
                    String::from_str(
                        "attempt to call Context->subscribe when request is not a web socket",
                    ),
                ),
            );
        }
        ws.subscribe(handler)
    }

    /// Sends `data` as a binary message on the web socket: see
    /// [`WebSocket::send`]. Fails on a request that is none for a web
    /// socket.
    pub fn send<S: Copy, F>(
        &self,
        ws: &mut WebSocket<S>,
        deferral: &mut Deferral<Deferred, F>,
        data: Vec<u8>,
    ) -> (r: Result<(), Error>)
        requires
            old(deferral)@.bounded(),
        ensures
            final(deferral)@.bounded(),
            if !self.websocket() {
                &&& r is Err
                &&& r->Err_0@ == (ErrorView {
                    kind: ErrorKind::WSFault,
                    message: send_refused_message(),
                })
                &&& final(ws)@ == old(ws)@
                &&& final(deferral)@ == old(deferral)@
            } else if !old(ws)@.ready {
                &&& r is Ok
                &&& final(deferral)@ == old(deferral)@
                &&& final(ws)@ == (SocketView {
                    pending: old(ws)@.pending.push(MessageView::Binary(data@)),
                    ..old(ws)@
                })
            } else {
                &&& final(ws)@ == old(ws)@
                &&& r is Err <==> (old(deferral)@.max_defers_queue matches Some(max) && old(deferral)@.defers.len() >= max)
                &&& match r {
                    Ok(()) => {
                        &&& final(deferral)@.defers.len() == old(deferral)@.defers.len() + 1
                        &&& final(deferral)@.defers.last()@ == DeferredView::WsSend(
                            MessageView::Binary(data@),
                        )
                        &&& final(deferral)@.defers.drop_last() == old(deferral)@.defers
                    },
                    Err(e) => {
                        &&& final(deferral)@ == old(deferral)@
                        &&& old(deferral)@.max_defers_queue matches Some(max)
                        &&& e@ == (ErrorView {
                            kind: ErrorKind::ServerFault,
                            message: defers_full_message(max),
                        })
                    },
                }
            },
    {
        if !self.is_websocket() {
            return Err(
                Error::new_with_kind(
                    ErrorKind::WSFault,
                    String::from_str("attempt to call Context->send when request is not a web socket"),
                ),
            );
        }
        ws.send(Message::Binary(data), deferral)
    }

    // HTTP Client
    pub fn http(&self) -> (r: HttpFetchBuilder)
        ensures
            r@ == Some(blank_fetch(false)),
    {
        HttpFetchBuilder::http()
    }

    pub fn https(&self) -> (r: HttpFetchBuilder)
        ensures
            r@ == Some(blank_fetch(true)),
    {
        HttpFetchBuilder::https()
    }

    // Context Data
    /// Sets the attribute `key`, in place of the value it had.
    pub fn insert(&mut self, key: &str, value: V)
        ensures
            final(self).data() == old(self).data().insert(key@, value),
            final(self).spec_request() == old(self).spec_request(),
            final(self).bound() == old(self).bound(),
    {
        let ghost before = self.data@;
        self.data.push((String::from_str(key), value));
        assert(self.data@.drop_last() =~= before);
    }

    /// The attribute `key`.
    pub fn get(&self, key: &str) -> (r: Option<&V>)
        ensures
            match r {
                Some(v) => self.data().contains_key(key@) && self.data()[key@] == *v,
                None => !self.data().contains_key(key@),
            },
    {
        let wanted = String::from_str(key);
        let mut i: usize = self.data.len();
        assert(self.data@.subrange(0, i as int) =~= self.data@);
        while i > 0
            invariant
                i <= self.data@.len(),
                wanted@ == key@,
                attributes(self.data@).contains_key(key@) ==> attributes(
                    self.data@.subrange(0, i as int),
                ).contains_key(key@),
                attributes(self.data@).contains_key(key@) ==> attributes(self.data@)[key@]
                    == attributes(self.data@.subrange(0, i as int))[key@],
            decreases i,
        {
            let ghost prefix = self.data@.subrange(0, i as int);
            assert(prefix.drop_last() =~= self.data@.subrange(0, i - 1));
            assert(prefix.last() == self.data@[i - 1]);
            i -= 1;
            if self.data[i].0 == wanted {
                proof {
                    if !attributes(self.data@).contains_key(key@) {
                        lemma_attribute_stays(self.data@, i as int + 1);
                    }
                }
                return Some(&self.data[i].1);
            }
        }
        assert(self.data@.subrange(0, 0) =~= Seq::empty());
        None
    }

    pub fn contains_key(&self, key: &str) -> (r: bool)
        ensures
            r == self.data().contains_key(key@),
    {
        self.get(key).is_some()
    }
}

/// A key set by the first `k` entries stays set when more follow.
proof fn lemma_attribute_stays<V>(entries: Seq<(String, V)>, k: int)
    requires
        0 <= k <= entries.len(),
    ensures
        forall|key: Seq<char>|
            attributes(entries.subrange(0, k)).contains_key(key) ==> #[trigger] attributes(
                entries,
            ).contains_key(key),
    decreases entries.len() - k,
{
    if k == entries.len() {
        assert(entries.subrange(0, k) =~= entries);
    } else {
        lemma_attribute_stays(entries, k + 1);
        let next = entries.subrange(0, k + 1);
        assert(next.drop_last() =~= entries.subrange(0, k));
    }
}

} // verus!
