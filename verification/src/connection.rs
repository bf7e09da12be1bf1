//! The state machine of a connection. The socket and the TLS session are
//! the caller's: the connection takes what they report, decides, and lists
//! as effects what the caller is to do with them, in order.

use crate::codec::{HttpCodec, Now};
use crate::config::{Config, Limits};
use crate::deferral::{Deferral, Inbox, ReactorWaker};
use crate::request::{announced_length, fed, RawRequest, RawView};
use crate::response::{error_response, fault_body, framed, Response};
use crate::results::{
    too_many_bytes_err, Error, ErrorKind, ErrorView, ResponseBody, ResponseBodyView,
};
use crate::text::copy_bytes;
use crate::websocket::{Message, MessageView};
use vstd::prelude::*;
use vstd::string::*;

verus! {

/// What a task leaves in the inbox of its connection, for the reactor to do
/// on the connection.
#[derive(Debug)]
pub enum Deferred {
    /// Send the framed response.
    Respond(ResponseBody),
    /// Answer the error.
    Fail(Error),
    /// Write the message on the web socket.
    WsSend(Message),
    /// Send the framed response that accepts the handshake, then go on as a
    /// web socket.
    Upgrade(ResponseBody),
}

/// What a [`Deferred`] holds.
pub ghost enum DeferredView {
    Respond(ResponseBodyView),
    Fail(ErrorView),
    WsSend(MessageView),
    Upgrade(ResponseBodyView),
}

impl View for Deferred {
    type V = DeferredView;

    open spec fn view(&self) -> DeferredView {
        match self {
            Deferred::Respond(res) => DeferredView::Respond(res@),
            Deferred::Fail(err) => DeferredView::Fail(err@),
            Deferred::WsSend(msg) => DeferredView::WsSend(msg@),
            Deferred::Upgrade(res) => DeferredView::Upgrade(res@),
        }
    }
}

/// The deferrals that a vector of deferrals holds.
pub open spec fn deferrals(v: Seq<Deferred>) -> Seq<DeferredView> {
    v.map_values(|d: Deferred| d@)
}

/// What the caller is to do for a connection.
#[derive(Debug, PartialEq, Eq)]
pub enum Effect {
    /// Write the bytes as plaintext into the TLS session.
    Write(Vec<u8>),
    /// Write what the TLS session has to send to the socket.
    WriteTls,
    /// Queue the TLS close notification.
    CloseNotify,
    /// Shut the socket down in both directions.
    Shutdown,
    /// Take the socket and the inbox's waker out of the poll.
    Deregister,
    /// Put the socket into the poll again, for what the session wants next.
    Reregister,
    /// Write the message as a web socket frame.
    WsWrite(Message),
    /// Activate the web socket and write the messages that waited for it.
    Activate,
}

/// What an [`Effect`] holds.
pub ghost enum EffectView {
    Write(Seq<u8>),
    WriteTls,
    CloseNotify,
    Shutdown,
    Deregister,
    Reregister,
    WsWrite(MessageView),
    Activate,
}

impl View for Effect {
    type V = EffectView;

    open spec fn view(&self) -> EffectView {
        match self {
            Effect::Write(bytes) => EffectView::Write(bytes@),
            Effect::WriteTls => EffectView::WriteTls,
            Effect::CloseNotify => EffectView::CloseNotify,
            Effect::Shutdown => EffectView::Shutdown,
            Effect::Deregister => EffectView::Deregister,
            Effect::Reregister => EffectView::Reregister,
            Effect::WsWrite(msg) => EffectView::WsWrite(msg@),
            Effect::Activate => EffectView::Activate,
        }
    }
}

/// The effects that a vector of effects holds.
pub open spec fn effects(v: Seq<Effect>) -> Seq<EffectView> {
    v.map_values(|e: Effect| e@)
}

/// What reading TLS bytes from the socket gave.
#[derive(Debug, Clone, Copy, PartialEq, Eq, Structural)]
pub enum TlsRead {
    /// Nothing to read now.
    WouldBlock,
    /// The connection was aborted.
    Aborted,
    /// Another error.
    Failed,
    /// The peer closed the socket.
    Eof,
    /// Bytes were read.
    Data,
}

/// The readiness that a connection waits for.
#[derive(Debug, Clone, Copy, PartialEq, Eq, Structural)]
pub enum Interest {
    Readable,
    Writable,
    Both,
}

/// One step in the handling of an event for a connection.
#[derive(Debug, Clone, Copy, PartialEq, Eq, Structural)]
pub enum Step {
    /// Answer the wakeup of the inbox.
    Wake,
    /// Read TLS bytes from the socket into the session.
    ReadTls,
    /// Read the next request bytes from the session.
    ReadRequest,
    /// Read the next web socket frame from the session.
    ReadFrame,
    /// Carry out the effects that have gathered.
    Perform,
    /// Write the session's TLS bytes to the socket.
    WriteTls,
    /// End the event: close the connection or wait for the next.
    Finish,
}

/// The steps in which an event is handled. A wakeup of the inbox is
/// answered; otherwise what is readable is read, as frames on a web socket
/// and as requests on any other connection. Then the effects are carried
/// out, the session's bytes written if the socket is writable, and the
/// event ended.
pub open spec fn event_steps(
    websocket: bool,
    is_wakeup: bool,
    readable: bool,
    writable: bool,
) -> Seq<Step> {
    let first = if is_wakeup {
        seq![Step::Wake]
    } else if readable {
        seq![
            Step::ReadTls,
            if websocket {
                Step::ReadFrame
            } else {
                Step::ReadRequest
            },
        ]
    } else {
        Seq::empty()
    };
    let writes = if writable {
        seq![Step::WriteTls]
    } else {
        Seq::empty()
    };
    first + seq![Step::Perform] + writes + seq![Step::Finish, Step::Perform]
}

/// What the session wants decides what the connection waits for: to write
/// if it wants to write, to read otherwise, and both if it wants both.
pub open spec fn interest_of(wants_read: bool, wants_write: bool) -> Interest {
    if wants_read && wants_write {
        Interest::Both
    } else if wants_write {
        Interest::Writable
    } else {
        Interest::Readable
    }
}

/// The connection of one accepted socket.
pub struct Connection {
    token: u64,
    config: Config,
    request: Option<RawRequest>,
    closing: bool,
    closed: bool,
    close_notify_sent: bool,
    ws: bool,
    effects: Vec<Effect>,
}

/// What a [`Connection`] holds.
pub ghost struct ConnView {
    /// The token of the socket. The token of the inbox's waker is the next.
    pub token: u64,
    pub limits: Limits,
    /// The request that is arriving, if one is.
    pub request: Option<RawView>,
    pub closing: bool,
    pub closed: bool,
    pub close_notify_sent: bool,
    /// Whether the connection was upgraded to a web socket.
    pub websocket: bool,
    /// What the caller has to do yet, in order.
    pub effects: Seq<EffectView>,
}

impl View for Connection {
    type V = ConnView;

    closed spec fn view(&self) -> ConnView {
        ConnView {
            token: self.token,
            limits: self.config@,
            request: match self.request {
                Some(r) => Some(r@),
                None => None,
            },
            closing: self.closing,
            closed: self.closed,
            close_notify_sent: self.close_notify_sent,
            websocket: self.ws,
            effects: effects(self.effects@),
        }
    }
}

impl ConnView {
    /// A connection with one more effect.
    pub open spec fn with_effect(self, effect: EffectView) -> ConnView {
        ConnView { effects: self.effects.push(effect), ..self }
    }

    /// The request that is arriving has no more bytes than a request may
    /// have.
    pub open spec fn within_limit(self) -> bool {
        self.request matches Some(r) ==> r.bytes <= self.limits.max_bytes_received
    }

    /// How many bytes of a request have arrived.
    pub open spec fn bytes_read(self) -> nat {
        match self.request {
            Some(r) => r.bytes,
            None => 0,
        }
    }

    /// After the close notification is queued, which happens once.
    pub open spec fn notified(self) -> ConnView {
        if self.close_notify_sent {
            self
        } else {
            ConnView { close_notify_sent: true, ..self.with_effect(EffectView::CloseNotify) }
        }
    }

    /// After a framed response is sent: a closed connection ignores it; an
    /// open one writes it, and queues the close notification if the
    /// response closes the connection.
    pub open spec fn responded(self, res: ResponseBodyView) -> ConnView {
        if self.closed {
            self
        } else if res.close {
            self.with_effect(EffectView::Write(res.body)).notified()
        } else {
            self.with_effect(EffectView::Write(res.body))
        }
    }

    /// The framed response that answers an error of the given kind.
    pub open spec fn answer(kind: ErrorKind, server: Seq<u8>, date: Seq<u8>) -> ResponseBodyView {
        let response = error_response(kind.status());
        ResponseBodyView {
            body: framed(server, response, fault_body(kind.status()), date),
            close: true,
        }
    }

    /// After an error is handled. A closed connection ignores it. The
    /// signal that the peer closed the web socket sets the connection
    /// closing and sends nothing. A web socket ignores every other error.
    /// Any other connection sends the response for the error's status,
    /// which closes the connection.
    pub open spec fn failed(self, kind: ErrorKind, server: Seq<u8>, date: Seq<u8>) -> ConnView {
        if self.closed {
            self
        } else if kind == ErrorKind::WSClosed {
            ConnView { closing: true, ..self }
        } else if self.websocket {
            self
        } else {
            self.responded(ConnView::answer(kind, server, date))
        }
    }

    /// After the connection is closed: the close notification is queued if
    /// it was not, and the socket shut down.
    pub open spec fn shut(self) -> ConnView {
        ConnView { closed: true, ..self.notified().with_effect(EffectView::Shutdown) }
    }

    /// After a deferral is run.
    pub open spec fn ran(self, deferred: DeferredView, server: Seq<u8>, date: Seq<u8>) -> ConnView {
        match deferred {
            DeferredView::Respond(res) => self.responded(res),
            DeferredView::Fail(err) => self.failed(err.kind, server, date),
            DeferredView::WsSend(msg) => if self.websocket {
                self.with_effect(EffectView::WsWrite(msg))
            } else {
                self
            },
            DeferredView::Upgrade(res) => ConnView {
                websocket: true,
                ..self.responded(res).with_effect(EffectView::Activate)
            },
        }
    }

    /// After the deferrals are run, in their order.
    pub open spec fn drained(self, deferred: Seq<DeferredView>, server: Seq<u8>, date: Seq<u8>) -> ConnView
        decreases deferred.len(),
    {
        if deferred.len() == 0 {
            self
        } else {
            self.drained(deferred.drop_last(), server, date).ran(deferred.last(), server, date)
        }
    }

    /// After an event is done with: a connection that is closing is closed
    /// and leaves the poll, another waits for the next event.
    pub open spec fn finished(self) -> ConnView {
        if self.closing {
            self.shut().with_effect(EffectView::Deregister)
        } else {
            self.with_effect(EffectView::Reregister)
        }
    }

    /// What the arriving request becomes when `data` arrives at the
    /// instant `ticks`, and the error that this gives, if any. The first
    /// bytes begin a request that is to be whole within the request
    /// timeout.
    pub open spec fn fed_request(self, data: Seq<u8>, ticks: u64) -> (RawView, Option<ErrorView>) {
        match self.request {
            Some(r) => fed(r, data),
            None => fed(
                RawRequest::empty(deadline_after(ticks, self.limits.request_timeout)),
                data,
            ),
        }
    }

    /// Whether plaintext is taken in: not by a connection that is closed
    /// or closing, and not where there is none.
    pub open spec fn takes(self, data: Seq<u8>) -> bool {
        !self.closed && !self.closing && data.len() > 0
    }

    /// The request that is whole once `data` has arrived at the instant
    /// `ticks`, if one is: its head is decoded, it announces no more than a
    /// request may have, and all it announces is buffered.
    pub open spec fn dispatched(self, data: Seq<u8>, ticks: u64) -> Option<RawView> {
        let (raw, err) = self.fed_request(data, ticks);
        if self.takes(data) && err is None && raw.head is Some && announced_length(raw.usable())
            <= self.limits.max_bytes_received && raw.data.len() >= announced_length(
            raw.usable(),
        ) {
            Some(raw)
        } else {
            None
        }
    }

    /// After `data` has arrived at the instant `ticks`. Bytes that cannot
    /// be decoded are answered as the decoding says; the request that was
    /// arriving stays. A request whose head is not whole is answered as a
    /// server fault, one that announces too much as too large; both are
    /// dropped. A request that is whole leaves the connection; any other
    /// waits for more.
    pub open spec fn ingested(self, data: Seq<u8>, ticks: u64, server: Seq<u8>, date: Seq<u8>) -> ConnView {
        let (raw, err) = self.fed_request(data, ticks);
        let idle = ConnView { request: None, ..self };
        if !self.takes(data) {
            self
        } else if err is Some {
            if self.request is Some {
                ConnView { request: Some(raw), ..self }.failed(err->0.kind, server, date)
            } else {
                self.failed(err->0.kind, server, date)
            }
        } else if raw.head is None {
            idle.failed(ErrorKind::ServerFault, server, date)
        } else if announced_length(raw.usable()) > self.limits.max_bytes_received {
            idle.failed(ErrorKind::PayloadTooLarge, server, date)
        } else if raw.data.len() >= announced_length(raw.usable()) {
            idle
        } else {
            ConnView { request: Some(raw), ..self }
        }
    }

    /// Whether the arriving request has timed out at `now`.
    pub open spec fn timed_out(self, now: u64) -> bool {
        self.request matches Some(r) && r.deadline matches Some(deadline) && now > deadline
    }

    /// After the deadline of the arriving request passed: the timeout is
    /// answered, the TLS bytes written, and the connection closed.
    pub open spec fn expired(self, server: Seq<u8>, date: Seq<u8>) -> ConnView {
        self.failed(ErrorKind::TimedOut, server, date).with_effect(EffectView::WriteTls).shut().with_effect(
            EffectView::Deregister,
        )
    }
}

/// The message of the error for a request that timed out.
pub open spec fn timed_out_message() -> Seq<char> {
    "request timed out"@
}

/// The instant `timeout` after `now`, or the last instant if that is
/// earlier.
pub open spec fn deadline_after(now: u64, timeout: u64) -> u64 {
    if now + timeout > u64::MAX {
        u64::MAX
    } else {
        (now + timeout) as u64
    }
}

/// The items of a vector in the opposite order.
fn turned<T>(v: Vec<T>) -> (r: Vec<T>)
    ensures
        r@.len() == v@.len(),
        forall|k: int| 0 <= k < r@.len() ==> r@[k] == v@[v@.len() - 1 - k],
{
    let mut v = v;
    let ghost all = v@;
    let mut r: Vec<T> = Vec::new();
    while v.len() > 0
        invariant
            v@.len() + r@.len() == all.len(),
            forall|k: int| 0 <= k < v@.len() ==> v@[k] == all[k],
            forall|k: int| 0 <= k < r@.len() ==> r@[k] == all[all.len() - 1 - k],
        decreases v@.len(),
    {
        let item = v.pop().unwrap();
        r.push(item);
    }
    r
}

impl Connection {
    /// The arriving request, if there is one, is well formed and within
    /// the limit for requests.
    pub closed spec fn inv(&self) -> bool {
        self.request matches Some(r) ==> r.wf() && r@.bytes
            <= self.config@.max_bytes_received
    }

    /// A connection that holds its invariant keeps the arriving request
    /// within the limit for requests.
    pub proof fn lemma_within_limit(&self)
        requires
            self.inv(),
        ensures
            self@.within_limit(),
    {
    }

    /// A connection that is open and idle.
    pub open spec fn fresh(conn_id: u64, config: Config) -> ConnView {
        ConnView {
            token: conn_id,
            limits: config@,
            request: None,
            closing: false,
            closed: false,
            close_notify_sent: false,
            websocket: false,
            effects: Seq::empty(),
        }
    }

    /// The connection of the socket with the token `conn_id`, open and idle.
    pub fn new(conn_id: u64, config: Config) -> (r: Self)
        ensures
            r.inv(),
            r@ == Connection::fresh(conn_id, config),
    {
        let r = Self {
            token: conn_id,
            config,
            request: None,
            closing: false,
            closed: false,
            close_notify_sent: false,
            ws: false,
            effects: Vec::new(),
        };
        assert(effects(r.effects@) =~= Seq::empty());
        r
    }

    pub fn token(&self) -> (r: u64)
        ensures
            r == self@.token,
    {
        self.token
    }

    pub fn is_closing(&self) -> (r: bool)
        ensures
            r == self@.closing,
    {
        self.closing
    }

    pub fn set_closing(&mut self, closing: bool)
        requires
            old(self).inv(),
        ensures
            final(self).inv(),
            final(self)@ == (ConnView { closing, ..old(self)@ }),
    {
        self.closing = closing;
    }

    pub fn is_closed(&self) -> (r: bool)
        ensures
            r == self@.closed,
    {
        self.closed
    }

    pub fn is_websocket(&self) -> (r: bool)
        ensures
            r == self@.websocket,
    {
        self.ws
    }

    /// How many bytes a request on this connection may have.
    pub fn max_bytes_received(&self) -> (r: usize)
        ensures
            r == self@.limits.max_bytes_received,
    {
        self.config.max_bytes_received()
    }

    /// How many bytes of a request have arrived.
    pub fn bytes_read(&self) -> (r: usize)
        ensures
            r == self@.bytes_read(),
    {
        match &self.request {
            Some(req) => req.len(),
            None => 0,
        }
    }

    /// Takes out the effects, for the caller to carry them out in order.
    pub fn take_effects(&mut self) -> (r: Vec<Effect>)
        requires
            old(self).inv(),
        ensures
            final(self).inv(),
            effects(r@) == old(self)@.effects,
            final(self)@ == (ConnView { effects: Seq::empty(), ..old(self)@ }),
    {
        let mut out: Vec<Effect> = Vec::new();
        std::mem::swap(&mut self.effects, &mut out);
        assert(effects(self.effects@) =~= Seq::empty());
        out
    }

    fn push_effect(&mut self, effect: Effect)
        requires
            old(self).inv(),
        ensures
            final(self).inv(),
            final(self)@ == old(self)@.with_effect(effect@),
    {
        let ghost before = self.effects@;
        self.effects.push(effect);
        assert(effects(self.effects@) =~= effects(before).push(effect@));
    }

    /// What the connection is to wait for, given what the session wants.
    pub fn event_set(&self, wants_read: bool, wants_write: bool) -> (r: Interest)
        ensures
            r == interest_of(wants_read, wants_write),
    {
        if wants_read && wants_write {
            Interest::Both
        } else if wants_write {
            Interest::Writable
        } else {
            Interest::Readable
        }
    }

    /// The steps in which an event for the connection is handled: see
    /// [`event_steps`].
    pub fn ready(&self, is_wakeup: bool, readable: bool, writable: bool) -> (r: Vec<Step>)
        ensures
            r@ == event_steps(self@.websocket, is_wakeup, readable, writable),
    {
        let mut steps: Vec<Step> = Vec::new();
        if is_wakeup {
            steps.push(Step::Wake);
        } else if readable {
            steps.push(Step::ReadTls);
            if self.ws {
                steps.push(Step::ReadFrame);
            } else {
                steps.push(Step::ReadRequest);
            }
        }
        steps.push(Step::Perform);
        if writable {
            steps.push(Step::WriteTls);
        }
        steps.push(Step::Finish);
        steps.push(Step::Perform);
        assert(steps@ =~= event_steps(self@.websocket, is_wakeup, readable, writable));
        steps
    }

    /// Takes what reading TLS bytes from the socket gave: the end of the
    /// stream or an error other than "would block" closes the connection.
    pub fn read_tls(&mut self, outcome: TlsRead)
        requires
            old(self).inv(),
        ensures
            final(self).inv(),
            final(self)@ == (ConnView {
                closing: old(self)@.closing || (outcome != TlsRead::WouldBlock && outcome
                    != TlsRead::Data),
                ..old(self)@
            }),
    {
        match outcome {
            TlsRead::WouldBlock => {},
            TlsRead::Data => {},
            TlsRead::Aborted => {
                self.closing = true;
            },
            TlsRead::Failed => {
                self.closing = true;
            },
            TlsRead::Eof => {
                self.closing = true;
            },
        }
    }

    /// Takes the news that the session refused the TLS messages it was
    /// given: what it has to say is written, and the connection closes.
    pub fn packets_failed(&mut self)
        requires
            old(self).inv(),
        ensures
            final(self).inv(),
            final(self)@ == (ConnView {
                closing: true,
                ..old(self)@.with_effect(EffectView::WriteTls)
            }),
    {
        // last gasp write to send any alerts
        self.push_effect(Effect::WriteTls);
        self.closing = true;
    }

    /// Takes the news that a write to the session or to the socket failed.
    pub fn write_failed(&mut self)
        requires
            old(self).inv(),
        ensures
            final(self).inv(),
            final(self)@ == (ConnView { closing: true, ..old(self)@ }),
    {
        self.closing = true;
    }

    /// Decides how much of the `available` plaintext to read: all of it,
    /// unless the request would then be larger than a request may be; then
    /// nothing is read and the request is answered as too large.
    pub fn read(&mut self, available: usize, codec: &mut HttpCodec, now: Now) -> (r: usize)
        requires
            old(self).inv(),
        ensures
            final(self).inv(),
            final(codec).server() == old(codec).server(),
            if available + old(self)@.bytes_read() > old(self)@.limits.max_bytes_received {
                r == 0 && final(self)@ == old(self)@.failed(
                    ErrorKind::PayloadTooLarge,
                    old(codec).server(),
                    now.text(),
                )
            } else {
                r == available && final(self)@ == old(self)@
            },
    {
        if available > 0 {
            let bytes_read = self.bytes_read();
            let max = self.config.max_bytes_received();
            if available > max || bytes_read > max - available {
                let err = if bytes_read > usize::MAX - available {
                    too_many_bytes_err(usize::MAX, max)
                } else {
                    too_many_bytes_err(available + bytes_read, max)
                };
                self.handle_error(&err, codec, now);
                return 0;
            }
        }
        available
    }

    /// Takes the news that the plaintext could not be read: an aborted
    /// connection answers the error that the session carried, if any; any
    /// other failure closes the connection.
    pub fn read_failed(&mut self, aborted: bool, inner: Option<Error>, codec: &mut HttpCodec, now: Now)
        requires
            old(self).inv(),
        ensures
            final(self).inv(),
            final(codec).server() == old(codec).server(),
            final(self)@ == if !aborted {
                ConnView { closing: true, ..old(self)@ }
            } else {
                match inner {
                    Some(err) => old(self)@.failed(err@.kind, old(codec).server(), now.text()),
                    None => old(self)@,
                }
            },
    {
        if aborted {
            if let Some(err) = inner {
                self.handle_error(&err, codec, now);
            }
        } else {
            self.closing = true;
        }
    }

    /// Answers an error: see [`ConnView::failed`].
    pub fn handle_error(&mut self, err: &Error, codec: &mut HttpCodec, now: Now)
        requires
            old(self).inv(),
        ensures
            final(self).inv(),
            final(codec).server() == old(codec).server(),
            final(self)@ == old(self)@.failed(err@.kind, old(codec).server(), now.text()),
    {
        if self.is_closed() {
            // Abort early, stale connection.
            return;
        }
        if let ErrorKind::WSClosed = err.kind() {
            self.closing = true;
            return;
        }
        if self.is_websocket() {
            // Not a standard request.
            return;
        }
        match Response::from_error(err).encode(codec, now) {
            Ok(res) => {
                self.send_response(&res);
            },
            Err(_) => {},
        }
    }

    /// Sends a framed response: see [`ConnView::responded`].
    pub fn send_response(&mut self, res: &ResponseBody)
        requires
            old(self).inv(),
        ensures
            final(self).inv(),
            final(self)@ == old(self)@.responded(res@),
    {
        if self.is_closed() {
            // Abort, stale connection.
            return;
        }
        let body = copy_bytes(res.body().as_slice());
        self.push_effect(Effect::Write(body));
        if res.close() {
            self.send_close_notify();
        }
    }

    fn send_close_notify(&mut self)
        requires
            old(self).inv(),
        ensures
            final(self).inv(),
            final(self)@ == old(self)@.notified(),
    {
        if !self.close_notify_sent {
            self.push_effect(Effect::CloseNotify);
            self.close_notify_sent = true;
        }
    }

    /// Closes the connection: see [`ConnView::shut`].
    pub fn close(&mut self)
        requires
            old(self).inv(),
        ensures
            final(self).inv(),
            final(self)@ == old(self)@.shut(),
            final(self)@.closed,
    {
        self.send_close_notify();
        self.push_effect(Effect::Shutdown);
        self.closed = true;
    }

    /// Ends the handling of an event: see [`ConnView::finished`]. A
    /// connection that was closing is closed afterwards.
    pub fn finish(&mut self)
        requires
            old(self).inv(),
        ensures
            final(self).inv(),
            final(self)@ == old(self)@.finished(),
            old(self)@.closing ==> final(self)@.closed,
    {
        if self.is_closing() {
            self.close();
            self.push_effect(Effect::Deregister);
        } else {
            self.push_effect(Effect::Reregister);
        }
    }

    /// Checks the deadline of the arriving request at the instant `ticks`:
    /// where it has passed, the timeout is answered and the connection
    /// closed. Says whether it has.
    pub fn check_timeout(&mut self, ticks: u64, codec: &mut HttpCodec, now: Now) -> (r: bool)
        requires
            old(self).inv(),
        ensures
            final(self).inv(),
            final(codec).server() == old(codec).server(),
            r == old(self)@.timed_out(ticks),
            final(self)@ == if r {
                old(self)@.expired(old(codec).server(), now.text())
            } else {
                old(self)@
            },
            r ==> final(self)@.closed,
            !r ==> *final(self) == *old(self),
    {
        let timed_out = match &self.request {
            Some(req) => req.check_timeout(ticks),
            None => false,
        };
        if timed_out {
            let err = Error::new_with_kind(
                ErrorKind::TimedOut,
                String::from_str("request timed out"),
            );
            self.handle_error(&err, codec, now);
            self.push_effect(Effect::WriteTls);
            self.close();
            self.push_effect(Effect::Deregister);
        }
        timed_out
    }

    /// Runs one deferral: see [`ConnView::ran`].
    pub fn run(&mut self, deferred: Deferred, codec: &mut HttpCodec, now: Now)
        requires
            old(self).inv(),
        ensures
            final(self).inv(),
            final(codec).server() == old(codec).server(),
            final(self)@ == old(self)@.ran(deferred@, old(codec).server(), now.text()),
    {
        match deferred {
            Deferred::Respond(res) => {
                self.send_response(&res);
            },
            Deferred::Fail(err) => {
                self.handle_error(&err, codec, now);
            },
            Deferred::WsSend(msg) => {
                if self.ws {
                    self.push_effect(Effect::WsWrite(msg));
                }
            },
            Deferred::Upgrade(res) => {
                self.send_response(&res);
                self.push_effect(Effect::Activate);
                self.ws = true;
            },
        }
    }

    /// Answers the wakeup of the inbox: takes both queues out, runs the
    /// deferrals in their order, and returns the futures for the executor
    /// to spawn, in their order.
    pub fn wake<F>(&mut self, inbox: &mut Deferral<Deferred, F>, codec: &mut HttpCodec, now: Now) -> (r: Vec<
        F,
    >)
        requires
            old(self).inv(),
        ensures
            final(self).inv(),
            final(codec).server() == old(codec).server(),
            r@ == old(inbox)@.futures,
            final(inbox)@ == (Inbox {
                defers: Seq::<Deferred>::empty(),
                futures: Seq::<F>::empty(),
                waker: ReactorWaker { token: old(inbox)@.waker.token, ready: false },
                ..old(inbox)@
            }),
            final(inbox)@.bounded(),
            final(self)@ == old(self)@.drained(
                deferrals(old(inbox)@.defers),
                old(codec).server(),
                now.text(),
            ),
    {
        let (defers, futures) = inbox.take_pending();
        let ghost all = defers@;
        let ghost server = codec.server();
        let ghost start = self@;
        let ghost n = all.len();
        // `pop` takes from the end, so the queue is turned round first.
        let mut rest = turned(defers);
        assert(deferrals(all).subrange(0, 0) =~= Seq::empty());
        while rest.len() > 0
            invariant
                self.inv(),
                codec.server() == server,
                n == all.len(),
                rest@.len() <= n,
                forall|k: int| 0 <= k < rest@.len() ==> rest@[k] == all[n - 1 - k],
                self@ == start.drained(
                    deferrals(all).subrange(0, n - rest@.len()),
                    server,
                    now.text(),
                ),
            decreases rest@.len(),
        {
            let ghost done = n - rest@.len();
            let d = rest.pop().unwrap();
            proof {
                assert(d == all[done]);
                let next = deferrals(all).subrange(0, done + 1);
                assert(next.drop_last() =~= deferrals(all).subrange(0, done));
                assert(next.last() == d@);
            }
            self.run(d, codec, now);
        }
        assert(deferrals(all).subrange(0, n as int) =~= deferrals(all));
        futures
    }

    /// Takes the plaintext that was read, at the instant `ticks`: the
    /// first bytes begin a request that is to be whole within the request
    /// timeout, later bytes go on with it. A request that cannot be decoded
    /// or announces too much is answered and dropped. A request that is
    /// whole is returned, for the caller to have it processed.
    pub fn handle_request(
        &mut self,
        request_body: Vec<u8>,
        ticks: u64,
        codec: &mut HttpCodec,
        now: Now,
    ) -> (r: Option<RawRequest>)
        requires
            old(self).inv(),
            request_body@.len() + old(self)@.bytes_read() <= old(self)@.limits.max_bytes_received,
        ensures
            final(self).inv(),
            final(codec).server() == old(codec).server(),
            final(self)@.within_limit(),
            final(self)@ == old(self)@.ingested(
                request_body@,
                ticks,
                old(codec).server(),
                now.text(),
            ),
            match (r, old(self)@.dispatched(request_body@, ticks)) {
                (Some(req), Some(raw)) => req@ == raw && req.wf() && req.is_ready(),
                (None, None) => true,
                _ => false,
            },
    {
        if self.is_closed() || self.is_closing() {
            return None;
        }
        if request_body.len() > 0 {
            // Consume request body.
            match self.request.take() {
                Some(mut req) => {
                    let fed = req.next(request_body);
                    match fed {
                        Ok(()) => {
                            self.request = Some(req);
                        },
                        Err(err) => {
                            self.request = Some(req);
                            self.handle_error(&err, codec, now);
                            return None;
                        },
                    }
                },
                None => {
                    let timeout = self.config.request_timeout();
                    let deadline = if ticks > u64::MAX - timeout {
                        u64::MAX
                    } else {
                        ticks + timeout
                    };
                    match RawRequest::new(request_body, deadline) {
                        Ok(req) => {
                            self.request = Some(req);
                        },
                        Err(err) => {
                            self.handle_error(&err, codec, now);
                            return None;
                        },
                    }
                },
            }
            if let Some(req) = self.request.take() {
                if let Err(err) = req.validate(self.config.max_bytes_received()) {
                    self.handle_error(&err, codec, now);
                    return None;
                }
                // Ready?
                if req.ready() {
                    return Some(req);
                } else {
                    self.request = Some(req);
                }
            }
        }
        None
    }
}

/// The deferrals that send `responses`, in their order.
pub open spec fn responses_deferred(responses: Seq<ResponseBodyView>) -> Seq<DeferredView> {
    responses.map_values(|res: ResponseBodyView| DeferredView::Respond(res))
}

/// The effects that write the bodies of `responses`, in their order.
pub open spec fn writes_of(responses: Seq<ResponseBodyView>) -> Seq<EffectView> {
    responses.map_values(|res: ResponseBodyView| EffectView::Write(res.body))
}

/// Responses go out in the order in which they were left in the inbox: on
/// a connection that is not closed, the deferrals of responses that keep
/// the connection add the writes of their bodies in their order, and
/// nothing else changes.
pub proof fn lemma_responses_in_order(
    conn: ConnView,
    responses: Seq<ResponseBodyView>,
    server: Seq<u8>,
    date: Seq<u8>,
)
    requires
        !conn.closed,
        forall|i: int| 0 <= i < responses.len() ==> !(#[trigger] responses[i]).close,
    ensures
        conn.drained(responses_deferred(responses), server, date) == (ConnView {
            effects: conn.effects + writes_of(responses),
            ..conn
        }),
    decreases responses.len(),
{
    let deferred = responses_deferred(responses);
    if responses.len() == 0 {
        assert(conn.effects + writes_of(responses) =~= conn.effects);
    } else {
        let init = responses.drop_last();
        assert(deferred.drop_last() =~= responses_deferred(init));
        assert(deferred.last() == DeferredView::Respond(responses.last()));
        assert forall|i: int| 0 <= i < init.len() implies !(#[trigger] init[i]).close by {
            assert(init[i] == responses[i]);
        }
        lemma_responses_in_order(conn, init, server, date);
        assert((conn.effects + writes_of(init)).push(EffectView::Write(responses.last().body))
            =~= conn.effects + writes_of(responses));
    }
}

/// The answer to a request under HTTP/1.1 keeps the connection, so that
/// the next request on it is served.
pub proof fn lemma_http11_keeps(head: crate::request::HeadView)
    requires
        head.version == crate::wire::Version::Http11,
    ensures
        crate::request::keeps_alive(head),
{
}

/// An error on an open connection that is no web socket, other than the
/// signal that a web socket is closed, is answered and closes the
/// connection: the response for its status is written, one response and no
/// more, and the close notification queued behind it.
pub proof fn lemma_error_closes(conn: ConnView, kind: ErrorKind, server: Seq<u8>, date: Seq<u8>)
    requires
        !conn.closed,
        !conn.websocket,
        !conn.close_notify_sent,
        kind != ErrorKind::WSClosed,
    ensures
        ({
            let response = error_response(kind.status());
            let bytes = framed(server, response, fault_body(kind.status()), date);
            conn.failed(kind, server, date) == (ConnView {
                effects: conn.effects.push(EffectView::Write(bytes)).push(EffectView::CloseNotify),
                close_notify_sent: true,
                ..conn
            })
        }),
        error_response(kind.status()).status == kind.status(),
        error_response(kind.status()).close,
        error_response(kind.status()).body == Some(fault_body(kind.status())),
{
}

/// The signal that the peer closed the web socket sets a connection that is
/// not closed closing and sends nothing, whether the connection is a web
/// socket or not; a closed connection ignores every error.
pub proof fn lemma_closed_signal(conn: ConnView, kind: ErrorKind, server: Seq<u8>, date: Seq<u8>)
    ensures
        !conn.closed ==> conn.failed(ErrorKind::WSClosed, server, date) == (ConnView {
            closing: true,
            ..conn
        }),
        conn.closed ==> conn.failed(kind, server, date) == conn,
{
}

} // verus!
