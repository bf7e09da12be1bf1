//! Web sockets after the upgrade: the messages, the subscriptions that are
//! notified of what the peer sends, and the sending of messages before and
//! after the socket is activated.

use crate::connection::{Deferred, DeferredView};
use crate::deferral::{defers_full_message, futures_full_message, Deferral, Inbox};
use crate::results::{Error, ErrorKind, ErrorView};
use crate::text::copy_bytes;
use vstd::prelude::*;
use vstd::string::*;

verus! {

/// A web socket message.
#[derive(Debug, PartialEq, Eq)]
pub enum Message {
    Text(String),
    Binary(Vec<u8>),
    Ping(Vec<u8>),
    Pong(Vec<u8>),
    /// The close of the socket, with the code and the reason if one was given.
    Close(Option<(u16, String)>),
}

/// What a [`Message`] holds.
pub ghost enum MessageView {
    Text(Seq<char>),
    Binary(Seq<u8>),
    Ping(Seq<u8>),
    Pong(Seq<u8>),
    Close(Option<(u16, Seq<char>)>),
}

impl View for Message {
    type V = MessageView;

    open spec fn view(&self) -> MessageView {
        match self {
            Message::Text(t) => MessageView::Text(t@),
            Message::Binary(b) => MessageView::Binary(b@),
            Message::Ping(b) => MessageView::Ping(b@),
            Message::Pong(b) => MessageView::Pong(b@),
            Message::Close(None) => MessageView::Close(None),
            Message::Close(Some(frame)) => MessageView::Close(Some((frame.0, frame.1@))),
        }
    }
}

impl Message {
    /// A message that holds what this one holds.
    pub fn duplicate(&self) -> (r: Message)
        ensures
            r@ == self@,
    {
        match self {
            Message::Text(t) => Message::Text(t.clone()),
            Message::Binary(b) => Message::Binary(copy_bytes(b.as_slice())),
            Message::Ping(b) => Message::Ping(copy_bytes(b.as_slice())),
            Message::Pong(b) => Message::Pong(copy_bytes(b.as_slice())),
            Message::Close(None) => Message::Close(None),
            Message::Close(Some(frame)) => Message::Close(Some((frame.0, frame.1.clone()))),
        }
    }
}

/// The messages that a vector of messages holds.
pub open spec fn messages(v: Seq<Message>) -> Seq<MessageView> {
    v.map_values(|m: Message| m@)
}

/// How reading or writing a web socket message failed.
#[derive(Debug)]
pub enum WsFailure {
    /// The connection is closed, after a close handshake.
    ConnectionClosed,
    /// The connection was used after it was closed.
    AlreadyClosed,
    /// A message was sent after the close frame.
    SendAfterClosing,
    /// A message arrived after the close frame.
    ReceivedAfterClosing,
    /// Anything else; the text describes it.
    Other(String),
}

/// The message of the fault for a web socket message that was not read.
pub open spec fn read_failed_message(why: Seq<char>) -> Seq<char> {
    "failed to read ws message: "@ + why
}

/// The message of the fault for a web socket message that was not written.
pub open spec fn write_failed_message(why: Seq<char>) -> Seq<char> {
    "failed to write ws message: "@ + why
}

/// The error for a failure to read (`reading`) or to write a message: the
/// closed states of the protocol are the signal that the socket is closed,
/// anything else is a web socket fault.
pub fn map_ws_failure(failure: WsFailure, reading: bool) -> (r: Error)
    ensures
        r@ == match failure {
            WsFailure::Other(why) => ErrorView {
                kind: ErrorKind::WSFault,
                message: if reading {
                    read_failed_message(why@)
                } else {
                    write_failed_message(why@)
                },
            },
            _ => ErrorView { kind: ErrorKind::WSClosed, message: Seq::empty() },
        },
{
    match failure {
        WsFailure::Other(why) => {
            let mut message = if reading {
                String::from_str("failed to read ws message: ")
            } else {
                String::from_str("failed to write ws message: ")
            };
            message.append(why.as_str());
            Error::new_with_kind(ErrorKind::WSFault, message)
        },
        _ => Error::new_ws_closed(),
    }
}

/// The notice of a message for one subscription: what a future that is
/// spawned for the subscription works on.
#[derive(Debug)]
pub struct Notify<S> {
    pub subscriber: S,
    pub message: Message,
}

/// What a [`Notify`] holds.
pub ghost struct Notice<S> {
    pub subscriber: S,
    pub message: MessageView,
}

impl<S> View for Notify<S> {
    type V = Notice<S>;

    open spec fn view(&self) -> Notice<S> {
        Notice { subscriber: self.subscriber, message: self.message@ }
    }
}

/// The notices that a vector of notices holds.
pub open spec fn notices<S>(v: Seq<Notify<S>>) -> Seq<Notice<S>> {
    v.map_values(|n: Notify<S>| n@)
}

/// The state of a web socket: its subscriptions, whether it is activated,
/// and the messages that were sent before it was.
#[derive(Debug)]
pub struct WebSocket<S> {
    subscriptions: Vec<S>,
    pending: Option<Vec<Message>>,
    ready: bool,
}

/// What a [`WebSocket`] holds.
pub ghost struct SocketView<S> {
    pub subscriptions: Seq<S>,
    /// The messages that wait for the activation, in the order they were
    /// sent in.
    pub pending: Seq<MessageView>,
    pub ready: bool,
}

impl<S> View for WebSocket<S> {
    type V = SocketView<S>;

    closed spec fn view(&self) -> SocketView<S> {
        SocketView {
            subscriptions: self.subscriptions@,
            pending: match self.pending {
                Some(p) => messages(p@),
                None => Seq::empty(),
            },
            ready: self.ready,
        }
    }
}

/// For how many of `wanted` futures the inbox has room: for all of them
/// if it is not bounded, otherwise for as many as are missing to its bound.
pub open spec fn room_for<D, F>(inbox: Inbox<D, F>, wanted: nat) -> nat {
    match inbox.max_futures_queue {
        Some(max) => if inbox.futures.len() + wanted <= max {
            wanted
        } else if inbox.futures.len() <= max {
            (max - inbox.futures.len()) as nat
        } else {
            0
        },
        None => wanted,
    }
}

/// The notices of `message` for the first `n` of `subscribers`.
pub open spec fn notices_for<S>(subscribers: Seq<S>, message: MessageView, n: int) -> Seq<
    Notice<S>,
> {
    Seq::new(n as nat, |i: int| Notice { subscriber: subscribers[i], message })
}

impl<S: Copy> WebSocket<S> {
    /// A socket that is not activated and has no subscriptions.
    pub fn new() -> (r: Self)
        ensures
            r@ == (SocketView {
                subscriptions: Seq::<S>::empty(),
                pending: Seq::empty(),
                ready: false,
            }),
    {
        Self { subscriptions: Vec::new(), pending: None, ready: false }
    }

    /// Adds a subscription behind those that are there.
    pub fn subscribe(&mut self, handler: S) -> (r: Result<(), Error>)
        ensures
            r is Ok,
            final(self)@ == (SocketView {
                subscriptions: old(self)@.subscriptions.push(handler),
                ..old(self)@
            }),
    {
        self.subscriptions.push(handler);
        Ok(())
    }

    /// Sends a message: before the activation it waits in the socket, after
    /// it a deferral is left in `deferral` that writes it on the
    /// connection. Fails where the inbox refuses the deferral.
    pub fn send<F>(&mut self, msg: Message, deferral: &mut Deferral<Deferred, F>) -> (r: Result<
        (),
        Error,
    >)
        requires
            old(deferral)@.bounded(),
        ensures
            final(deferral)@.bounded(),
            if !old(self)@.ready {
                &&& r is Ok
                &&& final(deferral)@ == old(deferral)@
                &&& final(self)@ == (SocketView {
                    pending: old(self)@.pending.push(msg@),
                    ..old(self)@
                })
            } else {
                &&& final(self)@ == old(self)@
                &&& final(deferral)@.futures == old(deferral)@.futures
                &&& match r {
                    Ok(()) => {
                        &&& final(deferral)@.defers.len() == old(deferral)@.defers.len() + 1
                        &&& final(deferral)@.defers.last()@ == DeferredView::WsSend(msg@)
                        &&& final(deferral)@.defers.drop_last() == old(deferral)@.defers
                        &&& final(deferral)@.waker.ready
                    },
                    Err(e) => {
                        &&& final(deferral)@ == old(deferral)@
                        &&& old(deferral)@.max_defers_queue matches Some(max)
                        &&& e@ == (ErrorView {
                            kind: ErrorKind::ServerFault,
                            message: defers_full_message(max),
                        })
                    },
                }
                &&& r is Err <==> (old(deferral)@.max_defers_queue matches Some(max) && old(deferral)@.defers.len() >= max)
            },
    {
        if !self.ready {
            let mut waiting = match self.pending.take() {
                Some(p) => p,
                None => Vec::new(),
            };
            let ghost before = waiting@;
            assert(messages(before) == old(self)@.pending);
            waiting.push(msg);
            assert(messages(waiting@) =~= messages(before).push(msg@));
            self.pending = Some(waiting);
            return Ok(());
        }
        let ghost before = deferral@.defers;
        let r = deferral.defer(Deferred::WsSend(msg));
        proof {
            if r is Ok {
                assert(deferral@.defers.drop_last() =~= before);
            }
        }
        r
    }

    /// Activates the socket and takes out the messages that waited, for
    /// the caller to write them on the stream in their order.
    pub fn activate(&mut self) -> (r: Vec<Message>)
        ensures
            messages(r@) == old(self)@.pending,
            final(self)@ == (SocketView {
                pending: Seq::empty(),
                ready: true,
                ..old(self)@
            }),
    {
        self.ready = true;
        match self.pending.take() {
            Some(p) => p,
            None => {
                let p: Vec<Message> = Vec::new();
                assert(messages(p@) =~= Seq::empty());
                p
            },
        }
    }

    /// Leaves in `deferral` a future for each subscription, in their
    /// order, that is to handle the message that the peer sent. Stops, and
    /// fails, at the first future that the inbox has no room for: see
    /// [`room_for`].
    pub fn handle(&self, msg: Message, deferral: &mut Deferral<Deferred, Notify<S>>) -> (r: Result<
        (),
        Error,
    >)
        requires
            old(deferral)@.bounded(),
        ensures
            final(deferral)@.bounded(),
            final(deferral)@.defers == old(deferral)@.defers,
            final(deferral)@.max_defers_queue == old(deferral)@.max_defers_queue,
            final(deferral)@.max_futures_queue == old(deferral)@.max_futures_queue,
            final(deferral)@.waker.token == old(deferral)@.waker.token,
            final(deferral)@.waker.ready == (old(deferral)@.waker.ready || room_for(
                old(deferral)@,
                self@.subscriptions.len(),
            ) > 0),
            notices(final(deferral)@.futures) == notices(old(deferral)@.futures) + notices_for(
                self@.subscriptions,
                msg@,
                room_for(old(deferral)@, self@.subscriptions.len()) as int,
            ),
            r is Ok <==> room_for(old(deferral)@, self@.subscriptions.len())
                == self@.subscriptions.len(),
            r matches Err(e) ==> old(deferral)@.max_futures_queue matches Some(max) && e@
                == (ErrorView { kind: ErrorKind::ServerFault, message: futures_full_message(max) }),
    {
        let mut i: usize = 0;
        let ghost room = room_for(deferral@, self@.subscriptions.len());
        assert(notices(deferral@.futures) + notices_for(self@.subscriptions, msg@, 0) =~= notices(
            deferral@.futures,
        ));
        while i < self.subscriptions.len()
            invariant
                i <= self.subscriptions@.len(),
                i <= room,
                room == room_for(old(deferral)@, self@.subscriptions.len()),
                old(deferral)@.bounded(),
                deferral@.bounded(),
                deferral@.defers == old(deferral)@.defers,
                deferral@.max_defers_queue == old(deferral)@.max_defers_queue,
                deferral@.max_futures_queue == old(deferral)@.max_futures_queue,
                deferral@.waker.token == old(deferral)@.waker.token,
                deferral@.waker.ready == (old(deferral)@.waker.ready || i > 0),
                deferral@.futures.len() == old(deferral)@.futures.len() + i,
                notices(deferral@.futures) == notices(old(deferral)@.futures) + notices_for(
                    self@.subscriptions,
                    msg@,
                    i as int,
                ),
            decreases self.subscriptions@.len() - i,
        {
            let ghost before = deferral@.futures;
            let notify = Notify { subscriber: self.subscriptions[i], message: msg.duplicate() };
            match deferral.spawn(notify) {
                Ok(()) => {
                    assert(notices(deferral@.futures) =~= notices(before).push(notify@));
                    assert(notices_for(self@.subscriptions, msg@, i + 1) =~= notices_for(
                        self@.subscriptions,
                        msg@,
                        i as int,
                    ).push(notify@));
                    assert(notices(deferral@.futures) =~= notices(old(deferral)@.futures)
                        + notices_for(self@.subscriptions, msg@, i + 1));
                },
                Err(e) => {
                    return Err(e);
                },
            }
            i += 1;
        }
        Ok(())
    }

    pub fn is_ready(&self) -> (r: bool)
        ensures
            r == self@.ready,
    {
        self.ready
    }

    pub fn subscriptions(&self) -> (r: &Vec<S>)
        ensures
            r@ == self@.subscriptions,
    {
        &self.subscriptions
    }
}

} // verus!
