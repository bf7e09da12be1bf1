//! The deferral inbox of a connection: the work that tasks leave for the
//! reactor to do on the connection, and the waker that tells the reactor
//! that there is some.

use crate::results::{Error, ErrorKind, ErrorView};
use crate::text::{ascii_text, decimal, decimal_text};
use vstd::prelude::*;
use vstd::string::*;

verus! {

/// A source of readiness under a token of its own: triggered, it makes the
/// reactor's poll report the token until it is cleared.
#[derive(Debug, Clone, Copy, PartialEq, Eq, Structural)]
pub struct ReactorWaker {
    pub token: u64,
    pub ready: bool,
}

impl ReactorWaker {
    pub fn new(token: u64) -> (r: Self)
        ensures
            r == (ReactorWaker { token, ready: false }),
    {
        ReactorWaker { token, ready: false }
    }

    pub fn trigger(&mut self)
        ensures
            *final(self) == (ReactorWaker { token: old(self).token, ready: true }),
    {
        self.ready = true;
    }

    pub fn clear(&mut self)
        ensures
            *final(self) == (ReactorWaker { token: old(self).token, ready: false }),
    {
        self.ready = false;
    }

    pub fn token(&self) -> (r: u64)
        ensures
            r == self.token,
    {
        self.token
    }

    pub fn is_ready(&self) -> (r: bool)
        ensures
            r == self.ready,
    {
        self.ready
    }
}

/// The inbox of a connection: deferrals to run on the connection and
/// futures to spawn, each in the order they were left in.
#[derive(Debug)]
pub struct Deferral<D, F> {
    waker: ReactorWaker,
    defers: Vec<D>,
    futures: Vec<F>,
    // Options
    max_defers_queue: Option<usize>,
    max_futures_queue: Option<usize>,
}

/// What a [`Deferral`] holds.
pub ghost struct Inbox<D, F> {
    pub waker: ReactorWaker,
    pub defers: Seq<D>,
    pub futures: Seq<F>,
    pub max_defers_queue: Option<usize>,
    pub max_futures_queue: Option<usize>,
}

impl<D, F> Inbox<D, F> {
    /// Neither queue is longer than its bound.
    pub open spec fn bounded(self) -> bool {
        &&& self.max_defers_queue matches Some(max) ==> self.defers.len() <= max
        &&& self.max_futures_queue matches Some(max) ==> self.futures.len() <= max
    }
}

impl<D, F> View for Deferral<D, F> {
    type V = Inbox<D, F>;

    closed spec fn view(&self) -> Inbox<D, F> {
        Inbox {
            waker: self.waker,
            defers: self.defers@,
            futures: self.futures@,
            max_defers_queue: self.max_defers_queue,
            max_futures_queue: self.max_futures_queue,
        }
    }
}

/// The message of the error for a deferral that finds its queue full.
pub open spec fn defers_full_message(max: usize) -> Seq<char> {
    "unable to queue deferral, limit exceeded: "@ + ascii_text(decimal(max as nat))
}

/// The message of the error for a future that finds its queue full.
pub open spec fn futures_full_message(max: usize) -> Seq<char> {
    "unable to queue future, limit exceeded: "@ + ascii_text(decimal(max as nat))
}

impl<D, F> Deferral<D, F> {
    /// An empty inbox whose waker has the token `waker_token`.
    pub fn new(
        waker_token: u64,
        max_defers_queue: Option<usize>,
        max_futures_queue: Option<usize>,
    ) -> (r: Self)
        ensures
            r@ == (Inbox {
                waker: ReactorWaker { token: waker_token, ready: false },
                defers: Seq::<D>::empty(),
                futures: Seq::<F>::empty(),
                max_defers_queue,
                max_futures_queue,
            }),
            r@.bounded(),
    {
        Self {
            waker: ReactorWaker::new(waker_token),
            defers: Vec::new(),
            futures: Vec::new(),
            max_defers_queue,
            max_futures_queue,
        }
    }

    /// Leaves a deferral behind those that wait, and triggers the waker.
    /// A queue that is bounded and full refuses it.
    pub fn defer(&mut self, defer: D) -> (r: Result<(), Error>)
        requires
            old(self)@.bounded(),
        ensures
            final(self)@.bounded(),
            match r {
                Ok(()) => final(self)@ == (Inbox {
                    defers: old(self)@.defers.push(defer),
                    waker: ReactorWaker { token: old(self)@.waker.token, ready: true },
                    ..old(self)@
                }),
                Err(e) => {
                    &&& final(self)@ == old(self)@
                    &&& old(self)@.max_defers_queue matches Some(max)
                    &&& old(self)@.defers.len() >= max
                    &&& e@ == (ErrorView {
                        kind: ErrorKind::ServerFault,
                        message: defers_full_message(max),
                    })
                },
            },
            r is Err <==> (old(self)@.max_defers_queue matches Some(max) && old(self)@.defers.len()
                >= max),
    {
        if let Some(max_defers_queue) = self.max_defers_queue {
            if self.defers.len() >= max_defers_queue {
                let mut message = String::from_str("unable to queue deferral, limit exceeded: ");
                message.append(decimal_text(max_defers_queue as u64).as_str());
                return Err(Error::new_with_kind(ErrorKind::ServerFault, message));
            }
        }
        self.defers.push(defer);
        self.waker.trigger();
        Ok(())
    }

    /// Leaves a future behind those that wait, and triggers the waker. A
    /// queue that is bounded and full refuses it.
    pub fn spawn(&mut self, future: F) -> (r: Result<(), Error>)
        requires
            old(self)@.bounded(),
        ensures
            final(self)@.bounded(),
            match r {
                Ok(()) => final(self)@ == (Inbox {
                    futures: old(self)@.futures.push(future),
                    waker: ReactorWaker { token: old(self)@.waker.token, ready: true },
                    ..old(self)@
                }),
                Err(e) => {
                    &&& final(self)@ == old(self)@
                    &&& old(self)@.max_futures_queue matches Some(max)
                    &&& old(self)@.futures.len() >= max
                    &&& e@ == (ErrorView {
                        kind: ErrorKind::ServerFault,
                        message: futures_full_message(max),
                    })
                },
            },
            r is Err <==> (old(self)@.max_futures_queue matches Some(max) && old(self)@.futures.len() >= max),
    {
        if let Some(max_futures_queue) = self.max_futures_queue {
            if self.futures.len() >= max_futures_queue {
                let mut message = String::from_str("unable to queue future, limit exceeded: ");
                message.append(decimal_text(max_futures_queue as u64).as_str());
                return Err(Error::new_with_kind(ErrorKind::ServerFault, message));
            }
        }
        self.futures.push(future);
        self.waker.trigger();
        Ok(())
    }

    /// Clears the waker and takes both queues out, each in its order.
    pub fn take_pending(&mut self) -> (r: (Vec<D>, Vec<F>))
        ensures
            r.0@ == old(self)@.defers,
            r.1@ == old(self)@.futures,
            final(self)@ == (Inbox {
                defers: Seq::<D>::empty(),
                futures: Seq::<F>::empty(),
                waker: ReactorWaker { token: old(self)@.waker.token, ready: false },
                ..old(self)@
            }),
            final(self)@.bounded(),
    {
        // Clear the waker readiness state prior to removing pending items.
        self.waker.clear();
        let mut defers: Vec<D> = Vec::new();
        let mut futures: Vec<F> = Vec::new();
        std::mem::swap(&mut self.defers, &mut defers);
        std::mem::swap(&mut self.futures, &mut futures);
        (defers, futures)
    }

    /// The waker, for the reactor to register it and to follow its state.
    pub fn waker(&self) -> (r: ReactorWaker)
        ensures
            r == self@.waker,
    {
        self.waker
    }

    pub fn defers_len(&self) -> (r: usize)
        ensures
            r == self@.defers.len(),
    {
        self.defers.len()
    }

    pub fn futures_len(&self) -> (r: usize)
        ensures
            r == self@.futures.len(),
    {
        self.futures.len()
    }
}

} // verus!
