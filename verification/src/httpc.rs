//! The HTTP client reactor: the outbound calls from the builder that
//! describes one to the result that its future resolves to. The engine
//! that moves the bytes is the caller's; the reactor keeps what is decided
//! of each call.

use crate::deferral::ReactorWaker;
use crate::registry::Registry;
use crate::results::{Error, ErrorKind, ErrorView};
use vstd::prelude::*;
use vstd::string::*;

verus! {

/// An outbound call. It begins with a builder; once spawned it has a live
/// call in the engine; it ends done, with an error, or aborted.
#[derive(Debug)]
pub struct HttpcCall<B> {
    builder: Option<B>,
    call: bool,
    err: Option<Error>,
    waker: bool,
}

/// What an [`HttpcCall`] holds.
pub ghost struct CallView<B> {
    /// The description of the call, until it is spawned.
    pub builder: Option<B>,
    /// Whether the engine has a live call for it.
    pub call: bool,
    /// The error that the future is to resolve to.
    pub err: Option<ErrorView>,
    /// Whether a task waits for the call.
    pub waker: bool,
}

impl<B> View for HttpcCall<B> {
    type V = CallView<B>;

    closed spec fn view(&self) -> CallView<B> {
        CallView {
            builder: self.builder,
            call: self.call,
            err: match self.err {
                Some(e) => Some(e@),
                None => None,
            },
            waker: self.waker,
        }
    }
}

/// What one step of the engine on a live call gave.
#[derive(Debug)]
pub enum Perform {
    /// The response has arrived in full.
    Done,
    /// The call waits for the socket.
    Blocked,
    /// The call failed; the text says how.
    Failed(String),
}

impl Perform {
    /// How the step failed, if it did.
    pub open spec fn failure(self) -> Option<Seq<char>> {
        match self {
            Perform::Failed(why) => Some(why@),
            _ => None,
        }
    }
}

/// What a poll of a call's future gives.
#[derive(Debug)]
pub enum Polled {
    /// The call is done: the engine's call holds the response.
    Ready,
    /// The call failed.
    Failed(Error),
    /// The call is not done; the task is woken when it is.
    Pending,
}

/// The message of the error for spawning a call that has no builder.
pub open spec fn missing_builder_message() -> Seq<char> {
    "failed to spawn HTTPC call, missing builder"@
}

/// The message of the error for a call that the engine did not take.
pub open spec fn construct_failed_message(why: Seq<char>) -> Seq<char> {
    "failed to construct simple call: "@ + why
}

/// The message of the error for a call that failed on the way.
pub open spec fn perform_failed_message(why: Seq<char>) -> Seq<char> {
    "failed to perform HTTP request: "@ + why
}

/// The message of the error for a call that ran past its timeout.
pub open spec fn aborted_message() -> Seq<char> {
    "HTTP request aborted/timed out"@
}

/// The message of the error for fetching with a builder that was used.
pub open spec fn no_builder_message() -> Seq<char> {
    "fetch() called with no builder."@
}

impl<B> CallView<B> {
    /// The builder that the spawning of the call hands to the engine: none
    /// for a call that has failed.
    pub open spec fn spawns(self) -> Option<B> {
        if self.err is Some {
            None
        } else {
            self.builder
        }
    }

    /// After the spawning of the call has begun: a call that has failed
    /// stays as it is, one with a builder gives it up, and one without
    /// fails.
    pub open spec fn spawned(self) -> CallView<B> {
        if self.err is Some {
            self
        } else if self.builder is Some {
            CallView { builder: None, ..self }
        } else {
            CallView {
                err: Some(
                    ErrorView {
                        kind: ErrorKind::HttpClientError,
                        message: missing_builder_message(),
                    },
                ),
                ..self
            }
        }
    }

    /// After the engine was asked to take the call.
    pub open spec fn started(self, result: Result<(), Seq<char>>) -> CallView<B> {
        match result {
            Ok(()) => CallView { call: true, ..self },
            Err(why) => CallView {
                err: Some(
                    ErrorView {
                        kind: ErrorKind::HttpClientError,
                        message: construct_failed_message(why),
                    },
                ),
                ..self
            },
        }
    }

    /// Whether a step of the engine with the given outcome completes the
    /// call: any but one that leaves a live call waiting for the socket.
    pub open spec fn completes(self, blocked: bool) -> bool {
        !(self.call && blocked)
    }

    /// After a step of the engine that completes the call: a live call
    /// whose step failed resolves to that failure, and the task that waits
    /// is woken.
    pub open spec fn completed(self, failure: Option<Seq<char>>) -> CallView<B> {
        CallView {
            err: if self.call && failure is Some {
                Some(
                    ErrorView {
                        kind: ErrorKind::HttpClientError,
                        message: perform_failed_message(failure->0),
                    },
                )
            } else {
                self.err
            },
            waker: false,
            ..self
        }
    }

    /// After the call has run past its timeout: it resolves to the error
    /// it had or to a timeout, has no live call, and its task is woken.
    pub open spec fn aborted(self) -> CallView<B> {
        CallView {
            err: match self.err {
                Some(e) => Some(e),
                None => Some(
                    ErrorView { kind: ErrorKind::HttpClientTimedOut, message: aborted_message() },
                ),
            },
            call: false,
            waker: false,
            ..self
        }
    }
}

impl<B> HttpcCall<B> {
    /// A call that waits to be spawned.
    pub fn new(builder: B) -> (r: Self)
        ensures
            r@ == (CallView { builder: Some(builder), call: false, err: None, waker: false }),
    {
        Self { builder: Some(builder), call: false, err: None, waker: false }
    }

    /// A call that has failed before it began.
    pub fn from_error(err: Error) -> (r: Self)
        ensures
            r@ == (CallView::<B> { builder: None, call: false, err: Some(err@), waker: false }),
    {
        Self { builder: None, call: false, err: Some(err), waker: false }
    }

    /// Takes the builder out for the engine to make a live call of it. A
    /// call that has failed gives none and stays as it is; a call without
    /// a builder fails.
    pub fn spawn(&mut self) -> (r: Option<B>)
        ensures
            r == old(self)@.spawns(),
            final(self)@ == old(self)@.spawned(),
    {
        if self.err.is_some() {
            return None;
        }
        match self.builder.take() {
            Some(builder) => Some(builder),
            None => {
                self.err = Some(
                    Error::new_with_kind(
                        ErrorKind::HttpClientError,
                        String::from_str("failed to spawn HTTPC call, missing builder"),
                    ),
                );
                None
            },
        }
    }

    /// Takes what the engine said to the builder: a live call, or why
    /// there is none.
    pub fn started(&mut self, result: Result<(), String>)
        ensures
            final(self)@ == old(self)@.started(
                match result {
                    Ok(()) => Ok(()),
                    Err(why) => Err(why@),
                },
            ),
    {
        match result {
            Ok(()) => {
                self.call = true;
            },
            Err(why) => {
                let mut message = String::from_str("failed to construct simple call: ");
                message.append(why.as_str());
                self.err = Some(Error::new_with_kind(ErrorKind::HttpClientError, message));
            },
        }
    }

    /// Whether the engine has a live call to step.
    pub fn has_call(&self) -> (r: bool)
        ensures
            r == self@.call,
    {
        self.call
    }

    /// Takes what a step of the engine gave. Says whether the call is
    /// completed, and whether a task is to be woken for it. A call without
    /// a live call is completed whatever the step gave.
    pub fn ready(&mut self, outcome: Perform) -> (r: (bool, bool))
        ensures
            r.0 == old(self)@.completes(outcome is Blocked),
            r.1 == (r.0 && old(self)@.waker),
            final(self)@ == (CallView {
                err: if old(self)@.call && outcome is Failed {
                    Some(
                        ErrorView {
                            kind: ErrorKind::HttpClientError,
                            message: perform_failed_message(outcome->Failed_0@),
                        },
                    )
                } else {
                    old(self)@.err
                },
                waker: old(self)@.waker && !r.0,
                ..old(self)@
            }),
    {
        let mut completed = true;
        if self.call {
            match outcome {
                Perform::Done => {
                    // Handled by future.
                },
                Perform::Blocked => {
                    completed = false;
                },
                Perform::Failed(why) => {
                    let mut message = String::from_str("failed to perform HTTP request: ");
                    message.append(why.as_str());
                    self.err = Some(Error::new_with_kind(ErrorKind::HttpClientError, message));
                },
            }
        }
        let mut wake = false;
        if completed {
            wake = self.waker;
            self.waker = false;
        }
        (completed, wake)
    }

    /// Aborts a call that has run past its timeout: see
    /// [`CallView::aborted`]. Says whether the engine has a live call to
    /// abort, and whether a task is to be woken.
    pub fn abort(&mut self) -> (r: (bool, bool))
        ensures
            r.0 == old(self)@.call,
            r.1 == old(self)@.waker,
            final(self)@ == old(self)@.aborted(),
            final(self)@.err is Some,
            old(self)@.err is None ==> final(self)@.err->0.kind == ErrorKind::HttpClientTimedOut
                && final(self)@.err->0.kind.status() == 504,
    {
        if self.err.is_none() {
            self.err = Some(
                Error::new_with_kind(
                    ErrorKind::HttpClientTimedOut,
                    String::from_str("HTTP request aborted/timed out"),
                ),
            );
        }
        let live = self.call;
        self.call = false;
        let wake = self.waker;
        self.waker = false;
        (live, wake)
    }

    /// Polls the call for its future; `is_done` says whether the engine's
    /// call, if there is one, has the whole response. An error is handed
    /// out once. A call that is not done notes that a task waits for it.
    pub fn poll(&mut self, is_done: bool) -> (r: Polled)
        ensures
            match r {
                Polled::Failed(e) => old(self)@.err == Some(e@) && final(self)@ == (CallView {
                    err: None,
                    ..old(self)@
                }),
                Polled::Ready => old(self)@.err is None && old(self)@.builder is None && old(self)@.call && is_done && final(self)@ == (CallView { call: false, ..old(self)@ }),
                Polled::Pending => old(self)@.err is None && !(old(self)@.builder is None && old(self)@.call && is_done) && final(self)@ == (CallView { waker: true, ..old(self)@ }),
            },
    {
        if let Some(err) = self.err.take() {
            return Polled::Failed(err);
        }
        if self.builder.is_none() {
            if self.call {
                if is_done {
                    self.call = false;
                    return Polled::Ready;
                }
            }
        }
        self.waker = true;
        Polled::Pending
    }
}

/// A call that runs past its timeout resolves to a timeout, which is
/// answered with the status 504: after the abort of a call that had not
/// failed, the next poll hands out an error of that kind.
pub proof fn lemma_timeout_resolves<B>(call: CallView<B>)
    requires
        call.err is None,
    ensures
        call.aborted().err matches Some(e) && e.kind == ErrorKind::HttpClientTimedOut
            && e.kind.status() == 504,
{
}

/// The handle of a call that was handed to the reactor: its future.
#[derive(Debug, Clone, Copy, PartialEq, Eq, Structural)]
pub struct HttpcCallFuture {
    pub id: u64,
}

/// What a step of the engine came to for a call of the reactor.
#[derive(Debug)]
pub enum Progress<B> {
    /// The reactor holds no call of this id.
    Unknown,
    /// The call waits for the socket and stays with the reactor.
    Waiting,
    /// The call is completed and has left the reactor: `call` is what its
    /// future resolves from, and `wake` says whether a task is to be woken.
    Completed { call: HttpcCall<B>, wake: bool },
}

/// The calls of the HTTP client that are under way, by their ids, and
/// those among them that wait to be spawned. A call leaves the reactor
/// when it is completed or has timed out; its state then belongs to its
/// future alone.
#[derive(Debug)]
pub struct HttpcReactor<B> {
    calls: Registry<HttpcCall<B>>,
    pending: Vec<u64>,
    waker: ReactorWaker,
    next_call: u64,
}

impl<B> HttpcReactor<B> {
    pub closed spec fn calls(&self) -> Map<u64, HttpcCall<B>> {
        self.calls@
    }

    /// The ids of the calls that wait to be spawned, in their order.
    pub closed spec fn pending(&self) -> Seq<u64> {
        self.pending@
    }

    pub closed spec fn waker(&self) -> ReactorWaker {
        self.waker
    }

    pub closed spec fn next_call(&self) -> u64 {
        self.next_call
    }

    pub closed spec fn inv(&self) -> bool {
        self.calls.wf()
    }

    /// A reactor without calls whose waker has the token `con_offset`. The
    /// engine's tokens begin behind it.
    pub fn new(con_offset: u64) -> (r: Self)
        ensures
            r.inv(),
            r.calls() == Map::<u64, HttpcCall<B>>::empty(),
            r.pending() == Seq::<u64>::empty(),
            r.waker() == (ReactorWaker { token: con_offset, ready: false }),
            r.next_call() == 0,
    {
        Self {
            calls: Registry::new(),
            pending: Vec::new(),
            waker: ReactorWaker::new(con_offset),
            next_call: 0,
        }
    }

    /// Whether an event with the token `token` is the wakeup of the
    /// reactor: any other event of the client's range is the engine's.
    pub fn is_wakeup(&self, token: u64) -> (r: bool)
        ensures
            r == (token == self.waker().token),
    {
        token == self.waker.token
    }

    /// The reactor's waker, for the caller to register it and to follow
    /// its state.
    pub fn waker_state(&self) -> (r: ReactorWaker)
        ensures
            r == self.waker(),
    {
        self.waker
    }

    fn enroll(&mut self, call: HttpcCall<B>) -> (r: u64)
        requires
            old(self).inv(),
        ensures
            final(self).inv(),
            r == old(self).next_call(),
            final(self).next_call() == if old(self).next_call() == u64::MAX {
                0
            } else {
                (old(self).next_call() + 1) as u64
            },
            final(self).calls() == old(self).calls().insert(r, call),
            final(self).pending() == old(self).pending(),
            final(self).waker() == old(self).waker(),
    {
        let id = self.next_call;
        self.next_call = if id == u64::MAX {
            0
        } else {
            id + 1
        };
        self.calls.insert(id, call);
        id
    }

    /// Takes a call in: it waits to be spawned, and the waker is
    /// triggered. Returns the call's future.
    pub fn call(&mut self, builder: B) -> (r: HttpcCallFuture)
        requires
            old(self).inv(),
        ensures
            final(self).inv(),
            r.id == old(self).next_call(),
            final(self).calls().dom() == old(self).calls().dom().insert(r.id),
            final(self).calls()[r.id]@ == (CallView {
                builder: Some(builder),
                call: false,
                err: None,
                waker: false,
            }),
            forall|id: u64|
                id != r.id && old(self).calls().contains_key(id) ==> final(self).calls()[id]
                    == #[trigger] old(self).calls()[id],
            final(self).pending() == old(self).pending().push(r.id),
            final(self).waker() == (ReactorWaker { token: old(self).waker().token, ready: true }),
    {
        let id = self.enroll(HttpcCall::new(builder));
        self.pending.push(id);
        self.waker.trigger();
        HttpcCallFuture { id }
    }

    /// Takes in a call that has failed before it began. Returns its
    /// future, which resolves to the error.
    pub fn failed_call(&mut self, err: Error) -> (r: HttpcCallFuture)
        requires
            old(self).inv(),
        ensures
            final(self).inv(),
            r.id == old(self).next_call(),
            final(self).calls().dom() == old(self).calls().dom().insert(r.id),
            final(self).calls()[r.id]@ == (CallView::<B> {
                builder: None,
                call: false,
                err: Some(err@),
                waker: false,
            }),
            forall|id: u64|
                id != r.id && old(self).calls().contains_key(id) ==> final(self).calls()[id]
                    == #[trigger] old(self).calls()[id],
            final(self).pending() == old(self).pending(),
            final(self).waker() == old(self).waker(),
    {
        let id = self.enroll(HttpcCall::from_error(err));
        HttpcCallFuture { id }
    }

    /// Answers the wakeup of the reactor: clears the waker and takes out
    /// the ids of the calls that wait to be spawned, in their order.
    pub fn take_pending(&mut self) -> (r: Vec<u64>)
        requires
            old(self).inv(),
        ensures
            final(self).inv(),
            r@ == old(self).pending(),
            final(self).pending() == Seq::<u64>::empty(),
            final(self).calls() == old(self).calls(),
            final(self).next_call() == old(self).next_call(),
            final(self).waker() == (ReactorWaker { token: old(self).waker().token, ready: false }),
    {
        // Clear the waker readiness state prior to removing pending items.
        self.waker.clear();
        let mut pending: Vec<u64> = Vec::new();
        std::mem::swap(&mut self.pending, &mut pending);
        pending
    }

    /// Takes the call `id` out, for one of its steps; [`HttpcReactor::put`]
    /// brings it back.
    pub fn take(&mut self, id: u64) -> (r: Option<HttpcCall<B>>)
        requires
            old(self).inv(),
        ensures
            final(self).inv(),
            final(self).calls() == old(self).calls().remove(id),
            final(self).pending() == old(self).pending(),
            final(self).waker() == old(self).waker(),
            final(self).next_call() == old(self).next_call(),
            match r {
                Some(call) => old(self).calls().contains_key(id) && old(self).calls()[id] == call,
                None => !old(self).calls().contains_key(id),
            },
    {
        self.calls.remove(id)
    }

    /// Brings the call `id` back.
    pub fn put(&mut self, id: u64, call: HttpcCall<B>)
        requires
            old(self).inv(),
        ensures
            final(self).inv(),
            final(self).calls() == old(self).calls().insert(id, call),
            final(self).pending() == old(self).pending(),
            final(self).waker() == old(self).waker(),
            final(self).next_call() == old(self).next_call(),
    {
        self.calls.insert(id, call);
    }

    /// Begins the spawning of the call `id`, which leaves the reactor for
    /// it: see [`CallView::spawned`]. Gives the call and the builder that
    /// the engine is to make a live call of, if there is one to make;
    /// [`HttpcReactor::started`] takes what the engine said. A call that
    /// gives no builder has failed, and stays with its future.
    pub fn spawn(&mut self, id: u64) -> (r: Option<(HttpcCall<B>, Option<B>)>)
        requires
            old(self).inv(),
        ensures
            final(self).inv(),
            final(self).pending() == old(self).pending(),
            final(self).waker() == old(self).waker(),
            final(self).next_call() == old(self).next_call(),
            final(self).calls() == old(self).calls().remove(id),
            match r {
                Some((call, builder)) => {
                    &&& old(self).calls().contains_key(id)
                    &&& builder == old(self).calls()[id]@.spawns()
                    &&& call@ == old(self).calls()[id]@.spawned()
                },
                None => !old(self).calls().contains_key(id),
            },
    {
        match self.calls.remove(id) {
            Some(mut call) => {
                let builder = call.spawn();
                Some((call, builder))
            },
            None => None,
        }
    }

    /// Ends the spawning of the call `id` with what the engine said. A
    /// call that the engine took is live and enters the reactor, to be
    /// stepped and swept. One that the engine refused has failed: it is
    /// handed back and stays with its future.
    pub fn started(&mut self, id: u64, call: HttpcCall<B>, result: Result<(), String>) -> (r: Option<
        HttpcCall<B>,
    >)
        requires
            old(self).inv(),
        ensures
            final(self).inv(),
            final(self).pending() == old(self).pending(),
            final(self).waker() == old(self).waker(),
            final(self).next_call() == old(self).next_call(),
            match result {
                Ok(()) => {
                    &&& r is None
                    &&& final(self).calls().dom() == old(self).calls().dom().insert(id)
                    &&& final(self).calls()[id]@ == call@.started(Ok(()))
                    &&& forall|other: u64|
                        other != id && old(self).calls().contains_key(other) ==> final(self).calls()[other] == #[trigger] old(self).calls()[other]
                },
                Err(why) => {
                    &&& r matches Some(failed)
                    &&& failed@ == call@.started(Err(why@))
                    &&& final(self).calls() == old(self).calls()
                },
            },
    {
        let mut call = call;
        match result {
            Ok(()) => {
                call.started(Ok(()));
                self.calls.insert(id, call);
                None
            },
            Err(why) => {
                call.started(Err(why));
                Some(call)
            },
        }
    }

    /// Whether the reactor holds the call `id` and the engine has a live
    /// call for it.
    pub fn is_live(&self, id: u64) -> (r: bool)
        requires
            self.inv(),
        ensures
            r == (self.calls().contains_key(id) && self.calls()[id]@.call),
    {
        match self.calls.get(id) {
            Some(call) => call.has_call(),
            None => false,
        }
    }

    /// Takes what a step of the engine gave for the call `id`. A call that
    /// waits for the socket stays; any other call that the reactor holds is
    /// completed: it takes the outcome, leaves the reactor and is handed
    /// back, with the word whether a task is to be woken.
    pub fn ready(&mut self, id: u64, outcome: Perform) -> (r: Progress<B>)
        requires
            old(self).inv(),
        ensures
            final(self).inv(),
            final(self).pending() == old(self).pending(),
            final(self).waker() == old(self).waker(),
            final(self).next_call() == old(self).next_call(),
            match r {
                Progress::Unknown => !old(self).calls().contains_key(id) && final(self).calls()
                    == old(self).calls(),
                Progress::Waiting => {
                    &&& old(self).calls().contains_key(id)
                    &&& !old(self).calls()[id]@.completes(outcome is Blocked)
                    &&& final(self).calls() == old(self).calls()
                },
                Progress::Completed { call, wake } => {
                    &&& old(self).calls().contains_key(id)
                    &&& old(self).calls()[id]@.completes(outcome is Blocked)
                    &&& final(self).calls() == old(self).calls().remove(id)
                    &&& call@ == old(self).calls()[id]@.completed(outcome.failure())
                    &&& wake == old(self).calls()[id]@.waker
                },
            },
    {
        let blocked = match &outcome {
            Perform::Blocked => true,
            _ => false,
        };
        let waits = match self.calls.get(id) {
            Some(call) => call.has_call() && blocked,
            None => {
                return Progress::Unknown;
            },
        };
        if waits {
            return Progress::Waiting;
        }
        match self.calls.remove(id) {
            Some(mut call) => {
                let (_completed, wake) = call.ready(outcome);
                Progress::Completed { call, wake }
            },
            None => Progress::Unknown,
        }
    }

    /// What the calls hold, by their ids.
    pub open spec fn views(&self) -> Map<u64, CallView<B>> {
        self.calls().map_values(|c: HttpcCall<B>| c@)
    }

    /// Aborts the calls that the engine reports as timed out, in the order
    /// of the report. Each of them that the reactor holds leaves it and is
    /// handed back as the abort left it, with its id, the word whether the
    /// engine has a live call to abort, and the word whether a task is to
    /// be woken: see [`sweep_report`]. The other calls stay as they are.
    pub fn check_timeouts(&mut self, timed_out: &Vec<u64>) -> (r: Vec<(u64, HttpcCall<B>, bool, bool)>)
        requires
            old(self).inv(),
        ensures
            final(self).inv(),
            final(self).pending() == old(self).pending(),
            final(self).waker() == old(self).waker(),
            final(self).next_call() == old(self).next_call(),
            final(self).calls() == swept(old(self).calls(), timed_out@),
            report_views(r@) == sweep_report(old(self).views(), timed_out@),
    {
        let mut out: Vec<(u64, HttpcCall<B>, bool, bool)> = Vec::new();
        let mut i: usize = 0;
        let ghost start = self.calls();
        let ghost views = self.views();
        assert(timed_out@.subrange(0, 0) =~= Seq::<u64>::empty());
        assert(self.calls() =~= swept(start, Seq::<u64>::empty()));
        assert(report_views(out@) =~= sweep_report(views, Seq::<u64>::empty()));
        while i < timed_out.len()
            invariant
                i <= timed_out@.len(),
                self.inv(),
                self.pending() == old(self).pending(),
                self.waker() == old(self).waker(),
                self.next_call() == old(self).next_call(),
                start == old(self).calls(),
                views == old(self).views(),
                self.calls() == swept(start, timed_out@.subrange(0, i as int)),
                report_views(out@) == sweep_report(views, timed_out@.subrange(0, i as int)),
            decreases timed_out@.len() - i,
        {
            let id = timed_out[i];
            let ghost seen = timed_out@.subrange(0, i as int);
            let ghost next = timed_out@.subrange(0, i + 1);
            let ghost held = self.calls();
            let ghost reported = report_views(out@);
            assert(next.drop_last() =~= seen);
            assert(next.last() == id);
            assert(next.to_set() =~= seen.to_set().insert(id));
            assert(held.contains_key(id) == (views.contains_key(id) && !seen.contains(id)));
            match self.calls.remove(id) {
                Some(mut call) => {
                    let ghost was = call@;
                    assert(views[id] == was);
                    let (live, wake) = call.abort();
                    out.push((id, call, live, wake));
                    assert(report_views(out@) =~= reported.push((id, was.aborted(), live, wake)));
                },
                None => {},
            }
            assert(self.calls() =~= swept(start, next));
            i += 1;
        }
        assert(timed_out@.subrange(0, i as int) =~= timed_out@);
        out
    }
}

/// The calls that stay after those of `ids` have timed out: all but those
/// of `ids`, each as it was.
pub open spec fn swept<B>(calls: Map<u64, HttpcCall<B>>, ids: Seq<u64>) -> Map<u64, HttpcCall<B>> {
    calls.remove_keys(ids.to_set())
}

/// What a report of the sweep holds.
pub open spec fn report_views<B>(report: Seq<(u64, HttpcCall<B>, bool, bool)>) -> Seq<
    (u64, CallView<B>, bool, bool),
> {
    report.map_values(|e: (u64, HttpcCall<B>, bool, bool)| (e.0, e.1@, e.2, e.3))
}

/// What the sweep of the calls of `ids` hands back: for each id that is
/// among the calls, once, in the order in which `ids` has it first, the
/// call as its abort leaves it, whether the call was live and whether a
/// task waited for it.
pub open spec fn sweep_report<B>(calls: Map<u64, CallView<B>>, ids: Seq<u64>) -> Seq<
    (u64, CallView<B>, bool, bool),
>
    decreases ids.len(),
{
    if ids.len() == 0 {
        Seq::empty()
    } else {
        let rest = sweep_report(calls, ids.drop_last());
        let id = ids.last();
        if calls.contains_key(id) && !ids.drop_last().contains(id) {
            rest.push((id, calls[id].aborted(), calls[id].call, calls[id].waker))
        } else {
            rest
        }
    }
}

/// Every call that the sweep hands back was held and reported as timed
/// out, and is handed back as its abort leaves it: without a live call,
/// with no task waiting, and with the error it had or else a timeout. Every
/// call that was held and reported is handed back.
pub proof fn lemma_sweep_report<B>(calls: Map<u64, CallView<B>>, ids: Seq<u64>)
    ensures
        forall|i: int|
            0 <= i < sweep_report(calls, ids).len() ==> {
                let e = #[trigger] sweep_report(calls, ids)[i];
                &&& ids.contains(e.0)
                &&& calls.contains_key(e.0)
                &&& e.1 == calls[e.0].aborted()
                &&& !e.1.call
                &&& !e.1.waker
                &&& e.1.err is Some
                &&& calls[e.0].err is None ==> e.1.err->0.kind == ErrorKind::HttpClientTimedOut
                &&& calls[e.0].err is Some ==> e.1.err == calls[e.0].err
                &&& e.2 == calls[e.0].call
                &&& e.3 == calls[e.0].waker
            },
        forall|id: u64|
            ids.contains(id) && calls.contains_key(id) ==> exists|i: int|
                0 <= i < sweep_report(calls, ids).len() && (#[trigger] sweep_report(calls, ids)[i]).0
                    == id,
    decreases ids.len(),
{
    if ids.len() > 0 {
        let init = ids.drop_last();
        let last = ids.last();
        let rest = sweep_report(calls, init);
        let all = sweep_report(calls, ids);
        lemma_sweep_report(calls, init);
        assert forall|i: int| 0 <= i < all.len() implies ids.contains((#[trigger] all[i]).0) by {
            if i < rest.len() {
                assert(all[i] == rest[i]);
                let k = choose|k: int| 0 <= k < init.len() && init[k] == rest[i].0;
                assert(ids[k] == rest[i].0);
            } else {
                assert(ids[ids.len() - 1] == last);
            }
        }
        assert forall|id: u64| ids.contains(id) && calls.contains_key(id) implies exists|i: int|
            0 <= i < all.len() && (#[trigger] all[i]).0 == id by {
            if init.contains(id) {
                let i = choose|i: int| 0 <= i < rest.len() && (#[trigger] rest[i]).0 == id;
                assert(all[i].0 == id);
            } else {
                let k = choose|k: int| 0 <= k < ids.len() && ids[k] == id;
                if k < init.len() {
                    assert(init[k] == id);
                }
                assert(all[all.len() - 1].0 == id);
            }
        }
    }
}

/// After the sweep the reactor holds none of the calls that were reported,
/// and each of the others as it was.
pub proof fn lemma_swept<B>(calls: Map<u64, HttpcCall<B>>, ids: Seq<u64>)
    ensures
        forall|i: int| 0 <= i < ids.len() ==> !swept(calls, ids).contains_key(#[trigger] ids[i]),
        forall|id: u64|
            calls.contains_key(id) && !ids.contains(id) ==> swept(calls, ids).contains_key(id)
                && #[trigger] swept(calls, ids)[id] == calls[id],
{
    assert forall|i: int| 0 <= i < ids.len() implies !swept(calls, ids).contains_key(
        #[trigger] ids[i],
    ) by {
        assert(ids.to_set().contains(ids[i]));
    }
}

} // verus!
