use index_enclave::context::{
    Context, FetchMethod, FetchRequest, FetchStep, HttpFetchBuilder, FETCH_DEFAULT_TIMEOUT_MS,
};
use index_enclave::connection::Deferred;
use index_enclave::deferral::{Deferral, ReactorWaker};
use index_enclave::ffi::{
    db_done, db_got, db_got_fixed, get_fixed_status, AllocateStack, BufferRecoveryError,
    EnclaveError, HealthCheckResult, OcallReturn, PUBLIC_KEY_SIZE,
};
use index_enclave::httpc::{HttpcCall, HttpcReactor, Perform, Polled, Progress};
use index_enclave::request::RawRequest;
use index_enclave::results::{caught_err_to_str, middleware_recovery, ApiError, Caught, Error, ErrorKind};
use index_enclave::server::MIO_HTTPC_OFFSET;
use index_enclave::traits::{Db, DbInstance};
use index_enclave::websocket::{map_ws_failure, Message, Notify, WebSocket, WsFailure};

#[test]
fn a_call_goes_from_pending_to_done() {
    let mut call: HttpcCall<&str> = HttpcCall::new("builder");
    assert!(!call.has_call());
    assert!(matches!(call.poll(false), Polled::Pending));
    assert_eq!(call.spawn(), Some("builder"));
    call.started(Ok(()));
    assert!(call.has_call());
    assert_eq!(call.ready(Perform::Blocked), (false, false));
    assert!(matches!(call.poll(false), Polled::Pending));
    // Done: the task that waits is woken, once.
    assert_eq!(call.ready(Perform::Done), (true, true));
    assert_eq!(call.ready(Perform::Done), (true, false));
    assert!(matches!(call.poll(true), Polled::Ready));
    assert!(!call.has_call());
}

#[test]
fn a_call_that_times_out_resolves_to_504() {
    let mut call: HttpcCall<&str> = HttpcCall::new("builder");
    call.spawn();
    call.started(Ok(()));
    assert!(matches!(call.poll(false), Polled::Pending));
    assert_eq!(call.abort(), (true, true));
    assert!(!call.has_call());
    match call.poll(false) {
        Polled::Failed(e) => {
            assert_eq!(e.kind(), ErrorKind::HttpClientTimedOut);
            assert_eq!(e.message(), "HTTP request aborted/timed out");
            assert_eq!(e.http_status(), 504);
        }
        other => panic!("unexpected {:?}", other),
    }
    // The error is handed out once.
    assert!(matches!(call.poll(false), Polled::Pending));
}

#[test]
fn an_abort_keeps_the_error_that_was_there() {
    let mut call: HttpcCall<&str> = HttpcCall::new("builder");
    call.spawn();
    call.started(Ok(()));
    assert_eq!(call.ready(Perform::Failed("reset".to_string())), (true, false));
    assert_eq!(call.abort(), (true, false));
    match call.poll(true) {
        Polled::Failed(e) => {
            assert_eq!(e.kind(), ErrorKind::HttpClientError);
            assert_eq!(e.message(), "failed to perform HTTP request: reset");
            assert_eq!(e.http_status(), 502);
        }
        other => panic!("unexpected {:?}", other),
    }
}

#[test]
fn spawning_needs_a_builder_and_no_error() {
    let mut failed: HttpcCall<&str> = HttpcCall::from_error(Error::new("early".to_string()));
    assert_eq!(failed.spawn(), None);
    assert!(matches!(failed.poll(false), Polled::Failed(e) if e.message() == "early"));
    let mut twice: HttpcCall<&str> = HttpcCall::new("b");
    assert_eq!(twice.spawn(), Some("b"));
    assert_eq!(twice.spawn(), None);
    assert!(matches!(
        twice.poll(false),
        Polled::Failed(e) if e.kind() == ErrorKind::HttpClientError
            && e.message() == "failed to spawn HTTPC call, missing builder"
    ));
    let mut refused: HttpcCall<&str> = HttpcCall::new("b");
    refused.spawn();
    refused.started(Err("dns".to_string()));
    assert!(!refused.has_call());
    assert!(matches!(
        refused.poll(false),
        Polled::Failed(e) if e.message() == "failed to construct simple call: dns"
    ));
    // Without a live call a step completes the call whatever it gave.
    let mut idle: HttpcCall<&str> = HttpcCall::new("b");
    assert_eq!(idle.ready(Perform::Blocked), (true, false));
}

#[test]
fn the_reactor_keeps_calls_by_id() {
    let mut reactor: HttpcReactor<&str> = HttpcReactor::new(MIO_HTTPC_OFFSET);
    assert_eq!(reactor.waker_state(), ReactorWaker { token: MIO_HTTPC_OFFSET, ready: false });
    assert!(reactor.is_wakeup(MIO_HTTPC_OFFSET));
    assert!(!reactor.is_wakeup(MIO_HTTPC_OFFSET + 1));
    let a = reactor.call("a");
    let b = reactor.call("b");
    let c = reactor.failed_call(Error::new("c".to_string()));
    assert_eq!((a.id, b.id, c.id), (0, 1, 2));
    assert!(reactor.waker_state().is_ready());
    assert_eq!(reactor.take_pending(), vec![0, 1]);
    assert!(!reactor.waker_state().is_ready());
    assert!(reactor.take_pending().is_empty());
    let mut call = reactor.take(a.id).expect("known");
    assert!(reactor.take(a.id).is_none());
    assert_eq!(call.spawn(), Some("a"));
    call.started(Ok(()));
    reactor.put(a.id, call);
    // The engine reports a and an unknown call as timed out: a leaves the
    // reactor and comes back aborted.
    let mut report = reactor.check_timeouts(&vec![a.id, 77, a.id]);
    assert_eq!(report.len(), 1);
    let (id, mut call, live, wake) = report.pop().expect("one");
    assert_eq!((id, live, wake), (a.id, true, false));
    assert!(!call.has_call());
    assert!(matches!(call.poll(false), Polled::Failed(e) if e.kind() == ErrorKind::HttpClientTimedOut));
    assert!(reactor.take(a.id).is_none());
    assert!(reactor.check_timeouts(&vec![a.id]).is_empty());
    let mut untouched = reactor.take(b.id).expect("known");
    assert_eq!(untouched.spawn(), Some("b"));
}

#[test]
fn a_timeout_wakes_the_task_and_keeps_an_error_that_was_there() {
    let mut reactor: HttpcReactor<&str> = HttpcReactor::new(MIO_HTTPC_OFFSET);
    let waited = reactor.call("w");
    let failed = reactor.failed_call(Error::new_with_kind(ErrorKind::HttpClientError, "early".to_string()));
    let other = reactor.call("o");
    let mut call = reactor.take(waited.id).expect("known");
    call.spawn();
    call.started(Ok(()));
    assert!(matches!(call.poll(false), Polled::Pending));
    reactor.put(waited.id, call);
    let report = reactor.check_timeouts(&vec![failed.id, waited.id]);
    assert_eq!(report.len(), 2);
    let mut seen = Vec::new();
    for (id, mut call, live, wake) in report {
        seen.push((id, live, wake));
        assert!(!call.has_call());
        match call.poll(true) {
            Polled::Failed(e) if id == waited.id => {
                assert_eq!(e.kind(), ErrorKind::HttpClientTimedOut);
                assert_eq!(e.http_status(), 504);
            }
            Polled::Failed(e) => {
                assert_eq!(e.kind(), ErrorKind::HttpClientError);
                assert_eq!(e.message(), "early");
            }
            polled => panic!("unexpected {:?}", polled),
        }
    }
    assert_eq!(seen, vec![(failed.id, false, false), (waited.id, true, true)]);
    assert!(!reactor.is_live(waited.id));
    assert!(reactor.take(waited.id).is_none());
    assert!(reactor.take(failed.id).is_none());
    assert!(reactor.take(other.id).is_some());
}

#[test]
fn a_completed_call_leaves_the_reactor() {
    let mut reactor: HttpcReactor<&str> = HttpcReactor::new(MIO_HTTPC_OFFSET);
    let a = reactor.call("a");
    let b = reactor.call("b");
    assert!(matches!(reactor.ready(77, Perform::Done), Progress::Unknown));
    let mut call = reactor.take(a.id).expect("known");
    call.spawn();
    call.started(Ok(()));
    assert!(matches!(call.poll(false), Polled::Pending));
    reactor.put(a.id, call);
    assert!(reactor.is_live(a.id));
    assert!(!reactor.is_live(b.id));
    assert!(!reactor.is_live(77));
    // A call that waits for the socket stays.
    assert!(matches!(reactor.ready(a.id, Perform::Blocked), Progress::Waiting));
    assert!(reactor.is_live(a.id));
    // A call that is done leaves, and its task is woken.
    match reactor.ready(a.id, Perform::Done) {
        Progress::Completed { mut call, wake } => {
            assert!(wake);
            assert!(call.has_call());
            assert!(matches!(call.poll(true), Polled::Ready));
        }
        other => panic!("unexpected {:?}", other),
    }
    assert!(!reactor.is_live(a.id));
    assert!(matches!(reactor.ready(a.id, Perform::Done), Progress::Unknown));
    // A step that fails completes the call with the failure.
    let mut call = reactor.take(b.id).expect("known");
    call.spawn();
    call.started(Ok(()));
    reactor.put(b.id, call);
    match reactor.ready(b.id, Perform::Failed("reset".to_string())) {
        Progress::Completed { mut call, wake } => {
            assert!(!wake);
            assert!(matches!(
                call.poll(true),
                Polled::Failed(e) if e.kind() == ErrorKind::HttpClientError
                    && e.message() == "failed to perform HTTP request: reset"
            ));
        }
        other => panic!("unexpected {:?}", other),
    }
    assert!(reactor.take(b.id).is_none());
    // Without a live call a step completes the call whatever it gave.
    let c = reactor.call("c");
    assert!(matches!(
        reactor.ready(c.id, Perform::Blocked),
        Progress::Completed { wake: false, .. }
    ));
}

#[test]
fn only_a_call_that_the_engine_took_enters_the_reactor() {
    let mut reactor: HttpcReactor<&str> = HttpcReactor::new(MIO_HTTPC_OFFSET);
    let taken = reactor.call("t");
    let refused = reactor.call("r");
    let early = reactor.failed_call(Error::new("early".to_string()));
    assert!(reactor.spawn(77).is_none());
    // The engine takes the call: it is live, and the reactor holds it.
    let (call, builder) = reactor.spawn(taken.id).expect("known");
    assert_eq!(builder, Some("t"));
    assert!(!reactor.is_live(taken.id));
    assert!(reactor.spawn(taken.id).is_none());
    assert!(reactor.started(taken.id, call, Ok(())).is_none());
    assert!(reactor.is_live(taken.id));
    // The engine refuses the call: it has failed, and comes back.
    let (call, builder) = reactor.spawn(refused.id).expect("known");
    assert_eq!(builder, Some("r"));
    let mut failed = reactor.started(refused.id, call, Err("dns".to_string())).expect("failed");
    assert!(matches!(
        failed.poll(false),
        Polled::Failed(e) if e.kind() == ErrorKind::HttpClientError
            && e.message() == "failed to construct simple call: dns"
    ));
    assert!(reactor.take(refused.id).is_none());
    // A call that had failed gives no builder and keeps its error.
    let (mut call, builder) = reactor.spawn(early.id).expect("known");
    assert_eq!(builder, None);
    assert!(matches!(call.poll(false), Polled::Failed(e) if e.message() == "early"));
    assert!(reactor.take(early.id).is_none());
    // The sweep finds the live call alone.
    let report = reactor.check_timeouts(&vec![refused.id, early.id, taken.id]);
    assert_eq!(report.len(), 1);
    assert_eq!(report[0].0, taken.id);
}

#[test]
fn the_fetch_builder_describes_a_call() {
    let mut reactor: HttpcReactor<FetchRequest> = HttpcReactor::new(MIO_HTTPC_OFFSET);
    let mut b = HttpFetchBuilder::https();
    assert!(b.is_usable());
    b.host("catfact.ninja");
    b.port(8443);
    b.path("fact");
    b.path_segment("a b");
    b.header("accept", "application/json");
    assert!(b.url("https://example.org/x").is_ok());
    let e = b.url("http://exa mple.org:99999/").expect_err("no url");
    assert_eq!(e.kind(), ErrorKind::HttpClientError);
    assert_eq!(e.message(), "failed to set url");
    let future = b.post(b"body".to_vec(), &mut reactor);
    assert!(!b.is_usable());
    let mut call = reactor.take(future.id).expect("known");
    let request = call.spawn().expect("builder");
    assert_eq!(request.steps.len(), 10);
    assert!(matches!(request.steps[0], FetchStep::TimeoutMs(2500)));
    assert!(matches!(request.steps[1], FetchStep::Https));
    assert!(matches!(&request.steps[2], FetchStep::Host(h) if h == "catfact.ninja"));
    assert!(matches!(request.steps[3], FetchStep::Port(8443)));
    assert!(matches!(&request.steps[4], FetchStep::Path(p) if p == "fact"));
    assert!(matches!(&request.steps[5], FetchStep::PathSegment(p) if p == "a b"));
    assert!(matches!(&request.steps[6], FetchStep::Header(k, v) if k == "accept" && v == "application/json"));
    assert!(matches!(&request.steps[7], FetchStep::Url(u) if u == "https://example.org/x"));
    assert!(matches!(request.steps[8], FetchStep::Method(FetchMethod::Post)));
    assert!(matches!(&request.steps[9], FetchStep::Body(b) if b == b"body"));
    assert_eq!(FETCH_DEFAULT_TIMEOUT_MS, 2500);
    // A builder that was used gives a future that fails.
    let again = b.fetch(&mut reactor);
    let mut call = reactor.take(again.id).expect("known");
    assert!(matches!(
        call.poll(false),
        Polled::Failed(e) if e.message() == "fetch() called with no builder."
    ));
}

#[test]
fn each_verb_sets_its_method() {
    let mut reactor: HttpcReactor<FetchRequest> = HttpcReactor::new(0);
    let method_of = |reactor: &mut HttpcReactor<FetchRequest>, id: u64| {
        let request = reactor.take(id).expect("known").spawn().expect("builder");
        let methods: Vec<FetchMethod> = request
            .steps
            .iter()
            .filter_map(|s| match s {
                FetchStep::Method(m) => Some(*m),
                _ => None,
            })
            .collect();
        assert_eq!(methods.len(), 1);
        methods[0]
    };
    let id = HttpFetchBuilder::http().get(&mut reactor).id;
    assert_eq!(method_of(&mut reactor, id), FetchMethod::Get);
    let id = HttpFetchBuilder::http().put(vec![], &mut reactor).id;
    assert_eq!(method_of(&mut reactor, id), FetchMethod::Put);
    let id = HttpFetchBuilder::http().patch(vec![], &mut reactor).id;
    assert_eq!(method_of(&mut reactor, id), FetchMethod::Patch);
    let id = HttpFetchBuilder::http().delete(&mut reactor).id;
    assert_eq!(method_of(&mut reactor, id), FetchMethod::Delete);
    let id = HttpFetchBuilder::http().options(&mut reactor).id;
    assert_eq!(method_of(&mut reactor, id), FetchMethod::Options);
    let id = HttpFetchBuilder::http().head(&mut reactor).id;
    assert_eq!(method_of(&mut reactor, id), FetchMethod::Head);
    let mut b = HttpFetchBuilder::http();
    b.method(FetchMethod::Delete);
    b.body(b"x".to_vec());
    let id = b.fetch(&mut reactor).id;
    let request = reactor.take(id).expect("known").spawn().expect("builder");
    assert_eq!(request.steps.len(), 3);
    assert!(matches!(request.steps[0], FetchStep::TimeoutMs(2500)));
    assert!(matches!(request.steps[1], FetchStep::Method(FetchMethod::Delete)));
    assert!(matches!(&request.steps[2], FetchStep::Body(b) if b == b"x"));
    let id = HttpFetchBuilder::https().post(b"p".to_vec(), &mut reactor).id;
    let request = reactor.take(id).expect("known").spawn().expect("builder");
    assert_eq!(request.steps.len(), 4);
    assert!(matches!(request.steps[1], FetchStep::Https));
    assert!(matches!(request.steps[2], FetchStep::Method(FetchMethod::Post)));
    assert!(matches!(&request.steps[3], FetchStep::Body(b) if b == b"p"));
}

#[test]
fn context_attributes_and_websocket_flag() {
    let request = |bytes: &[u8]| RawRequest::new(bytes.to_vec(), 0).expect("decodes").extract().expect("request");
    let mut ctx: Context<u32> = Context::new(request(b"GET / HTTP/1.1\r\n\r\n"), true);
    assert!(!ctx.is_websocket());
    assert!(!ctx.contains_key("test"));
    ctx.insert("test", 1);
    ctx.insert("other", 2);
    ctx.insert("test", 3);
    assert_eq!(ctx.get("test"), Some(&3));
    assert_eq!(ctx.get("other"), Some(&2));
    assert_eq!(ctx.get("none"), None);
    assert!(ctx.contains_key("other"));
    assert_eq!(ctx.request().path(), &b"/".to_vec());
    assert!(ctx.http().is_usable());
    assert!(ctx.https().is_usable());
    assert_eq!(ctx.into_request().method(), &b"GET".to_vec());
    let upgrade = b"GET /ws HTTP/1.1\r\nConnection: upgrade\r\nUpgrade: websocket\r\n\r\n";
    let unbound: Context<u32> = Context::new(request(upgrade), false);
    assert!(!unbound.is_websocket());
    let bound: Context<u32> = Context::new(request(upgrade), true);
    assert!(bound.is_websocket());
    let mut ws: WebSocket<u8> = WebSocket::new();
    let mut inbox: Deferral<Deferred, ()> = Deferral::new(1, Some(1), None);
    let e = unbound.subscribe(&mut ws, 1).expect_err("no web socket");
    assert_eq!(e.kind(), ErrorKind::WSFault);
    let e = unbound.send(&mut ws, &mut inbox, vec![1]).expect_err("no web socket");
    assert_eq!(e.kind(), ErrorKind::WSFault);
    bound.subscribe(&mut ws, 1).expect("subscribed");
    bound.subscribe(&mut ws, 2).expect("subscribed");
    assert_eq!(ws.subscriptions(), &vec![1, 2]);
    assert!(ws.activate().is_empty());
    bound.send(&mut ws, &mut inbox, vec![1]).expect("deferred");
    let e = bound.send(&mut ws, &mut inbox, vec![2]).expect_err("full");
    assert_eq!(e.kind(), ErrorKind::ServerFault);
    assert_eq!(inbox.defers_len(), 1);
}

#[test]
fn subscriptions_are_notified_in_order_until_the_inbox_is_full() {
    let mut ws: WebSocket<char> = WebSocket::new();
    for s in ['a', 'b', 'c'] {
        ws.subscribe(s).expect("subscribed");
    }
    let mut inbox: Deferral<Deferred, Notify<char>> = Deferral::new(1, None, Some(2));
    let e = ws.handle(Message::Binary(vec![1]), &mut inbox).expect_err("full");
    assert_eq!(e.kind(), ErrorKind::ServerFault);
    let (_, futures) = inbox.take_pending();
    assert_eq!(futures.iter().map(|n| n.subscriber).collect::<Vec<_>>(), vec!['a', 'b']);
    assert!(futures.iter().all(|n| n.message == Message::Binary(vec![1])));
    let mut roomy: Deferral<Deferred, Notify<char>> = Deferral::new(1, None, None);
    ws.handle(Message::Close(Some((1000, "bye".to_string()))), &mut roomy).expect("spawned");
    let (_, futures) = roomy.take_pending();
    assert_eq!(futures.iter().map(|n| n.subscriber).collect::<Vec<_>>(), vec!['a', 'b', 'c']);
    assert_eq!(futures[2].message, Message::Close(Some((1000, "bye".to_string()))));
    let m = Message::Text("x".to_string());
    assert_eq!(m.duplicate(), m);
}

#[test]
fn closed_states_of_the_protocol_are_the_closed_signal() {
    for failure in [
        WsFailure::ConnectionClosed,
        WsFailure::AlreadyClosed,
        WsFailure::SendAfterClosing,
        WsFailure::ReceivedAfterClosing,
    ] {
        let e = map_ws_failure(failure, true);
        assert_eq!(e.kind(), ErrorKind::WSClosed);
        assert_eq!(e.message(), "");
        assert_eq!(e.http_status(), 226);
    }
    let e = map_ws_failure(WsFailure::Other("Io".to_string()), true);
    assert_eq!(e.kind(), ErrorKind::WSFault);
    assert_eq!(e.message(), "failed to read ws message: Io");
    let e = map_ws_failure(WsFailure::Other("Io".to_string()), false);
    assert_eq!(e.message(), "failed to write ws message: Io");
}

#[test]
fn recovery_passes_results_and_turns_unwinds_into_faults() {
    assert!(middleware_recovery(Caught::Returned(Ok(()))).is_ok());
    let passed = middleware_recovery(Caught::Returned(Err(Error::new_with_kind(
        ErrorKind::TimedOut,
        "t".to_string(),
    ))))
    .expect_err("passes");
    assert_eq!(passed.kind(), ErrorKind::TimedOut);
    assert_eq!(passed.message(), "t");
    let unknown = middleware_recovery(Caught::Unwound(None)).expect_err("fault");
    assert_eq!(unknown.kind(), ErrorKind::ServerFault);
    assert_eq!(unknown.message(), "recovered from panic during request: **UNKNOWN**");
    assert_eq!(caught_err_to_str(Some("text")), "text");
    assert_eq!(caught_err_to_str(None), "**UNKNOWN**");
    let e = Error::new_with_kind(ErrorKind::PayloadTooLarge, "big".to_string());
    assert_eq!(e.describe(), "PayloadTooLarge[413 Payload Too Large]: big");
    assert_eq!(ApiError::new("m".to_string()).message(), "m");
}

struct Fixed;

impl Db for Fixed {
    fn get(&self, key: &[u8]) -> Result<Option<Vec<u8>>, index_enclave::traits::Error> {
        if key == b"k" {
            Ok(Some(b"v".to_vec()))
        } else if key == b"bad" {
            Err(index_enclave::traits::Error::new("broken".to_string()))
        } else {
            Ok(None)
        }
    }

    fn put(&self, _key: &[u8], _value: &[u8]) -> Result<(), index_enclave::traits::Error> {
        Ok(())
    }

    fn delete(&self, _key: &[u8]) -> Result<(), index_enclave::traits::Error> {
        Ok(())
    }

    fn flush(&self) -> Result<(), index_enclave::traits::Error> {
        Err(index_enclave::traits::Error::new("flush".to_string()))
    }
}

#[test]
fn the_db_instance_forwards_to_its_backend() {
    let db = DbInstance::new(Fixed);
    assert_eq!(db.get(b"k").expect("ok"), Some(b"v".to_vec()));
    assert_eq!(db.get(b"x").expect("ok"), None);
    assert_eq!(db.get(b"bad").expect_err("err").as_str(), "broken");
    assert!(db.put(b"k", b"v").is_ok());
    assert!(db.delete(b"k").is_ok());
    assert_eq!(db.flush().expect_err("err").into_string(), "flush");
    assert!(db.backend().get(b"k").is_ok());
}

#[test]
fn callout_results() {
    assert_eq!(db_done("ocall_db_put", None, OcallReturn::Success), Ok(()));
    assert_eq!(
        db_done("ocall_db_put", None, OcallReturn::Failure),
        Err("ocall_db_put returned Failure".to_string())
    );
    assert_eq!(
        db_done("ocall_db_flush", Some("SGX_ERROR_BUSY".to_string()), OcallReturn::Success),
        Err("SGX_ERROR_BUSY".to_string())
    );
    assert_eq!(db_got("ocall_db_get", None, OcallReturn::Success, Ok(Some(vec![1]))), Ok(Some(vec![1])));
    assert_eq!(db_got("ocall_db_get", None, OcallReturn::Success, Ok(None)), Ok(None));
    assert_eq!(
        db_got("ocall_db_get", None, OcallReturn::Success, Err(BufferRecoveryError)),
        Err("Failed to recover enclave buffer".to_string())
    );
    assert_eq!(db_got("ocall_db_get", None, OcallReturn::Absent, Ok(Some(vec![1]))), Ok(None));
    assert_eq!(
        db_got("ocall_db_get", None, OcallReturn::Panic, Ok(None)),
        Err("ocall_db_get returned Panic".to_string())
    );
    assert_eq!(
        db_got("ocall_db_get", Some("status".to_string()), OcallReturn::Success, Ok(None)),
        Err("status".to_string())
    );
    assert_eq!(db_got_fixed(None, OcallReturn::Success, vec![1, 2, 0, 0], 2), Ok(Some(vec![1, 2])));
    assert_eq!(db_got_fixed(None, OcallReturn::Success, vec![1, 2], 9), Ok(Some(vec![1, 2])));
    assert_eq!(db_got_fixed(None, OcallReturn::Absent, vec![0; 4], 0), Ok(None));
    assert_eq!(
        db_got_fixed(None, OcallReturn::TooBig, vec![0; 4], 0),
        Err("ocall_db_get_fixed returned TooBig".to_string())
    );
    assert_eq!(get_fixed_status(&Ok(Some(vec![0; 5])), 4), OcallReturn::TooBig);
    assert_eq!(get_fixed_status(&Ok(Some(vec![0; 4])), 4), OcallReturn::Success);
    assert_eq!(get_fixed_status(&Ok(None), 4), OcallReturn::Success);
    assert_eq!(get_fixed_status(&Err("x".to_string()), 4), OcallReturn::Failure);
    assert_eq!(OcallReturn::Absent.name(), "None");
    assert_eq!(EnclaveError::OutOfMemory.message(), "enclave ran out of heap memory");
    assert_eq!(HealthCheckResult::default(), HealthCheckResult::Success);
    assert_eq!(PUBLIC_KEY_SIZE, 32);
}

#[test]
fn buffers_are_recovered_from_the_end_of_the_stack() {
    let mut stack = AllocateStack::new();
    assert_eq!(stack.recover_buffer(0), Ok(false));
    assert_eq!(stack.recover_buffer(8), Err(BufferRecoveryError));
    for a in [8, 16, 24, 16, 32] {
        stack.push(a);
    }
    assert_eq!(stack.recover_buffer(16), Ok(true));
    assert_eq!(stack.len(), 4);
    // The later 16 left, and the last item took its place.
    assert_eq!(stack.recover_buffer(32), Ok(true));
    assert_eq!(stack.recover_buffer(16), Ok(true));
    assert_eq!(stack.recover_buffer(16), Err(BufferRecoveryError));
    assert_eq!(stack.recover_buffer(24), Ok(true));
    assert_eq!(stack.recover_buffer(8), Ok(true));
    assert_eq!(stack.len(), 0);
}
