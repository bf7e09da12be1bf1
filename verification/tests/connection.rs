use index_enclave::codec::{now, HttpCodec, Now};
use index_enclave::config::Config;
use index_enclave::connection::{Connection, Deferred, Effect, Interest, Step, TlsRead};
use index_enclave::deferral::{Deferral, ReactorWaker};
use index_enclave::results::{Error, ErrorKind, ResponseBody};
use index_enclave::websocket::Message;

fn clock() -> Now {
    now(0).expect("date")
}

fn config(max: usize) -> Config {
    Config::new(max, 10, 100, Some(2), Some(1))
}

fn response_of(effect: &Effect) -> String {
    match effect {
        Effect::Write(bytes) => String::from_utf8(bytes.clone()).expect("text"),
        other => panic!("not a write: {:?}", other),
    }
}

const REQUEST: &[u8] = b"GET /ping HTTP/1.1\r\n\r\n";

#[test]
fn a_new_connection_is_open_and_idle() {
    let mut conn = Connection::new(12, config(100));
    assert_eq!(conn.token(), 12);
    assert!(!conn.is_closed());
    assert!(!conn.is_closing());
    assert!(!conn.is_websocket());
    assert_eq!(conn.bytes_read(), 0);
    assert!(conn.take_effects().is_empty());
}

#[test]
fn a_request_exactly_at_the_limit_is_accepted() {
    let mut codec = HttpCodec::new("s");
    let mut conn = Connection::new(10, config(REQUEST.len()));
    assert_eq!(conn.read(REQUEST.len(), &mut codec, clock()), REQUEST.len());
    assert!(conn.take_effects().is_empty());
    let raw = conn.handle_request(REQUEST.to_vec(), 5, &mut codec, clock()).expect("ready");
    assert_eq!(raw.len(), REQUEST.len());
    assert!(raw.ready());
    assert!(conn.take_effects().is_empty());
    assert_eq!(conn.bytes_read(), 0);
}

#[test]
fn a_request_one_byte_over_the_limit_is_answered_413_and_closed() {
    let mut codec = HttpCodec::new("s");
    let mut conn = Connection::new(10, config(REQUEST.len() - 1));
    assert_eq!(conn.read(REQUEST.len(), &mut codec, clock()), 0);
    let effects = conn.take_effects();
    assert_eq!(effects.len(), 2);
    let text = response_of(&effects[0]);
    assert!(text.starts_with("HTTP/1.0 413 Payload Too Large\r\n"));
    assert!(text.ends_with("{\"status\":413,\"message\":\"Payload Too Large\"}"));
    assert_eq!(effects[1], Effect::CloseNotify);
    conn.set_closing(true);
    conn.finish();
    assert_eq!(conn.take_effects(), vec![Effect::Shutdown, Effect::Deregister]);
    assert!(conn.is_closed());
}

#[test]
fn the_limit_counts_what_has_arrived_already() {
    let mut codec = HttpCodec::new("s");
    let head = b"POST / HTTP/1.1\r\nContent-Length: 4\r\n\r\n";
    let mut conn = Connection::new(10, config(head.len() + 4));
    assert_eq!(conn.read(head.len(), &mut codec, clock()), head.len());
    assert!(conn.handle_request(head.to_vec(), 0, &mut codec, clock()).is_none());
    assert_eq!(conn.bytes_read(), head.len());
    assert_eq!(conn.read(0, &mut codec, clock()), 0);
    assert!(conn.take_effects().is_empty());
    assert_eq!(conn.read(5, &mut codec, clock()), 0);
    assert_eq!(conn.take_effects().len(), 2);
    assert_eq!(conn.read(4, &mut codec, clock()), 4);
    let raw = conn.handle_request(b"abcd".to_vec(), 0, &mut codec, clock()).expect("ready");
    assert_eq!(raw.len(), head.len() + 4);
    assert_eq!(raw.extract().expect("request").body(), &b"abcd".to_vec());
}

#[test]
fn a_head_that_announces_too_much_is_answered_413() {
    let mut codec = HttpCodec::new("s");
    let head = b"POST / HTTP/1.1\r\nContent-Length: 101\r\n\r\n";
    let mut conn = Connection::new(10, config(100));
    assert!(conn.handle_request(head.to_vec(), 0, &mut codec, clock()).is_none());
    let effects = conn.take_effects();
    assert!(response_of(&effects[0]).starts_with("HTTP/1.0 413 "));
    assert_eq!(conn.bytes_read(), 0);
}

#[test]
fn a_head_that_is_not_whole_is_a_server_fault() {
    let mut codec = HttpCodec::new("s");
    let mut conn = Connection::new(10, config(100));
    assert!(conn.handle_request(b"GET /pi".to_vec(), 0, &mut codec, clock()).is_none());
    let effects = conn.take_effects();
    assert!(response_of(&effects[0]).starts_with("HTTP/1.0 500 "));
    assert_eq!(effects[1], Effect::CloseNotify);
    assert_eq!(conn.bytes_read(), 0);
}

#[test]
fn bytes_that_are_no_request_are_a_decode_fault() {
    let mut codec = HttpCodec::new("s");
    let mut conn = Connection::new(10, config(100));
    assert!(conn.handle_request(b"\x01\x02\r\n\r\n".to_vec(), 0, &mut codec, clock()).is_none());
    let effects = conn.take_effects();
    assert!(response_of(&effects[0]).starts_with("HTTP/1.0 500 "));
}

#[test]
fn a_closed_or_closing_connection_takes_nothing_in() {
    let mut codec = HttpCodec::new("s");
    let mut conn = Connection::new(10, config(100));
    conn.set_closing(true);
    assert!(conn.handle_request(REQUEST.to_vec(), 0, &mut codec, clock()).is_none());
    assert!(conn.take_effects().is_empty());
    conn.close();
    conn.take_effects();
    conn.set_closing(false);
    assert!(conn.handle_request(REQUEST.to_vec(), 0, &mut codec, clock()).is_none());
    assert!(conn.handle_request(Vec::new(), 0, &mut codec, clock()).is_none());
    assert!(conn.take_effects().is_empty());
}

#[test]
fn the_deadline_is_answered_408_and_closes() {
    let mut codec = HttpCodec::new("s");
    let head = b"POST / HTTP/1.1\r\nContent-Length: 4\r\n\r\n";
    let mut conn = Connection::new(10, config(100));
    assert!(conn.handle_request(head.to_vec(), 1_000, &mut codec, clock()).is_none());
    assert!(!conn.check_timeout(1_010, &mut codec, clock()));
    assert!(conn.take_effects().is_empty());
    assert!(conn.check_timeout(1_011, &mut codec, clock()));
    let effects = conn.take_effects();
    assert_eq!(effects.len(), 5);
    let text = response_of(&effects[0]);
    assert!(text.starts_with("HTTP/1.0 408 Request Timeout\r\n"));
    assert!(text.ends_with("{\"status\":408,\"message\":\"Request Timeout\"}"));
    assert_eq!(
        effects[1..],
        [Effect::CloseNotify, Effect::WriteTls, Effect::Shutdown, Effect::Deregister]
    );
    assert!(conn.is_closed());
}

#[test]
fn an_idle_connection_has_no_deadline() {
    let mut codec = HttpCodec::new("s");
    let mut conn = Connection::new(10, config(100));
    assert!(!conn.check_timeout(u64::MAX, &mut codec, clock()));
}

#[test]
fn the_deadline_does_not_wrap() {
    let mut codec = HttpCodec::new("s");
    let head = b"POST / HTTP/1.1\r\nContent-Length: 4\r\n\r\n";
    let mut conn = Connection::new(10, config(100));
    assert!(conn.handle_request(head.to_vec(), u64::MAX - 3, &mut codec, clock()).is_none());
    assert!(!conn.check_timeout(u64::MAX, &mut codec, clock()));
}

#[test]
fn close_notify_is_sent_once() {
    let mut conn = Connection::new(10, config(100));
    conn.send_response(&ResponseBody::new_with_close(b"a".to_vec(), true));
    conn.send_response(&ResponseBody::new_with_close(b"b".to_vec(), true));
    conn.close();
    assert_eq!(
        conn.take_effects(),
        vec![
            Effect::Write(b"a".to_vec()),
            Effect::CloseNotify,
            Effect::Write(b"b".to_vec()),
            Effect::Shutdown,
        ]
    );
    conn.send_response(&ResponseBody::new(b"late".to_vec()));
    assert!(conn.take_effects().is_empty());
}

#[test]
fn errors_on_a_closed_connection_are_dropped() {
    let mut codec = HttpCodec::new("s");
    let mut conn = Connection::new(10, config(100));
    conn.close();
    conn.take_effects();
    conn.handle_error(&Error::new("x".to_string()), &mut codec, clock());
    assert!(conn.take_effects().is_empty());
}

#[test]
fn a_websocket_closes_only_on_the_closed_signal() {
    let mut codec = HttpCodec::new("s");
    let mut conn = Connection::new(10, config(100));
    conn.run(Deferred::Upgrade(ResponseBody::new(b"101".to_vec())), &mut codec, clock());
    assert!(conn.is_websocket());
    assert_eq!(conn.take_effects(), vec![Effect::Write(b"101".to_vec()), Effect::Activate]);
    conn.handle_error(&Error::new_with_kind(ErrorKind::WSFault, "x".to_string()), &mut codec, clock());
    assert!(!conn.is_closing());
    conn.handle_error(&Error::new_ws_closed(), &mut codec, clock());
    assert!(conn.is_closing());
    assert!(conn.take_effects().is_empty());
}

#[test]
fn the_closed_signal_sets_closing_and_sends_nothing() {
    let mut codec = HttpCodec::new("s");
    // On a connection that is no web socket.
    let mut conn = Connection::new(10, config(100));
    conn.handle_error(&Error::new_ws_closed(), &mut codec, clock());
    assert!(conn.is_closing());
    assert!(conn.take_effects().is_empty());
    // Through the inbox as well.
    let mut conn = Connection::new(10, config(100));
    conn.run(Deferred::Fail(Error::new_ws_closed()), &mut codec, clock());
    assert!(conn.is_closing());
    assert!(conn.take_effects().is_empty());
    conn.finish();
    assert_eq!(
        conn.take_effects(),
        vec![Effect::CloseNotify, Effect::Shutdown, Effect::Deregister]
    );
    // A closed connection ignores it.
    let mut conn = Connection::new(10, config(100));
    conn.close();
    conn.take_effects();
    conn.handle_error(&Error::new_ws_closed(), &mut codec, clock());
    assert!(!conn.is_closing());
    assert!(conn.take_effects().is_empty());
}

#[test]
fn every_other_kind_is_answered_once_with_its_status() {
    let mut codec = HttpCodec::new("s");
    for (kind, line) in [
        (ErrorKind::EncodeFault, "HTTP/1.0 500 Internal Server Error\r\n"),
        (ErrorKind::DecodeFault, "HTTP/1.0 500 Internal Server Error\r\n"),
        (ErrorKind::ServerFault, "HTTP/1.0 500 Internal Server Error\r\n"),
        (ErrorKind::WSFault, "HTTP/1.0 400 Bad Request\r\n"),
        (ErrorKind::TimedOut, "HTTP/1.0 408 Request Timeout\r\n"),
        (ErrorKind::PayloadTooLarge, "HTTP/1.0 413 Payload Too Large\r\n"),
        (ErrorKind::ExecError, "HTTP/1.0 502 Bad Gateway\r\n"),
        (ErrorKind::HttpClientError, "HTTP/1.0 502 Bad Gateway\r\n"),
        (ErrorKind::HttpClientTimedOut, "HTTP/1.0 504 Gateway Timeout\r\n"),
    ] {
        let mut conn = Connection::new(10, config(100));
        assert_eq!(conn.max_bytes_received(), 100);
        conn.handle_error(&Error::new_with_kind(kind, String::new()), &mut codec, clock());
        let effects = conn.take_effects();
        assert_eq!(effects.len(), 2);
        let text = response_of(&effects[0]);
        assert!(text.starts_with(line));
        assert!(text.contains("\r\ncontent-type: application/json\r\n"));
        assert_eq!(effects[1], Effect::CloseNotify);
        assert!(!conn.is_closing());
    }
}

#[test]
fn websocket_messages_need_a_websocket() {
    let mut codec = HttpCodec::new("s");
    let mut conn = Connection::new(10, config(100));
    conn.run(Deferred::WsSend(Message::Close(None)), &mut codec, clock());
    assert!(conn.take_effects().is_empty());
}

#[test]
fn tls_reads_decide_on_closing() {
    for (outcome, closing) in [
        (TlsRead::WouldBlock, false),
        (TlsRead::Data, false),
        (TlsRead::Eof, true),
        (TlsRead::Aborted, true),
        (TlsRead::Failed, true),
    ] {
        let mut conn = Connection::new(10, config(100));
        conn.read_tls(outcome);
        assert_eq!(conn.is_closing(), closing);
    }
    let mut conn = Connection::new(10, config(100));
    conn.packets_failed();
    assert!(conn.is_closing());
    assert_eq!(conn.take_effects(), vec![Effect::WriteTls]);
    let mut conn = Connection::new(10, config(100));
    conn.write_failed();
    assert!(conn.is_closing());
}

#[test]
fn plaintext_read_failures() {
    let mut codec = HttpCodec::new("s");
    let mut conn = Connection::new(10, config(100));
    conn.read_failed(true, None, &mut codec, clock());
    assert!(!conn.is_closing());
    assert!(conn.take_effects().is_empty());
    conn.read_failed(
        true,
        Some(Error::new_with_kind(ErrorKind::TimedOut, "t".to_string())),
        &mut codec,
        clock(),
    );
    assert!(response_of(&conn.take_effects()[0]).starts_with("HTTP/1.0 408 "));
    conn.read_failed(false, None, &mut codec, clock());
    assert!(conn.is_closing());
}

#[test]
fn interest_follows_what_the_session_wants() {
    let conn = Connection::new(10, config(100));
    assert_eq!(conn.event_set(true, true), Interest::Both);
    assert_eq!(conn.event_set(false, true), Interest::Writable);
    assert_eq!(conn.event_set(true, false), Interest::Readable);
    assert_eq!(conn.event_set(false, false), Interest::Readable);
}

#[test]
fn finish_reregisters_an_open_connection() {
    let mut conn = Connection::new(10, config(100));
    conn.finish();
    assert_eq!(conn.take_effects(), vec![Effect::Reregister]);
    conn.set_closing(true);
    conn.finish();
    assert_eq!(
        conn.take_effects(),
        vec![Effect::CloseNotify, Effect::Shutdown, Effect::Deregister]
    );
    assert!(conn.is_closed());
}

#[test]
fn the_inbox_is_first_in_first_out_and_bounded() {
    let mut inbox: Deferral<u8, char> = Deferral::new(11, Some(2), Some(1));
    assert_eq!(inbox.waker(), ReactorWaker { token: 11, ready: false });
    inbox.defer(1).expect("first");
    inbox.defer(2).expect("second");
    let e = inbox.defer(3).expect_err("full");
    assert_eq!(e.kind(), ErrorKind::ServerFault);
    assert_eq!(e.message(), "unable to queue deferral, limit exceeded: 2");
    inbox.spawn('a').expect("first");
    let e = inbox.spawn('b').expect_err("full");
    assert_eq!(e.kind(), ErrorKind::ServerFault);
    assert_eq!(e.message(), "unable to queue future, limit exceeded: 1");
    assert_eq!(inbox.defers_len(), 2);
    assert_eq!(inbox.futures_len(), 1);
    assert!(inbox.waker().is_ready());
    assert_eq!(inbox.take_pending(), (vec![1, 2], vec!['a']));
    assert!(!inbox.waker().is_ready());
    assert_eq!(inbox.take_pending(), (vec![], vec![]));
    inbox.defer(4).expect("room again");
    let mut unbounded: Deferral<u8, u8> = Deferral::new(1, None, None);
    for i in 0..100 {
        unbounded.defer(i).expect("no bound");
        unbounded.spawn(i).expect("no bound");
    }
    let mut zero: Deferral<u8, u8> = Deferral::new(1, Some(0), Some(0));
    assert!(zero.defer(1).is_err());
    assert!(zero.spawn(1).is_err());
    assert!(!zero.waker().is_ready());
}

#[test]
fn the_waker_is_triggered_and_cleared() {
    let mut w = ReactorWaker::new(5);
    assert_eq!(w.token(), 5);
    assert!(!w.is_ready());
    w.trigger();
    assert!(w.is_ready());
    w.clear();
    assert!(!w.is_ready());
}

#[test]
fn wake_runs_deferrals_in_order_and_returns_the_futures() {
    let mut codec = HttpCodec::new("s");
    let mut conn = Connection::new(10, config(100));
    let mut inbox: Deferral<Deferred, u8> = Deferral::new(11, None, None);
    inbox.defer(Deferred::Respond(ResponseBody::new(b"1".to_vec()))).expect("queued");
    inbox.spawn(9).expect("queued");
    inbox.defer(Deferred::Fail(Error::new_with_kind(ErrorKind::ExecError, "x".to_string()))).expect("queued");
    inbox.defer(Deferred::Respond(ResponseBody::new(b"3".to_vec()))).expect("queued");
    inbox.spawn(8).expect("queued");
    assert_eq!(conn.wake(&mut inbox, &mut codec, clock()), vec![9, 8]);
    let effects = conn.take_effects();
    assert_eq!(effects.len(), 4);
    assert_eq!(effects[0], Effect::Write(b"1".to_vec()));
    assert!(response_of(&effects[1]).starts_with("HTTP/1.0 502 Bad Gateway\r\n"));
    assert_eq!(effects[2], Effect::CloseNotify);
    assert_eq!(effects[3], Effect::Write(b"3".to_vec()));
}

#[test]
fn the_steps_of_an_event() {
    let mut codec = HttpCodec::new("s");
    let mut conn = Connection::new(10, config(100));
    assert_eq!(
        conn.ready(false, true, true),
        vec![Step::ReadTls, Step::ReadRequest, Step::Perform, Step::WriteTls, Step::Finish, Step::Perform]
    );
    assert_eq!(conn.ready(false, false, false), vec![Step::Perform, Step::Finish, Step::Perform]);
    // A wakeup is answered, and nothing is read even if there is something.
    assert_eq!(
        conn.ready(true, true, false),
        vec![Step::Wake, Step::Perform, Step::Finish, Step::Perform]
    );
    conn.run(Deferred::Upgrade(ResponseBody::new(Vec::new())), &mut codec, clock());
    assert_eq!(
        conn.ready(false, true, false),
        vec![Step::ReadTls, Step::ReadFrame, Step::Perform, Step::Finish, Step::Perform]
    );
}
