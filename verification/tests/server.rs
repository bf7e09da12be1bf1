use index_enclave::codec::{now, HttpCodec};
use index_enclave::config::Config;
use index_enclave::connection::Effect;
use index_enclave::exec::{ExecReactor, Task};
use index_enclave::registry::Registry;
use index_enclave::server::{
    classify, default_config, Dispatch, Server, LISTENER_TOKEN, MIO_EXEC_OFFSET,
    MIO_HTTPC_OFFSET, MIO_SERVER_OFFSET, MIO_TIMEOUT_POLL, TOKEN_RANGE,
};

#[test]
fn token_ranges_are_disjoint_and_contiguous() {
    assert_eq!(LISTENER_TOKEN, 0);
    assert_eq!(MIO_SERVER_OFFSET, 10);
    assert_eq!(TOKEN_RANGE, 1 << 32);
    assert_eq!(MIO_EXEC_OFFSET, 10 + (1 << 32));
    assert_eq!(MIO_HTTPC_OFFSET, 10 + (2 << 32));
    assert_eq!(classify(0), Dispatch::Listener);
    for t in 1..10 {
        assert_eq!(classify(t), Dispatch::Unhandled);
    }
    assert_eq!(classify(10), Dispatch::Socket(10));
    assert_eq!(classify(11), Dispatch::Wakeup(10));
    assert_eq!(classify(12), Dispatch::Socket(12));
    assert_eq!(classify(MIO_EXEC_OFFSET - 2), Dispatch::Socket(MIO_EXEC_OFFSET - 2));
    assert_eq!(classify(MIO_EXEC_OFFSET - 1), Dispatch::Wakeup(MIO_EXEC_OFFSET - 2));
    assert_eq!(classify(MIO_EXEC_OFFSET), Dispatch::Executor);
    assert_eq!(classify(MIO_HTTPC_OFFSET - 1), Dispatch::Executor);
    assert_eq!(classify(MIO_HTTPC_OFFSET), Dispatch::HttpClient);
    assert_eq!(classify(u64::MAX), Dispatch::HttpClient);
}

#[test]
fn default_limits() {
    let c = default_config();
    assert_eq!(c.max_bytes_received(), 50 * 1024);
    assert_eq!(c.request_timeout(), 10_000);
    assert_eq!(c.exec_timeout(), 7_200_000);
    assert_eq!(c.max_defers_queue(), None);
    assert_eq!(c.max_futures_queue(), None);
    let c = Config::new(1, 2, 3, Some(4), Some(5));
    assert_eq!(
        (c.max_bytes_received(), c.request_timeout(), c.exec_timeout(), c.max_defers_queue(), c.max_futures_queue()),
        (1, 2, 3, Some(4), Some(5))
    );
}

#[test]
fn accept_gives_even_ids_two_apart() {
    let mut server = Server::new(3, default_config(), 0);
    assert_eq!(server.id(), 3);
    assert_eq!(server.accept(), Some(10));
    assert_eq!(server.accept(), Some(12));
    assert_eq!(server.accept(), Some(14));
    assert_eq!(server.len(), 3);
    assert_eq!(server.handle_event(12), Dispatch::Socket(12));
    assert_eq!(server.handle_event(13), Dispatch::Wakeup(12));
    assert_eq!(server.handle_event(16), Dispatch::Stale);
    assert_eq!(server.handle_event(17), Dispatch::Stale);
    assert_eq!(server.handle_event(0), Dispatch::Listener);
    assert_eq!(server.handle_event(5), Dispatch::Unhandled);
    assert_eq!(server.handle_event(MIO_EXEC_OFFSET + 1), Dispatch::Executor);
    assert_eq!(server.handle_event(MIO_HTTPC_OFFSET + 1), Dispatch::HttpClient);
}

#[test]
fn a_connection_is_registered_until_it_is_closed() {
    let mut server = Server::new(0, default_config(), 0);
    let id = server.accept().expect("id");
    let mut conn = server.take(id).expect("registered");
    assert_eq!(conn.token(), id);
    assert_eq!(server.handle_event(id), Dispatch::Stale);
    assert!(server.take(id).is_none());
    conn.finish();
    assert!(server.settle(conn));
    assert_eq!(server.handle_event(id), Dispatch::Socket(id));
    let mut conn = server.take(id).expect("registered");
    conn.set_closing(true);
    conn.finish();
    assert!(conn.is_closed());
    assert!(!server.settle(conn));
    assert_eq!(server.handle_event(id), Dispatch::Stale);
    assert_eq!(server.len(), 0);
}

#[test]
fn the_sweep_is_rate_limited_and_removes_what_timed_out() {
    let mut codec = HttpCodec::new("s");
    let clock = now(0).expect("date");
    let config = Config::new(1000, 50, 100, None, None);
    let mut server = Server::new(0, config, 100);
    let slow = server.accept().expect("id");
    let idle = server.accept().expect("id");
    let mut conn = server.take(slow).expect("registered");
    assert!(conn
        .handle_request(b"POST / HTTP/1.1\r\nContent-Length: 9\r\n\r\n".to_vec(), 100, &mut codec, clock)
        .is_none());
    assert!(server.settle(conn));
    assert!(server.check_timeouts(100 + MIO_TIMEOUT_POLL - 1, &mut codec, clock).is_none());
    assert!(server.check_timeouts(99, &mut codec, clock).is_none());
    let mut expired = server.check_timeouts(100 + MIO_TIMEOUT_POLL, &mut codec, clock).expect("due");
    assert_eq!(expired.len(), 1);
    assert_eq!(expired[0].token(), slow);
    assert!(expired[0].is_closed());
    let effects = expired[0].take_effects();
    assert_eq!(effects.len(), 5);
    assert_eq!(effects[4], Effect::Deregister);
    assert_eq!(server.handle_event(slow), Dispatch::Stale);
    assert_eq!(server.handle_event(idle), Dispatch::Socket(idle));
    // The next sweep is due a poll interval after this one.
    assert!(server.check_timeouts(100 + 2 * MIO_TIMEOUT_POLL - 1, &mut codec, clock).is_none());
    assert_eq!(
        server.check_timeouts(100 + 2 * MIO_TIMEOUT_POLL, &mut codec, clock).expect("due").len(),
        0
    );
}

#[test]
fn registry_maps_tokens_to_values() {
    let mut r: Registry<&str> = Registry::new();
    assert_eq!(r.len(), 0);
    assert_eq!(r.insert(1, "a"), None);
    assert_eq!(r.insert(2, "b"), None);
    assert_eq!(r.insert(1, "c"), Some("a"));
    assert_eq!(r.len(), 2);
    assert!(r.contains_key(1));
    assert!(!r.contains_key(3));
    assert_eq!(r.get(1), Some(&"c"));
    assert_eq!(r.get(3), None);
    let mut keys = r.keys();
    keys.sort();
    assert_eq!(keys, vec![1, 2]);
    assert_eq!(r.remove(2), Some("b"));
    assert_eq!(r.remove(2), None);
    assert_eq!(r.len(), 1);
}

#[test]
fn the_executor_spawns_polls_and_sweeps() {
    let mut exec: ExecReactor<&str> = ExecReactor::new(MIO_EXEC_OFFSET, 100);
    let (first, displaced) = exec.spawn_boxed("a", 1_000);
    assert_eq!(first, MIO_EXEC_OFFSET);
    assert!(displaced.is_none());
    let (second, _) = exec.spawn_boxed("b", 1_050);
    assert_eq!(second, MIO_EXEC_OFFSET + 1);
    assert_eq!(exec.len(), 2);
    assert!(exec.owns(first));
    assert!(!exec.owns(MIO_EXEC_OFFSET - 1));
    assert!(!exec.owns(MIO_HTTPC_OFFSET));
    // Spawned tasks are ready at once; polling resets the readiness.
    let task = exec.ready(first).expect("task");
    assert_eq!(task.future, Some("a"));
    assert!(!task.ready);
    assert_eq!(task.deadline, 1_100);
    assert!(exec.ready(first).is_none());
    assert!(!exec.wake(first));
    exec.park(first, task);
    assert!(exec.wake(first));
    // Deadlines are strict.
    assert!(exec.check_timeouts(1_100).is_empty());
    assert_eq!(exec.check_timeouts(1_101), vec![first]);
    assert!(exec.ready(first).is_none());
    assert_eq!(exec.check_timeouts(1_151), vec![second]);
    assert_eq!(exec.len(), 0);
    let t = Task { future: Some(1), ready: false, deadline: u64::MAX };
    assert!(!t.check_deadline(u64::MAX));
    let (_, _) = exec.spawn_boxed("c", u64::MAX - 1);
    assert!(exec.check_timeouts(u64::MAX).is_empty());
}
