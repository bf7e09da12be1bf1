//! The server: the token ranges of the reactor, the registry of
//! connections, and the sweep for requests that have timed out.

use crate::codec::{HttpCodec, Now};
use crate::config::Config;
use crate::connection::Connection;
use crate::registry::Registry;
use vstd::prelude::*;

verus! {

/// The token of the listening socket.
pub const LISTENER_TOKEN: u64 = 0;

/// How many tokens each of the three ranges has.
pub const TOKEN_RANGE: u64 = 0x1_0000_0000;

/// The first token of the connections.
pub const MIO_SERVER_OFFSET: u64 = 10;

/// The first token of the executor.
pub const MIO_EXEC_OFFSET: u64 = MIO_SERVER_OFFSET + TOKEN_RANGE;

/// The first token of the HTTP client.
pub const MIO_HTTPC_OFFSET: u64 = MIO_EXEC_OFFSET + TOKEN_RANGE;

/// The time between two sweeps for timeouts, which is also the longest
/// time that a poll waits.
pub const MIO_TIMEOUT_POLL: u64 = 1000;

/// How many bytes a request may have, unless configured otherwise: 50 KiB.
pub const MAX_BYTES_RECEIVED: usize = 51200;

/// How long a request may take to arrive, unless configured otherwise.
pub const REQUEST_TIMEOUT: u64 = 10000;

/// How long a task may live, unless configured otherwise.
pub const EXEC_TIMEOUT: u64 = 7200000;

/// The length of the listener's backlog.
pub const TCP_BACKLOG: i32 = 250;

/// How many events one poll takes.
pub const MIO_EVENTS_CAPACITY: usize = 500;

/// The limits of a server that is not configured otherwise: the inbox
/// queues are not bounded.
pub fn default_config() -> (r: Config)
    ensures
        r@.max_bytes_received == MAX_BYTES_RECEIVED,
        r@.request_timeout == REQUEST_TIMEOUT,
        r@.exec_timeout == EXEC_TIMEOUT,
        r@.max_defers_queue is None,
        r@.max_futures_queue is None,
{
    Config::new(MAX_BYTES_RECEIVED, REQUEST_TIMEOUT, EXEC_TIMEOUT, None, None)
}

/// Whom an event is for.
#[derive(Debug, Clone, Copy, PartialEq, Eq, Structural)]
pub enum Dispatch {
    /// The listener: there are connections to accept.
    Listener,
    /// The HTTP client reactor.
    HttpClient,
    /// The executor: the task of the event's token is ready.
    Executor,
    /// The socket of the connection with this id is ready.
    Socket(u64),
    /// The inbox of the connection with this id has work.
    Wakeup(u64),
    /// A socket or inbox of a connection that is gone.
    Stale,
    /// No one: the token is in no range.
    Unhandled,
}

/// Whom the range of a token makes an event for. Among the tokens of the
/// connections, an even token is the socket of the connection of that id,
/// and an odd one the inbox of the connection of the id before it.
pub open spec fn dispatch_of(token: u64) -> Dispatch {
    if token == LISTENER_TOKEN {
        Dispatch::Listener
    } else if token >= MIO_HTTPC_OFFSET {
        Dispatch::HttpClient
    } else if token >= MIO_EXEC_OFFSET {
        Dispatch::Executor
    } else if token >= MIO_SERVER_OFFSET {
        if token % 2 == 1 {
            Dispatch::Wakeup((token - 1) as u64)
        } else {
            Dispatch::Socket(token)
        }
    } else {
        Dispatch::Unhandled
    }
}

/// Whom the range of a token makes an event for.
pub fn classify(token: u64) -> (r: Dispatch)
    ensures
        r == dispatch_of(token),
{
    if token == LISTENER_TOKEN {
        Dispatch::Listener
    } else if token >= MIO_HTTPC_OFFSET {
        Dispatch::HttpClient
    } else if token >= MIO_EXEC_OFFSET {
        Dispatch::Executor
    } else if token >= MIO_SERVER_OFFSET {
        if token % 2 == 1 {
            Dispatch::Wakeup(token - 1)
        } else {
            Dispatch::Socket(token)
        }
    } else {
        Dispatch::Unhandled
    }
}

/// Whether `id` can be the id of a connection: an even token of the
/// connections' range whose successor, the token of the inbox's waker, is
/// in the range too.
pub open spec fn is_connection_id(id: u64) -> bool {
    MIO_SERVER_OFFSET <= id && id + 1 < MIO_EXEC_OFFSET && id % 2 == 0
}

/// The id that is given out after `id`: the next even token, or the first
/// of the range where the range ends.
pub open spec fn id_after(id: u64) -> u64 {
    if id + 3 >= MIO_EXEC_OFFSET {
        MIO_SERVER_OFFSET
    } else {
        (id + 2) as u64
    }
}

/// The token of a connection's socket is dispatched to the socket, the
/// token of its inbox's waker to the wakeup of the same connection, and the
/// two differ by one.
pub proof fn lemma_token_partition(id: u64)
    requires
        is_connection_id(id),
    ensures
        dispatch_of(id) == Dispatch::Socket(id),
        dispatch_of((id + 1) as u64) == Dispatch::Wakeup(id),
        is_connection_id(id_after(id)),
{
}

/// The ranges do not overlap: a token that is dispatched to a connection
/// is below the executor's tokens, and those are below the HTTP client's.
pub proof fn lemma_ranges_disjoint(token: u64)
    ensures
        dispatch_of(token) is Listener <==> token == LISTENER_TOKEN,
        dispatch_of(token) is Unhandled <==> 0 < token < MIO_SERVER_OFFSET,
        (dispatch_of(token) is Socket || dispatch_of(token) is Wakeup) <==> MIO_SERVER_OFFSET
            <= token < MIO_EXEC_OFFSET,
        dispatch_of(token) is Executor <==> MIO_EXEC_OFFSET <= token < MIO_HTTPC_OFFSET,
        dispatch_of(token) is HttpClient <==> MIO_HTTPC_OFFSET <= token,
        dispatch_of(token) matches Dispatch::Socket(id) ==> is_connection_id(id) && id == token,
        dispatch_of(token) matches Dispatch::Wakeup(id) ==> is_connection_id(id) && id + 1
            == token,
        !(dispatch_of(token) is Stale),
{
}

/// The server's part of the reactor: the connections by their ids.
pub struct Server {
    id: usize,
    connections: Registry<Connection>,
    config: Config,
    next_id: u64,
    last_timeout: u64,
}

impl Server {
    /// The connections that are registered, by their ids.
    pub closed spec fn connections(&self) -> Map<u64, Connection> {
        self.connections@
    }

    /// The id that the next connection gets.
    pub closed spec fn next_id(&self) -> u64 {
        self.next_id
    }

    /// The instant of the last sweep for timeouts.
    pub closed spec fn last_timeout(&self) -> u64 {
        self.last_timeout
    }

    pub closed spec fn config(&self) -> Config {
        self.config
    }

    /// The number of the server among the servers of the process.
    pub closed spec fn number(&self) -> usize {
        self.id
    }

    /// Every connection is registered under its own token, which is a
    /// connection id, holds its invariant and is not closed; the next id
    /// is a connection id.
    pub closed spec fn inv(&self) -> bool {
        &&& self.connections.wf()
        &&& is_connection_id(self.next_id)
        &&& forall|id: u64| #[trigger]
            self.connections@.contains_key(id) ==> {
                &&& is_connection_id(id)
                &&& self.connections@[id]@.token == id
                &&& self.connections@[id].inv()
                &&& !self.connections@[id]@.closed
            }
    }

    /// What [`Server::inv`] says of a registered connection.
    pub proof fn lemma_registered(&self, id: u64)
        requires
            self.inv(),
            self.connections().contains_key(id),
        ensures
            is_connection_id(id),
            self.connections()[id]@.token == id,
            self.connections()[id].inv(),
            !self.connections()[id]@.closed,
            dispatch_of(id) == Dispatch::Socket(id),
            dispatch_of((id + 1) as u64) == Dispatch::Wakeup(id),
    {
    }

    /// A server without connections, whose clock stands at `ticks`.
    pub fn new(id: usize, config: Config, ticks: u64) -> (r: Self)
        ensures
            r.inv(),
            r.connections() == Map::<u64, Connection>::empty(),
            r.next_id() == MIO_SERVER_OFFSET,
            r.last_timeout() == ticks,
            r.config() == config,
            r.number() == id,
    {
        Self {
            id,
            connections: Registry::new(),
            config,
            next_id: MIO_SERVER_OFFSET,
            last_timeout: ticks,
        }
    }

    pub fn id(&self) -> (r: usize)
        ensures
            r == self.number(),
    {
        self.id
    }

    /// How many connections are registered.
    pub fn len(&self) -> (r: usize)
        requires
            self.inv(),
        ensures
            r == self.connections().dom().len(),
    {
        proof {
            self.connections.lemma_count();
        }
        self.connections.len()
    }

    /// Registers the connection of a socket that was accepted, under the
    /// next id, and returns the id: the socket's token. The token of the
    /// inbox's waker is the one after it. The next id advances by two. A
    /// socket whose id is still held by a connection is refused.
    pub fn accept(&mut self) -> (r: Option<u64>)
        requires
            old(self).inv(),
        ensures
            final(self).inv(),
            final(self).next_id() == id_after(old(self).next_id()),
            final(self).last_timeout() == old(self).last_timeout(),
            final(self).config() == old(self).config(),
            match r {
                Some(id) => {
                    &&& id == old(self).next_id()
                    &&& is_connection_id(id)
                    &&& !old(self).connections().contains_key(id)
                    &&& final(self).connections().dom() == old(self).connections().dom().insert(id)
                    &&& final(self).connections()[id]@ == Connection::fresh(
                        id,
                        old(self).config(),
                    )
                    &&& forall|other: u64|
                        other != id && old(self).connections().contains_key(other) ==> final(self).connections()[other] == old(self).connections()[other]
                    &&& dispatch_of(id) == Dispatch::Socket(id)
                    &&& dispatch_of((id + 1) as u64) == Dispatch::Wakeup(id)
                },
                None => old(self).connections().contains_key(old(self).next_id()) && final(self).connections() == old(self).connections(),
            },
    {
        let id = self.next_id;
        if self.next_id + 3 >= MIO_EXEC_OFFSET {
            self.next_id = MIO_SERVER_OFFSET;
        } else {
            self.next_id += 2;
        }
        if self.connections.contains_key(id) {
            return None;
        }
        let conn = Connection::new(id, self.config);
        self.connections.insert(id, conn);
        Some(id)
    }

    /// Whom an event is for: see [`dispatch_of`]. An event for a connection
    /// that is not registered is stale.
    pub fn handle_event(&self, token: u64) -> (r: Dispatch)
        requires
            self.inv(),
        ensures
            r == match dispatch_of(token) {
                Dispatch::Socket(id) => if self.connections().contains_key(id) {
                    Dispatch::Socket(id)
                } else {
                    Dispatch::Stale
                },
                Dispatch::Wakeup(id) => if self.connections().contains_key(id) {
                    Dispatch::Wakeup(id)
                } else {
                    Dispatch::Stale
                },
                other => other,
            },
    {
        match classify(token) {
            Dispatch::Socket(id) => if self.connections.contains_key(id) {
                Dispatch::Socket(id)
            } else {
                Dispatch::Stale
            },
            Dispatch::Wakeup(id) => if self.connections.contains_key(id) {
                Dispatch::Wakeup(id)
            } else {
                Dispatch::Stale
            },
            other => other,
        }
    }

    /// Takes the connection `id` out of the registry, for the caller to
    /// have it handle an event; [`Server::settle`] brings it back.
    pub fn take(&mut self, id: u64) -> (r: Option<Connection>)
        requires
            old(self).inv(),
        ensures
            final(self).inv(),
            final(self).connections() == old(self).connections().remove(id),
            final(self).next_id() == old(self).next_id(),
            final(self).last_timeout() == old(self).last_timeout(),
            final(self).config() == old(self).config(),
            match r {
                Some(conn) => {
                    &&& old(self).connections().contains_key(id)
                    &&& conn == old(self).connections()[id]
                    &&& conn.inv()
                    &&& conn@.token == id
                    &&& !conn@.closed
                    &&& is_connection_id(id)
                },
                None => !old(self).connections().contains_key(id),
            },
    {
        self.connections.remove(id)
    }

    /// Brings back a connection that has handled an event: it is
    /// registered again unless it is closed, which ends it. Says whether
    /// it is registered.
    pub fn settle(&mut self, conn: Connection) -> (r: bool)
        requires
            old(self).inv(),
            conn.inv(),
            is_connection_id(conn@.token),
        ensures
            final(self).inv(),
            r == !conn@.closed,
            final(self).connections() == if conn@.closed {
                old(self).connections()
            } else {
                old(self).connections().insert(conn@.token, conn)
            },
            final(self).next_id() == old(self).next_id(),
            final(self).last_timeout() == old(self).last_timeout(),
            final(self).config() == old(self).config(),
    {
        if conn.is_closed() {
            false
        } else {
            let id = conn.token();
            self.connections.insert(id, conn);
            true
        }
    }

    /// Whether a sweep is due at the instant `ticks`: not before a poll
    /// interval has passed since the last one.
    pub open spec fn sweep_due(&self, ticks: u64) -> bool {
        ticks >= self.last_timeout() && ticks - self.last_timeout() >= MIO_TIMEOUT_POLL
    }

    /// Sweeps the connections for requests that have timed out at the
    /// instant `ticks`, unless the last sweep was less than a poll interval
    /// ago. Each connection whose request has timed out answers the
    /// timeout, is closed, leaves the registry and is returned, for the
    /// caller to carry out its effects; the others stay as they are.
    pub fn check_timeouts(&mut self, ticks: u64, codec: &mut HttpCodec, now: Now) -> (r: Option<
        Vec<Connection>,
    >)
        requires
            old(self).inv(),
        ensures
            final(self).inv(),
            final(codec).server() == old(codec).server(),
            final(self).next_id() == old(self).next_id(),
            final(self).config() == old(self).config(),
            r is Some <==> old(self).sweep_due(ticks),
            match r {
                None => final(self).connections() == old(self).connections() && final(self).last_timeout() == old(self).last_timeout(),
                Some(expired) => {
                    &&& final(self).last_timeout() == ticks
                    &&& forall|id: u64|
                        final(self).connections().contains_key(id) <==> (#[trigger] old(self).connections().contains_key(id) && !old(self).connections()[id]@.timed_out(
                            ticks,
                        ))
                    &&& forall|id: u64| #[trigger]
                        final(self).connections().contains_key(id) ==> final(self).connections()[id] == old(self).connections()[id]
                    &&& forall|i: int|
                        0 <= i < expired@.len() ==> {
                            let id = (#[trigger] expired@[i])@.token;
                            &&& old(self).connections().contains_key(id)
                            &&& old(self).connections()[id]@.timed_out(ticks)
                            &&& expired@[i]@ == old(self).connections()[id]@.expired(
                                old(codec).server(),
                                now.text(),
                            )
                            &&& expired@[i]@.closed
                        }
                    &&& forall|id: u64|
                        old(self).connections().contains_key(id) && (#[trigger] old(self).connections()[id])@.timed_out(ticks) ==> exists|i: int|
                            0 <= i < expired@.len() && (#[trigger] expired@[i])@.token == id
                },
            },
    {
        if ticks < self.last_timeout || ticks - self.last_timeout < MIO_TIMEOUT_POLL {
            return None;
        }
        let ghost before = self.connections@;
        let ghost server = codec.server();
        let keys = self.connections.keys();
        let mut expired: Vec<Connection> = Vec::new();
        let mut i: usize = 0;
        proof {
            assert forall|j: int| 0 <= j < keys@.len() implies before.contains_key(
                #[trigger] keys@[j],
            ) by {
                assert(keys@.contains(keys@[j]));
            }
        }
        while i < keys.len()
            invariant
                i <= keys@.len(),
                self.inv(),
                codec.server() == server,
                self.next_id() == old(self).next_id(),
                self.config() == old(self).config(),
                self.last_timeout() == old(self).last_timeout(),
                before == old(self).connections(),
                keys@.no_duplicates(),
                forall|k: u64| keys@.contains(k) <==> before.contains_key(k),
                // The connections that are still to be looked at are as they were.
                forall|j: int|
                    i <= j < keys@.len() ==> self.connections@.contains_key(#[trigger] keys@[j])
                        && self.connections@[keys@[j]] == before[keys@[j]],
                // Those that were looked at stay if and only if they have not timed out.
                forall|j: int|
                    0 <= j < i ==> (self.connections@.contains_key(#[trigger] keys@[j])
                        <==> !before[keys@[j]]@.timed_out(ticks)),
                forall|id: u64| #[trigger]
                    self.connections@.contains_key(id) ==> before.contains_key(id)
                        && self.connections@[id] == before[id],
                forall|j: int|
                    0 <= j < expired@.len() ==> {
                        let id = (#[trigger] expired@[j])@.token;
                        &&& before.contains_key(id)
                        &&& before[id]@.timed_out(ticks)
                        &&& expired@[j]@ == before[id]@.expired(server, now.text())
                        &&& expired@[j]@.closed
                    },
                forall|j: int|
                    0 <= j < i && before[#[trigger] keys@[j]]@.timed_out(ticks) ==> exists|e: int|
                        0 <= e < expired@.len() && (#[trigger] expired@[e])@.token == keys@[j],
            decreases keys@.len() - i,
        {
            let id = keys[i];
            assert(keys@.contains(id));
            let ghost held = self.connections@;
            match self.connections.remove(id) {
                Some(mut conn) => {
                    let ghost was = conn@;
                    if conn.check_timeout(ticks, codec, now) {
                        let ghost shown = expired@;
                        expired.push(conn);
                        proof {
                            assert forall|j: int|
                                0 <= j < i + 1 && before[#[trigger] keys@[j]]@.timed_out(
                                    ticks,
                                ) implies exists|e: int|
                                0 <= e < expired@.len() && (#[trigger] expired@[e])@.token
                                    == keys@[j] by {
                                if j < i {
                                    let e = choose|e: int|
                                        0 <= e < shown.len() && (#[trigger] shown[e])@.token
                                            == keys@[j];
                                    assert(expired@[e] == shown[e]);
                                } else {
                                    assert(expired@[shown.len() as int]@.token == id);
                                }
                            }
                            assert forall|j: int| i + 1 <= j < keys@.len() implies self.connections@.contains_key(
                            #[trigger] keys@[j]) && self.connections@[keys@[j]] == before[keys@[j]] by {
                                assert(keys@[j] != keys@[i as int]);
                                assert(held.contains_key(keys@[j]));
                            }
                            assert forall|j: int| 0 <= j < i + 1 implies (
                            self.connections@.contains_key(#[trigger] keys@[j]) <==> !before[keys@[j]]@.timed_out(
                                ticks,
                            )) by {
                                if j < i {
                                    assert(keys@[j] != keys@[i as int]);
                                    assert(held.contains_key(keys@[j]) <==> !before[keys@[j]]@.timed_out(
                                        ticks,
                                    ));
                                }
                            }
                        }
                    } else {
                        self.connections.insert(id, conn);
                        proof {
                            assert(self.connections@ =~= held);
                        }
                    }
                },
                None => {},
            }
            i += 1;
        }
        self.last_timeout = ticks;
        proof {
            assert forall|id: u64|
                self.connections@.contains_key(id) <==> (#[trigger] before.contains_key(id)
                    && !before[id]@.timed_out(ticks)) by {
                if before.contains_key(id) {
                    assert(keys@.contains(id));
                    let j = choose|j: int| 0 <= j < keys@.len() && keys@[j] == id;
                    assert(self.connections@.contains_key(keys@[j]) <==> !before[keys@[j]]@.timed_out(
                        ticks,
                    ));
                }
            }
            assert forall|id: u64|
                before.contains_key(id) && (#[trigger] before[id])@.timed_out(
                    ticks,
                ) implies exists|e: int|
                0 <= e < expired@.len() && (#[trigger] expired@[e])@.token == id by {
                assert(keys@.contains(id));
                let j = choose|j: int| 0 <= j < keys@.len() && keys@[j] == id;
                assert(before[keys@[j]]@.timed_out(ticks));
            }
        }
        Some(expired)
    }
}

} // verus!
