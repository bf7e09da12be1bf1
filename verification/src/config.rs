//! The limits that a server is configured with.

use vstd::prelude::*;

verus! {

/// The limits of a server. Times are in the unit of the server's clock.
#[derive(Debug, Clone, Copy, PartialEq, Eq, Structural)]
pub struct Config {
    max_bytes_received: usize,
    request_timeout: u64,
    exec_timeout: u64,
    max_defers_queue: Option<usize>,
    max_futures_queue: Option<usize>,
}

/// What a [`Config`] holds.
pub ghost struct Limits {
    /// How many bytes a request may have.
    pub max_bytes_received: usize,
    /// How long a request may take to arrive.
    pub request_timeout: u64,
    /// How long a task may live.
    pub exec_timeout: u64,
    /// How many deferrals a connection's inbox may hold, if it is bounded.
    pub max_defers_queue: Option<usize>,
    /// How many futures a connection's inbox may hold, if it is bounded.
    pub max_futures_queue: Option<usize>,
}

impl View for Config {
    type V = Limits;

    closed spec fn view(&self) -> Limits {
        Limits {
            max_bytes_received: self.max_bytes_received,
            request_timeout: self.request_timeout,
            exec_timeout: self.exec_timeout,
            max_defers_queue: self.max_defers_queue,
            max_futures_queue: self.max_futures_queue,
        }
    }
}

impl Config {
    pub fn new(
        max_bytes_received: usize,
        request_timeout: u64,
        exec_timeout: u64,
        max_defers_queue: Option<usize>,
        max_futures_queue: Option<usize>,
    ) -> (r: Self)
        ensures
            r@ == (Limits {
                max_bytes_received,
                request_timeout,
                exec_timeout,
                max_defers_queue,
                max_futures_queue,
            }),
    {
        Self {
            max_bytes_received,
            request_timeout,
            exec_timeout,
            max_defers_queue,
            max_futures_queue,
        }
    }

    pub fn max_bytes_received(&self) -> (r: usize)
        ensures
            r == self@.max_bytes_received,
    {
        self.max_bytes_received
    }

    pub fn request_timeout(&self) -> (r: u64)
        ensures
            r == self@.request_timeout,
    {
        self.request_timeout
    }

    pub fn exec_timeout(&self) -> (r: u64)
        ensures
            r == self@.exec_timeout,
    {
        self.exec_timeout
    }

    pub fn max_defers_queue(&self) -> (r: Option<usize>)
        ensures
            r == self@.max_defers_queue,
    {
        self.max_defers_queue
    }

    pub fn max_futures_queue(&self) -> (r: Option<usize>)
        ensures
            r == self@.max_futures_queue,
    {
        self.max_futures_queue
    }
}

} // verus!
