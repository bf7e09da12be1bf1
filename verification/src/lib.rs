//! Core of a TLS-terminating HTTP/1.x and WebSocket frontend that runs in a
//! protected environment: everything that is decided between the bytes of
//! a connection and the handlers of an application, each function with a
//! machine-checked contract.
//!
//! The sockets, the TLS sessions and the engines that move bytes belong to
//! the caller. The library takes what they report and says what to do next:
//!
//! - [`codec`], [`request`], [`response`]: the decoding of a request head,
//!   the gathering of a request from the bytes of a connection, and the
//!   framing of a response.
//! - [`router`], [`routes`], [`handler`], [`context`]: path templates with
//!   captures, the table of routes, and what happens to a request between
//!   its arrival and the deferral of its response.
//! - [`connection`], [`deferral`], [`server`]: the state machine of a
//!   connection, the inbox through which tasks reach it, and the registry
//!   of connections with the token ranges of the reactor.
//! - [`exec`], [`httpc`], [`websocket`]: the tasks of the executor, the
//!   outbound calls, and the web socket behind an upgrade.
//! - [`ffi`], [`traits`]: what crosses the boundary of the environment, and
//!   the store behind it.
//! - [`answers`]: what the server answers on each of its routes, from the
//!   decoded head to what the connection writes.
//! - [`wire`], [`buffer`]: what is taken from the crates that know HTTP,
//!   behind contracts that name each call's result.
//! - [`text`], [`vars`], [`registry`], [`results`], [`config`]: byte
//!   strings, small maps, errors and limits.

pub mod answers;
pub mod buffer;
pub mod codec;
pub mod config;
pub mod connection;
pub mod context;
pub mod deferral;
pub mod exec;
pub mod ffi;
pub mod handler;
pub mod httpc;
pub mod registry;
pub mod request;
pub mod response;
pub mod results;
pub mod router;
pub mod routes;
pub mod server;
pub mod text;
pub mod traits;
pub mod vars;
pub mod websocket;
pub mod wire;
