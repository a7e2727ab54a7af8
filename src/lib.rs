//! A request-reply message server core: the server's lifecycle and per-request
//! policy, the dispatch of decoded messages to an ordered log, and a registry
//! that guards start, stop and status of one server at a time.
//!
//! Sockets, threads and clocks stay with the embedding program; the library
//! decides, from plain values, what each step does.

pub mod dispatch;
pub mod message;
pub mod registry;
pub mod server;
pub mod snapshot;
