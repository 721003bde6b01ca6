//! Verified core of a development-time traffic router.
//!
//! The router accepts inbound TCP connections, peeks at the first bytes,
//! makes a one-shot routing decision from a prefix table, and relays bytes
//! in both directions between the client and the chosen backend. At the
//! application layer, unmatched requests are forwarded to a fixed backend
//! by a reverse proxy; upgrade requests are bridged as WebSocket message
//! streams, translating between the two message representations.
//!
//! This crate holds the decision and translation logic with its proofs;
//! the sockets, tasks and timers around it live outside.

pub mod bridge;
pub mod frames;
pub mod proxy;
pub mod router;
pub mod session;
