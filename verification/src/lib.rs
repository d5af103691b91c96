//! A sequential, verified core for non-blocking access to WebSocket sessions
//! and one-shot HTTP requests.
//!
//! Background threads perform the blocking I/O; every decision about what a
//! caller may observe is taken here, on plain values.

pub mod channel;
pub mod client;
pub mod connection;
pub mod event;
pub mod handshake;
pub mod headers;
pub mod promise;
pub mod trace;
