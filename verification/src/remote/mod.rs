//! Talking to a running checker over a socket: the messages, and what the
//! server side reports.

pub mod protocol;
pub mod server;
