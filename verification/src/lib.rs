//! A socket-free core for a small message-passing layer between two
//! processes.
//!
//! The crate decides; the caller performs. Every operation that touches a
//! socket is split at the call into the operating system: the caller makes
//! the call and hands its outcome to the endpoint, which says what that
//! outcome means for the message exchange. Two transports are covered:
//!
//! * datagrams ([`ipc`]): a polling server and a client that waits for one
//!   reply under a read timeout;
//! * streams ([`stream`], [`frame`]): a polling server that takes one
//!   length-prefixed message from each connection that it accepts.
//!
//! [`echo`] holds the decisions of a server that sends every message back.
//! [`laws`] states what holds across these functions.

pub mod echo;
pub mod endpoint;
pub mod error;
pub mod frame;
pub mod ipc;
pub mod laws;
pub mod stream;
pub mod timeout;
