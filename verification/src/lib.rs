//! Client-side engine for a peer-to-peer inference network node.
//!
//! The crate holds the verified core of a node agent: the credential
//! signature, the wire codec for the coordination protocol, the message
//! router, the bounded-concurrency dispatcher, the interview executor and
//! the session state machine.  Transport and backend I/O live outside the
//! library and drive it through plain values.

pub mod backend;
pub mod codec;
pub mod config;
pub mod dispatch;
pub mod encode;
pub mod interview;
pub mod json;
pub mod msg;
pub mod parse;
pub mod roundtrip;
pub mod session;
pub mod sig;
