//! Wire-protocol engine for a publish/subscribe messaging client.
//!
//! Turns a byte stream arriving from a connection into typed protocol
//! events, drives reply-based keepalive, and routes delivered messages
//! to per-subscription channels.
//!
//! [`grammar`] recognizes one control line; [`numbers`] decodes the
//! numeric header fields; [`decode`] turns a line into a typed
//! operation; [`buffer`] parses operations incrementally out of a
//! read-ahead buffer with exact consumption accounting; [`dispatch`]
//! routes decoded operations to subscription channels and keepalive
//! waiters.

pub mod buffer;
pub mod decode;
pub mod dispatch;
pub mod grammar;
pub mod numbers;

pub use grammar::is_valid_op_char;
