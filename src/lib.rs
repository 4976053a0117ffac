//! The receive and delivery core of a QUIC transport.
//!
//! - `packet_number`: packet numbers, their truncation on the wire and their
//!   expansion against the largest acknowledged one.
//! - `short`: short-header packets, decoded in three stages (protected,
//!   encrypted, cleartext) that each consume the previous one.
//! - `once_sync`: delivery of a value exactly once, resent on loss.
//! - `flow_control`: connection-level credit in both directions.
//! - `receive`, `send`, `stream`: per-stream reassembly, transmission and
//!   reset.
//! - `contexts`, `frame`: what the transmit and acknowledgement paths are
//!   handed, and the frames they write.

mod bytes;
pub mod contexts;
pub mod flow_control;
pub mod frame;
pub mod once_sync;
pub mod packet_number;
pub mod receive;
pub mod send;
pub mod short;
pub mod stream;
