//! Session management for a serial CO2 sensor.
//!
//! The sensor sends newline-terminated text records over a serial line. This
//! crate holds the rules of a session with it: how the byte stream is framed
//! into lines, how the connection and the consumer callback are installed and
//! cleared, and what the background reader does with each outcome of a read.
//! The transport itself (opening the port, reading and writing bytes, threads
//! and locks) is left to the caller, which reports what happened as plain
//! values and receives the lines to deliver.

pub mod callback;
pub mod device;
pub mod error;
pub mod framing;
pub mod link;
pub mod session;
pub mod text;
pub mod trace;
