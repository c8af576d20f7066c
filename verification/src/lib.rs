//! Keeps a set of DNS "A" records pointed at the host's current public IP.
//!
//! The decision logic lives here, verified: which records to leave alone,
//! which to update, and how to carry on past per-record and per-zone
//! failures. Network I/O and JSON decoding are left to the surrounding
//! program, which drives the engine in `engine` one action at a time.

pub mod api;
pub mod args;
pub mod engine;
