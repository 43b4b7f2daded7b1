//! Verified core of a Kakoune-to-agent bridge.
//!
//! A background daemon owns one long-lived connection to an external agent
//! subprocess; short-lived client commands talk to the daemon over a local
//! socket.  This crate holds the daemon's orchestration logic: the IPC
//! protocol data model and its line-oriented JSON wire codec, the transcript
//! collector that normalizes agent session notifications, the prompt
//! orchestration state machine, the daemon status transitions, and the
//! client-side rendering of results.  Process supervision and all socket,
//! stream and subprocess I/O live outside this crate and hand plain values
//! in and out.

pub mod cli;
pub mod codec;
pub mod daemon;
pub mod dispatcher;
pub mod errors;
pub mod ipc;
pub mod ipc_client;
pub mod kakoune;
pub mod prompt;
pub mod session;
pub mod status;
pub mod transcript;
