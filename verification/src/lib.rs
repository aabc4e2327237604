//! Client-side device session engine: a verified core for a tool that keeps
//! a live TCP connection to a remote embedded device and coordinates a
//! one-shot firmware upload protocol and a long-lived parameter
//! tuning/preview protocol over the connection's single write path.
//!
//! The crate holds the session's logic — frame codec, bounded mailbox and
//! single-writer dispatch, preview coalescing, the inactivity safety timer,
//! receive classification, the upload pipeline and the tuning-session state
//! machine. The surrounding program supplies the actual I/O: it reads and
//! writes the stream, runs the timer loops, and parses inbound JSON into
//! the plain payloads these functions take.

pub mod text;
pub mod seqtools;
pub mod history;
pub mod entries;
pub mod config;
pub mod frames;
pub mod preview;
pub mod safety;
pub mod mailbox;
pub mod dispatch;
pub mod receiver;
pub mod upload;
pub mod session;
