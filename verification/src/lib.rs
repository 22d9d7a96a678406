//! Core logic of a live-development server for a static-site build tool.
//!
//! The crate classifies filesystem changes under a project root, filters
//! editor and OS temp files, coalesces bursts of raw events, decides which
//! rebuild a change demands and which live-reload notification follows it,
//! and builds the wire frames of the LiveReload protocol. Process plumbing
//! (filesystem watches, HTTP serving, WebSocket transport, signals) lives
//! outside this crate and calls into it with plain values.

pub mod strutil;
pub mod classify;
pub mod protocol;
pub mod dispatch;
pub mod debounce;
pub mod server;
