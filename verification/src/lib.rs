//! Verified core of a concurrent HTTP content-discovery fuzzer.
//!
//! The library covers the request-dispatch engine: splitting a wordlist into
//! bounded work chunks, turning words into candidate request URLs, classifying
//! responses by status code and body length, batching output lines in a
//! capacity-checked buffer, and accounting for worker completion. All I/O
//! (HTTP, files, console) is left to the surrounding application.

pub mod buffer;
pub mod candidates;
pub mod classify;
pub mod config;
pub mod dispatch;
pub mod partition;
pub mod text;
pub mod worker;
