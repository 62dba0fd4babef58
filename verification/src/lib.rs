//! Core of a transparent compilation accelerator: a daemon that intercepts
//! compiler invocations, derives a cache key from everything that affects the
//! compiler's output, and serves repeated compilations from a size-bounded
//! least-recently-used store instead of running the compiler again.
//!
//! The daemon, its compile pipeline, the cache, and the process-execution
//! abstraction are all modelled over plain values so that every decision the
//! system makes is stated in a contract and proved. Real process spawning and
//! socket plumbing live outside this crate and drive these functions.

pub mod bytes;
pub mod cache;
pub mod client;
pub mod compiler;
pub mod fs;
pub mod mock_command;
pub mod pipeline;
pub mod protocol;
pub mod server;
