//! A local cache-and-hierarchy layer over an external task-tracking
//! command-line tool.
//!
//! The library owns the verifiable core: the task data model, the builders
//! and interpreters for the external tool's command interface, and the
//! `TaskCache` with its derived parent/child index and its two self-healing
//! read policies.  Spawning the external tool, and decoding its structured
//! export with a serialization crate, live outside the library; callers hand
//! the resulting plain values in.

pub mod cache;
pub mod client;
pub mod error;
pub mod laws;
pub mod task;
pub mod text;
