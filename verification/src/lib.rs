//! Document discovery and extraction for a local retrieval corpus.
//!
//! The library decomposes a glob-like path pattern into a base directory and
//! an extension filter, enumerates a filesystem subtree depth-first while
//! applying that filter, and dispatches each discovered file to an extraction
//! strategy (plain-text reading or an external converter tool), producing
//! uniform text documents.
//!
//! All filesystem reads and process spawns happen outside the library: callers
//! hand in plain values (path strings, directory snapshots, captured tool
//! output) and receive plain values back, so every decision the library makes
//! is verified.

pub mod agent;
pub mod dispatch;
pub mod error;
pub mod filter;
pub mod glob;
pub mod strutil;
pub mod walk;
