//! A generational snapshot backup library.
//!
//! Each run of the tool produces one timestamped snapshot directory under a
//! destination root. Files unchanged since the latest prior snapshot (same
//! size, permission bits and modification time) are hard-linked into the new
//! snapshot; new or changed files are copied. This crate holds the verified
//! core: path-prefix exclusion, metadata comparison, prior-generation
//! discovery, destination selection, snapshot naming and per-entry planning.
//! The unverified binary around it performs the actual filesystem work.

pub mod compare;
pub mod config;
pub mod engine;
pub mod generation;
pub mod paths;
pub mod snapshot;
