//! A small structured logging facade: a configurable logger that formats
//! leveled messages, optionally timestamps and colorizes them, and dispatches
//! them to a console sink and to a file sink, with a size-based retention
//! check on the file sink.
//!
//! The formatting pipeline, the dispatch decisions, the file-sink journal and
//! the retention policy are verified; the process boundary (standard output,
//! the wall clock) is reached through a handful of narrow trusted wrappers.

pub mod dlog;
pub mod laws;
pub mod level;
pub mod text;
