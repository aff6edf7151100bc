//! Building, decoding and dispatching for an external test-runner tool.
//!
//! The library covers the pure core of driving `cargo test` (or the
//! `nextest` variant) from an editor: constructing the exact argument
//! vector and environment for a run, decoding the tool's line-delimited
//! output into typed messages without ever aborting on malformed input,
//! and replaying a whole stream of lines as an ordered message sequence
//! that always ends in a terminal marker.  Process spawning and the
//! background reader thread live outside the library; they hand lines in
//! and take plain values back.

pub mod command;
pub mod diagnostics;
pub mod dispatch;
pub mod json;
pub mod messages;
