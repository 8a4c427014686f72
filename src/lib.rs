//! Watches directory trees for newly written files and decides, rule by
//! rule, which external command to launch for each file that is complete.
//!
//! The library holds the decisions: when a file is ready, which rules match
//! it, and how their message and argument templates expand. Running a
//! watcher, spawning processes and showing notifications is left to the
//! caller, which feeds events in and carries the planned dispatches out.
pub mod pattern;
pub mod text;
pub mod template;
pub mod rule;
pub mod detector;
pub mod engine;
pub mod laws;
