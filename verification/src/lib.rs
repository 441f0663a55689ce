//! Continuous-integration support agent library.
//!
//! The core of the crate is a streaming build-event-log parser with
//! offset-resumable retry semantics, together with the staging and upload
//! planning for the log files of failing or flaky tests.

pub mod buildkite;
pub mod config;
pub mod event;
pub mod json;
pub mod kv;
pub mod parser;
pub mod pipeline;
pub mod print;
pub mod sched;
pub mod stage;
pub mod text;
pub mod upload;
pub mod utils;
