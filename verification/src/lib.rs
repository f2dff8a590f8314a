//! Session orchestration for a GitHub Action that relays one prompt to a
//! locally running coding-assistant agent and reports the outcome.
//!
//! The verified core covers event classification, transcript accumulation,
//! the deadline race, outcome reporting, input validation, settings
//! construction, and summary rendering. The thin I/O shell around it lives
//! in the companion application crate.

pub mod cli;
pub mod config;
pub mod event;
pub mod json;
pub mod outcome;
pub mod outputs;
pub mod precmd;
pub mod settings;
pub mod summary;
pub mod version;
pub mod session;
pub mod strutil;
pub mod transcript;
