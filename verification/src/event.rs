//! The closed set of semantic events decoded from the agent's stream.

use vstd::prelude::*;

verus! {

/// Status of one plan entry.
#[derive(Clone, Copy, PartialEq, Eq, Structural, Debug)]
pub enum PlanStatus {
    Pending,
    InProgress,
    Completed,
}

/// One entry of the agent's plan. A `Plan` event carries the complete
/// ordered list of entries, never a delta.
#[derive(Debug)]
pub struct PlanEntry {
    pub content: String,
    pub status: PlanStatus,
}

/// One classified event from the agent's stream.
///
/// `TaskFinish` is the terminal success signal; `Error` the terminal
/// failure signal. Everything else is incremental output.
#[derive(Debug)]
pub enum Event {
    /// Incremental assistant output chunk.
    Assistant { content: String },
    /// Echo of user-originated content.
    User { content: String },
    /// A tool invocation and its status.
    ToolCall { id: String, name: String, status: String },
    /// Full replacement of the current plan snapshot.
    Plan { entries: Vec<PlanEntry> },
    /// Terminal success signal; no further events expected.
    TaskFinish,
    /// Terminal failure signal.
    Error { code: i32, message: String },
}

} // verus!
