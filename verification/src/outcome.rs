//! The single result value of a session, and its translation into the
//! exit code and result text handed to the reporting collaborator.

use vstd::prelude::*;
use vstd::string::*;

use crate::event::Event;
use crate::transcript::{
    accum, lemma_success_transcript, renders_upto, Accumulator, Terminal,
};

verus! {

/// Why receiving failed: an in-band `Error` event, a transport-level
/// failure (a malformed frame, or the consumer unit failing internally),
/// or the event source drying up without a terminal signal.
#[derive(Debug)]
pub enum ReceiveError {
    InBand { code: i32, message: String },
    Transport { message: String },
    Exhausted,
}

/// Exactly one outcome is produced per session.
///
/// `ReceiveFailed` still carries whatever transcript had accumulated, for
/// diagnostic purposes. `DisconnectFailed` exists for reporters that have
/// no earlier outcome to preserve; the session machine itself never lets a
/// disconnect failure overwrite a decided outcome.
#[derive(Debug)]
pub enum Outcome {
    Success { transcript: String },
    Timeout { budget_secs: u32 },
    SendFailed { message: String },
    ReceiveFailed { error: ReceiveError, transcript: String },
    ConnectFailed { message: String },
    DisconnectFailed { message: String },
}

/// The outcome a finished accumulator determines: `TaskFinish` is the only
/// path to `Success`; an in-band `Error` or a dried-up event source is a
/// receive failure that keeps the collected transcript.
pub open spec fn conclude_spec(acc: Accumulator) -> Outcome {
    match acc.terminal {
        Some(Terminal::Finished) => Outcome::Success { transcript: acc.transcript },
        Some(Terminal::Failed { code, message }) => Outcome::ReceiveFailed {
            error: ReceiveError::InBand { code, message },
            transcript: acc.transcript,
        },
        None => Outcome::ReceiveFailed {
            error: ReceiveError::Exhausted,
            transcript: acc.transcript,
        },
    }
}

/// Packages a finished accumulator as the session outcome.
pub fn conclude(acc: Accumulator) -> (o: Outcome)
    ensures
        o == conclude_spec(acc),
{
    let Accumulator { transcript, plan: _, terminal } = acc;
    match terminal {
        Some(Terminal::Finished) => Outcome::Success { transcript },
        Some(Terminal::Failed { code, message }) => Outcome::ReceiveFailed {
            error: ReceiveError::InBand { code, message },
            transcript,
        },
        None => Outcome::ReceiveFailed { error: ReceiveError::Exhausted, transcript },
    }
}

/// For every session whose event stream carries `TaskFinish` before any
/// `Error` and whose accumulator ran that stream to its terminal event,
/// the outcome is `Success`, and its transcript is the rendering of
/// every observed event, in arrival order.
pub proof fn lemma_success_outcome(acc: Accumulator, events: Seq<Event>, k: int)
    requires
        0 <= k < events.len(),
        events[k] is TaskFinish,
        forall|j: int| 0 <= j < k ==> !(events[j] is TaskFinish) && !(events[j] is Error),
        acc.transcript@ == accum(events).0,
        acc.terminal == accum(events).2,
    ensures
        conclude_spec(acc) matches Outcome::Success { transcript } && transcript@ == renders_upto(
            events,
            k + 1,
        ),
{
    lemma_success_transcript(events, k);
}

/// The exit code the reporting layer attaches to the summary: 0 for
/// success, 124 for a deadline timeout, 1 for every other failure.
pub open spec fn summary_exit_code_spec(o: Outcome) -> i32 {
    match o {
        Outcome::Success { .. } => 0,
        Outcome::Timeout { .. } => 124,
        _ => 1,
    }
}

/// See `summary_exit_code_spec`.
pub fn summary_exit_code(o: &Outcome) -> (c: i32)
    ensures
        c == summary_exit_code_spec(*o),
{
    match o {
        Outcome::Success { .. } => 0,
        Outcome::Timeout { .. } => 124,
        _ => 1,
    }
}

/// The process exit code: 0 on success, 1 on validation, configuration,
/// pre-command, connection, send, receive, or timeout failure.
pub open spec fn process_exit_code_spec(o: Outcome) -> i32 {
    match o {
        Outcome::Success { .. } => 0,
        _ => 1,
    }
}

/// See `process_exit_code_spec`.
pub fn process_exit_code(o: &Outcome) -> (c: i32)
    ensures
        c == process_exit_code_spec(*o),
{
    match o {
        Outcome::Success { .. } => 0,
        _ => 1,
    }
}

/// Whether the outcome is a deadline timeout, for the reporting layer's
/// `isTimeout` flag.
pub fn is_timeout(o: &Outcome) -> (b: bool)
    ensures
        b == (o is Timeout),
{
    match o {
        Outcome::Timeout { .. } => true,
        _ => false,
    }
}

/// The result text handed to the reporting collaborator: the transcript on
/// success and on receive failures (a transport message is appended where
/// one exists), the carried error message otherwise.
pub fn result_text(o: Outcome) -> (r: String)
    ensures
        o matches Outcome::Success { transcript } ==> r@ == transcript@,
        o matches Outcome::Timeout { budget_secs } ==> r@
            == "Timeout waiting for message handling to complete"@,
        o matches Outcome::SendFailed { message } ==> r@ == message@,
        o matches Outcome::ConnectFailed { message } ==> r@ == message@,
        o matches Outcome::DisconnectFailed { message } ==> r@ == message@,
        o matches Outcome::ReceiveFailed { error: ReceiveError::InBand { .. }, transcript }
            ==> r@ == transcript@,
        o matches Outcome::ReceiveFailed { error: ReceiveError::Exhausted, transcript } ==> r@
            == transcript@,
        o matches Outcome::ReceiveFailed { error: ReceiveError::Transport { message }, transcript }
            ==> r@ == transcript@ + message@,
{
    match o {
        Outcome::Success { transcript } => transcript,
        Outcome::Timeout { budget_secs: _ } => String::from_str(
            "Timeout waiting for message handling to complete",
        ),
        Outcome::SendFailed { message } => message,
        Outcome::ConnectFailed { message } => message,
        Outcome::DisconnectFailed { message } => message,
        Outcome::ReceiveFailed { error, transcript } => {
            match error {
                ReceiveError::Transport { message } => {
                    let mut t = transcript;
                    t.append(message.as_str());
                    t
                },
                _ => transcript,
            }
        },
    }
}

} // verus!
