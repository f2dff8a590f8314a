//! The session orchestrator's decision core: a state machine from
//! connection, send, race, and disconnect results to the single session
//! outcome. The driver performs the blocking operations and feeds their
//! results back as events; every decision is taken here.

use vstd::prelude::*;

use crate::outcome::{conclude_spec, Outcome, ReceiveError};
use crate::transcript::Accumulator;

verus! {

/// The deadline coordinator's three states.
#[derive(Clone, Copy, PartialEq, Eq, Structural, Debug)]
pub enum Disposition {
    Running,
    Completed,
    TimedOut,
}

/// What the coordinator observed first while `Running`.
#[derive(Clone, Copy, PartialEq, Eq, Structural, Debug)]
pub enum CoordEvent {
    ConsumerFinished,
    DeadlineElapsed,
}

/// The deadline coordinator's transition: from `Running`, the first
/// observation decides; `Completed` and `TimedOut` are terminal and absorb
/// everything.
pub fn coord_step(d: Disposition, e: CoordEvent) -> (next: Disposition)
    ensures
        d == Disposition::Running && e == CoordEvent::ConsumerFinished ==> next
            == Disposition::Completed,
        d == Disposition::Running && e == CoordEvent::DeadlineElapsed ==> next
            == Disposition::TimedOut,
        d != Disposition::Running ==> next == d,
{
    match d {
        Disposition::Running => match e {
            CoordEvent::ConsumerFinished => Disposition::Completed,
            CoordEvent::DeadlineElapsed => Disposition::TimedOut,
        },
        _ => d,
    }
}

/// What the race between the consumer unit and the deadline produced:
/// the finished accumulator, an internal failure of the unit, or the
/// deadline firing first (the unit is abandoned, its eventual result
/// discarded).
#[derive(Debug)]
pub enum RaceResult {
    Finished { acc: Accumulator },
    Crashed { message: String },
    Elapsed,
}

/// `o` is the outcome the race result determines under the given budget.
pub open spec fn settled(race: RaceResult, budget_secs: u32, o: Outcome) -> bool {
    match race {
        RaceResult::Elapsed => o == Outcome::Timeout { budget_secs },
        RaceResult::Finished { acc } => o == conclude_spec(acc),
        RaceResult::Crashed { message } => o matches Outcome::ReceiveFailed {
            error: ReceiveError::Transport { message: m },
            transcript,
        } && m == message && transcript@ == Seq::<char>::empty(),
    }
}

/// Decides the session outcome from the race: a deadline that fires first
/// yields exactly `Timeout` with the configured budget, whatever the
/// abandoned unit would later have produced.
pub fn settle(race: RaceResult, budget_secs: u32) -> (o: Outcome)
    ensures
        settled(race, budget_secs, o),
{
    match race {
        RaceResult::Elapsed => Outcome::Timeout { budget_secs },
        RaceResult::Finished { acc } => crate::outcome::conclude(acc),
        RaceResult::Crashed { message } => Outcome::ReceiveFailed {
            error: ReceiveError::Transport { message },
            transcript: String::new(),
        },
    }
}

/// Where a session stands: not yet connected, connected but not prompted,
/// awaiting the consumer-versus-deadline race, outcome decided but the
/// connection still open, or fully closed.
#[derive(Debug)]
pub enum SessionState {
    Idle,
    Connected,
    Prompted,
    Settled { outcome: Outcome },
    Closed { outcome: Outcome, disconnect_warning: Option<String> },
}

/// The result of one blocking operation, fed back into the machine.
#[derive(Debug)]
pub enum SessionEvent {
    ConnectOk,
    ConnectErr { message: String },
    SendOk,
    SendTimedOut { message: String },
    SendErr { message: String },
    Raced { result: RaceResult },
    DisconnectOk,
    DisconnectErr { message: String },
}

/// The transition relation of the session machine.
///
/// A connect failure closes the session at once (no consumer unit is ever
/// spawned). A send timeout is a soft warning: the session still awaits
/// the consumer. A hard send failure settles the outcome as `SendFailed`.
/// The race settles every other outcome. Disconnect results close a
/// settled session; a disconnect failure is recorded as a warning and
/// never overwrites the decided outcome. An event that does not belong to
/// the current state changes nothing.
pub open spec fn session_step_spec(
    pre: SessionState,
    budget_secs: u32,
    e: SessionEvent,
    post: SessionState,
) -> bool {
    match (pre, e) {
        (SessionState::Idle, SessionEvent::ConnectOk) => post == SessionState::Connected,
        (SessionState::Idle, SessionEvent::ConnectErr { message }) => post == (SessionState::Closed {
            outcome: Outcome::ConnectFailed { message },
            disconnect_warning: None,
        }),
        (SessionState::Connected, SessionEvent::SendOk) => post == SessionState::Prompted,
        (SessionState::Connected, SessionEvent::SendTimedOut { .. }) => post
            == SessionState::Prompted,
        (SessionState::Connected, SessionEvent::SendErr { message }) => post
            == (SessionState::Settled { outcome: Outcome::SendFailed { message } }),
        (SessionState::Prompted, SessionEvent::Raced { result }) => (post matches
            SessionState::Settled { outcome } && settled(result, budget_secs, outcome)),
        (SessionState::Settled { outcome }, SessionEvent::DisconnectOk) => post
            == (SessionState::Closed { outcome, disconnect_warning: None }),
        (SessionState::Settled { outcome }, SessionEvent::DisconnectErr { message }) => post
            == (SessionState::Closed { outcome, disconnect_warning: Some(message) }),
        (_, _) => post == pre,
    }
}

/// One session: the configured deadline budget and the current state.
#[derive(Debug)]
pub struct Session {
    pub budget_secs: u32,
    pub state: SessionState,
}

impl Session {
    /// A fresh session with the given deadline budget, not yet connected.
    pub fn new(budget_secs: u32) -> (s: Session)
        ensures
            s.budget_secs == budget_secs,
            s.state == SessionState::Idle,
    {
        Session { budget_secs, state: SessionState::Idle }
    }

    /// Feeds one operation result into the machine.
    pub fn step(self, e: SessionEvent) -> (next: Session)
        ensures
            next.budget_secs == self.budget_secs,
            session_step_spec(self.state, self.budget_secs, e, next.state),
    {
        let Session { budget_secs, state } = self;
        let next_state = match (state, e) {
            (SessionState::Idle, SessionEvent::ConnectOk) => SessionState::Connected,
            (SessionState::Idle, SessionEvent::ConnectErr { message }) => SessionState::Closed {
                outcome: Outcome::ConnectFailed { message },
                disconnect_warning: None,
            },
            (SessionState::Connected, SessionEvent::SendOk) => SessionState::Prompted,
            (SessionState::Connected, SessionEvent::SendTimedOut { message: _ }) => {
                SessionState::Prompted
            },
            (SessionState::Connected, SessionEvent::SendErr { message }) => SessionState::Settled {
                outcome: Outcome::SendFailed { message },
            },
            (SessionState::Prompted, SessionEvent::Raced { result }) => SessionState::Settled {
                outcome: settle(result, budget_secs),
            },
            (SessionState::Settled { outcome }, SessionEvent::DisconnectOk) => {
                SessionState::Closed { outcome, disconnect_warning: None }
            },
            (SessionState::Settled { outcome }, SessionEvent::DisconnectErr { message }) => {
                SessionState::Closed { outcome, disconnect_warning: Some(message) }
            },
            (pre, _) => pre,
        };
        Session { budget_secs, state: next_state }
    }
}

/// For every session awaiting the consumer, a deadline that fires strictly
/// first settles the outcome as exactly `Timeout` with the configured
/// budget, and the closing disconnect, succeed or fail, leaves that
/// outcome standing.
pub proof fn lemma_deadline_wins(
    pre: SessionState,
    budget_secs: u32,
    mid: SessionState,
    de: SessionEvent,
    post: SessionState,
)
    requires
        pre == SessionState::Prompted,
        session_step_spec(pre, budget_secs, SessionEvent::Raced { result: RaceResult::Elapsed },
            mid),
        de is DisconnectOk || de is DisconnectErr,
        session_step_spec(mid, budget_secs, de, post),
    ensures
        mid == (SessionState::Settled { outcome: Outcome::Timeout { budget_secs } }),
        post matches SessionState::Closed { outcome, disconnect_warning } && outcome
            == (Outcome::Timeout { budget_secs }),
{
}

} // verus!
