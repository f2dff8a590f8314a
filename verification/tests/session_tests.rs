use iflow_cli_action::event::Event;
use iflow_cli_action::outcome::{
    is_timeout, process_exit_code, result_text, summary_exit_code, Outcome, ReceiveError,
};
use iflow_cli_action::session::{
    coord_step, settle, CoordEvent, Disposition, RaceResult, Session, SessionEvent, SessionState,
};
use iflow_cli_action::transcript::run_events;

#[test]
fn test_timeout_scenario() {
    // Timeout scenario: the deadline fires before the consumer unit
    // produces a terminal event; the outcome is exactly the budget's
    // timeout, reported with exit code 124.
    let outcome = settle(RaceResult::Elapsed, 1);
    match &outcome {
        Outcome::Timeout { budget_secs } => assert_eq!(*budget_secs, 1),
        _ => panic!("expected timeout"),
    }
    assert!(is_timeout(&outcome));
    assert_eq!(summary_exit_code(&outcome), 124);
    assert_eq!(process_exit_code(&outcome), 1);
    assert_eq!(
        result_text(outcome),
        "Timeout waiting for message handling to complete"
    );
}

#[test]
fn test_connect_failure_scenario() {
    // Connect failure: the session closes at once; no consumer unit is
    // ever spawned and no disconnect is attempted.
    let session = Session::new(10);
    let session = session.step(SessionEvent::ConnectErr { message: "refused".to_string() });
    match session.state {
        SessionState::Closed { outcome, disconnect_warning } => {
            assert!(disconnect_warning.is_none());
            match outcome {
                Outcome::ConnectFailed { message } => assert_eq!(message, "refused"),
                _ => panic!("expected connect failure"),
            }
        }
        _ => panic!("expected closed session"),
    }
}

#[test]
fn test_full_success_session() {
    let events = vec![
        Event::Assistant { content: "Hello".to_string() },
        Event::TaskFinish,
    ];
    let acc = run_events(events);
    let session = Session::new(10);
    let session = session.step(SessionEvent::ConnectOk);
    let session = session.step(SessionEvent::SendOk);
    let session = session.step(SessionEvent::Raced { result: RaceResult::Finished { acc } });
    let session = session.step(SessionEvent::DisconnectOk);
    match session.state {
        SessionState::Closed { outcome: Outcome::Success { transcript }, .. } => {
            assert!(transcript.contains("Hello"));
        }
        _ => panic!("expected success"),
    }
}

#[test]
fn test_send_timeout_is_soft() {
    // A transport-level send timeout is a warning: the session still
    // awaits the consumer unit.
    let session = Session::new(5);
    let session = session.step(SessionEvent::ConnectOk);
    let session = session.step(SessionEvent::SendTimedOut { message: "slow".to_string() });
    assert!(matches!(session.state, SessionState::Prompted));
}

#[test]
fn test_hard_send_failure_settles() {
    let session = Session::new(5);
    let session = session.step(SessionEvent::ConnectOk);
    let session = session.step(SessionEvent::SendErr { message: "broken pipe".to_string() });
    match &session.state {
        SessionState::Settled { outcome: Outcome::SendFailed { message } } => {
            assert_eq!(message, "broken pipe");
        }
        _ => panic!("expected settled send failure"),
    }
}

#[test]
fn test_disconnect_failure_never_overwrites_outcome() {
    let session = Session::new(3);
    let session = session.step(SessionEvent::ConnectOk);
    let session = session.step(SessionEvent::SendOk);
    let session = session.step(SessionEvent::Raced { result: RaceResult::Elapsed });
    let session = session.step(SessionEvent::DisconnectErr { message: "socket gone".to_string() });
    match session.state {
        SessionState::Closed { outcome, disconnect_warning } => {
            assert_eq!(disconnect_warning.as_deref(), Some("socket gone"));
            match outcome {
                Outcome::Timeout { budget_secs } => assert_eq!(budget_secs, 3),
                _ => panic!("timeout outcome must stand"),
            }
        }
        _ => panic!("expected closed session"),
    }
}

#[test]
fn test_consumer_crash_is_transport_receive_failure() {
    let outcome = settle(RaceResult::Crashed { message: "task failed".to_string() }, 9);
    match outcome {
        Outcome::ReceiveFailed { error: ReceiveError::Transport { message }, transcript } => {
            assert_eq!(message, "task failed");
            assert_eq!(transcript, "");
        }
        _ => panic!("expected transport receive failure"),
    }
}

#[test]
fn test_coordinator_transitions() {
    assert_eq!(
        coord_step(Disposition::Running, CoordEvent::ConsumerFinished),
        Disposition::Completed
    );
    assert_eq!(
        coord_step(Disposition::Running, CoordEvent::DeadlineElapsed),
        Disposition::TimedOut
    );
    // Terminal states absorb later observations.
    assert_eq!(
        coord_step(Disposition::Completed, CoordEvent::DeadlineElapsed),
        Disposition::Completed
    );
    assert_eq!(
        coord_step(Disposition::TimedOut, CoordEvent::ConsumerFinished),
        Disposition::TimedOut
    );
}

#[test]
fn test_send_timeout_then_success() {
    // A soft send timeout still lets the consumer unit finish the
    // session successfully.
    let events = vec![Event::TaskFinish];
    let acc = run_events(events);
    let session = Session::new(2);
    let session = session.step(SessionEvent::ConnectOk);
    let session = session.step(SessionEvent::SendTimedOut { message: "slow".to_string() });
    let session = session.step(SessionEvent::Raced { result: RaceResult::Finished { acc } });
    let session = session.step(SessionEvent::DisconnectOk);
    assert!(matches!(
        session.state,
        SessionState::Closed { outcome: Outcome::Success { .. }, .. }
    ));
}

#[test]
fn test_out_of_place_event_changes_nothing() {
    let session = Session::new(2);
    let session = session.step(SessionEvent::DisconnectOk);
    assert!(matches!(session.state, SessionState::Idle));
    let session = session.step(SessionEvent::SendOk);
    assert!(matches!(session.state, SessionState::Idle));
}

#[test]
fn test_result_text_for_receive_failures() {
    let o = Outcome::ReceiveFailed {
        error: ReceiveError::Transport { message: "; tail".to_string() },
        transcript: "head".to_string(),
    };
    assert_eq!(result_text(o), "head; tail");
    let o = Outcome::ReceiveFailed {
        error: ReceiveError::Exhausted,
        transcript: "kept".to_string(),
    };
    assert_eq!(result_text(o), "kept");
}
