use iflow_cli_action::event::{Event, PlanEntry, PlanStatus};
use iflow_cli_action::outcome::{conclude, summary_exit_code, Outcome, ReceiveError};
use iflow_cli_action::transcript::{run_events, Accumulator, Terminal};

#[test]
fn test_success_scenario_transcript() {
    // Success scenario: assistant output then the terminal success signal.
    let events = vec![
        Event::Assistant { content: "Hello".to_string() },
        Event::TaskFinish,
    ];
    let acc = run_events(events);
    assert_eq!(acc.transcript, "🤖 Assistant: Hello✅ Task completed");
    assert!(matches!(acc.terminal, Some(Terminal::Finished)));
    let outcome = conclude(acc);
    let code = summary_exit_code(&outcome);
    match outcome {
        Outcome::Success { transcript } => {
            assert!(transcript.contains("Hello"));
            assert!(transcript.contains("✅ Task completed"));
        }
        _ => panic!("expected success"),
    }
    assert_eq!(code, 0);
}

#[test]
fn test_in_band_error_scenario() {
    // In-band error scenario: partial output, then an error event.
    let events = vec![
        Event::Assistant { content: "partial".to_string() },
        Event::Error { code: 42, message: "boom".to_string() },
    ];
    let acc = run_events(events);
    assert_eq!(acc.transcript, "🤖 Assistant: partial❌ Error 42: boom");
    let outcome = conclude(acc);
    assert_eq!(summary_exit_code(&outcome), 1);
    match outcome {
        Outcome::ReceiveFailed { error, transcript } => {
            assert!(transcript.contains("partial"));
            assert!(transcript.contains("boom"));
            match error {
                ReceiveError::InBand { code, message } => {
                    assert_eq!(code, 42);
                    assert_eq!(message, "boom");
                }
                _ => panic!("expected in-band error"),
            }
        }
        _ => panic!("expected receive failure"),
    }
}

#[test]
fn test_events_after_error_are_dropped() {
    let events = vec![
        Event::Error { code: 1, message: "stop".to_string() },
        Event::Assistant { content: "late".to_string() },
        Event::TaskFinish,
    ];
    let acc = run_events(events);
    assert_eq!(acc.transcript, "❌ Error 1: stop");
    assert!(matches!(acc.terminal, Some(Terminal::Failed { .. })));
}

#[test]
fn test_plan_replaces_previous_snapshot() {
    let events = vec![
        Event::Plan {
            entries: vec![PlanEntry { content: "A".to_string(), status: PlanStatus::Pending }],
        },
        Event::Plan {
            entries: vec![PlanEntry { content: "B".to_string(), status: PlanStatus::Completed }],
        },
        Event::TaskFinish,
    ];
    let acc = run_events(events);
    assert_eq!(acc.plan.len(), 1);
    assert_eq!(acc.plan[0].content, "B");
    assert_eq!(acc.plan[0].status, PlanStatus::Completed);
    assert_eq!(
        acc.transcript,
        "📋 Plan:1. ⏳ A📋 Plan:1. ✅ B✅ Task completed"
    );
}

#[test]
fn test_plan_rendering_numbers_and_markers() {
    let events = vec![Event::Plan {
        entries: vec![
            PlanEntry { content: "first".to_string(), status: PlanStatus::Pending },
            PlanEntry { content: "second".to_string(), status: PlanStatus::InProgress },
            PlanEntry { content: "third".to_string(), status: PlanStatus::Completed },
        ],
    }];
    let acc = run_events(events);
    assert_eq!(acc.transcript, "📋 Plan:1. ⏳ first2. 🔄 second3. ✅ third");
    assert!(acc.terminal.is_none());
}

#[test]
fn test_empty_plan_renders_nothing() {
    let events = vec![Event::Plan { entries: vec![] }, Event::TaskFinish];
    let acc = run_events(events);
    assert_eq!(acc.transcript, "✅ Task completed");
    assert_eq!(acc.plan.len(), 0);
}

#[test]
fn test_tool_call_and_user_rendering() {
    let events = vec![
        Event::ToolCall {
            id: "7".to_string(),
            name: "read".to_string(),
            status: "completed".to_string(),
        },
        Event::User { content: "hi".to_string() },
    ];
    let acc = run_events(events);
    assert_eq!(
        acc.transcript,
        "🔧 Tool call: 7 (read) \"completed\"👤 User message: hi"
    );
    assert!(acc.terminal.is_none());
}

#[test]
fn test_exhausted_stream_is_receive_failure() {
    // The event source drying up without a terminal signal surfaces as a
    // receive failure that keeps the transcript.
    let events = vec![Event::Assistant { content: "only this".to_string() }];
    let acc = run_events(events);
    assert!(acc.terminal.is_none());
    let outcome = conclude(acc);
    match outcome {
        Outcome::ReceiveFailed { error: ReceiveError::Exhausted, transcript } => {
            assert_eq!(transcript, "🤖 Assistant: only this");
        }
        _ => panic!("expected exhausted receive failure"),
    }
}

#[test]
fn test_step_ignores_events_after_terminal() {
    let mut acc = Accumulator::new();
    acc.step(Event::TaskFinish);
    let before = acc.transcript.clone();
    acc.step(Event::Assistant { content: "late".to_string() });
    assert_eq!(acc.transcript, before);
}

#[test]
fn test_negative_error_code_rendering() {
    let events = vec![Event::Error { code: -7, message: "neg".to_string() }];
    let acc = run_events(events);
    assert_eq!(acc.transcript, "❌ Error -7: neg");
}
