use orcestr_real_translate::worker::{
    worker_end, worker_step, WorkerAction, WorkerEnd, WorkerInput, WorkerState,
    LEVEL_EVENT_INTERVAL_MS,
};

fn ended(state: WorkerState, is_current: bool) -> String {
    match worker_end(state, is_current) {
        WorkerEnd::Quiet => "quiet".to_string(),
        WorkerEnd::Idle => "idle".to_string(),
        WorkerEnd::Error(message) => format!("error: {message}"),
    }
}

#[test]
fn stop_request_closes_gracefully_and_ends_idle() {
    let mut state = WorkerState::new();
    assert_eq!(worker_step(&mut state, WorkerInput::StopRequested), WorkerAction::StopGracefully);
    assert!(state.stopped_by_command);
    assert!(state.failed.is_none());
    assert_eq!(ended(state, true), "idle");
}

#[test]
fn level_events_are_thinned_to_the_interval() {
    let mut state = WorkerState::new();
    assert_eq!(worker_step(&mut state, WorkerInput::Level { now_ms: 0 }), WorkerAction::EmitLevel);
    assert_eq!(worker_step(&mut state, WorkerInput::Level { now_ms: 10 }), WorkerAction::Continue);
    assert_eq!(
        worker_step(&mut state, WorkerInput::Level { now_ms: LEVEL_EVENT_INTERVAL_MS - 1 }),
        WorkerAction::Continue
    );
    assert_eq!(
        worker_step(&mut state, WorkerInput::Level { now_ms: LEVEL_EVENT_INTERVAL_MS }),
        WorkerAction::EmitLevel
    );
    assert_eq!(state.last_level_ms, Some(LEVEL_EVENT_INTERVAL_MS));
    assert!(state.failed.is_none());
}

#[test]
fn failures_end_the_session_with_their_reason() {
    let cases = [
        (WorkerInput::CommandsClosed, "Realtime controller stopped unexpectedly"),
        (WorkerInput::AudioClosed, "Audio capture stopped unexpectedly"),
        (WorkerInput::ConnectionClosed, "OpenAI Realtime connection closed unexpectedly"),
        (WorkerInput::PongNotSent, "OpenAI Realtime connection stopped responding"),
        (WorkerInput::ProviderClosed, "OpenAI Realtime session closed unexpectedly"),
        (
            WorkerInput::ConnectionFailed { description: "reset\n  by   peer".to_string() },
            "OpenAI Realtime connection failed: reset by peer",
        ),
        (
            WorkerInput::Failed { message: "OpenAI returned an unreadable Realtime event".to_string() },
            "OpenAI returned an unreadable Realtime event",
        ),
    ];
    for (input, expected) in cases {
        let mut state = WorkerState::new();
        assert_eq!(worker_step(&mut state, input), WorkerAction::Finish);
        assert_eq!(state.failed.as_deref(), Some(expected));
        assert_eq!(ended(state, true), format!("error: {expected}"));
    }
}

#[test]
fn superseded_sessions_report_nothing() {
    let mut failed = WorkerState::new();
    worker_step(&mut failed, WorkerInput::AudioClosed);
    assert_eq!(ended(failed, false), "quiet");
    let mut stopped = WorkerState::new();
    worker_step(&mut stopped, WorkerInput::StopRequested);
    assert_eq!(ended(stopped, false), "quiet");
    assert_eq!(ended(WorkerState::new(), true), "quiet");
}
