use orcestr_real_translate::realtime::{
    setup_start, setup_step, SetupAction, SetupEvent, SetupStage, API_KEY_MISSING_MESSAGE,
    SUPERSEDED_MESSAGE,
};

fn describe(action: &SetupAction) -> String {
    match action {
        SetupAction::LoadKey => "load key".to_string(),
        SetupAction::Connect => "connect".to_string(),
        SetupAction::StartPlayback => "start playback".to_string(),
        SetupAction::StartCapture => "start capture".to_string(),
        SetupAction::SpawnWorker => "spawn worker".to_string(),
        SetupAction::Release { socket, playback, capture, error } => {
            format!("release socket={socket} playback={playback} capture={capture}: {error}")
        }
        SetupAction::Fail(error) => format!("fail: {error}"),
        SetupAction::Listening => "listening".to_string(),
    }
}

fn run(playback_enabled: bool, events: Vec<SetupEvent>) -> Vec<String> {
    let (mut stage, action) = setup_start();
    let mut seen = vec![describe(&action)];
    for event in events {
        let (next, action) = setup_step(stage, playback_enabled, event);
        stage = next;
        seen.push(describe(&action));
    }
    seen
}

#[test]
fn translation_with_speech_starts_playback_before_capture() {
    let steps = run(
        true,
        vec![
            SetupEvent::ApiKey { present: true },
            SetupEvent::Connected,
            SetupEvent::PlaybackStarted,
            SetupEvent::CaptureStarted,
            SetupEvent::Registered,
        ],
    );
    assert_eq!(
        steps,
        vec!["load key", "connect", "start playback", "start capture", "spawn worker", "listening"]
    );
}

#[test]
fn text_only_sessions_never_start_playback() {
    let steps = run(
        false,
        vec![
            SetupEvent::ApiKey { present: true },
            SetupEvent::Connected,
            SetupEvent::CaptureStarted,
            SetupEvent::Registered,
        ],
    );
    assert_eq!(steps, vec!["load key", "connect", "start capture", "spawn worker", "listening"]);
}

#[test]
fn a_missing_key_fails_before_any_connection() {
    let steps = run(true, vec![SetupEvent::ApiKey { present: false }]);
    assert_eq!(steps[1], format!("fail: {API_KEY_MISSING_MESSAGE}"));
    assert_eq!(API_KEY_MISSING_MESSAGE, "OpenAI API key is not configured");
}

#[test]
fn superseded_setups_release_exactly_what_they_hold() {
    let cases = [
        (SetupStage::Started, true, "release socket=false playback=false capture=false"),
        (SetupStage::KeyReady, true, "release socket=false playback=false capture=false"),
        (SetupStage::Connected, true, "release socket=true playback=false capture=false"),
        (SetupStage::PlaybackReady, true, "release socket=true playback=true capture=false"),
        (SetupStage::PlaybackReady, false, "release socket=true playback=false capture=false"),
        (SetupStage::CaptureReady, true, "release socket=true playback=true capture=true"),
    ];
    for (stage, playback_enabled, expected) in cases {
        let (next, action) = setup_step(stage, playback_enabled, SetupEvent::Superseded);
        assert_eq!(next, stage);
        assert_eq!(describe(&action), format!("{expected}: {SUPERSEDED_MESSAGE}"));
    }
    assert_eq!(SUPERSEDED_MESSAGE, "Realtime setup was superseded");
}

#[test]
fn failed_capture_closes_playback_and_connection() {
    let (_, action) = setup_step(
        SetupStage::PlaybackReady,
        true,
        SetupEvent::CaptureFailed { message: "No microphone".to_string() },
    );
    assert_eq!(
        describe(&action),
        "release socket=true playback=true capture=false: No microphone"
    );
    let (_, action) = setup_step(
        SetupStage::Connected,
        true,
        SetupEvent::StepFailed { message: "Audio output is unavailable".to_string() },
    );
    assert_eq!(describe(&action), "fail: Audio output is unavailable");
}
