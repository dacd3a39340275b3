use orcestr_real_translate::audio::{Platform, LINUX_DEFAULT_MONITOR_PREFIX, WINDOWS_PROCESS_LOOPBACK_ID};
use orcestr_real_translate::json::{Json, JsonNumber};
use orcestr_real_translate::realtime::{
    advanced_generation, audio_append_event, begin_playback_change, bounded_text, close_event,
    endpoints_may_match, frame_decision, normalize_request, normalize_target_language,
    openai_connect_error, playback_command, process_provider_event, provider_error,
    reserve_route, sanitize_message, session_update, valid_provider_id, validate_feedback_route,
    FrameKind, NormalizedRequest, PlaybackChange, PlaybackCommand, RealtimeChannel,
    RealtimeEventKind, RealtimeMode, RealtimeStartRequest, ReservedRoute, RouteTable,
    SegmentTracker, TRANSCRIPTION_MODEL,
};
use serde_json::Value;

fn value(text: &str) -> Value {
    serde_json::from_str(text).unwrap()
}

fn to_json(value: &Value) -> Json {
    match value {
        Value::Null => Json::Null,
        Value::Bool(b) => Json::Bool(*b),
        Value::Number(n) => Json::Number(if let Some(u) = n.as_u64() {
            JsonNumber::PosInt(u)
        } else if let Some(i) = n.as_i64() {
            JsonNumber::NegInt(i)
        } else {
            let f = n.as_f64().unwrap();
            JsonNumber::Float {
                within_safe_range: f.is_finite() && f.abs() <= 9_007_199_254_740_991.0,
                bits: f.to_bits(),
            }
        }),
        Value::String(s) => Json::String(s.clone()),
        Value::Array(items) => Json::Array(items.iter().map(to_json).collect()),
        Value::Object(entries) => Json::Object(
            entries
                .iter()
                .map(|(key, value)| (key.clone(), to_json(value)))
                .collect(),
        ),
    }
}

fn from_json(value: &Json) -> Value {
    match value {
        Json::Null => Value::Null,
        Json::Bool(b) => Value::Bool(*b),
        Json::Number(JsonNumber::PosInt(u)) => Value::from(*u),
        Json::Number(JsonNumber::NegInt(i)) => Value::from(*i),
        Json::Number(JsonNumber::Float { bits, .. }) => Value::from(f64::from_bits(*bits)),
        Json::String(s) => Value::String(s.clone()),
        Json::Array(items) => Value::Array(items.iter().map(from_json).collect()),
        Json::Object(entries) => Value::Object(
            entries
                .iter()
                .map(|(key, value)| (key.clone(), from_json(value)))
                .collect(),
        ),
    }
}

fn request(channel: RealtimeChannel, mode: RealtimeMode) -> RealtimeStartRequest {
    RealtimeStartRequest {
        channel,
        mode,
        playback_enabled: mode == RealtimeMode::Translate,
        input_device_id: None,
        output_device_id: None,
        target_language: (mode == RealtimeMode::Translate).then(|| "ru".to_string()),
    }
}

fn route(
    generation: u64,
    mode: RealtimeMode,
    playback_enabled: bool,
    input: Option<&str>,
    output: Option<&str>,
) -> ReservedRoute {
    ReservedRoute {
        generation,
        mode,
        playback_enabled,
        input_device_id: input.map(str::to_string),
        output_device_id: output.map(str::to_string),
    }
}

#[test]
fn transcription_and_translation_sessions_are_model_scoped() {
    let transcription = from_json(
        &session_update(RealtimeChannel::Microphone, RealtimeMode::Transcribe, None).unwrap(),
    );
    assert_eq!(transcription["session"]["type"], "transcription");
    assert_eq!(
        transcription["session"]["audio"]["input"]["transcription"]["model"],
        TRANSCRIPTION_MODEL
    );
    assert_eq!(
        transcription["session"]["audio"]["input"]["format"]["rate"],
        24_000
    );
    assert_eq!(
        transcription["session"]["audio"]["input"]["turn_detection"]["type"],
        "server_vad"
    );
    assert_eq!(
        transcription["session"]["audio"]["input"]["noise_reduction"]["type"],
        "far_field"
    );
    assert_eq!(
        transcription["session"]["audio"]["input"]["turn_detection"]["threshold"],
        0.35
    );

    let translation = from_json(
        &session_update(RealtimeChannel::System, RealtimeMode::Translate, Some("en")).unwrap(),
    );
    assert_eq!(translation["session"]["audio"]["output"]["language"], "en");
    assert!(translation["session"]["audio"].get("input").is_none());
}

#[test]
fn request_validation_requires_a_supported_translation_language() {
    let mut valid = request(RealtimeChannel::Microphone, RealtimeMode::Translate);
    valid.target_language = Some(" RU ".to_string());
    assert_eq!(
        normalize_request(valid).unwrap().target_language.as_deref(),
        Some("ru")
    );

    let mut invalid = request(RealtimeChannel::Microphone, RealtimeMode::Translate);
    invalid.target_language = Some("klingon".to_string());
    assert!(normalize_request(invalid).is_err());
    for language in ["nl", "sv", "cs", "el", "he", "pt-br"] {
        assert_eq!(
            normalize_target_language(language).unwrap(),
            language.to_string()
        );
    }
    assert!(normalize_target_language("x").is_err());
    assert!(normalize_target_language("en--us").is_err());
    assert!(
        normalize_request(request(RealtimeChannel::System, RealtimeMode::Transcribe))
            .unwrap()
            .target_language
            .is_none()
    );
}

#[test]
fn translation_source_and_output_share_one_fallback_segment() {
    let mut tracker = SegmentTracker::new(7, true);
    let empty = to_json(&value("{}"));
    let source_delta = tracker.segment_id(&empty, false, false);
    let source_completed = tracker.segment_id(&empty, false, true);
    let output_delta = tracker.segment_id(&empty, true, false);
    let output_completed = tracker.segment_id(&empty, true, true);
    assert_eq!(source_delta, source_completed);
    assert_eq!(source_delta, output_delta);
    assert_eq!(source_delta, output_completed);
    assert_ne!(source_delta, tracker.segment_id(&empty, false, false));
}

#[test]
fn feedback_validation_rejects_same_and_cross_channel_routes() {
    let platform = Platform::Linux;
    let same = route(1, RealtimeMode::Translate, true, Some("speakers"), Some("speakers"));
    assert!(
        validate_feedback_route(platform, RealtimeChannel::System, &same, &RouteTable::new())
            .is_err()
    );

    let muted = route(1, RealtimeMode::Translate, false, Some("speakers"), Some("speakers"));
    assert!(
        validate_feedback_route(platform, RealtimeChannel::System, &muted, &RouteTable::new())
            .is_ok()
    );

    let mut active = RouteTable::new();
    active.insert(
        RealtimeChannel::System,
        route(2, RealtimeMode::Transcribe, false, Some("speakers"), None),
    );
    let microphone = route(3, RealtimeMode::Translate, true, Some("microphone"), Some("speakers"));
    assert!(
        validate_feedback_route(platform, RealtimeChannel::Microphone, &microphone, &active)
            .is_err()
    );

    let windows = Platform::Windows;
    let excluded_system = route(
        1,
        RealtimeMode::Translate,
        true,
        Some(WINDOWS_PROCESS_LOOPBACK_ID),
        Some("speakers"),
    );
    assert!(validate_feedback_route(
        windows,
        RealtimeChannel::System,
        &excluded_system,
        &RouteTable::new(),
    )
    .is_ok());
    let mut excluded_active = RouteTable::new();
    excluded_active.insert(
        RealtimeChannel::System,
        route(2, RealtimeMode::Transcribe, false, Some(WINDOWS_PROCESS_LOOPBACK_ID), None),
    );
    assert!(validate_feedback_route(
        windows,
        RealtimeChannel::Microphone,
        &microphone,
        &excluded_active,
    )
    .is_ok());
}

#[test]
fn transcription_never_reserves_or_starts_speech_playback() {
    let mut transcribe = request(RealtimeChannel::Microphone, RealtimeMode::Transcribe);
    transcribe.playback_enabled = true;
    transcribe.output_device_id = Some("speakers".to_string());
    let normalized = normalize_request(transcribe).unwrap();
    assert!(!normalized.playback_enabled);
    assert!(normalized.target_language.is_none());
}

#[test]
fn provider_text_and_identifiers_are_bounded() {
    assert!(valid_provider_id("item-1"));
    assert!(!valid_provider_id("item\n1"));
    assert!(bounded_text("hello", 5, "too large").is_ok());
    assert!(bounded_text("hello!", 5, "too large").is_err());
    assert_eq!(
        sanitize_message("  provider   failed \n now "),
        "provider failed now"
    );
}

#[test]
fn sanitized_messages_are_cut_to_their_limit() {
    let long = "word ".repeat(200);
    let clean = sanitize_message(&long);
    assert_eq!(clean.chars().count(), 320);
    assert!(!clean.contains('\n'));
}

#[test]
fn linux_monitor_hears_the_output_it_monitors() {
    let monitor = format!("{LINUX_DEFAULT_MONITOR_PREFIX}speakers");
    assert!(endpoints_may_match(Platform::Linux, Some(&monitor), Some("speakers")));
    assert!(!endpoints_may_match(Platform::Linux, Some(&monitor), Some("headphones")));
    assert!(endpoints_may_match(Platform::Linux, Some(LINUX_DEFAULT_MONITOR_PREFIX), Some("any")));
    assert!(endpoints_may_match(Platform::Other, None, None));
    assert!(!endpoints_may_match(Platform::Other, Some("a"), None));
}

#[test]
fn device_ids_are_trimmed_and_blank_ones_mean_the_default() {
    let mut translate = request(RealtimeChannel::System, RealtimeMode::Translate);
    translate.input_device_id = Some("  ".to_string());
    translate.output_device_id = Some(" speakers ".to_string());
    let normalized = normalize_request(translate).unwrap();
    assert!(normalized.input_device_id.is_none());
    assert_eq!(normalized.output_device_id.as_deref(), Some("speakers"));
    assert!(normalized.playback_enabled);

    let mut invalid = request(RealtimeChannel::System, RealtimeMode::Transcribe);
    invalid.input_device_id = Some("bad\u{0007}id".to_string());
    assert_eq!(
        normalize_request(invalid).unwrap_err(),
        "Audio device identifier is invalid"
    );

    let mut missing = request(RealtimeChannel::System, RealtimeMode::Translate);
    missing.target_language = None;
    assert_eq!(
        normalize_request(missing).unwrap_err(),
        "Translation target language is required"
    );
}

#[test]
fn audio_is_sent_as_little_endian_pcm16_base64() {
    let event = audio_append_event(RealtimeMode::Transcribe, &[1, -2]).unwrap().unwrap();
    let event = from_json(&event);
    assert_eq!(event["type"], "input_audio_buffer.append");
    assert_eq!(event["audio"], "AQD+/w==");
    assert!(audio_append_event(RealtimeMode::Translate, &[]).unwrap().is_none());
    assert!(audio_append_event(RealtimeMode::Translate, &vec![0; 48_001]).is_err());
    let translate = from_json(&audio_append_event(RealtimeMode::Translate, &[0]).unwrap().unwrap());
    assert_eq!(translate["type"], "session.input_audio_buffer.append");
    assert_eq!(from_json(&close_event(RealtimeMode::Transcribe))["type"], "input_audio_buffer.commit");
    assert_eq!(from_json(&close_event(RealtimeMode::Translate))["type"], "session.close");
}

#[test]
fn provider_events_become_renderer_rows() {
    let mut tracker = SegmentTracker::new(3, false);
    let delta = to_json(&value(
        r#"{"type": "conversation.item.input_audio_transcription.delta", "item_id": "item-9", "delta": "hel"}"#,
    ));
    let step = process_provider_event(&delta, false, &mut tracker).unwrap();
    let transcript = step.transcript.unwrap();
    assert_eq!(transcript.kind, RealtimeEventKind::InputTranscriptDelta);
    assert_eq!(transcript.segment_id, "item-9");
    assert_eq!(transcript.text, "hel");
    assert!(!transcript.completed);
    assert!(!step.closed);

    let fallback = to_json(&value(r#"{"type": "session.output_transcript.delta", "delta": "hi"}"#));
    let step = process_provider_event(&fallback, false, &mut tracker).unwrap();
    assert_eq!(step.transcript.unwrap().segment_id, "3-1");

    let closed = to_json(&value(r#"{"type": "session.closed"}"#));
    assert!(process_provider_event(&closed, false, &mut tracker).unwrap().closed);

    let error = to_json(&value(r#"{"type": "error", "error": {"message": "bad\n key"}}"#));
    assert_eq!(
        process_provider_event(&error, false, &mut tracker).unwrap_err(),
        "OpenAI Realtime error: bad key"
    );
    assert_eq!(
        provider_error(&to_json(&value(r#"{"type": "error"}"#))).unwrap(),
        "OpenAI Realtime error: OpenAI rejected the Realtime session"
    );

    let audio = to_json(&value(r#"{"type": "session.output_audio.delta", "delta": "AQD+/w=="}"#));
    let step = process_provider_event(&audio, true, &mut tracker).unwrap();
    assert_eq!(step.audio.unwrap(), vec![1, 0, 254, 255]);
    assert!(process_provider_event(&audio, false, &mut tracker).unwrap().audio.is_none());
    let odd = to_json(&value(r#"{"type": "session.output_audio.delta", "delta": "AQ=="}"#));
    assert_eq!(
        process_provider_event(&odd, true, &mut tracker).unwrap_err(),
        "OpenAI returned invalid translated audio"
    );
    let mut oversized_fields = serde_json::Map::new();
    oversized_fields.insert(
        "type".to_string(),
        Value::from("conversation.item.input_audio_transcription.completed"),
    );
    oversized_fields.insert("transcript".to_string(), Value::from("x".repeat(256 * 1024 + 1)));
    let oversized = to_json(&Value::Object(oversized_fields));
    assert_eq!(
        process_provider_event(&oversized, false, &mut tracker).unwrap_err(),
        "OpenAI returned an oversized transcript"
    );
}

#[test]
fn connection_failures_are_explained() {
    assert_eq!(
        openai_connect_error(Some(401), ""),
        "OpenAI API key is invalid or cannot access Realtime"
    );
    assert_eq!(
        openai_connect_error(Some(429), ""),
        "OpenAI Realtime rate limit or quota was reached"
    );
    assert_eq!(
        openai_connect_error(Some(500), ""),
        "OpenAI Realtime connection failed (HTTP 500)"
    );
    assert_eq!(
        openai_connect_error(None, "dns\nfailure"),
        "Could not reach OpenAI Realtime: dns failure"
    );
}

#[test]
fn frames_are_bounded_and_close_ends_the_session() {
    assert_eq!(frame_decision(FrameKind::Text, 10), Ok(true));
    assert!(frame_decision(FrameKind::Binary, 4 * 1024 * 1024 + 1).is_err());
    assert_eq!(frame_decision(FrameKind::Control, 0), Ok(false));
    assert!(frame_decision(FrameKind::Close, 0).is_err());
}

#[test]
fn routes_follow_their_generation() {
    assert_eq!(advanced_generation(u64::MAX), 1);
    assert_eq!(advanced_generation(4), 5);

    let mut routes = RouteTable::new();
    let microphone = NormalizedRequest {
        channel: RealtimeChannel::Microphone,
        mode: RealtimeMode::Translate,
        playback_enabled: false,
        input_device_id: None,
        output_device_id: Some("speakers".to_string()),
        target_language: Some("en".to_string()),
    };
    reserve_route(&mut routes, Platform::Linux, 5, &microphone).unwrap();
    let system = NormalizedRequest {
        channel: RealtimeChannel::System,
        mode: RealtimeMode::Transcribe,
        playback_enabled: false,
        input_device_id: Some("speakers".to_string()),
        output_device_id: None,
        target_language: None,
    };
    reserve_route(&mut routes, Platform::Linux, 6, &system).unwrap();
    assert_eq!(
        begin_playback_change(&mut routes, Platform::Linux, RealtimeChannel::Microphone, 5, true)
            .unwrap_err(),
        "The selected translation output is routed into active system-audio capture"
    );
    assert_eq!(
        begin_playback_change(&mut routes, Platform::Linux, RealtimeChannel::Microphone, 4, true)
            .unwrap_err(),
        "Realtime channel route is not active"
    );
    assert_eq!(
        begin_playback_change(&mut routes, Platform::Linux, RealtimeChannel::System, 6, true)
            .unwrap_err(),
        "Speech playback is only available for translation"
    );
    assert_eq!(
        begin_playback_change(&mut routes, Platform::Linux, RealtimeChannel::Microphone, 5, false),
        Ok(PlaybackChange::Unchanged)
    );
    assert_eq!(playback_command(RealtimeMode::Translate, true, false), PlaybackCommand::Start);
    assert_eq!(playback_command(RealtimeMode::Transcribe, true, false), PlaybackCommand::Refuse);
}
