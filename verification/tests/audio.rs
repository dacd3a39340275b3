use orcestr_real_translate::audio::{
    build_inventory, endpoint_from_parts, is_monitor_name, normalize_requested_id,
    playback_samples, push_unique_endpoint, sort_endpoints, system_capture_output_match,
    system_sources, take_complete_chunks, validate_linux_monitor_id, validate_macos_system_id,
    validate_process_loopback_id, AudioEndpoint, ErrorSlot, Platform, CAPTURE_CHUNK_SAMPLES,
    LINUX_DEFAULT_MONITOR_PREFIX, MACOS_SYSTEM_AUDIO_ID, WINDOWS_PROCESS_LOOPBACK_ID,
};

fn endpoint(id: &str, name: &str, is_default: bool) -> AudioEndpoint {
    AudioEndpoint {
        id: id.to_string(),
        name: name.to_string(),
        is_default,
        channels: 2,
        sample_rate: 48_000,
        monitored_output_id: None,
        excludes_current_process_audio: false,
    }
}

#[test]
fn endpoint_ids_must_be_native_cpal_ids() {
    let platform = Platform::Linux;
    assert!(normalize_requested_id(platform, None, false).unwrap().is_none());
    assert!(normalize_requested_id(platform, Some("Microphone name"), false).is_err());
    let id = "alsa:native-id";
    assert!(normalize_requested_id(platform, Some(id), true).unwrap().is_some());
    let whitespace = format!(" {id}");
    assert!(normalize_requested_id(platform, Some(&whitespace), true).is_err());
}

#[test]
fn endpoint_sorting_keeps_default_first_and_is_deterministic() {
    let mut endpoints = vec![
        AudioEndpoint {
            id: "host:b".to_string(),
            name: "Zulu".to_string(),
            is_default: false,
            channels: 2,
            sample_rate: 48_000,
            monitored_output_id: None,
            excludes_current_process_audio: false,
        },
        AudioEndpoint {
            id: "host:a".to_string(),
            name: "Alpha".to_string(),
            is_default: true,
            channels: 1,
            sample_rate: 48_000,
            monitored_output_id: None,
            excludes_current_process_audio: false,
        },
    ];
    sort_endpoints(&mut endpoints);
    assert!(endpoints[0].is_default);
    assert_eq!(endpoints[1].name, "Zulu");
}

#[test]
fn process_loopback_only_accepts_the_virtual_system_source() {
    assert!(validate_process_loopback_id(None).is_ok());
    assert!(validate_process_loopback_id(Some(WINDOWS_PROCESS_LOOPBACK_ID)).is_ok());
    assert!(validate_process_loopback_id(Some("wasapi:speakers")).is_err());
}

#[test]
fn names_sort_without_case_then_by_id() {
    let mut endpoints = vec![
        endpoint("host:3", "beta", false),
        endpoint("host:2", "Alpha", false),
        endpoint("host:1", "alpha", false),
        endpoint("host:0", "Zulu", true),
    ];
    sort_endpoints(&mut endpoints);
    let ids: Vec<&str> = endpoints.iter().map(|e| e.id.as_str()).collect();
    assert_eq!(ids, ["host:0", "host:1", "host:2", "host:3"]);
}

#[test]
fn endpoints_are_listed_once_per_id() {
    let mut endpoints = vec![endpoint("host:a", "A", false)];
    push_unique_endpoint(&mut endpoints, endpoint("host:a", "Other name", true));
    assert_eq!(endpoints.len(), 1);
    assert_eq!(endpoints[0].name, "A");
    push_unique_endpoint(&mut endpoints, endpoint("host:b", "B", false));
    assert_eq!(endpoints.len(), 2);

    let inventory = build_inventory(
        Platform::Windows,
        vec![endpoint("in:2", "Mic", false), endpoint("in:1", "Mic", true), endpoint("in:2", "Dup", false)],
        vec![endpoint("out:1", "Speakers", true)],
        Some("out:1".to_string()),
    );
    assert_eq!(inventory.inputs.len(), 2);
    assert_eq!(inventory.inputs[0].id, "in:1");
    assert_eq!(inventory.system_sources.len(), 1);
    assert_eq!(inventory.system_sources[0].id, WINDOWS_PROCESS_LOOPBACK_ID);
    assert!(inventory.system_sources[0].excludes_current_process_audio);
}

#[test]
fn system_sources_follow_the_platform() {
    let linux = system_sources(Platform::Linux, Some("speakers".to_string()), &vec![]);
    assert_eq!(linux[0].id, format!("{LINUX_DEFAULT_MONITOR_PREFIX}speakers"));
    assert_eq!(linux[0].monitored_output_id.as_deref(), Some("speakers"));
    assert_eq!(linux[0].name, "Default system audio");
    let linux_unknown = system_sources(Platform::Linux, None, &vec![]);
    assert_eq!(linux_unknown[0].id, LINUX_DEFAULT_MONITOR_PREFIX);
    let mac = system_sources(Platform::MacOs, None, &vec![]);
    assert_eq!(mac[0].id, MACOS_SYSTEM_AUDIO_ID);
    let other = system_sources(
        Platform::Other,
        None,
        &vec![endpoint("a", "Built-in Microphone", true), endpoint("b", "BlackHole 2ch", false)],
    );
    assert_eq!(other.len(), 1);
    assert_eq!(other[0].id, "b");
    assert!(is_monitor_name("Monitor of Speakers"));
    assert!(!is_monitor_name("USB Headset"));
}

#[test]
fn platform_system_ids_are_checked() {
    assert!(validate_macos_system_id(None).is_ok());
    assert!(validate_macos_system_id(Some(MACOS_SYSTEM_AUDIO_ID)).is_ok());
    assert!(validate_macos_system_id(Some("coreaudio:mic")).is_err());
    assert!(validate_linux_monitor_id(Some("linux-default-monitor:")).is_ok());
    assert!(validate_linux_monitor_id(Some("alsa:hw0")).is_err());
    assert_eq!(
        system_capture_output_match(Platform::Windows, Some(WINDOWS_PROCESS_LOOPBACK_ID), Some("x")),
        Some(false)
    );
    assert_eq!(system_capture_output_match(Platform::Windows, Some("other"), Some("x")), None);
    assert_eq!(system_capture_output_match(Platform::Linux, None, Some("x")), None);
}

#[test]
fn endpoint_parts_mark_the_default() {
    let e = endpoint_from_parts("host:1".to_string(), None, 2, 44_100, Some("host:1"));
    assert!(e.is_default);
    assert_eq!(e.name, "Unknown audio endpoint");
    let e = endpoint_from_parts("host:2".to_string(), Some("Mic".to_string()), 1, 16_000, Some("host:1"));
    assert!(!e.is_default);
    assert_eq!(e.name, "Mic");
}

#[test]
fn playback_chunks_are_whole_little_endian_samples() {
    assert_eq!(playback_samples(&[1, 0, 0xfe, 0xff], None).unwrap(), vec![1, -2]);
    assert_eq!(playback_samples(&[], None).unwrap_err(), "Invalid playback PCM16 chunk");
    assert_eq!(playback_samples(&[1, 2, 3], None).unwrap_err(), "Invalid playback PCM16 chunk");
    assert_eq!(
        playback_samples(&vec![0; 192_002], None).unwrap_err(),
        "Invalid playback PCM16 chunk"
    );
    assert_eq!(
        playback_samples(&[0, 0], Some("device lost".to_string())).unwrap_err(),
        "device lost"
    );
}

#[test]
fn capture_sends_whole_packets_and_keeps_the_rest() {
    let mut pending: Vec<i16> = (0..(2 * CAPTURE_CHUNK_SAMPLES as i16 + 5)).collect();
    let chunks = take_complete_chunks(&mut pending);
    assert_eq!(chunks.len(), 2);
    assert!(chunks.iter().all(|c| c.len() == CAPTURE_CHUNK_SAMPLES));
    assert_eq!(chunks[1][0], CAPTURE_CHUNK_SAMPLES as i16);
    assert_eq!(pending.len(), 5);
    assert_eq!(pending[0], 2 * CAPTURE_CHUNK_SAMPLES as i16);
}

#[test]
fn the_first_worker_error_is_kept() {
    let mut slot = ErrorSlot::new();
    slot.set_first("first".to_string());
    slot.set_first("second".to_string());
    assert_eq!(slot.peek().as_deref(), Some("first"));
    assert_eq!(slot.take().as_deref(), Some("first"));
    assert!(slot.take().is_none());
}

#[test]
fn endpoints_of_one_key_keep_their_order() {
    let mut first = endpoint("dup", "Speakers", false);
    first.channels = 1;
    let mut second = endpoint("dup", "SPEAKERS", false);
    second.channels = 6;
    let mut endpoints = vec![
        endpoint("z", "Zeta", false),
        first,
        endpoint("a", "Alpha", true),
        second,
    ];
    sort_endpoints(&mut endpoints);
    let order: Vec<(&str, &str, u16)> = endpoints
        .iter()
        .map(|e| (e.id.as_str(), e.name.as_str(), e.channels))
        .collect();
    assert_eq!(
        order,
        vec![
            ("a", "Alpha", 2),
            ("dup", "Speakers", 1),
            ("dup", "SPEAKERS", 6),
            ("z", "Zeta", 2),
        ]
    );
}
