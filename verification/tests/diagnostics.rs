use orcestr_real_translate::diagnostics::{
    bounded, ensure_main_window, log_line, renderer_details, renderer_level, sanitize,
    MAX_FIELD_LENGTH,
};

#[test]
fn diagnostics_fields_are_bounded_and_single_line() {
    assert_eq!(sanitize("first\r\nsecond"), "first  second");
    assert_eq!(
        bounded(&"x".repeat(MAX_FIELD_LENGTH + 4)).len(),
        MAX_FIELD_LENGTH
    );
}

#[test]
fn renderer_reports_name_their_source_and_stack() {
    assert_eq!(renderer_level("warning").unwrap(), "WARN");
    assert!(renderer_level("debug").is_err());
    assert_eq!(
        renderer_details(
            "boom",
            Some("app.js".to_string()),
            Some(12),
            Some(3),
            Some("at f".to_string())
        ),
        "Renderer: boom | source=app.js:12:3 | stack=at f"
    );
    assert_eq!(
        renderer_details("boom", Some(String::new()), Some(12), None, None),
        "Renderer: boom"
    );
    assert_eq!(log_line(17, "INFO", "a\nb"), "[17] INFO a b");
    assert!(ensure_main_window("main").is_ok());
    assert!(ensure_main_window("settings").is_err());
}
