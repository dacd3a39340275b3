use orcestr_real_translate::secret_store::{
    normalize_openai_api_key, validate_refresh_token, SecretStore, StoredSession,
    StoredSessionKind, MAX_OPENAI_API_KEY_LENGTH, MAX_REFRESH_TOKEN_LENGTH, SESSION_VERSION,
};

#[test]
fn refresh_token_validation_rejects_unsafe_values() {
    assert!(validate_refresh_token("").is_err());
    assert!(validate_refresh_token(" token").is_err());
    assert!(validate_refresh_token("token\n").is_err());
    assert!(validate_refresh_token("valid-refresh-token").is_ok());
    assert!(validate_refresh_token(&"x".repeat(MAX_REFRESH_TOKEN_LENGTH + 1)).is_err());
}

#[test]
fn openai_api_key_validation_is_bounded_and_never_prefix_specific() {
    assert_eq!(
        normalize_openai_api_key("  future-provider-key_123  ").unwrap(),
        "future-provider-key_123"
    );
    assert!(normalize_openai_api_key("").is_err());
    assert!(normalize_openai_api_key("key with spaces").is_err());
    assert!(normalize_openai_api_key("key\nsecret").is_err());
    assert!(normalize_openai_api_key(&"x".repeat(MAX_OPENAI_API_KEY_LENGTH + 1)).is_err());
}

#[test]
fn stored_sessions_are_versioned() {
    let _store = SecretStore::new();
    let session =
        StoredSession::new(StoredSessionKind::Password, "valid-refresh-token".to_string())
            .unwrap();
    assert_eq!(session.version, SESSION_VERSION);
    assert!(session.validate().is_ok());
    let old = StoredSession {
        version: 0,
        kind: StoredSessionKind::OAuth2,
        refresh_token: "valid-refresh-token".to_string(),
    };
    assert_eq!(old.validate().unwrap_err(), "Stored session version is invalid");
    assert!(StoredSession::new(StoredSessionKind::OAuth2, " padded".to_string()).is_err());
}

#[test]
fn normalized_keys_normalize_to_themselves() {
    let once = normalize_openai_api_key("\tsk-abc\n").unwrap().to_string();
    assert_eq!(normalize_openai_api_key(&once).unwrap(), once);
    assert!(normalize_openai_api_key("ключ").is_err());
}
