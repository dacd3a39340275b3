use orcestr_real_translate::api_error::{
    parse_api_error, ApiError, ApiErrorPayload, ApiFieldErrorWire, ApiFieldPathPart,
    ApiParamValue, MAX_SAFE_JS_INTEGER,
};
use orcestr_real_translate::auth::{
    append_bounded_chunk, normalize_profile, scope_set_matches, valid_slug, validate_login,
    validate_password_reset_confirm, validate_state, LegalAcceptance, LoginRequest,
    NativeTokenResponse, OAuthTokenResponse, PasswordResetConfirmRequest, MAX_RESPONSE_LENGTH,
};
use orcestr_real_translate::json::{Json, JsonNumber};
use orcestr_real_translate::secret_store::StoredSessionKind;
use orcestr_real_translate::session::{
    apply_logout_clear_result, clear_oauth_attempt, ensure_oauth_start_allowed, session_for_me,
    snapshot_from_state, take_callback_attempt, AuthAttempt, AuthPhase, AuthState,
    CallbackAttempt, Session, ATTEMPT_LIFETIME_MS,
};
use serde_json::Value;

fn value(text: &str) -> Value {
    serde_json::from_str(text).unwrap()
}

fn to_json(value: &Value) -> Json {
    match value {
        Value::Null => Json::Null,
        Value::Bool(b) => Json::Bool(*b),
        Value::Number(n) => Json::Number(if let Some(u) = n.as_u64() {
            JsonNumber::PosInt(u)
        } else if let Some(i) = n.as_i64() {
            JsonNumber::NegInt(i)
        } else {
            let f = n.as_f64().unwrap();
            JsonNumber::Float {
                within_safe_range: f.is_finite() && f.abs() <= MAX_SAFE_JS_INTEGER as f64,
                bits: f.to_bits(),
            }
        }),
        Value::String(s) => Json::String(s.clone()),
        Value::Array(items) => Json::Array(items.iter().map(to_json).collect()),
        Value::Object(entries) => Json::Object(
            entries
                .iter()
                .map(|(key, value)| (key.clone(), to_json(value)))
                .collect(),
        ),
    }
}

fn from_json(value: &Json) -> Value {
    match value {
        Json::Null => Value::Null,
        Json::Bool(b) => Value::Bool(*b),
        Json::Number(JsonNumber::PosInt(u)) => Value::from(*u),
        Json::Number(JsonNumber::NegInt(i)) => Value::from(*i),
        Json::Number(JsonNumber::Float { bits, .. }) => Value::from(f64::from_bits(*bits)),
        Json::String(s) => Value::String(s.clone()),
        Json::Array(items) => Value::Array(items.iter().map(from_json).collect()),
        Json::Object(entries) => Value::Object(
            entries
                .iter()
                .map(|(key, value)| (key.clone(), from_json(value)))
                .collect(),
        ),
    }
}

fn object_params(value: Option<&Value>) -> Option<Option<Vec<(String, Json)>>> {
    match value {
        None | Some(Value::Null) => Some(None),
        Some(Value::Object(map)) => Some(Some(
            map.iter()
                .map(|(key, value)| (key.clone(), to_json(value)))
                .collect(),
        )),
        Some(_) => None,
    }
}

fn optional_string(value: Option<&Value>) -> Option<Option<String>> {
    match value {
        None | Some(Value::Null) => Some(None),
        Some(Value::String(s)) => Some(Some(s.clone())),
        Some(_) => None,
    }
}

/// The body read as an error envelope, strictly: unknown members refuse it.
fn envelope(bytes: &[u8]) -> Option<ApiErrorPayload> {
    let value: Value = serde_json::from_slice(bytes).ok()?;
    let outer = value.as_object()?;
    if outer.len() != 1 {
        return None;
    }
    let error = outer.get("error")?.as_object()?;
    let known = ["code", "message", "params", "fields", "details", "request_id"];
    if error.keys().any(|key| !known.contains(&key.as_str())) {
        return None;
    }
    let mut fields = Vec::new();
    match error.get("fields") {
        None => {}
        Some(Value::Array(items)) => {
            for item in items {
                let field = item.as_object()?;
                let known = ["path", "code", "message", "params"];
                if field.keys().any(|key| !known.contains(&key.as_str())) {
                    return None;
                }
                let path = match field.get("path") {
                    None => Vec::new(),
                    Some(Value::Array(parts)) => parts.iter().map(to_json).collect(),
                    Some(_) => return None,
                };
                fields.push(ApiFieldErrorWire {
                    path,
                    code: field.get("code")?.as_str()?.to_string(),
                    message: optional_string(field.get("message"))?,
                    params: object_params(field.get("params"))?,
                });
            }
        }
        Some(_) => return None,
    }
    Some(ApiErrorPayload {
        code: error.get("code")?.as_str()?.to_string(),
        message: error.get("message")?.as_str()?.to_string(),
        params: object_params(error.get("params"))?,
        fields,
        details: match error.get("details") {
            None | Some(Value::Null) => None,
            Some(value) => Some(to_json(value)),
        },
        request_id: optional_string(error.get("request_id"))?,
    })
}

fn parse(status: u16, bytes: &[u8]) -> ApiError {
    parse_api_error(status, envelope(bytes))
}

fn signed_in_state(token: &str, profile: Value) -> AuthState {
    let mut state = AuthState::new();
    state.session = Some(Session {
        access_token: token.to_string(),
        kind: StoredSessionKind::Password,
        profile: to_json(&profile),
    });
    state
}

fn attempt(state: &str, created_at_ms: u64) -> AuthAttempt {
    AuthAttempt {
        state: state.to_string(),
        code_verifier: "verifier".to_string(),
        created_at_ms,
    }
}

#[test]
fn access_token_is_never_part_of_renderer_snapshot() {
    let state = signed_in_state(
        "secret-access-token",
        value(r#"{"id": 1, "username": "user", "email": "user@example.test"}"#),
    );
    let snapshot = snapshot_from_state(&state);
    let mut fields = serde_json::Map::new();
    fields.insert("phase".to_string(), Value::from(snapshot.phase.as_str()));
    fields.insert(
        "profile".to_string(),
        snapshot.profile.map(from_json).unwrap_or(Value::Null),
    );
    fields.insert(
        "message".to_string(),
        snapshot.message.cloned().map(Value::from).unwrap_or(Value::Null),
    );
    let serialized = serde_json::to_string(&Value::Object(fields)).unwrap();
    assert!(!serialized.contains("secret-access-token"));
    assert!(serialized.contains("user@example.test"));
}

#[test]
fn native_and_oauth_profiles_are_normalized_to_auth_user() {
    let native = normalize_profile(
        StoredSessionKind::Password,
        to_json(&value(r#"{"id": 7, "username": "native", "email": "n@example.test"}"#)),
    )
    .unwrap();
    assert_eq!(from_json(&native)["username"], "native");

    let oauth = normalize_profile(
        StoredSessionKind::OAuth2,
        to_json(&value(r#"{"sub": "42", "preferred_username": "oauth-user"}"#)),
    )
    .unwrap();
    assert_eq!(from_json(&oauth)["id"], "42");
    assert_eq!(from_json(&oauth)["username"], "oauth-user");
}

#[test]
fn token_contracts_are_strict_and_oauth_scope_is_exact() {
    assert!(NativeTokenResponse {
        access_token: "access".to_string(),
        refresh_token: "refresh".to_string(),
    }
    .validate()
    .is_ok());
    assert!(NativeTokenResponse {
        access_token: "".to_string(),
        refresh_token: "refresh".to_string(),
    }
    .validate()
    .is_err());

    let response = |scope: Option<&str>| OAuthTokenResponse {
        access_token: "access".to_string(),
        refresh_token: Some("refresh".to_string()),
        token_type: "Bearer".to_string(),
        scope: scope.map(str::to_string),
    };
    assert!(response(Some("email offline_access openid profile"))
        .validate()
        .is_ok());
    assert!(response(None).validate().is_ok());
    assert!(response(Some("openid profile email")).validate().is_err());
    assert!(response(Some("openid profile email offline_access admin"))
        .validate()
        .is_err());
}

#[test]
fn structured_backend_errors_remain_localizable() {
    let bytes = br#"{"error":{"code":"invalid_credentials","message":"Invalid credentials","params":{"attempts":2},"fields":[{"path":["password"],"code":"invalid","params":{"min_length":8}}],"request_id":"req-1"}}"#;
    let error = parse(401, bytes);
    assert_eq!(error.status, 401);
    assert_eq!(error.code, "invalid_credentials");
    assert_eq!(error.fields.len(), 1);
    let params = error.params.as_ref().unwrap();
    assert_eq!(params.len(), 1);
    assert_eq!(params[0].0, "attempts");
    assert!(matches!(params[0].1, ApiParamValue::Integer(2)));
    let field_params = error.fields[0].params.as_ref().unwrap();
    assert_eq!(field_params.len(), 1);
    assert_eq!(field_params[0].0, "min_length");
    assert!(matches!(field_params[0].1, ApiParamValue::Integer(8)));
    assert_eq!(error.request_id.as_deref(), Some("req-1"));
}

#[test]
fn malformed_structured_error_fields_never_cross_ipc() {
    for bytes in [
        br#"{"error":{"code":"invalid_credentials","message":"Invalid","fields":[{"path":[{"secret":true}],"code":"invalid"}]}}"#.as_slice(),
        br#"{"error":{"code":"invalid_credentials","message":"Invalid","fields":[{"path":[1.5],"code":"invalid"}]}}"#.as_slice(),
        br#"{"error":{"code":"invalid credentials","message":"Invalid","fields":[]}}"#.as_slice(),
        br#"{"error":{"code":"invalid_credentials","message":"Invalid","fields":[],"request_id":"\u0000"}}"#.as_slice(),
    ] {
        let error = parse(400, bytes);
        assert_eq!(error.status, 502);
        assert_eq!(error.code, "invalid_error_response");
        assert!(error.fields.is_empty());
    }

    let numeric = br#"{"error":{"code":"invalid_value","message":"Invalid","fields":[{"path":["items",2],"code":"invalid"}]}}"#;
    let error = parse(422, numeric);
    let path = &error.fields[0].path;
    assert_eq!(path.len(), 2);
    assert!(matches!(&path[0], ApiFieldPathPart::String(s) if s == "items"));
    assert!(matches!(path[1], ApiFieldPathPart::Number(2)));
}

#[test]
fn legal_and_login_payloads_reject_unbounded_input() {
    assert!(valid_slug("privacy-policy"));
    assert!(!valid_slug("../privacy"));
    assert!(validate_login(&LoginRequest {
        username: "user@example.test".to_string(),
        password: "password".to_string(),
        accepted_legal_documents: vec![LegalAcceptance {
            document_slug: "privacy-policy".to_string(),
            version: "1.0".to_string(),
            language: "en".to_string(),
        }],
    })
    .is_ok());
    assert!(validate_login(&LoginRequest {
        username: "u".repeat(255),
        password: "p".repeat(1_024),
        accepted_legal_documents: vec![],
    })
    .is_ok());
    assert!(validate_login(&LoginRequest {
        username: "u".repeat(256),
        password: "password".to_string(),
        accepted_legal_documents: vec![],
    })
    .is_err());

    assert!(
        validate_password_reset_confirm(&PasswordResetConfirmRequest {
            email: "user@example.test".to_string(),
            code: "c".repeat(32),
            password: "p".repeat(1_024),
        })
        .is_ok()
    );
    assert!(
        validate_password_reset_confirm(&PasswordResetConfirmRequest {
            email: "user@example.test".to_string(),
            code: "c".repeat(33),
            password: "p".repeat(1_024),
        })
        .is_err()
    );
    assert!(
        validate_password_reset_confirm(&PasswordResetConfirmRequest {
            email: "user@example.test".to_string(),
            code: "123456".to_string(),
            password: "p".repeat(1_025),
        })
        .is_err()
    );
}

#[test]
fn response_body_limit_is_cumulative_without_content_length() {
    let mut bytes = vec![0; MAX_RESPONSE_LENGTH - 1];
    append_bounded_chunk(&mut bytes, &[1]).unwrap();
    assert_eq!(bytes.len(), MAX_RESPONSE_LENGTH);
    let error = append_bounded_chunk(&mut bytes, &[2]).unwrap_err();
    assert_eq!(error.code, "invalid_error_response");
    assert_eq!(bytes.len(), MAX_RESPONSE_LENGTH);
}

#[test]
fn logout_keeps_memory_session_until_keyring_clear_succeeds() {
    let mut state = signed_in_state("memory-access", value(r#"{"id": 42, "username": "user"}"#));

    let error =
        apply_logout_clear_result(&mut state, Err("credential store unavailable".to_string()))
            .unwrap_err();
    assert_eq!(error.code, "credential_store_unavailable");
    assert_eq!(
        state.session.as_ref().unwrap().access_token,
        "memory-access"
    );
    assert_eq!(snapshot_from_state(&state).phase.as_str(), "authenticated");

    apply_logout_clear_result(&mut state, Ok(())).unwrap();
    assert!(state.session.is_none());
    assert_eq!(snapshot_from_state(&state).phase.as_str(), "signedOut");
}

#[test]
fn oauth_cancel_and_retry_do_not_silently_replace_active_state() {
    let mut state = AuthState::new();
    state.attempt = Some(attempt("active-state", 5_000));

    let error = ensure_oauth_start_allowed(&state).unwrap_err();
    assert_eq!(error.status, 409);
    assert_eq!(error.code, "oauth_authorization_in_progress");

    clear_oauth_attempt(&mut state);
    assert!(state.attempt.is_none());
    assert!(ensure_oauth_start_allowed(&state).is_ok());
    assert_eq!(snapshot_from_state(&state).phase.as_str(), "signedOut");
}

#[test]
fn current_user_refetch_preserves_active_oauth_attempt() {
    let mut state = AuthState::new();
    state.attempt = Some(attempt("expected-state", 5_000));

    let error = session_for_me(&state).unwrap_err();
    assert_eq!(error.code, "not_authenticated");
    assert!(state.attempt.is_some());
    assert!(matches!(
        take_callback_attempt(&mut state, "expected-state", 5_000),
        CallbackAttempt::Active(_)
    ));
}

#[test]
fn matching_expired_callback_errors_but_mismatch_is_silent() {
    let now = 1_000 + ATTEMPT_LIFETIME_MS + 1_000;
    let mut state = AuthState::new();
    state.attempt = Some(attempt("expected-state", 1_000));

    assert!(matches!(
        take_callback_attempt(&mut state, "different-state", now),
        CallbackAttempt::Ignored
    ));
    assert!(state.attempt.is_some());
    assert!(state.last_error.is_none());

    assert!(matches!(
        take_callback_attempt(&mut state, "expected-state", now),
        CallbackAttempt::Expired
    ));
    assert!(state.attempt.is_none());
    assert_eq!(
        state.last_error.as_deref(),
        Some("Authorization session expired. Try again.")
    );
    assert_eq!(snapshot_from_state(&state).phase.as_str(), "error");
}

#[test]
fn callback_at_the_end_of_its_lifetime_is_still_accepted() {
    let mut state = AuthState::new();
    state.attempt = Some(attempt("expected-state", 1_000));
    assert!(matches!(
        take_callback_attempt(&mut state, "expected-state", 1_000 + ATTEMPT_LIFETIME_MS),
        CallbackAttempt::Active(_)
    ));
    assert!(state.attempt.is_none());
    assert!(state.last_error.is_none());
}

#[test]
fn snapshot_phases_follow_the_state() {
    let mut state = AuthState::new();
    assert_eq!(snapshot_from_state(&state).phase, AuthPhase::SignedOut);
    state.begin_bootstrap();
    assert_eq!(snapshot_from_state(&state).phase, AuthPhase::Bootstrapping);
    state.fail("Could not reach Orcestr.");
    let snapshot = snapshot_from_state(&state);
    assert_eq!(snapshot.phase, AuthPhase::Error);
    assert_eq!(snapshot.message.map(String::as_str), Some("Could not reach Orcestr."));
    state.begin_attempt("s".repeat(43), "v".repeat(64), 7);
    assert_eq!(snapshot_from_state(&state).phase, AuthPhase::Authorizing);
    assert!(snapshot_from_state(&state).message.is_none());
}

#[test]
fn oauth_state_must_be_bounded_and_url_safe() {
    assert!(validate_state("state_0123456789abcdef0123456789").is_ok());
    assert!(validate_state("short").is_err());
    assert!(validate_state(&"s".repeat(513)).is_err());
    assert!(validate_state("state with spaces 0123456789").is_err());
    let error = validate_state("short").unwrap_err();
    assert_eq!(error.status, 400);
    assert_eq!(error.message, "OAuth state is invalid.");
}

#[test]
fn scope_must_list_each_requested_scope_once() {
    assert!(scope_set_matches("openid profile email offline_access"));
    assert!(!scope_set_matches("openid openid profile email offline_access"));
    assert!(!scope_set_matches("openid  profile email offline_access"));
    assert!(!scope_set_matches(""));
}

#[test]
fn plain_http_errors_keep_their_status() {
    let error = parse(503, b"<html>Service unavailable</html>");
    assert_eq!(error.status, 503);
    assert_eq!(error.code, "http_error");
    assert_eq!(error.message, "Orcestr rejected the authentication request.");
    assert!(error.fields.is_empty());
}

#[test]
fn unsafe_integer_params_are_refused() {
    let bytes = format!(
        r#"{{"error":{{"code":"too_large","message":"Too large","params":{{"limit":{}}}}}}}"#,
        MAX_SAFE_JS_INTEGER + 1
    );
    let error = parse(400, bytes.as_bytes());
    assert_eq!(error.status, 502);
    assert_eq!(error.code, "invalid_error_response");
}
