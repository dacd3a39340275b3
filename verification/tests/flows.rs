use orcestr_real_translate::api_error::ApiError;
use orcestr_real_translate::config::{CLIENT_ID, REDIRECT_URI, SCOPE};
use orcestr_real_translate::desktop::{ensure_main_window, is_callback_link, PendingDeepLinks};
use orcestr_real_translate::flows::{
    after_bootstrap_error, after_profile_error, after_refresh_error, authorization_code_form,
    declared_body_capacity, logout_bearer, oauth_token_error, refresh_token_form, revoke_form,
    OAuthErrorResponse,
};
use orcestr_real_translate::flows::{begin_callback, CallbackStep};
use orcestr_real_translate::json::Json;
use orcestr_real_translate::oauth::ParsedCallback;
use orcestr_real_translate::secret_store::StoredSessionKind;
use orcestr_real_translate::session::{AuthState, Session};

#[test]
fn token_endpoint_errors_keep_valid_oauth_codes() {
    let error = oauth_token_error(
        400,
        Some(OAuthErrorResponse {
            error: "invalid_grant".to_string(),
            error_description: None,
        }),
        None,
    );
    assert_eq!(error.status, 400);
    assert_eq!(error.code, "invalid_grant");
    assert_eq!(error.message, "OAuth authorization was rejected.");
    assert!(error.invalidates_refresh_token());

    let error = oauth_token_error(
        400,
        Some(OAuthErrorResponse {
            error: "bad code".to_string(),
            error_description: Some("x".to_string()),
        }),
        None,
    );
    assert_eq!(error.code, "http_error");
}

#[test]
fn token_forms_are_exact() {
    assert_eq!(
        authorization_code_form("code-1", "verifier-1"),
        vec![
            ("grant_type", "authorization_code"),
            ("client_id", CLIENT_ID),
            ("code", "code-1"),
            ("redirect_uri", REDIRECT_URI),
            ("code_verifier", "verifier-1"),
        ]
    );
    assert_eq!(
        refresh_token_form("refresh-1"),
        vec![
            ("grant_type", "refresh_token"),
            ("client_id", CLIENT_ID),
            ("refresh_token", "refresh-1"),
            ("scope", SCOPE),
        ]
    );
    assert_eq!(
        revoke_form("refresh-1"),
        vec![
            ("client_id", CLIENT_ID),
            ("token", "refresh-1"),
            ("token_type_hint", "refresh_token"),
        ]
    );
}

#[test]
fn native_logout_presents_only_native_access_tokens() {
    let native = Session {
        access_token: "native-access".to_string(),
        kind: StoredSessionKind::Password,
        profile: Json::Null,
    };
    assert_eq!(logout_bearer(Some(&native)), Some("native-access"));
    let oauth = Session {
        access_token: "oauth-access".to_string(),
        kind: StoredSessionKind::OAuth2,
        profile: Json::Null,
    };
    assert_eq!(logout_bearer(Some(&oauth)), None);
    assert_eq!(logout_bearer(None), None);
}

#[test]
fn failed_steps_sign_out_as_the_flows_require() {
    let mut state = AuthState::new();
    state.set_authenticated(StoredSessionKind::Password, "a".to_string(), Json::Null);
    let outcome = after_profile_error(&mut state, ApiError::new(401, "expired", "Expired"));
    assert!(outcome.clear_saved_session);
    assert_eq!(outcome.error.code, "not_authenticated");
    assert!(state.session.is_none());

    let mut state = AuthState::new();
    let outcome = after_profile_error(&mut state, ApiError::network());
    assert!(!outcome.clear_saved_session);
    assert_eq!(outcome.error.code, "network_error");

    let mut state = AuthState::new();
    state.set_authenticated(StoredSessionKind::OAuth2, "a".to_string(), Json::Null);
    let outcome = after_refresh_error(&mut state, ApiError::network());
    assert!(!outcome.clear_saved_session);
    assert!(state.session.is_some());
    let outcome = after_refresh_error(&mut state, ApiError::new(400, "refresh_token_reused", "x"));
    assert!(outcome.clear_saved_session);
    assert!(state.session.is_none());

    let mut state = AuthState::new();
    state.begin_bootstrap();
    after_bootstrap_error(&mut state, &ApiError::not_authenticated());
    assert!(!state.bootstrapping && state.last_error.is_none());
    state.begin_bootstrap();
    after_bootstrap_error(&mut state, &ApiError::network());
    assert_eq!(
        state.last_error.as_deref(),
        Some("Could not reach Orcestr. Check your connection and try again.")
    );
}

#[test]
fn declared_body_length_is_capped() {
    assert_eq!(declared_body_capacity(None).unwrap(), 0);
    assert_eq!(declared_body_capacity(Some(10)).unwrap(), 10);
    assert_eq!(declared_body_capacity(Some(256 * 1024)).unwrap(), 256 * 1024);
    assert_eq!(
        declared_body_capacity(Some(256 * 1024 + 1)).unwrap_err().code,
        "invalid_error_response"
    );
}

#[test]
fn early_callbacks_keep_only_the_newest_four() {
    let mut pending = PendingDeepLinks::new();
    for n in 0..6 {
        pending.push(format!("{REDIRECT_URI}?state={n}"));
    }
    pending.push("https://attacker.test/callback".to_string());
    let links = pending.drain();
    assert_eq!(links.len(), 4);
    assert_eq!(links[0], format!("{REDIRECT_URI}?state=2"));
    assert_eq!(links[3], format!("{REDIRECT_URI}?state=5"));
    assert!(pending.drain().is_empty());
    assert!(!is_callback_link(&format!("{REDIRECT_URI}?{}", "x".repeat(8 * 1024))));
    assert!(ensure_main_window("main").is_ok());
    assert_eq!(
        ensure_main_window("overlay").unwrap_err().message,
        "This command is not available to the current window."
    );
}

fn started(at_ms: u64) -> AuthState {
    let mut state = AuthState::new();
    state.begin_attempt("state-1".to_string(), "verifier-1".to_string(), at_ms);
    state
}

#[test]
fn granted_callback_hands_over_code_and_verifier() {
    let mut state = started(1_000);
    let step = begin_callback(
        &mut state,
        ParsedCallback::Success { code: "code-1".to_string(), state: "state-1".to_string() },
        2_000,
    );
    match step {
        CallbackStep::Exchange { code, code_verifier } => {
            assert_eq!(code, "code-1");
            assert_eq!(code_verifier, "verifier-1");
        }
        other => panic!("unexpected step {other:?}"),
    }
    assert!(state.attempt.is_none());
    assert!(state.last_error.is_none());
}

#[test]
fn refused_expired_and_foreign_callbacks() {
    let mut state = started(1_000);
    let step = begin_callback(&mut state, ParsedCallback::Denied { state: "state-1".to_string() }, 2_000);
    assert!(matches!(step, CallbackStep::Announce));
    assert_eq!(state.last_error.as_deref(), Some("Authorization was cancelled or denied."));
    assert!(state.attempt.is_none());

    let mut state = started(1_000);
    let step = begin_callback(
        &mut state,
        ParsedCallback::Success { code: "c".to_string(), state: "state-1".to_string() },
        1_000 + 10 * 60 * 1000 + 1,
    );
    assert!(matches!(step, CallbackStep::Announce));
    assert_eq!(state.last_error.as_deref(), Some("Authorization session expired. Try again."));

    let mut state = started(1_000);
    let step = begin_callback(&mut state, ParsedCallback::Denied { state: "other".to_string() }, 2_000);
    assert!(matches!(step, CallbackStep::Ignore));
    assert!(state.attempt.is_some());
    assert!(state.last_error.is_none());
}
