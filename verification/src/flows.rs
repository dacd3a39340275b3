//! The decisions of the sign-in flows between their network and credential
//! store steps: which request to send, and what a failure leaves behind.
use vstd::prelude::*;
use crate::api_error::{
    ApiError, ApiErrorPayload, MAX_ERROR_MESSAGE_LENGTH, error_from_payload, error_keys_ascending,
    is_invalid_response, is_plain_error, parse_api_error, payload_accepted,
    payload_keys_ascending, valid_error_code, valid_error_code_spec, valid_error_text,
    valid_error_text_spec,
};
use crate::auth::MAX_RESPONSE_LENGTH;
use crate::config::{AuthConfig, CLIENT_ID, REDIRECT_URI, SCOPE, url_opt_view};
use crate::oauth::{ParsedCallback, pair_str_views};
use crate::secret_store::StoredSessionKind;
use crate::session::{
    AuthState, CallbackAttempt, CallbackOutcome, Session, callback_outcome, signed_out,
    take_callback_attempt,
};
use crate::text::str_eq;
use crate::weburl::{WebUrl, joined_url};

verus! {

/// The error body of the OAuth token endpoint (RFC 6749, section 5.2).
#[derive(Debug)]
pub struct OAuthErrorResponse {
    pub error: String,
    pub error_description: Option<String>,
}

/// An OAuth error body whose code and description may cross to the
/// renderer.
pub open spec fn oauth_error_accepted(e: OAuthErrorResponse) -> bool {
    &&& valid_error_code_spec(e.error@)
    &&& e.error_description matches Some(d) ==> valid_error_text_spec(
        d@,
        MAX_ERROR_MESSAGE_LENGTH as nat,
    )
}

/// The error of a refused token request. `oauth_error` is the body read as
/// an OAuth error, `envelope` as an error envelope of the API; `None` where
/// the body is not one.
pub fn oauth_token_error(
    status: u16,
    oauth_error: Option<OAuthErrorResponse>,
    envelope: Option<ApiErrorPayload>,
) -> (r: ApiError)
    requires
        envelope matches Some(p) ==> payload_keys_ascending(p),
    ensures
        error_keys_ascending(r),
        match oauth_error {
            Some(o) if oauth_error_accepted(o) => is_plain_error(
                r,
                status,
                o.error@,
                match o.error_description {
                    Some(d) => d@,
                    None => "OAuth authorization was rejected."@,
                },
            ),
            _ => {
                &&& envelope is None ==> is_plain_error(
                    r,
                    status,
                    "http_error"@,
                    "Orcestr rejected the authentication request."@,
                )
                &&& envelope matches Some(p) ==> (!payload_accepted(p) ==> is_invalid_response(r))
                &&& envelope matches Some(p) ==> (payload_accepted(p) ==> error_from_payload(
                    r,
                    status,
                    p,
                ))
            },
        },
{
    match oauth_error {
        Some(o) => {
            let valid = valid_error_code(o.error.as_str()) && match &o.error_description {
                Some(d) => valid_error_text(d.as_str(), MAX_ERROR_MESSAGE_LENGTH),
                None => true,
            };
            if valid {
                let message = match o.error_description {
                    Some(d) => d,
                    None => "OAuth authorization was rejected.".to_owned(),
                };
                return ApiError::new(status, o.error.as_str(), message.as_str());
            }
        },
        None => {},
    }
    parse_api_error(status, envelope)
}

/// The form that exchanges an authorization code for tokens.
pub fn authorization_code_form<'a>(code: &'a str, code_verifier: &'a str) -> (r: Vec<
    (&'a str, &'a str),
>)
    ensures
        pair_str_views(r@) == seq![
            ("grant_type"@, "authorization_code"@),
            ("client_id"@, CLIENT_ID@),
            ("code"@, code@),
            ("redirect_uri"@, REDIRECT_URI@),
            ("code_verifier"@, code_verifier@),
        ],
{
    let r = vec![
        ("grant_type", "authorization_code"),
        ("client_id", CLIENT_ID),
        ("code", code),
        ("redirect_uri", REDIRECT_URI),
        ("code_verifier", code_verifier),
    ];
    proof {
        assert(pair_str_views(r@) =~= seq![
            ("grant_type"@, "authorization_code"@),
            ("client_id"@, CLIENT_ID@),
            ("code"@, code@),
            ("redirect_uri"@, REDIRECT_URI@),
            ("code_verifier"@, code_verifier@),
        ]);
    }
    r
}

/// The form that refreshes an OAuth session.
pub fn refresh_token_form<'a>(refresh_token: &'a str) -> (r: Vec<(&'a str, &'a str)>)
    ensures
        pair_str_views(r@) == seq![
            ("grant_type"@, "refresh_token"@),
            ("client_id"@, CLIENT_ID@),
            ("refresh_token"@, refresh_token@),
            ("scope"@, SCOPE@),
        ],
{
    let r = vec![
        ("grant_type", "refresh_token"),
        ("client_id", CLIENT_ID),
        ("refresh_token", refresh_token),
        ("scope", SCOPE),
    ];
    proof {
        assert(pair_str_views(r@) =~= seq![
            ("grant_type"@, "refresh_token"@),
            ("client_id"@, CLIENT_ID@),
            ("refresh_token"@, refresh_token@),
            ("scope"@, SCOPE@),
        ]);
    }
    r
}

/// The form that revokes an OAuth refresh token.
pub fn revoke_form<'a>(refresh_token: &'a str) -> (r: Vec<(&'a str, &'a str)>)
    ensures
        pair_str_views(r@) == seq![
            ("client_id"@, CLIENT_ID@),
            ("token"@, refresh_token@),
            ("token_type_hint"@, "refresh_token"@),
        ],
{
    let r = vec![
        ("client_id", CLIENT_ID),
        ("token", refresh_token),
        ("token_type_hint", "refresh_token"),
    ];
    proof {
        assert(pair_str_views(r@) =~= seq![
            ("client_id"@, CLIENT_ID@),
            ("token"@, refresh_token@),
            ("token_type_hint"@, "refresh_token"@),
        ]);
    }
    r
}

/// The access token that a native logout presents: that of the active
/// session, where it is a native one.
pub fn logout_bearer(active: Option<&Session>) -> (r: Option<&str>)
    ensures
        match active {
            Some(s) if s.kind == StoredSessionKind::Password => r matches Some(t) && t@
                == s.access_token@,
            _ => r is None,
        },
{
    match active {
        Some(session) => match session.kind {
            StoredSessionKind::Password => Some(session.access_token.as_str()),
            StoredSessionKind::OAuth2 => None,
        },
        None => None,
    }
}

/// Where the profile of a session of `kind` is read.
pub fn profile_endpoint(config: &AuthConfig, kind: StoredSessionKind) -> (r: Option<WebUrl>)
    ensures
        url_opt_view(r) == joined_url(
            config.api_base@,
            match kind {
                StoredSessionKind::Password => "auth/me/"@,
                StoredSessionKind::OAuth2 => "auth/oauth2/userinfo/"@,
            },
        ),
{
    match kind {
        StoredSessionKind::Password => config.native_me_endpoint(),
        StoredSessionKind::OAuth2 => config.oauth_userinfo_endpoint(),
    }
}

/// What a failed step leaves of the saved session and what the caller is
/// answered.
#[derive(Debug)]
pub struct FailureOutcome {
    /// The saved session is dropped from the credential store.
    pub clear_saved_session: bool,
    pub error: ApiError,
}

/// After new tokens were stored, a profile that could not be read signs the
/// user out; a refused access token also drops the saved session. The
/// rotated refresh token stays saved otherwise, so a later attempt can use
/// it.
pub fn after_profile_error(state: &mut AuthState, error: ApiError) -> (r: FailureOutcome)
    ensures
        signed_out(*final(state)),
        error.status == 401 ==> r.clear_saved_session && is_plain_error(
            r.error,
            401,
            "not_authenticated"@,
            "Sign in to continue."@,
        ),
        error.status != 401 ==> !r.clear_saved_session && r.error == error,
{
    state.set_signed_out();
    if error.status == 401 {
        FailureOutcome { clear_saved_session: true, error: ApiError::not_authenticated() }
    } else {
        FailureOutcome { clear_saved_session: false, error }
    }
}

/// A refresh that can never succeed with the saved token drops it and
/// signs the user out; any other failure changes nothing.
pub fn after_refresh_error(state: &mut AuthState, error: ApiError) -> (r: FailureOutcome)
    ensures
        error.invalidates_refresh_token_spec() ==> {
            &&& r.clear_saved_session
            &&& signed_out(*final(state))
            &&& is_plain_error(r.error, 401, "not_authenticated"@, "Sign in to continue."@)
        },
        !error.invalidates_refresh_token_spec() ==> {
            &&& !r.clear_saved_session
            &&& *final(state) == *old(state)
            &&& r.error == error
        },
{
    if error.invalidates_refresh_token() {
        state.set_signed_out();
        FailureOutcome { clear_saved_session: true, error: ApiError::not_authenticated() }
    } else {
        FailureOutcome { clear_saved_session: false, error }
    }
}

/// How a session restore at start-up ends: no saved session leaves the
/// user signed out; any other failure is shown.
pub fn after_bootstrap_error(state: &mut AuthState, error: &ApiError)
    ensures
        error.code@ == "not_authenticated"@ ==> signed_out(*final(state)),
        error.code@ != "not_authenticated"@ ==> {
            &&& final(state).attempt is None
            &&& final(state).session is None
            &&& !final(state).bootstrapping
            &&& (final(state).last_error matches Some(m) && m@ == error.message@)
        },
{
    if str_eq(error.code.as_str(), "not_authenticated") {
        state.set_signed_out();
    } else {
        state.fail(error.message.as_str());
    }
}

/// The capacity to reserve for a response body that declares
/// `content_length`; a declared length over `MAX_RESPONSE_LENGTH` refuses
/// the body before any of it is read.
pub fn declared_body_capacity(content_length: Option<u64>) -> (r: Result<usize, ApiError>)
    ensures
        match content_length {
            Some(n) if n > MAX_RESPONSE_LENGTH => r matches Err(e) && is_invalid_response(e),
            Some(n) => r == Ok::<usize, ApiError>(n as usize),
            None => r == Ok::<usize, ApiError>(0),
        },
{
    match content_length {
        Some(n) => {
            if n > MAX_RESPONSE_LENGTH as u64 {
                return Err(ApiError::invalid_response());
            }
            Ok(n as usize)
        },
        None => Ok(0),
    }
}


pub const AUTHORIZATION_DENIED_MESSAGE: &'static str = "Authorization was cancelled or denied.";

/// What follows a callback of the browser authorization.
#[derive(Debug)]
pub enum CallbackStep {
    /// The callback belongs to no authorization in progress: nothing
    /// changes and nothing is shown.
    Ignore,
    /// The sign-in state changed: show it.
    Announce,
    /// Exchange `code` with the verifier of the authorization it ends.
    Exchange { code: String, code_verifier: String },
}

/// Applies a callback to the sign-in state at `now_ms`: a callback of no
/// authorization in progress is ignored, an expired one ends it with an
/// error, a refusal ends it with an error, and a granted one hands over
/// its code with the PKCE verifier.
pub fn begin_callback(state: &mut AuthState, callback: ParsedCallback, now_ms: u64) -> (r: CallbackStep)
    ensures
        match callback_outcome(*old(state), callback.state_view(), now_ms) {
            CallbackOutcome::Ignored => r is Ignore && *final(state) == *old(state),
            CallbackOutcome::Expired => {
                &&& r is Announce
                &&& final(state).attempt is None
                &&& final(state).session is None
                &&& !final(state).bootstrapping
                &&& (final(state).last_error matches Some(m) && m@
                    == "Authorization session expired. Try again."@)
            },
            CallbackOutcome::Active => {
                &&& final(state).attempt is None
                &&& match callback {
                    ParsedCallback::Denied { .. } => {
                        &&& r is Announce
                        &&& final(state).session is None
                        &&& !final(state).bootstrapping
                        &&& (final(state).last_error matches Some(m) && m@
                            == AUTHORIZATION_DENIED_MESSAGE@)
                    },
                    ParsedCallback::Success { code, .. } => {
                        &&& (r matches CallbackStep::Exchange { code: c, code_verifier: v } && c@
                            == code@ && (old(state).attempt matches Some(a) && v
                            == a.code_verifier))
                        &&& final(state).session == old(state).session
                        &&& final(state).bootstrapping == old(state).bootstrapping
                        &&& final(state).last_error == old(state).last_error
                    },
                }
            },
        },
{
    let attempt = take_callback_attempt(state, callback.state(), now_ms);
    match attempt {
        CallbackAttempt::Ignored => CallbackStep::Ignore,
        CallbackAttempt::Expired => CallbackStep::Announce,
        CallbackAttempt::Active(a) => match callback {
            ParsedCallback::Denied { .. } => {
                state.fail(AUTHORIZATION_DENIED_MESSAGE);
                CallbackStep::Announce
            },
            ParsedCallback::Success { code, .. } => CallbackStep::Exchange {
                code,
                code_verifier: a.code_verifier,
            },
        },
    }
}

} // verus!
