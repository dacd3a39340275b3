//! The sign-in state of the application and the view of it that the
//! renderer receives.
use vstd::prelude::*;
use crate::api_error::{ApiError, is_plain_error};
use crate::json::Json;
use crate::secret_store::StoredSessionKind;
use crate::text::str_eq;

verus! {

/// How long a browser authorization may take, in milliseconds.
pub const ATTEMPT_LIFETIME_MS: u64 = 10 * 60 * 1000;

/// A browser authorization in progress: its PKCE secrets and the time, on a
/// monotonic clock in milliseconds, at which it began.
#[derive(Debug)]
pub struct AuthAttempt {
    pub state: String,
    pub code_verifier: String,
    pub created_at_ms: u64,
}

/// A signed-in session. The access token exists only in process memory.
#[derive(Debug)]
pub struct Session {
    pub access_token: String,
    pub kind: StoredSessionKind,
    pub profile: Json,
}

#[derive(Debug)]
pub struct AuthState {
    pub attempt: Option<AuthAttempt>,
    pub session: Option<Session>,
    pub bootstrapping: bool,
    pub last_error: Option<String>,
}

#[derive(Clone, Copy, Debug, PartialEq, Eq, Structural)]
pub enum AuthPhase {
    Bootstrapping,
    Authenticated,
    Authorizing,
    Error,
    SignedOut,
}

impl AuthPhase {
    /// The name of the phase in the renderer's contract.
    pub open spec fn name(self) -> Seq<char> {
        match self {
            AuthPhase::Bootstrapping => "bootstrapping"@,
            AuthPhase::Authenticated => "authenticated"@,
            AuthPhase::Authorizing => "authorizing"@,
            AuthPhase::Error => "error"@,
            AuthPhase::SignedOut => "signedOut"@,
        }
    }

    pub fn as_str(self) -> (r: &'static str)
        ensures
            r@ == self.name(),
    {
        match self {
            AuthPhase::Bootstrapping => "bootstrapping",
            AuthPhase::Authenticated => "authenticated",
            AuthPhase::Authorizing => "authorizing",
            AuthPhase::Error => "error",
            AuthPhase::SignedOut => "signedOut",
        }
    }
}

/// What the renderer learns of the sign-in state: never a token.
#[derive(Debug)]
pub struct AuthSnapshot<'a> {
    pub phase: AuthPhase,
    pub profile: Option<&'a Json>,
    pub message: Option<&'a String>,
}

pub open spec fn phase_of(s: AuthState) -> AuthPhase {
    if s.bootstrapping {
        AuthPhase::Bootstrapping
    } else if s.session is Some {
        AuthPhase::Authenticated
    } else if s.attempt is Some {
        AuthPhase::Authorizing
    } else if s.last_error is Some {
        AuthPhase::Error
    } else {
        AuthPhase::SignedOut
    }
}

/// The content of the renderer's snapshot of `s`: the phase, the profile
/// of an authenticated session, the message of an error.
pub open spec fn snapshot_view(s: AuthState) -> (AuthPhase, Option<Json>, Option<Seq<char>>) {
    let phase = phase_of(s);
    (
        phase,
        if phase == AuthPhase::Authenticated {
            Some(s.session->0.profile)
        } else {
            None
        },
        if phase == AuthPhase::Error {
            Some(s.last_error->0@)
        } else {
            None
        },
    )
}

pub open spec fn snapshot_matches(r: AuthSnapshot, s: AuthState) -> bool {
    &&& r.phase == snapshot_view(s).0
    &&& match r.profile {
        Some(p) => snapshot_view(s).1 == Some(*p),
        None => snapshot_view(s).1 is None,
    }
    &&& match r.message {
        Some(m) => snapshot_view(s).2 == Some(m@),
        None => snapshot_view(s).2 is None,
    }
}

pub fn snapshot_from_state(state: &AuthState) -> (r: AuthSnapshot<'_>)
    ensures
        snapshot_matches(r, *state),
{
    if state.bootstrapping {
        return AuthSnapshot { phase: AuthPhase::Bootstrapping, profile: None, message: None };
    }
    if let Some(session) = &state.session {
        return AuthSnapshot {
            phase: AuthPhase::Authenticated,
            profile: Some(&session.profile),
            message: None,
        };
    }
    if state.attempt.is_some() {
        return AuthSnapshot { phase: AuthPhase::Authorizing, profile: None, message: None };
    }
    if let Some(message) = &state.last_error {
        return AuthSnapshot { phase: AuthPhase::Error, profile: None, message: Some(message) };
    }
    AuthSnapshot { phase: AuthPhase::SignedOut, profile: None, message: None }
}

/// `s` with the access token of its session replaced by `token`.
pub open spec fn with_access_token(s: AuthState, token: String) -> AuthState {
    AuthState {
        session: match s.session {
            Some(session) => Some(Session { access_token: token, ..session }),
            None => None,
        },
        ..s
    }
}

/// The renderer's snapshot never depends on the access token.
pub proof fn law_snapshot_omits_access_token(s: AuthState, token: String)
    ensures
        snapshot_view(with_access_token(s, token)) == snapshot_view(s),
{
}

/// A signed-out state with nothing in progress.
pub open spec fn signed_out(s: AuthState) -> bool {
    s.attempt is None && s.session is None && !s.bootstrapping && s.last_error is None
}

impl AuthState {
    pub fn new() -> (r: AuthState)
        ensures
            signed_out(r),
    {
        AuthState { attempt: None, session: None, bootstrapping: false, last_error: None }
    }

    /// Begins restoring a saved session: everything in memory is dropped.
    pub fn begin_bootstrap(&mut self)
        ensures
            final(self).attempt is None,
            final(self).session is None,
            final(self).bootstrapping,
            final(self).last_error is None,
    {
        self.attempt = None;
        self.session = None;
        self.bootstrapping = true;
        self.last_error = None;
    }

    pub fn set_authenticated(&mut self, kind: StoredSessionKind, access_token: String, profile: Json)
        ensures
            *final(self) == (AuthState {
                attempt: None,
                session: Some(Session { access_token, kind, profile }),
                bootstrapping: false,
                last_error: None,
            }),
    {
        self.attempt = None;
        self.bootstrapping = false;
        self.last_error = None;
        self.session = Some(Session { access_token, kind, profile });
    }

    pub fn set_signed_out(&mut self)
        ensures
            signed_out(*final(self)),
    {
        self.attempt = None;
        self.session = None;
        self.bootstrapping = false;
        self.last_error = None;
    }

    /// Records a failure that the renderer shows; the session and any
    /// authorization end.
    pub fn fail(&mut self, message: &str)
        ensures
            final(self).attempt is None,
            final(self).session is None,
            !final(self).bootstrapping,
            (final(self).last_error matches Some(m) && m@ == message@),
    {
        self.attempt = None;
        self.session = None;
        self.bootstrapping = false;
        self.last_error = Some(message.to_owned());
    }

    /// Records a new browser authorization; it replaces the session.
    pub fn begin_attempt(&mut self, state: String, code_verifier: String, now_ms: u64)
        ensures
            *final(self) == begin_attempt_spec(state, code_verifier, now_ms),
    {
        self.attempt = Some(AuthAttempt { state, code_verifier, created_at_ms: now_ms });
        self.session = None;
        self.bootstrapping = false;
        self.last_error = None;
    }
}

pub open spec fn begin_attempt_spec(state: String, code_verifier: String, now_ms: u64) -> AuthState {
    AuthState {
        attempt: Some(AuthAttempt { state, code_verifier, created_at_ms: now_ms }),
        session: None,
        bootstrapping: false,
        last_error: None,
    }
}

/// A new browser authorization may not silently replace one in progress.
pub fn ensure_oauth_start_allowed(state: &AuthState) -> (r: Result<(), ApiError>)
    ensures
        r is Ok == state.attempt is None,
        r matches Err(e) ==> is_plain_error(
            e,
            409,
            "oauth_authorization_in_progress"@,
            "Cancel or retry the current authorization attempt first."@,
        ),
{
    if state.attempt.is_some() {
        return Err(
            ApiError::new(
                409,
                "oauth_authorization_in_progress",
                "Cancel or retry the current authorization attempt first.",
            ),
        );
    }
    Ok(())
}

/// Cancels a browser authorization; an authenticated session is kept.
pub fn clear_oauth_attempt(state: &mut AuthState)
    ensures
        old(state).session is Some ==> *final(state) == *old(state),
        old(state).session is None ==> signed_out(*final(state)),
{
    if state.session.is_none() {
        state.attempt = None;
        state.bootstrapping = false;
        state.last_error = None;
    }
}

/// The session that a current-user request refreshes. While a browser
/// authorization is in progress the user is not signed in, and the attempt
/// is kept so that its callback stays valid.
pub fn session_for_me(state: &AuthState) -> (r: Result<Option<&Session>, ApiError>)
    ensures
        match r {
            Ok(Some(s)) => state.session == Some(*s),
            Ok(None) => state.session is None && state.attempt is None,
            Err(e) => state.session is None && state.attempt is Some && is_plain_error(
                e,
                401,
                "not_authenticated"@,
                "Sign in to continue."@,
            ),
        },
{
    if let Some(session) = &state.session {
        return Ok(Some(session));
    }
    if state.attempt.is_some() {
        return Err(ApiError::not_authenticated());
    }
    Ok(None)
}

#[derive(Debug)]
pub enum CallbackAttempt {
    /// The callback belongs to no authorization in progress.
    Ignored,
    /// The callback matches an authorization that outlived its lifetime.
    Expired,
    /// The callback matches the authorization in progress, which it ends.
    Active(AuthAttempt),
}

pub open spec fn elapsed_ms(created_at_ms: u64, now_ms: u64) -> int {
    if now_ms >= created_at_ms {
        now_ms - created_at_ms
    } else {
        0
    }
}

#[derive(Clone, Copy, Debug, PartialEq, Eq, Structural)]
pub enum CallbackOutcome {
    Ignored,
    Expired,
    Active,
}

/// What a callback carrying `callback_state` does to `s` at `now_ms`.
pub open spec fn callback_outcome(s: AuthState, callback_state: Seq<char>, now_ms: u64) -> CallbackOutcome {
    match s.attempt {
        None => CallbackOutcome::Ignored,
        Some(a) => if a.state@ != callback_state {
            CallbackOutcome::Ignored
        } else if elapsed_ms(a.created_at_ms, now_ms) > ATTEMPT_LIFETIME_MS {
            CallbackOutcome::Expired
        } else {
            CallbackOutcome::Active
        },
    }
}

/// Matches a callback with the authorization in progress. A callback for
/// another authorization changes nothing; an expired one ends it with an
/// error; a valid one hands it over.
pub fn take_callback_attempt(state: &mut AuthState, callback_state: &str, now_ms: u64) -> (r:
    CallbackAttempt)
    ensures
        match callback_outcome(*old(state), callback_state@, now_ms) {
            CallbackOutcome::Ignored => r is Ignored && *final(state) == *old(state),
            CallbackOutcome::Expired => {
                &&& r is Expired
                &&& final(state).attempt is None
                &&& final(state).session is None
                &&& !final(state).bootstrapping
                &&& (final(state).last_error matches Some(m) && m@
                    == "Authorization session expired. Try again."@)
            },
            CallbackOutcome::Active => {
                &&& (r matches CallbackAttempt::Active(a) && old(state).attempt == Some(a))
                &&& final(state).attempt is None
                &&& final(state).session == old(state).session
                &&& final(state).bootstrapping == old(state).bootstrapping
                &&& final(state).last_error == old(state).last_error
            },
        },
{
    let expired = match &state.attempt {
        None => return CallbackAttempt::Ignored,
        Some(attempt) => {
            if !str_eq(attempt.state.as_str(), callback_state) {
                return CallbackAttempt::Ignored;
            }
            let elapsed: u64 = if now_ms >= attempt.created_at_ms {
                now_ms - attempt.created_at_ms
            } else {
                0
            };
            elapsed > ATTEMPT_LIFETIME_MS
        },
    };
    if expired {
        state.attempt = None;
        state.session = None;
        state.bootstrapping = false;
        state.last_error = Some("Authorization session expired. Try again.".to_owned());
        return CallbackAttempt::Expired;
    }
    match state.attempt.take() {
        Some(attempt) => CallbackAttempt::Active(attempt),
        None => CallbackAttempt::Ignored,
    }
}

/// A browser authorization that began at `started_ms` accepts its own
/// callback until its lifetime ends, and a callback for another state
/// never.
pub proof fn law_callback_of_fresh_attempt(
    state: String,
    code_verifier: String,
    started_ms: u64,
    callback_state: Seq<char>,
    now_ms: u64,
)
    requires
        started_ms <= now_ms,
    ensures
        callback_state == state@ && now_ms - started_ms <= ATTEMPT_LIFETIME_MS ==> callback_outcome(
            begin_attempt_spec(state, code_verifier, started_ms),
            callback_state,
            now_ms,
        ) == CallbackOutcome::Active,
        callback_state == state@ && now_ms - started_ms > ATTEMPT_LIFETIME_MS ==> callback_outcome(
            begin_attempt_spec(state, code_verifier, started_ms),
            callback_state,
            now_ms,
        ) == CallbackOutcome::Expired,
        callback_state != state@ ==> callback_outcome(
            begin_attempt_spec(state, code_verifier, started_ms),
            callback_state,
            now_ms,
        ) == CallbackOutcome::Ignored,
{
}

/// Ends the session in memory only once the credential store has dropped
/// it; otherwise the user stays signed in and learns why.
pub fn apply_logout_clear_result(state: &mut AuthState, clear_result: Result<(), String>) -> (r:
    Result<(), ApiError>)
    ensures
        clear_result is Ok ==> r is Ok && signed_out(*final(state)),
        clear_result is Err ==> *final(state) == *old(state) && (r matches Err(e) && is_plain_error(
            e,
            500,
            "credential_store_unavailable"@,
            "Could not clear the saved session from the OS credential store. You remain signed in."@,
        )),
{
    if clear_result.is_err() {
        return Err(
            ApiError::credential_store(
                "Could not clear the saved session from the OS credential store. You remain signed in.",
            ),
        );
    }
    state.attempt = None;
    state.session = None;
    state.bootstrapping = false;
    state.last_error = None;
    Ok(())
}

} // verus!
