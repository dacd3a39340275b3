//! The decisions of a running Realtime session: what each thing that
//! reaches it does to its state, which action follows, and how it ends.
use vstd::prelude::*;
use crate::realtime::{sanitize_message, sanitized_message};
use crate::text::concat_str;

verus! {

/// The least time between two level events, in milliseconds.
pub const LEVEL_EVENT_INTERVAL_MS: u64 = 50;

/// What a running session has seen so far.
#[derive(Debug)]
pub struct WorkerState {
    /// When the last level event was sent, on a monotonic clock in
    /// milliseconds; `None` before the first.
    pub last_level_ms: Option<u64>,
    /// The session was asked to stop.
    pub stopped_by_command: bool,
    /// Why the session ended, where it failed.
    pub failed: Option<String>,
}

/// What reaches a running session.
#[derive(Debug)]
pub enum WorkerInput {
    /// The manager asks the session to stop.
    StopRequested,
    /// The manager's command channel closed.
    CommandsClosed,
    /// The capture stopped delivering audio.
    AudioClosed,
    /// A level reading at `now_ms`.
    Level { now_ms: u64 },
    /// The connection reported an error, with its description.
    ConnectionFailed { description: String },
    /// The connection ended.
    ConnectionClosed,
    /// A ping could not be answered.
    PongNotSent,
    /// The provider closed the session.
    ProviderClosed,
    /// Audio could not be sent, or an event could not be read: `message`
    /// says why.
    Failed { message: String },
}

/// What the session does next.
#[derive(Clone, Copy, Debug, PartialEq, Eq, Structural)]
pub enum WorkerAction {
    /// Wait for the next input.
    Continue,
    /// Send a level event to the renderer.
    EmitLevel,
    /// Stop the capture, close the provider session gracefully and end.
    StopGracefully,
    /// End at once.
    Finish,
}

/// What the renderer learns when a session has ended.
#[derive(Debug)]
pub enum WorkerEnd {
    /// Nothing: a newer session owns the channel, or the session ended
    /// without a request or a failure.
    Quiet,
    /// The channel is idle again.
    Idle,
    /// The session failed, for this reason.
    Error(String),
}

/// Why an input ends the session, where it does.
pub open spec fn failure_of(input: WorkerInput) -> Option<Seq<char>> {
    match input {
        WorkerInput::CommandsClosed => Some("Realtime controller stopped unexpectedly"@),
        WorkerInput::AudioClosed => Some("Audio capture stopped unexpectedly"@),
        WorkerInput::ConnectionFailed { description } => Some(
            "OpenAI Realtime connection failed: "@ + sanitized_message(description@),
        ),
        WorkerInput::ConnectionClosed => Some("OpenAI Realtime connection closed unexpectedly"@),
        WorkerInput::PongNotSent => Some("OpenAI Realtime connection stopped responding"@),
        WorkerInput::ProviderClosed => Some("OpenAI Realtime session closed unexpectedly"@),
        WorkerInput::Failed { message } => Some(message@),
        _ => None,
    }
}

/// A level reading at `now_ms` is shown where none was yet, or where the
/// last one is at least `LEVEL_EVENT_INTERVAL_MS` old.
pub open spec fn level_due(last_level_ms: Option<u64>, now_ms: u64) -> bool {
    match last_level_ms {
        None => true,
        Some(last) => now_ms >= last && now_ms - last >= LEVEL_EVENT_INTERVAL_MS,
    }
}

impl WorkerState {
    pub fn new() -> (r: WorkerState)
        ensures
            r.last_level_ms is None,
            !r.stopped_by_command,
            r.failed is None,
    {
        WorkerState { last_level_ms: None, stopped_by_command: false, failed: None }
    }
}

/// One step of a running session: a stop request leads to a graceful
/// close, a failure ends the session with its reason, and level readings
/// are thinned out.
pub fn worker_step(state: &mut WorkerState, input: WorkerInput) -> (r: WorkerAction)
    ensures
        match input {
            WorkerInput::StopRequested => {
                &&& r == WorkerAction::StopGracefully
                &&& final(state).stopped_by_command
                &&& final(state).failed == old(state).failed
                &&& final(state).last_level_ms == old(state).last_level_ms
            },
            WorkerInput::Level { now_ms } => if level_due(old(state).last_level_ms, now_ms) {
                &&& r == WorkerAction::EmitLevel
                &&& final(state).last_level_ms == Some(now_ms)
                &&& final(state).stopped_by_command == old(state).stopped_by_command
                &&& final(state).failed == old(state).failed
            } else {
                r == WorkerAction::Continue && *final(state) == *old(state)
            },
            _ => {
                &&& r == WorkerAction::Finish
                &&& (final(state).failed matches Some(m) && failure_of(input) == Some(m@))
                &&& final(state).stopped_by_command == old(state).stopped_by_command
                &&& final(state).last_level_ms == old(state).last_level_ms
            },
        },
{
    match input {
        WorkerInput::StopRequested => {
            state.stopped_by_command = true;
            WorkerAction::StopGracefully
        },
        WorkerInput::Level { now_ms } => {
            let due = match state.last_level_ms {
                None => true,
                Some(last) => now_ms >= last && now_ms - last >= LEVEL_EVENT_INTERVAL_MS,
            };
            if due {
                state.last_level_ms = Some(now_ms);
                WorkerAction::EmitLevel
            } else {
                WorkerAction::Continue
            }
        },
        WorkerInput::CommandsClosed => {
            state.failed = Some("Realtime controller stopped unexpectedly".to_owned());
            WorkerAction::Finish
        },
        WorkerInput::AudioClosed => {
            state.failed = Some("Audio capture stopped unexpectedly".to_owned());
            WorkerAction::Finish
        },
        WorkerInput::ConnectionFailed { description } => {
            let clean = sanitize_message(description.as_str());
            state.failed = Some(
                concat_str("OpenAI Realtime connection failed: ", clean.as_str()),
            );
            WorkerAction::Finish
        },
        WorkerInput::ConnectionClosed => {
            state.failed = Some("OpenAI Realtime connection closed unexpectedly".to_owned());
            WorkerAction::Finish
        },
        WorkerInput::PongNotSent => {
            state.failed = Some("OpenAI Realtime connection stopped responding".to_owned());
            WorkerAction::Finish
        },
        WorkerInput::ProviderClosed => {
            state.failed = Some("OpenAI Realtime session closed unexpectedly".to_owned());
            WorkerAction::Finish
        },
        WorkerInput::Failed { message } => {
            state.failed = Some(message);
            WorkerAction::Finish
        },
    }
}

/// What the renderer learns when the session has ended.
pub open spec fn end_of(state: WorkerState, is_current: bool) -> WorkerEnd {
    match state.failed {
        Some(m) => if is_current {
            WorkerEnd::Error(m)
        } else {
            WorkerEnd::Quiet
        },
        None => if state.stopped_by_command && is_current {
            WorkerEnd::Idle
        } else {
            WorkerEnd::Quiet
        },
    }
}

/// What the renderer learns when the session has ended: its failure or,
/// after a stop request, that the channel is idle; nothing where a newer
/// session owns the channel.
pub fn worker_end(state: WorkerState, is_current: bool) -> (r: WorkerEnd)
    ensures
        r == end_of(state, is_current),
{
    match state.failed {
        Some(m) => {
            if is_current {
                WorkerEnd::Error(m)
            } else {
                WorkerEnd::Quiet
            }
        },
        None => {
            if state.stopped_by_command && is_current {
                WorkerEnd::Idle
            } else {
                WorkerEnd::Quiet
            }
        },
    }
}

/// A session never reports a failure on a channel that a newer session
/// owns, and a session that ended on request without failing reports
/// that the channel is idle.
pub proof fn law_superseded_sessions_stay_quiet(state: WorkerState)
    ensures
        end_of(state, false) is Quiet,
        state.failed is Some ==> end_of(state, true) is Error,
        state.failed is None && state.stopped_by_command ==> end_of(state, true) is Idle,
{
}

} // verus!
