//! Audio server state: the default sink's volume and mute flag.
//!
//! The audio client keeps one connection to the audio server, discovers the
//! default output sink, and republishes its volume as a flat state.  The
//! connection callbacks run on the audio library's own thread; everything
//! they decide is a pure function here, so the thread only performs queries
//! and hands the replies back.

use vstd::prelude::*;

verus! {

/// The published audio state.
#[derive(Debug, Clone, Copy, PartialEq, Eq, Structural)]
pub struct PulseAudioReducer {
    /// Volume of the first channel of the default sink, as a percentage
    /// (0-100), rounded to the nearest integer from the raw 0-65535 channel
    /// volume the server reports.
    pub volume: u32,
    /// Whether the default sink is muted.
    pub muted: bool,
}

/// Reduction messages for the audio state.
pub enum PulseAudioInput {
    /// A fresh raw channel volume (0-65535) and mute flag.
    Update(u32, bool),
}

/// The raw channel volume scaled to a percentage and rounded to nearest
/// (the scale never lands exactly half way, so nearest is unambiguous).
pub open spec fn volume_percent(raw: u32) -> int {
    (raw * 200 + 65535) / 131070
}

impl PulseAudioReducer {
    /// The state before the first server reply.
    pub fn init() -> (r: Self)
        ensures
            r.volume == 0,
            !r.muted,
    {
        PulseAudioReducer { volume: 0, muted: false }
    }

    /// Applies one update: each update fully replaces the prior value.
    pub fn reduce(&mut self, input: PulseAudioInput) -> (r: bool)
        ensures
            r,
            input matches PulseAudioInput::Update(raw, muted) ==> final(self).volume
                == volume_percent(raw) && final(self).muted == muted,
    {
        match input {
            PulseAudioInput::Update(raw, muted) => {
                self.volume = (((raw as u64) * 200 + 65535) / 131070) as u32;
                self.muted = muted;
            },
        }
        true
    }
}

/// Connection-context states, as the audio client library reports them.
#[derive(Debug, Clone, Copy, PartialEq, Eq, Structural)]
pub enum AudioContextState {
    Ready,
    Failed,
    Terminated,
    /// Any of the transient states while the connection is being set up.
    Connecting,
}

/// What the task blocked on the connection does after a state change.
#[derive(Debug, Clone, Copy, PartialEq, Eq, Structural)]
pub enum AudioWaitStep {
    /// The context is ready: go on to discover the default sink.
    Proceed,
    /// The connection failed or was terminated: this client is done.
    Fail,
    /// Still connecting: keep waiting.
    Wait,
}

/// Decides what the blocking wait does for a reported context state.
pub fn context_wait_step(state: &AudioContextState) -> (r: AudioWaitStep)
    ensures
        state is Ready ==> r == AudioWaitStep::Proceed,
        state is Failed || state is Terminated ==> r == AudioWaitStep::Fail,
        state is Connecting ==> r == AudioWaitStep::Wait,
{
    match state {
        AudioContextState::Ready => AudioWaitStep::Proceed,
        AudioContextState::Failed => AudioWaitStep::Fail,
        AudioContextState::Terminated => AudioWaitStep::Fail,
        AudioContextState::Connecting => AudioWaitStep::Wait,
    }
}

/// Whether a state-change callback should wake the blocked wait: only the
/// settled states are worth signalling.
pub fn should_signal(state: &AudioContextState) -> (r: bool)
    ensures
        r == !(state is Connecting),
{
    match state {
        AudioContextState::Connecting => false,
        _ => true,
    }
}

/// Where the audio session stands after the context became ready.
pub enum AudioSession {
    /// The server info query is out; the default sink is not yet known.
    AwaitingServer,
    /// The default sink is known and its change events are watched.
    Watching { default_sink: String },
}

/// What the audio library reports back to the session.
pub enum AudioSessionEvent {
    /// The server info reply, with the default sink's name if the server
    /// names one.
    ServerInfo(Option<String>),
    /// A sink-class change notification.
    SinkChanged,
    /// A sink info reply: raw channel volume and mute flag.
    SinkInfo(u32, bool),
}

/// What the session asks the surrounding task to do next.
pub enum AudioAction {
    /// Fetch volume and mute of the named sink.
    QuerySinkInfo(String),
    /// Publish this raw volume and mute flag.
    Emit(u32, bool),
    /// Nothing; an event before the default sink is known is dropped.
    Nothing,
}

/// The session transition: what each reply or notification leads to.
pub open spec fn session_step_spec(s: AudioSession, e: AudioSessionEvent) -> (
    AudioSession,
    AudioAction,
) {
    match e {
        AudioSessionEvent::ServerInfo(name) => match s {
            AudioSession::AwaitingServer => match name {
                Some(n) => (
                    AudioSession::Watching { default_sink: n },
                    AudioAction::QuerySinkInfo(n),
                ),
                None => (AudioSession::AwaitingServer, AudioAction::Nothing),
            },
            AudioSession::Watching { default_sink } => (
                AudioSession::Watching { default_sink },
                AudioAction::Nothing,
            ),
        },
        AudioSessionEvent::SinkChanged => match s {
            AudioSession::AwaitingServer => (AudioSession::AwaitingServer, AudioAction::Nothing),
            AudioSession::Watching { default_sink } => (
                AudioSession::Watching { default_sink },
                AudioAction::QuerySinkInfo(default_sink),
            ),
        },
        AudioSessionEvent::SinkInfo(raw, muted) => (s, AudioAction::Emit(raw, muted)),
    }
}

/// Advances the audio session by one event.
///
/// The default sink is discovered once from the server info reply; a change
/// notification re-queries that sink; a sink info reply is published.  A
/// notification arriving before the sink is known, or a server reply without
/// a default sink, changes nothing.
pub fn session_step(s: AudioSession, e: AudioSessionEvent) -> (r: (AudioSession, AudioAction))
    ensures
        r == session_step_spec(s, e),
{
    match e {
        AudioSessionEvent::ServerInfo(name) => match s {
            AudioSession::AwaitingServer => match name {
                Some(n) => {
                    let again = n.clone();
                    (
                        AudioSession::Watching { default_sink: n },
                        AudioAction::QuerySinkInfo(again),
                    )
                },
                None => (AudioSession::AwaitingServer, AudioAction::Nothing),
            },
            AudioSession::Watching { default_sink } => (
                AudioSession::Watching { default_sink },
                AudioAction::Nothing,
            ),
        },
        AudioSessionEvent::SinkChanged => match s {
            AudioSession::AwaitingServer => (AudioSession::AwaitingServer, AudioAction::Nothing),
            AudioSession::Watching { default_sink } => {
                let name = default_sink.clone();
                (
                    AudioSession::Watching { default_sink },
                    AudioAction::QuerySinkInfo(name),
                )
            },
        },
        AudioSessionEvent::SinkInfo(raw, muted) => (s, AudioAction::Emit(raw, muted)),
    }
}

} // verus!
