//! Audio playback contract of the application layer: the state shown to the
//! UI, the events engines emit and their classified errors. The engines
//! themselves (and the event bus) live outside the library.

use vstd::prelude::*;

use crate::domain::source::{source_label_spec, Source};
use crate::domain::track::{Track, TrackModel};

verus! {

/// Playback state shown to the UI.
#[derive(Debug, Clone, Copy, PartialEq, Eq, Structural)]
pub enum PlaybackState {
    Stopped,
    Buffering,
    Playing,
    Paused,
    /// A seek is re-anchoring the stream (transient).
    Seeking,
}

/// Snapshot of the current playback for the UI (milliseconds).
#[derive(Debug)]
pub struct PlaybackStatus {
    pub track: Option<Track>,
    pub state: PlaybackState,
    pub position_ms: u64,
    pub duration_ms: Option<u64>,
    /// The decoder waits for data (buffer underrun).
    pub stalled: bool,
}

/// Mathematical content of a [`PlaybackStatus`].
pub struct StatusModel {
    pub track: Option<TrackModel>,
    pub state: PlaybackState,
    pub position_ms: u64,
    pub duration_ms: Option<u64>,
    pub stalled: bool,
}

impl DeepView for PlaybackStatus {
    type V = StatusModel;

    open spec fn deep_view(&self) -> StatusModel {
        StatusModel {
            track: self.track.deep_view(),
            state: self.state,
            position_ms: self.position_ms,
            duration_ms: self.duration_ms,
            stalled: self.stalled,
        }
    }
}

impl Clone for PlaybackStatus {
    fn clone(&self) -> (r: Self)
        ensures
            r.deep_view() == self.deep_view(),
    {
        let track = match &self.track {
            Some(t) => Some(t.clone()),
            None => None,
        };
        PlaybackStatus {
            track,
            state: self.state,
            position_ms: self.position_ms,
            duration_ms: self.duration_ms,
            stalled: self.stalled,
        }
    }
}

impl PlaybackStatus {
    /// Nothing playing.
    pub fn idle() -> (s: Self)
        ensures
            s.track is None,
            s.state == PlaybackState::Stopped,
            s.position_ms == 0,
            s.duration_ms is None,
            !s.stalled,
    {
        PlaybackStatus {
            track: None,
            state: PlaybackState::Stopped,
            position_ms: 0,
            duration_ms: None,
            stalled: false,
        }
    }
}

/// Asynchronous events emitted by a playback engine.
#[derive(Debug, Clone, PartialEq, Eq)]
pub enum PlaybackEvent {
    /// The stream is being downloaded / prepared.
    Buffering,
    /// Playback started or resumed.
    Playing,
    /// Playback is paused.
    Paused,
    /// The song ended.
    Finished,
    /// The server restricted or closed the stream while playing: playback
    /// goes on with the next song (or replays this one) keeping metadata.
    Cut(String),
    /// Playback stopped.
    Stopped,
    /// Playback error (friendly description).
    Error(String),
}

/// Classified playback error.
#[derive(Debug, Clone, PartialEq, Eq)]
pub enum PlaybackError {
    /// The backend is not available (no device, daemon down, ...).
    Unavailable(String),
    /// Resolving / downloading the stream failed.
    Transport(String),
    /// The stream could not be decoded.
    Decode(String),
    /// The backend does not support the source of the song.
    Unsupported(Source),
}

/// Text of a playback error.
pub open spec fn playback_error_text(e: PlaybackError) -> Seq<char> {
    match e {
        PlaybackError::Unavailable(m) => m@,
        PlaybackError::Transport(m) => m@,
        PlaybackError::Decode(m) => m@,
        PlaybackError::Unsupported(s) => "el backend no soporta "@ + source_label_spec(s),
    }
}

impl PlaybackError {
    /// Display text of the error.
    pub fn to_string(&self) -> (s: String)
        ensures
            s@ == playback_error_text(*self),
    {
        match self {
            PlaybackError::Unavailable(m) => m.clone(),
            PlaybackError::Transport(m) => m.clone(),
            PlaybackError::Decode(m) => m.clone(),
            PlaybackError::Unsupported(src) => {
                let mut s = String::from_str("el backend no soporta ");
                s.append(src.label());
                s
            },
        }
    }
}

/// Backend selection policy.
#[derive(Debug, Clone, PartialEq, Eq)]
pub enum PlaybackPolicy {
    /// Per source: each song goes to the backend that supports it.
    Auto,
    /// Everything plays on the backend with this id.
    Global(String),
}

impl Default for PlaybackPolicy {
    fn default() -> (p: Self)
        ensures
            p is Auto,
    {
        PlaybackPolicy::Auto
    }
}

} // verus!
