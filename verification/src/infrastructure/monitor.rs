//! Buffering monitor of the streaming playback: one decision per tick.
//!
//! The monitor loop (sleeping, pausing the player, emitting events) runs
//! outside the library; each tick it hands the observed state to
//! [`monitor_tick`] and applies the step it gets back.

use vstd::prelude::*;

use crate::app::audio::PlaybackState;
use crate::infrastructure::buffering::{adaptive_start_spec, buffer_decide_spec, BufferAction, BufferPolicy};

verus! {

/// What one tick observed.
#[derive(Debug, Clone, PartialEq, Eq)]
pub struct MonitorInput {
    /// The playback this monitor belongs to is still the current one.
    pub current: bool,
    /// Engine state.
    pub state: PlaybackState,
    /// Error of the stream, if it failed.
    pub error: Option<String>,
    /// CDN cut message, if the stream was cut.
    pub cut: Option<String>,
    /// The player has nothing left to play.
    pub player_empty: bool,
    /// Buffered audio not yet consumed (ms).
    pub buffered_ms: u64,
    /// The download reached the end of the stream.
    pub eof: bool,
}

/// What the monitor does after a tick.
#[derive(Debug, Clone, PartialEq, Eq)]
pub enum MonitorStep {
    /// The monitor ends (newer playback, stop, or natural end).
    Exit,
    /// Nothing to do now (paused by the user or seeking): sleep and retry.
    Idle,
    /// The stream failed: report the error and stop.
    StopOnError(String),
    /// The cut prefix is over: report the cut and stop.
    StopOnCut(String),
    /// Apply the buffer action; `playing` is the monitor's new belief.
    Act { action: BufferAction, playing: bool },
}

/// Step of a tick, given whether the monitor believed the player was
/// playing.
pub open spec fn monitor_spec(p: BufferPolicy, input: MonitorInput, playing: bool) -> MonitorStep {
    if !input.current {
        MonitorStep::Exit
    } else if input.state == PlaybackState::Paused || input.state == PlaybackState::Seeking {
        MonitorStep::Idle
    } else if input.state == PlaybackState::Stopped {
        MonitorStep::Exit
    } else {
        let now_playing = playing || input.state == PlaybackState::Playing;
        match input.error {
            Some(e) => MonitorStep::StopOnError(e),
            None => if input.cut is Some && input.player_empty {
                MonitorStep::StopOnCut(input.cut.unwrap())
            } else if input.eof && input.player_empty {
                MonitorStep::Exit
            } else {
                let action = buffer_decide_spec(p, now_playing, input.buffered_ms, input.eof);
                MonitorStep::Act {
                    action,
                    playing: match action {
                        BufferAction::PauseAndRefill => false,
                        BufferAction::Resume => true,
                        _ => now_playing,
                    },
                }
            },
        }
    }
}

/// Decides one tick of the buffering monitor.
pub fn monitor_tick(policy: &BufferPolicy, input: MonitorInput, playing: bool) -> (step: MonitorStep)
    ensures
        step == monitor_spec(*policy, input, playing),
{
    if !input.current {
        return MonitorStep::Exit;
    }
    match input.state {
        PlaybackState::Paused | PlaybackState::Seeking => return MonitorStep::Idle,
        PlaybackState::Stopped => return MonitorStep::Exit,
        _ => {},
    }
    let now_playing = match input.state {
        PlaybackState::Playing => true,
        _ => playing,
    };
    let cut_over = input.cut.is_some() && input.player_empty;
    match input.error {
        Some(e) => MonitorStep::StopOnError(e),
        None => {
            if cut_over {
                match input.cut {
                    Some(msg) => MonitorStep::StopOnCut(msg),
                    None => MonitorStep::Exit,
                }
            } else if input.eof && input.player_empty {
                MonitorStep::Exit
            } else {
                let action = policy.decide(now_playing, input.buffered_ms, input.eof);
                let next = match action {
                    BufferAction::PauseAndRefill => false,
                    BufferAction::Resume => true,
                    _ => now_playing,
                };
                MonitorStep::Act { action, playing: next }
            }
        },
    }
}

/// A user pause or a seek in progress is never overridden by the monitor,
/// and a monitor of an older playback always exits.
pub proof fn law_monitor_respects_user(p: BufferPolicy, input: MonitorInput, playing: bool)
    ensures
        !input.current ==> monitor_spec(p, input, playing) == MonitorStep::Exit,
        input.current && (input.state == PlaybackState::Paused || input.state
            == PlaybackState::Seeking) ==> monitor_spec(p, input, playing) == MonitorStep::Idle,
{
}

/// After the end of the stream the monitor never pauses to refill.
pub proof fn law_no_refill_after_eof(p: BufferPolicy, input: MonitorInput, playing: bool)
    requires
        input.eof,
    ensures
        !(monitor_spec(p, input, playing) matches MonitorStep::Act { action, .. } && action
            == BufferAction::PauseAndRefill),
{
}

/// State the engine settles in after a seek: a confirmed seek keeps a
/// paused playback paused (at the new position) and plays otherwise; a
/// failed seek moved nothing, so the engine plays again if it was playing
/// (or buffering, or seeking) and stops otherwise.
pub open spec fn seek_settled_spec(confirmed: bool, paused: bool, had_play: bool) -> PlaybackState {
    if confirmed {
        if paused { PlaybackState::Paused } else { PlaybackState::Playing }
    } else if had_play {
        PlaybackState::Playing
    } else {
        PlaybackState::Stopped
    }
}

/// Decides the state after a seek: `confirmed` is whether the player
/// confirmed the jump, `paused` and `had_play` describe the state before it.
pub fn seek_settled_state(confirmed: bool, paused: bool, had_play: bool) -> (s: PlaybackState)
    ensures
        s == seek_settled_spec(confirmed, paused, had_play),
{
    if confirmed {
        if paused {
            PlaybackState::Paused
        } else {
            PlaybackState::Playing
        }
    } else if had_play {
        PlaybackState::Playing
    } else {
        PlaybackState::Stopped
    }
}

/// What the stream buffer says of its end: download at end of stream, the
/// stream failed, the CDN cut it.
#[derive(Debug, Clone, Copy, PartialEq, Eq, Structural)]
pub struct StreamEnd {
    pub eof: bool,
    pub failed: bool,
    pub cut: bool,
}

/// The playback ended naturally: it was playing, paused or seeking, the
/// player has nothing left, and the stream (if any) reached its end with
/// neither a failure nor a cut.
pub open spec fn finished_spec(state: PlaybackState, player_empty: bool, stream: Option<StreamEnd>) -> bool {
    &&& (state == PlaybackState::Playing || state == PlaybackState::Paused || state
        == PlaybackState::Seeking)
    &&& player_empty
    &&& match stream {
        Some(b) => b.eof && !b.failed && !b.cut,
        None => true,
    }
}

/// Whether the status check reports the natural end of the playback (the
/// `Finished` event that lets autoplay move on).
pub fn finished_naturally(state: PlaybackState, player_empty: bool, stream: Option<StreamEnd>) -> (f: bool)
    ensures
        f == finished_spec(state, player_empty, stream),
{
    let active = match state {
        PlaybackState::Playing | PlaybackState::Paused | PlaybackState::Seeking => true,
        _ => false,
    };
    if !active || !player_empty {
        return false;
    }
    match stream {
        Some(b) => b.eof && !b.failed && !b.cut,
        None => true,
    }
}

/// A failed or cut stream never ends in `Finished` (so autoplay never skips
/// silently over an incomplete track): the monitor reports the failure, or
/// the cut once its prefix has played out, and the status check never
/// declares a natural end for such a stream.
pub proof fn law_no_finished_after_failed_or_cut(
    p: BufferPolicy,
    input: MonitorInput,
    playing: bool,
    state: PlaybackState,
    player_empty: bool,
    stream: StreamEnd,
)
    ensures
        stream.failed || stream.cut ==> !finished_spec(state, player_empty, Some(stream)),
        input.current && (input.state == PlaybackState::Playing || input.state
            == PlaybackState::Buffering) && input.error is Some ==> monitor_spec(p, input, playing)
            == MonitorStep::StopOnError(input.error.unwrap()),
        input.current && (input.state == PlaybackState::Playing || input.state
            == PlaybackState::Buffering) && input.error is None && input.cut is Some
            && input.player_empty ==> monitor_spec(p, input, playing) == MonitorStep::StopOnCut(
            input.cut.unwrap(),
        ),
{
}

/// Bitrate assumed when the container exposes neither size nor duration.
pub const FALLBACK_BITRATE: u64 = 128_000;

/// Playback bitrate (bits/s) of a stream of `content_length` bytes lasting
/// `total_ms` (at least one second counted; one second when unknown), never
/// below the fallback bitrate.
pub open spec fn playback_bitrate_spec(content_length: u64, total_ms: Option<u64>) -> int {
    let ms: int = match total_ms {
        Some(t) => if t < 1000 { 1000 } else { t as int },
        None => 1000,
    };
    let bps = content_length * 8000 / ms;
    if bps < FALLBACK_BITRATE { FALLBACK_BITRATE as int } else { bps }
}

/// Playback bitrate used to turn buffered bytes into time.
pub fn playback_bitrate(content_length: u64, total_ms: Option<u64>) -> (bps: u64)
    ensures
        bps as int == if playback_bitrate_spec(content_length, total_ms) > u64::MAX {
            u64::MAX as int
        } else {
            playback_bitrate_spec(content_length, total_ms)
        },
{
    let ms: u64 = match total_ms {
        Some(t) => if t < 1000 { 1000 } else { t },
        None => 1000,
    };
    let bits: u128 = (content_length as u128) * 8000;
    let bps: u128 = bits / (ms as u128);
    let bps: u128 = if bps < FALLBACK_BITRATE as u128 { FALLBACK_BITRATE as u128 } else { bps };
    if bps > u64::MAX as u128 {
        u64::MAX
    } else {
        bps as u64
    }
}

/// Wait for the initial buffer before playback starts.
#[derive(Debug, Clone, Copy, PartialEq, Eq, Structural)]
pub struct InitialFill {
    /// Buffered audio (ms) needed to start.
    pub target_ms: u64,
    /// The target was already adapted to the measured download speed.
    pub targeted: bool,
}

/// Outcome of one check of the initial fill.
#[derive(Debug, Clone, PartialEq, Eq)]
pub enum FillStep {
    /// Enough audio (or the whole stream) is there: start playing.
    Ready,
    /// Not yet: check again later.
    Wait,
    /// The stream failed or never filled the buffer in time.
    Failed(String),
}

/// Message when the initial buffer is never filled.
pub open spec fn fill_timeout_message() -> Seq<char> {
    "el stream no llena el buffer inicial (red demasiado lenta o cortada)"@
}

impl InitialFill {
    /// Starts with the default start threshold.
    pub fn new(policy: &BufferPolicy) -> (f: Self)
        ensures
            f.target_ms == policy.start_ms,
            !f.targeted,
    {
        InitialFill { target_ms: policy.start_ms, targeted: false }
    }

    /// One check of the initial fill: an error fails; the end of the stream
    /// starts; the first measured speed adapts the target once; enough
    /// buffered audio starts; past the timeout it fails; otherwise wait.
    pub fn tick(
        &mut self,
        error: Option<String>,
        eof: bool,
        speed_bps: u64,
        playback_bps: u64,
        buffered_ms: u64,
        elapsed_ms: u64,
        timeout_ms: u64,
    ) -> (step: FillStep)
        ensures
            match error {
                Some(e) => step matches FillStep::Failed(m) && m@ == e@ && *final(self) == *old(self),
                None => if eof {
                    step == FillStep::Ready && *final(self) == *old(self)
                } else {
                    let adapt = !old(self).targeted && speed_bps > 0;
                    &&& *final(self) == if adapt {
                        InitialFill { target_ms: adaptive_start_spec(speed_bps, playback_bps), targeted: true }
                    } else {
                        *old(self)
                    }
                    &&& if buffered_ms >= final(self).target_ms {
                        step == FillStep::Ready
                    } else if elapsed_ms > timeout_ms {
                        step matches FillStep::Failed(m) && m@ == fill_timeout_message()
                    } else {
                        step == FillStep::Wait
                    }
                },
            },
    {
        if let Some(e) = error {
            return FillStep::Failed(e);
        }
        if eof {
            return FillStep::Ready;
        }
        if !self.targeted && speed_bps > 0 {
            self.target_ms = BufferPolicy::adaptive_start(speed_bps, playback_bps);
            self.targeted = true;
        }
        if buffered_ms >= self.target_ms {
            return FillStep::Ready;
        }
        if elapsed_ms > timeout_ms {
            return FillStep::Failed(String::from_str("el stream no llena el buffer inicial (red demasiado lenta o cortada)"));
        }
        FillStep::Wait
    }
}

} // verus!
