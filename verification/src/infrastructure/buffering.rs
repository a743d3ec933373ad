//! Adaptive buffer policy of the streaming playback, in milliseconds of
//! audio already downloaded. Pure: the buffering monitor uses it to decide
//! when to pause, warn and resume.

use vstd::prelude::*;

verus! {

/// Action the monitor must apply.
#[derive(Debug, Clone, Copy, PartialEq, Eq, Structural)]
pub enum BufferAction {
    /// No change.
    NoChange,
    /// Low margin: signal "slow stream" without pausing.
    Warn,
    /// Pause playback and refill the buffer.
    PauseAndRefill,
    /// Resume playback.
    Resume,
}

/// Buffer thresholds (milliseconds of buffered audio).
#[derive(Debug, Clone, Copy, PartialEq, Eq, Structural)]
pub struct BufferPolicy {
    /// Initial start threshold, adjusted to the network speed.
    pub start_ms: u64,
    /// Below this, playback pauses to refill.
    pub critical_ms: u64,
    /// Above this, playback resumes after a refill.
    pub resume_ms: u64,
    /// Low margin: "slow stream" notice before reaching critical.
    pub low_ms: u64,
}

impl Default for BufferPolicy {
    fn default() -> (p: Self)
        ensures
            p.start_ms == 4000,
            p.critical_ms == 1500,
            p.resume_ms == 3500,
            p.low_ms == 3000,
    {
        BufferPolicy { start_ms: 4000, critical_ms: 1500, resume_ms: 3500, low_ms: 3000 }
    }
}

/// Adaptive start threshold: the slower the download against the playback
/// bitrate, the more margin before starting (1.5 s, 3 s or 4.5 s).
pub open spec fn adaptive_start_spec(speed_bps: u64, playback_bps: u64) -> u64 {
    if playback_bps == 0 || speed_bps >= 2 * playback_bps {
        1500
    } else if speed_bps >= playback_bps {
        3000
    } else {
        4500
    }
}

/// Decision of the monitor from whether it plays and the buffered margin.
pub open spec fn buffer_decide_spec(p: BufferPolicy, playing: bool, buffered_ms: u64, eof: bool) -> BufferAction {
    if eof {
        BufferAction::NoChange
    } else if playing {
        if buffered_ms < p.critical_ms {
            BufferAction::PauseAndRefill
        } else if buffered_ms < p.low_ms {
            BufferAction::Warn
        } else {
            BufferAction::NoChange
        }
    } else if buffered_ms >= p.resume_ms {
        BufferAction::Resume
    } else {
        BufferAction::NoChange
    }
}

impl BufferPolicy {
    /// Adaptive start threshold (ms) for a download speed and a playback
    /// bitrate in bits per second; an unknown bitrate (0) counts as fast.
    pub fn adaptive_start(speed_bps: u64, playback_bps: u64) -> (ms: u64)
        ensures
            ms == adaptive_start_spec(speed_bps, playback_bps),
            1500 <= ms <= 4500,
    {
        if playback_bps == 0 {
            return 1500;
        }
        let fast = speed_bps / 2 >= playback_bps;
        if fast {
            1500
        } else if speed_bps >= playback_bps {
            3000
        } else {
            4500
        }
    }

    /// Decision of the monitor: never refill after the end of the stream;
    /// while playing, pause below critical and warn below low; while paused,
    /// resume once the resume margin is back.
    pub fn decide(&self, playing: bool, buffered_ms: u64, eof: bool) -> (a: BufferAction)
        ensures
            a == buffer_decide_spec(*self, playing, buffered_ms, eof),
    {
        if eof {
            return BufferAction::NoChange;
        }
        if playing {
            if buffered_ms < self.critical_ms {
                BufferAction::PauseAndRefill
            } else if buffered_ms < self.low_ms {
                BufferAction::Warn
            } else {
                BufferAction::NoChange
            }
        } else if buffered_ms >= self.resume_ms {
            BufferAction::Resume
        } else {
            BufferAction::NoChange
        }
    }
}

/// After the end of the stream the monitor never pauses nor refills.
pub proof fn law_never_refill_after_eof(p: BufferPolicy, playing: bool, buffered_ms: u64)
    ensures
        buffer_decide_spec(p, playing, buffered_ms, true) == BufferAction::NoChange,
{
}

/// Hysteresis: a paused playback resumes only once the margin reaches the
/// resume threshold, and a playing one pauses only below the critical one.
pub proof fn law_resume_needs_margin(p: BufferPolicy, playing: bool, buffered_ms: u64)
    ensures
        buffer_decide_spec(p, playing, buffered_ms, false) == BufferAction::Resume ==> !playing
            && buffered_ms >= p.resume_ms,
        buffer_decide_spec(p, playing, buffered_ms, false) == BufferAction::PauseAndRefill ==> playing
            && buffered_ms < p.critical_ms,
{
}

/// While playing and before the end of the stream, the buffered margin
/// alone decides: below the critical threshold playback pauses to refill,
/// from the critical threshold up to the low one a slow-stream warning is
/// given, and from both thresholds on nothing changes. While paused,
/// playback resumes exactly from the resume threshold on.
pub proof fn law_margin_bands(p: BufferPolicy, buffered_ms: u64)
    ensures
        buffered_ms < p.critical_ms ==> buffer_decide_spec(p, true, buffered_ms, false)
            == BufferAction::PauseAndRefill,
        p.critical_ms <= buffered_ms < p.low_ms ==> buffer_decide_spec(p, true, buffered_ms, false)
            == BufferAction::Warn,
        p.critical_ms <= buffered_ms && p.low_ms <= buffered_ms ==> buffer_decide_spec(
            p,
            true,
            buffered_ms,
            false,
        ) == BufferAction::NoChange,
        p.resume_ms <= buffered_ms ==> buffer_decide_spec(p, false, buffered_ms, false)
            == BufferAction::Resume,
        buffered_ms < p.resume_ms ==> buffer_decide_spec(p, false, buffered_ms, false)
            == BufferAction::NoChange,
{
}

/// The slower the download against the playback bitrate, the more margin
/// before starting: at least twice the bitrate (or an unknown bitrate)
/// starts after 1.5 s, at least the bitrate after 3 s, slower after 4.5 s;
/// a faster download never waits longer.
pub proof fn law_adaptive_start_bands(speed_bps: u64, faster_bps: u64, playback_bps: u64)
    ensures
        playback_bps == 0 ==> adaptive_start_spec(speed_bps, playback_bps) == 1500,
        playback_bps > 0 && speed_bps >= 2 * playback_bps ==> adaptive_start_spec(speed_bps, playback_bps) == 1500,
        playback_bps <= speed_bps < 2 * playback_bps ==> adaptive_start_spec(speed_bps, playback_bps) == 3000,
        speed_bps < playback_bps ==> adaptive_start_spec(speed_bps, playback_bps) == 4500,
        speed_bps <= faster_bps ==> adaptive_start_spec(faster_bps, playback_bps) <= adaptive_start_spec(
            speed_bps,
            playback_bps,
        ),
{
}

} // verus!
