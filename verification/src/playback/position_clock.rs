//! Playback position clock: the audio is the source of truth for time.
//!
//! The engine reports the position (derived from consumed samples) only
//! every ~500 ms; this clock keeps a continuous reading that is
//!
//! - **monotonic** within one track (a reported position that goes back is
//!   a spurious reset of the re-buffer, not a real rewind);
//! - **extrapolated** while playing (last sample + real time elapsed since
//!   it), frozen while paused or stalled;
//! - **re-anchored on EVERY sample**, even when the position did not move,
//!   so a long pause is never accumulated;
//! - **aware of a pending seek**: until the engine confirms the jump it
//!   follows the REAL audio clock, and adopts the target on confirmation.
//!
//! Durations are milliseconds; instants are monotonic milliseconds supplied
//! by the caller.

use vstd::prelude::*;

use crate::text::same_text;

verus! {

/// A user seek not yet confirmed by the engine.
#[derive(Debug, Clone, Copy, PartialEq, Eq, Structural)]
pub struct PendingSeek {
    pub target_ms: u64,
}

/// Target of a relative seek: `delta` whole seconds from the whole seconds
/// of `base_ms`, never below zero, never beyond `duration_ms` when known.
pub open spec fn clamp_seek_spec(base_ms: u64, delta: i64, duration_ms: Option<u64>) -> u64 {
    let sum = (base_ms / 1000) as int + delta;
    let secs = if sum > i64::MAX { i64::MAX as int } else if sum < 0 { 0 } else { sum };
    let target = if secs * 1000 > u64::MAX { u64::MAX as int } else { secs * 1000 };
    match duration_ms {
        Some(total) => if total != 0 && target > total { total } else { target as u64 },
        None => target as u64,
    }
}

/// Limits a relative seek target to the real bounds of the audio: never
/// negative nor beyond `duration_ms` (when known). `base_ms` is the current
/// position and `delta` the jump in seconds (negative = backwards).
pub fn clamp_seek_target(base_ms: u64, delta: i64, duration_ms: Option<u64>) -> (r: u64)
    ensures
        r == clamp_seek_spec(base_ms, delta, duration_ms),
{
    let base_secs: i64 = (base_ms / 1000) as i64;
    let sum: i64 = if delta > 0 && base_secs > i64::MAX - delta {
        i64::MAX
    } else {
        base_secs + delta
    };
    let secs: u64 = if sum < 0 { 0 } else { sum as u64 };
    let target: u64 = if secs > u64::MAX / 1000 { u64::MAX } else { secs * 1000 };
    match duration_ms {
        Some(total) => if total != 0 && target > total { total } else { target },
        None => target,
    }
}

/// What changed when a sample was taken in.
#[derive(Debug, Clone, Copy, PartialEq, Eq, Structural)]
pub enum ClockEvent {
    /// No active track: the clock went off (song ended or stopped).
    Cleared,
    /// New track, or first sample after clearing: consumers must drop the
    /// state of the previous track (e.g. lyrics).
    NewTrack,
}

/// Master position clock.
#[derive(Debug)]
pub struct PositionClock {
    track_key: Option<String>,
    position_ms: u64,
    seek: Option<PendingSeek>,
    synced_at: Option<u64>,
}

/// Mathematical state of the clock.
pub struct ClockModel {
    pub key: Option<Seq<char>>,
    pub position: u64,
    pub seek: Option<u64>,
    pub synced_at: Option<u64>,
}

impl View for PositionClock {
    type V = ClockModel;

    closed spec fn view(&self) -> ClockModel {
        ClockModel {
            key: match self.track_key {
                Some(k) => Some(k@),
                None => None,
            },
            position: self.position_ms,
            seek: match self.seek {
                Some(s) => Some(s.target_ms),
                None => None,
            },
            synced_at: self.synced_at,
        }
    }
}

/// A clock that tracks nothing.
pub open spec fn off_clock() -> ClockModel {
    ClockModel { key: None, position: 0, seek: None, synced_at: None }
}

/// Distance between two instants or positions.
pub open spec fn abs_diff(a: u64, b: u64) -> nat {
    if a >= b {
        (a - b) as nat
    } else {
        (b - a) as nat
    }
}

/// Clock after a sample `(key, reported, now)`, and the event it raises.
pub open spec fn update_spec(m: ClockModel, key: Option<Seq<char>>, reported: u64, now: u64) -> (ClockModel, Option<ClockEvent>) {
    match key {
        None => if m.key is Some || m.position != 0 {
            (off_clock(), Some(ClockEvent::Cleared))
        } else {
            (m, None)
        },
        Some(k) => if m.key != Some(k) {
            (ClockModel { key: Some(k), position: reported, seek: None, synced_at: Some(now) }, Some(ClockEvent::NewTrack))
        } else {
            match m.seek {
                Some(target) => if abs_diff(reported, target) <= 1000 {
                    (ClockModel { position: target, synced_at: Some(now), seek: None, ..m }, None)
                } else {
                    (ClockModel { position: reported, synced_at: Some(now), ..m }, None)
                },
                None => (ClockModel {
                    position: if reported > m.position { reported } else { m.position },
                    synced_at: Some(now),
                    ..m
                }, None),
            }
        },
    }
}

/// Reading of the clock at `now`: extrapolated while playing (and not
/// stalled), frozen otherwise, never beyond a known non-zero duration.
pub open spec fn snapshot_spec(m: ClockModel, playing: bool, stalled: bool, duration_ms: Option<u64>, now: u64) -> u64 {
    let value: int = if playing && !stalled {
        match m.synced_at {
            Some(t) => {
                let elapsed: int = if now >= t { now - t } else { 0 };
                if m.position + elapsed > u64::MAX { u64::MAX as int } else { m.position + elapsed }
            },
            None => m.position as int,
        }
    } else {
        m.position as int
    };
    match duration_ms {
        Some(total) => if total != 0 && value > total { total } else { value as u64 },
        None => value as u64,
    }
}

impl PositionClock {
    /// Clock tracking nothing.
    pub fn new() -> (c: Self)
        ensures
            c@ == off_clock(),
    {
        PositionClock { track_key: None, position_ms: 0, seek: None, synced_at: None }
    }

    /// Takes in a sample of the engine. `key` is the stable identifier of
    /// the playing track (`None` when the engine reports a stop); the event
    /// tells consumers to drop what belonged to the previous track.
    pub fn update(&mut self, key: Option<&str>, reported_ms: u64, now: u64) -> (ev: Option<ClockEvent>)
        ensures
            ({
                let kv = match key {
                    Some(k) => Some(k@),
                    None => None,
                };
                (final(self)@, ev) == update_spec(old(self)@, kv, reported_ms, now)
            }),
    {
        match key {
            None => {
                if self.track_key.is_some() || self.position_ms != 0 {
                    *self = PositionClock::new();
                    return Some(ClockEvent::Cleared);
                }
                None
            },
            Some(k) => {
                let same = match &self.track_key {
                    Some(current) => same_text(current.as_str(), k),
                    None => false,
                };
                if !same {
                    self.track_key = Some(k.to_owned());
                    self.position_ms = reported_ms;
                    self.synced_at = Some(now);
                    self.seek = None;
                    return Some(ClockEvent::NewTrack);
                }
                match self.seek {
                    Some(seek) => {
                        let diff = if reported_ms >= seek.target_ms {
                            reported_ms - seek.target_ms
                        } else {
                            seek.target_ms - reported_ms
                        };
                        if diff <= 1000 {
                            self.position_ms = seek.target_ms;
                            self.synced_at = Some(now);
                            self.seek = None;
                        } else {
                            self.position_ms = reported_ms;
                            self.synced_at = Some(now);
                        }
                        None
                    },
                    None => {
                        if reported_ms > self.position_ms {
                            self.position_ms = reported_ms;
                        }
                        self.synced_at = Some(now);
                        None
                    },
                }
            },
        }
    }

    /// Records a user seek not yet confirmed.
    pub fn begin_seek(&mut self, target_ms: u64)
        ensures
            final(self)@ == (ClockModel { seek: Some(target_ms), ..old(self)@ }),
    {
        self.seek = Some(PendingSeek { target_ms });
    }

    /// Confirms the seek EXTERNALLY (the backend reported success): the
    /// clock re-anchors to the chosen target at once.
    pub fn confirm_seek(&mut self, now: u64)
        ensures
            final(self)@ == match old(self)@.seek {
                Some(t) => ClockModel { position: t, synced_at: Some(now), seek: None, ..old(self)@ },
                None => old(self)@,
            },
    {
        if let Some(seek) = self.seek {
            self.seek = None;
            self.position_ms = seek.target_ms;
            self.synced_at = Some(now);
        }
    }

    /// Cancels a pending seek (another order arrived before confirmation).
    pub fn cancel_pending_seek(&mut self)
        ensures
            final(self)@ == (ClockModel { seek: None, ..old(self)@ }),
    {
        self.seek = None;
    }

    /// Replay of the SAME track: rewinds to zero without changing track.
    pub fn restart_same_track(&mut self)
        ensures
            final(self)@ == (ClockModel { position: 0, synced_at: None, seek: None, ..old(self)@ }),
    {
        self.position_ms = 0;
        self.synced_at = None;
        self.seek = None;
    }

    /// Switches the clock off completely.
    pub fn clear(&mut self)
        ensures
            final(self)@ == off_clock(),
    {
        *self = PositionClock::new();
    }

    /// Reading right now (see [`snapshot_spec`]).
    pub fn snapshot(&self, playing: bool, stalled: bool, duration_ms: Option<u64>, now: u64) -> (r: u64)
        ensures
            r == snapshot_spec(self@, playing, stalled, duration_ms, now),
    {
        let value: u64 = if playing && !stalled {
            match self.synced_at {
                Some(t) => {
                    let elapsed: u64 = if now >= t { now - t } else { 0 };
                    if self.position_ms > u64::MAX - elapsed {
                        u64::MAX
                    } else {
                        self.position_ms + elapsed
                    }
                },
                None => self.position_ms,
            }
        } else {
            self.position_ms
        };
        match duration_ms {
            Some(total) => if total != 0 && value > total { total } else { value },
            None => value,
        }
    }

    /// Base position (no extrapolation).
    pub fn position(&self) -> (p: u64)
        ensures
            p == self@.position,
    {
        self.position_ms
    }

    /// Key of the tracked track.
    pub fn track_key(&self) -> (k: Option<&str>)
        ensures
            match k {
                Some(s) => self@.key == Some(s@),
                None => self@.key is None,
            },
    {
        match &self.track_key {
            Some(s) => Some(s.as_str()),
            None => None,
        }
    }

    /// The pending seek, if any.
    pub fn pending_seek(&self) -> (s: Option<PendingSeek>)
        ensures
            match s {
                Some(p) => self@.seek == Some(p.target_ms),
                None => self@.seek is None,
            },
    {
        self.seek
    }

    /// Moves the anchor instant (simulates an old sample, e.g. a long pause).
    pub fn force_anchor(&mut self, at: u64)
        ensures
            final(self)@ == (ClockModel { synced_at: Some(at), ..old(self)@ }),
    {
        self.synced_at = Some(at);
    }
}

impl Default for PositionClock {
    fn default() -> (c: Self)
        ensures
            c@ == off_clock(),
    {
        PositionClock::new()
    }
}

/// Within one track and without a pending seek the clock never goes back:
/// a smaller reported position is a spurious reset, not a rewind.
pub proof fn law_monotonic_within_track(m: ClockModel, k: Seq<char>, reported: u64, now: u64)
    requires
        m.key == Some(k),
        m.seek is None,
    ensures
        update_spec(m, Some(k), reported, now).0.position >= m.position,
        update_spec(m, Some(k), reported, now).1 is None,
{
}

/// Switching track always announces it and restarts from the reported
/// position, forgetting any pending seek.
pub proof fn law_new_track_resets(m: ClockModel, k: Seq<char>, reported: u64, now: u64)
    requires
        m.key != Some(k),
    ensures
        update_spec(m, Some(k), reported, now).1 == Some(ClockEvent::NewTrack),
        update_spec(m, Some(k), reported, now).0.position == reported,
        update_spec(m, Some(k), reported, now).0.seek is None,
{
}

/// Stopping clears the clock once; a second empty sample raises nothing.
pub proof fn law_clear_is_idempotent(m: ClockModel, r1: u64, r2: u64, now: u64)
    ensures
        update_spec(update_spec(m, None, r1, now).0, None, r2, now).1 is None,
        update_spec(update_spec(m, None, r1, now).0, None, r2, now).0 == update_spec(m, None, r1, now).0,
{
}

/// A reading never exceeds a known non-zero duration, and while paused or
/// stalled it is the base position (clamped).
pub proof fn law_snapshot_bounds(m: ClockModel, playing: bool, stalled: bool, total: u64, now: u64)
    requires
        total != 0,
    ensures
        snapshot_spec(m, playing, stalled, Some(total), now) <= total,
        !playing || stalled ==> snapshot_spec(m, playing, stalled, Some(total), now) == if m.position > total { total } else { m.position },
{
}

/// Re-anchoring on every sample: the same position sampled again after a
/// long pause leaves no pause time in the extrapolation.
pub proof fn law_reanchor_on_sample(m: ClockModel, k: Seq<char>, now: u64, later: u64)
    requires
        m.key == Some(k),
        m.seek is None,
        later >= now,
    ensures
        snapshot_spec(update_spec(m, Some(k), m.position, later).0, true, false, None, later) == m.position,
{
}

/// A seek target is never beyond a known non-zero duration.
pub proof fn law_seek_target_bounded(base_ms: u64, delta: i64, total: u64)
    requires
        total != 0,
    ensures
        clamp_seek_spec(base_ms, delta, Some(total)) <= total,
{
}

/// While playing (not stalled) the reading advances with the elapsed time
/// since the last sample; a pending seek is confirmed by a sample within one
/// second of its target (the clock snaps to the target), and a sample
/// further away wins over the target.
pub proof fn law_extrapolation_and_seek_confirmation(
    m: ClockModel,
    k: Seq<char>,
    reported: u64,
    now: u64,
    t: u64,
    target: u64,
)
    ensures
        m.synced_at == Some(t) && t <= now && m.position + (now - t) <= u64::MAX ==> snapshot_spec(
            m,
            true,
            false,
            None,
            now,
        ) == m.position + (now - t),
        m.key == Some(k) && m.seek == Some(target) && (reported <= target + 1000 && target
            <= reported + 1000) ==> update_spec(m, Some(k), reported, now).0.position == target
            && update_spec(m, Some(k), reported, now).0.seek is None,
        m.key == Some(k) && m.seek == Some(target) && (reported > target + 1000 || target
            > reported + 1000) ==> update_spec(m, Some(k), reported, now).0.position == reported,
        m.key == Some(k) && m.seek is None && reported > m.position ==> update_spec(
            m,
            Some(k),
            reported,
            now,
        ).0.position == reported,
{
}

/// A relative seek lands on the whole seconds of the base plus the jump
/// when that stays inside the audio; a jump before the start lands on zero.
pub proof fn law_seek_in_range(base_ms: u64, delta: i64, total: u64)
    ensures
        ({
            let secs = base_ms / 1000 + delta;
            &&& 0 <= secs && secs * 1000 <= total ==> clamp_seek_spec(base_ms, delta, Some(total))
                == secs * 1000
            &&& secs < 0 ==> clamp_seek_spec(base_ms, delta, Some(total)) == 0
            &&& 0 <= secs && secs * 1000 <= u64::MAX ==> clamp_seek_spec(base_ms, delta, None) == secs
                * 1000
        }),
{
}

} // verus!
