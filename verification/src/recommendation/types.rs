//! Plain data of the recommendation system.

use vstd::prelude::*;

use crate::domain::source::Source;

verus! {

/// Per-track aggregate of the signals used by the negative penalty: play
/// attempts (plays and recommendation clicks) and meaningful negatives.
#[derive(Debug, Clone, Copy, PartialEq, Eq, Structural)]
pub struct TrackSignals {
    pub plays: u64,
    pub negative: u64,
}

impl Default for TrackSignals {
    fn default() -> (t: Self)
        ensures
            t.plays == 0,
            t.negative == 0,
    {
        TrackSignals { plays: 0, negative: 0 }
    }
}

/// Play event with the track's duration, to compute completion / skip.
#[derive(Debug, Clone, PartialEq, Eq)]
pub struct HistoryPlayEvent {
    pub track_id: i64,
    pub played_at: String,
    pub source: Source,
    pub duration: Option<i64>,
    pub track_duration: Option<i64>,
    pub artist_name: Option<String>,
}

} // verus!
