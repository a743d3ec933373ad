//! Rows read from local storage, and the key rule of the persistent stream
//! cache. The database itself is driven outside the library.

use vstd::prelude::*;

use crate::domain::source::Source;
use crate::text::{contains_chars, contains_spec};

verus! {

/// One playback of the history.
#[derive(Debug, Clone, PartialEq, Eq)]
pub struct HistoryEntry {
    pub track_id: i64,
    pub played_at: String,
    pub source: Source,
    pub duration: Option<i64>,
    pub title: String,
    pub artist_name: Option<String>,
    /// Total number of stored playbacks of this song.
    pub play_count: i64,
}

/// Persistent listening summary used to decorate any copy of a track.
#[derive(Debug, Clone, PartialEq, Eq)]
pub struct TrackListeningStats {
    pub track_id: i64,
    /// The same stable key used by `Track::identifier()`.
    pub key: String,
    pub artist_name: Option<String>,
    pub play_count: i64,
    pub last_played: String,
    pub recently_played: bool,
}

/// A local playlist.
#[derive(Debug, Clone, PartialEq, Eq)]
pub struct PlaylistRow {
    pub id: i64,
    pub name: String,
    pub created_at: String,
    pub track_count: i64,
}

/// Only keys of the `video_id` kind belong in the persistent stream cache:
/// the composite fallback identifier (`title|artist`) never came from the
/// network.
pub open spec fn cacheable_key_spec(key: Seq<char>) -> bool {
    !contains_spec(key, "|"@)
}

/// Whether a resolution key may be stored in (or read from) the persistent
/// stream cache.
pub fn cacheable_key(key: &str) -> (b: bool)
    ensures
        b == cacheable_key_spec(key@),
{
    let cs = crate::text::chars_of(key);
    !contains_chars(&cs, "|")
}

} // verus!
