//! Application contracts shared by the playback engines and the UI, and the
//! engine selection of the playback router.

pub mod audio;
pub mod playback;
pub mod search;

pub use audio::{PlaybackError, PlaybackEvent, PlaybackPolicy, PlaybackState, PlaybackStatus};
pub use playback::{engine_for, global_engine};
pub use search::{merge_related, related_seed};
