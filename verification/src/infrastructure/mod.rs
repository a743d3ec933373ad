//! Infrastructure rules that are pure decisions: the adaptive playback
//! buffer policy and the rows and key rule of local storage.

pub mod buffering;
pub mod monitor;
pub mod storage;
pub mod stream_buffer;

pub use buffering::{BufferAction, BufferPolicy};
pub use monitor::{monitor_tick, playback_bitrate, FillStep, InitialFill, MonitorInput, MonitorStep};
pub use storage::{cacheable_key, HistoryEntry, PlaylistRow, TrackListeningStats};
pub use stream_buffer::{ReadStep, SeekFrom, SeekStep, StreamBuffer};
