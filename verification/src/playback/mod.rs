//! Playback orchestration over the engine: master position clock, formal
//! queue, preload of the next track only, and bounded recovery.

pub mod position_clock;
pub mod preload;
pub mod queue;
pub mod recovery;

pub use position_clock::{clamp_seek_target, ClockEvent, PendingSeek, PositionClock};
pub use preload::{should_preload, PreloadConfig, PreloadManager};
pub use queue::{QueueManager, RepeatMode};
pub use recovery::{decide_recovery, RecoveryAction, RecoveryBudget};
