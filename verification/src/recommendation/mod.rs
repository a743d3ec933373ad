//! Local recommendation system: the session that owns which answers are
//! valid, and the signal model of what the user did with each track.

pub mod session;
pub mod signals;
pub mod types;

pub use session::{ActiveLoad, RecommendationSession};
pub use signals::{aggregate_signals, is_meaningful_negative, PlayContext, PlaySignal, SignalKind};
pub use types::{HistoryPlayEvent, TrackSignals};
