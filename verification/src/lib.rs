//! PlayFusion core: the verified logic of a terminal music player — stream
//! resolution (policy, circuit breakers, provider registry, cache), playback
//! orchestration (queue, position clock, preload, recovery, buffering) and
//! the recommendation session and signal model.

pub mod analysis;
pub mod app;
pub mod catalog;
pub mod domain;
pub mod infrastructure;
pub mod media;
pub mod playback;
pub mod recommendation;
pub mod text;

pub use domain::source::Source;
