use playfusion::app::audio::{PlaybackError, PlaybackPolicy, PlaybackState, PlaybackStatus};
use playfusion::app::playback::{engine_for, global_engine};
use playfusion::Source;

#[test]
fn idle_status_is_stopped_at_zero() {
    let s = PlaybackStatus::idle();
    assert!(s.track.is_none());
    assert_eq!(s.state, PlaybackState::Stopped);
    assert_eq!(s.position_ms, 0);
    assert_eq!(s.duration_ms, None);
    assert!(!s.stalled);
}

#[test]
fn playback_error_texts() {
    assert_eq!(PlaybackError::Transport("sin red".to_string()).to_string(), "sin red");
    assert_eq!(
        PlaybackError::Unsupported(Source::YouTube).to_string(),
        "el backend no soporta YouTube"
    );
}

#[test]
fn global_policy_pins_the_first_engine_with_its_id() {
    let ids = vec!["rodio".to_string(), "other".to_string(), "rodio".to_string()];
    assert_eq!(global_engine(&PlaybackPolicy::Global("rodio".to_string()), &ids), Some(0));
    assert_eq!(global_engine(&PlaybackPolicy::Global("other".to_string()), &ids), Some(1));
    assert_eq!(global_engine(&PlaybackPolicy::Global("mpv".to_string()), &ids), None);
    assert_eq!(global_engine(&PlaybackPolicy::default(), &ids), None);
}

#[test]
fn auto_policy_picks_the_first_supporting_engine_or_the_first() {
    assert_eq!(engine_for(None, 3, Some(&vec![false, true, true])), Some(1));
    assert_eq!(engine_for(None, 2, Some(&vec![false, false])), Some(0));
    assert_eq!(engine_for(None, 0, Some(&vec![])), None);
    assert_eq!(engine_for(None, 2, None), None, "no source: no engine");
    assert_eq!(engine_for(Some(1), 2, None), Some(1));
    assert_eq!(engine_for(Some(5), 2, None), None);
}
