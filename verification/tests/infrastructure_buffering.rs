use playfusion::infrastructure::buffering::{BufferAction, BufferPolicy};
use playfusion::infrastructure::storage::cacheable_key;

#[test]
fn decide_holds_steady_with_good_margin() {
    let p = BufferPolicy::default();
    assert_eq!(p.decide(true, 5_000, false), BufferAction::NoChange);
    assert_eq!(p.decide(true, 3_500, false), BufferAction::NoChange);
}

#[test]
fn decide_warns_between_low_and_critical() {
    let p = BufferPolicy::default();
    assert_eq!(p.decide(true, 2_000, false), BufferAction::Warn);
    assert_eq!(p.decide(true, 2_900, false), BufferAction::Warn);
}

#[test]
fn decide_refills_below_critical() {
    let p = BufferPolicy::default();
    assert_eq!(p.decide(true, 1_400, false), BufferAction::PauseAndRefill);
    assert_eq!(p.decide(true, 0, false), BufferAction::PauseAndRefill);
}

#[test]
fn decide_resumes_only_after_recovery_margin() {
    let p = BufferPolicy::default();
    assert_eq!(p.decide(false, 3_400, false), BufferAction::NoChange);
    assert_eq!(p.decide(false, 3_500, false), BufferAction::Resume);
    assert_eq!(p.decide(false, 8_000, false), BufferAction::Resume);
}

#[test]
fn decide_never_refills_after_eof() {
    let p = BufferPolicy::default();
    assert_eq!(p.decide(true, 0, true), BufferAction::NoChange);
    assert_eq!(p.decide(false, 0, true), BufferAction::NoChange);
}

#[test]
fn adaptive_start_rewards_fast_network() {
    assert_eq!(BufferPolicy::adaptive_start(256_000, 128_000), 1_500);
}

#[test]
fn adaptive_start_matches_slow_network() {
    assert_eq!(BufferPolicy::adaptive_start(128_000, 128_000), 3_000);
    assert_eq!(BufferPolicy::adaptive_start(64_000, 128_000), 4_500);
}

#[test]
fn adaptive_start_clamps_and_handles_unknown_bitrate() {
    assert!(BufferPolicy::adaptive_start(1_000_000, 1) >= 1_500);
    assert!(BufferPolicy::adaptive_start(1, 1_000_000) <= 4_500);
    assert_eq!(BufferPolicy::adaptive_start(500_000, 0), 1_500);
}

#[test]
fn adaptive_start_boundary_just_below_double_speed() {
    assert_eq!(BufferPolicy::adaptive_start(255_999, 128_000), 3_000);
}

#[test]
fn composite_keys_never_reach_the_persistent_cache() {
    assert!(cacheable_key("dQw4w9WgXcQ"));
    assert!(!cacheable_key("Bohemian Rhapsody|Queen"));
    assert!(cacheable_key(""));
}
