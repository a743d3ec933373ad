use playfusion::playback::position_clock::{clamp_seek_target, ClockEvent, PositionClock};

const S: u64 = 1000;

fn t0() -> u64 {
    50_000_000
}

#[test]
fn monotonic_guard_ignores_spurious_resets() {
    let mut c = PositionClock::new();
    let now = t0();
    assert_eq!(c.update(Some("a"), 10 * S, now), Some(ClockEvent::NewTrack));
    assert_eq!(c.update(Some("a"), 0, now), None);
    assert_eq!(c.position(), 10 * S);
    c.update(Some("a"), 15 * S, now);
    assert_eq!(c.position(), 15 * S);
}

#[test]
fn new_track_event_and_reset_from_reported_position() {
    let mut c = PositionClock::new();
    let now = t0();
    c.update(Some("a"), 90 * S, now);
    assert_eq!(
        c.update(Some("b"), 3 * S, now),
        Some(ClockEvent::NewTrack),
        "cambiar de track avisa a los consumidores"
    );
    assert_eq!(c.position(), 3 * S);
    assert_eq!(c.track_key(), Some("b"));
}

#[test]
fn cleared_when_motor_reports_no_track() {
    let mut c = PositionClock::new();
    let now = t0();
    c.update(Some("a"), 5 * S, now);
    assert_eq!(c.update(None, 0, now), Some(ClockEvent::Cleared));
    assert_eq!(c.position(), 0);
    assert_eq!(c.track_key(), None);
    assert_eq!(c.update(None, 0, now), None);
}

#[test]
fn pending_seek_follows_real_audio_until_confirmed() {
    let mut c = PositionClock::new();
    let now = t0();
    c.update(Some("a"), 100 * S, now);
    c.begin_seek(50 * S);
    c.update(Some("a"), 100 * S, now);
    assert_eq!(c.position(), 100 * S);
    assert!(c.pending_seek().is_some());
    c.update(Some("a"), 50 * S, now);
    assert_eq!(c.position(), 50 * S);
    assert!(c.pending_seek().is_none());
    c.update(Some("a"), 0, now);
    assert_eq!(c.position(), 50 * S);
}

#[test]
fn extrapolates_while_playing_freezes_paused_and_clamps_to_duration() {
    let mut c = PositionClock::new();
    let now = t0();
    c.update(Some("a"), 42 * S, now);
    let later = now + 15;
    let s1 = c.snapshot(true, false, Some(200 * S), later);
    assert!(s1 > 42 * S, "extrapola entre muestras");
    assert_eq!(s1, 42 * S + 15);
    assert_eq!(c.snapshot(false, false, Some(200 * S), later), 42 * S);
    assert_eq!(c.snapshot(true, true, Some(200 * S), later), 42 * S);
    c.update(Some("a"), 200 * S, now);
    assert_eq!(c.snapshot(true, false, Some(200 * S), now + 15), 200 * S, "clamp a duración");
}

#[test]
fn long_pause_does_not_leak_into_extrapolation() {
    let mut c = PositionClock::new();
    c.update(Some("a"), 50 * S, t0());
    let later = t0() + 600 * S;
    c.update(Some("a"), 50 * S, later);
    let snap = c.snapshot(false, false, Some(200 * S), later + 5);
    assert_eq!(snap, 50 * S, "pausa larga no contamina");
    assert_eq!(c.snapshot(true, false, Some(200 * S), later), 50 * S);
}

#[test]
fn restart_same_track_rewinds_but_keeps_identity() {
    let mut c = PositionClock::new();
    let now = t0();
    c.update(Some("a"), 120 * S, now);
    c.begin_seek(10 * S);
    c.restart_same_track();
    assert_eq!(c.position(), 0);
    assert!(c.pending_seek().is_none());
    assert_eq!(c.track_key(), Some("a"), "el track NO cambia");
    c.update(Some("a"), S, now);
    assert_eq!(c.position(), S);
}

#[test]
fn clear_drops_everything() {
    let mut c = PositionClock::new();
    c.update(Some("a"), 9 * S, t0());
    c.begin_seek(2 * S);
    c.clear();
    assert_eq!(c.track_key(), None);
    assert_eq!(c.position(), 0);
    assert!(c.pending_seek().is_none());
}

#[test]
fn confirm_seek_anchors_to_target_without_waiting_for_a_matching_sample() {
    let mut c = PositionClock::new();
    let now = t0();
    c.update(Some("a"), 100 * S, now);
    c.begin_seek(20 * S);
    c.confirm_seek(now);
    assert_eq!(c.position(), 20 * S);
    assert!(c.pending_seek().is_none());
}

#[test]
fn cancel_pending_seek_returns_to_real_audio() {
    let mut c = PositionClock::new();
    let now = t0();
    c.update(Some("a"), 80 * S, now);
    c.begin_seek(5 * S);
    c.cancel_pending_seek();
    assert!(c.pending_seek().is_none());
    assert_eq!(c.position(), 80 * S, "el audio nunca se movió");
}

#[test]
fn clamp_seek_target_never_goes_below_zero() {
    assert_eq!(
        clamp_seek_target(5 * S, -10, None),
        0,
        "retroceder desde 5s diez segundos siempre produce 0, nunca underflow"
    );
    assert_eq!(clamp_seek_target(0, -1, None), 0);
}

#[test]
fn clamp_seek_target_clamps_to_known_duration() {
    assert_eq!(clamp_seek_target(190 * S, 10, Some(200 * S)), 200 * S, "no salta más allá de la duración");
    assert_eq!(clamp_seek_target(190 * S, 10, None), 200 * S);
}

#[test]
fn clamp_seek_target_keeps_deltas_inside_the_range() {
    assert_eq!(clamp_seek_target(100 * S, 10, Some(200 * S)), 110 * S);
    assert_eq!(clamp_seek_target(100 * S, -10, Some(200 * S)), 90 * S);
}

#[test]
fn clamp_seek_target_works_on_whole_seconds() {
    // 5.9 s minus 1 s lands on 4 s: the base is taken in whole seconds.
    assert_eq!(clamp_seek_target(5_900, -1, None), 4 * S);
    // A zero duration is unknown: no clamp.
    assert_eq!(clamp_seek_target(190 * S, 10, Some(0)), 200 * S);
}

#[test]
fn seek_confirmed_by_a_sample_within_one_second() {
    let mut c = PositionClock::new();
    let now = t0();
    c.update(Some("a"), 100 * S, now);
    c.begin_seek(50 * S);
    c.update(Some("a"), 50 * S + 900, now + 10);
    assert_eq!(c.position(), 50 * S, "anchors to the chosen target");
    assert!(c.pending_seek().is_none());
}

#[test]
fn force_anchor_moves_the_extrapolation_origin() {
    let mut c = PositionClock::new();
    c.update(Some("a"), 10 * S, t0());
    c.force_anchor(t0() - 2 * S);
    assert_eq!(c.snapshot(true, false, None, t0()), 12 * S);
}
