use playfusion::domain::track::Track;
use playfusion::media::circuit::{CircuitConfig, CircuitState};
use playfusion::media::provider::ProviderDescriptor;
use playfusion::media::registry::StreamRegistry;
use playfusion::media::router::{order, ProviderSnapshot};
use playfusion::Source;

fn yt_track() -> Track {
    let mut t = Track::new("T".into(), Vec::new(), Source::YouTube);
    t.external_id = Some("vid".into());
    t
}

fn fake(id: &str, priority: u32) -> ProviderDescriptor {
    ProviderDescriptor::with_priority(id, Source::YouTube, priority)
}

#[test]
fn snapshot_filters_disabled_unsupported_and_open_breakers() {
    let mut reg = StreamRegistry::new();
    reg.register(fake("a", 200));
    reg.register(fake("b", 100));
    assert!(reg.set_enabled("b", false));

    let track = yt_track();
    let now = 5_000;
    let snaps = reg.snapshot(&track, now);
    assert_eq!(snaps.len(), 1);
    assert_eq!(snaps[0].id, "a");
}

#[test]
fn snapshot_orders_by_priority_descending() {
    let mut reg = StreamRegistry::new();
    for (id, prio) in [("low", 10), ("high", 300), ("mid", 100)] {
        reg.register(fake(id, prio));
    }
    let snaps = reg.snapshot(&yt_track(), 5_000);
    let ids: Vec<_> = snaps.iter().map(|s| s.id.as_str()).collect();
    assert_eq!(ids, vec!["high", "mid", "low"]);
}

#[test]
fn open_breaker_excludes_provider_from_snapshot_until_cooldown() {
    let mut reg = StreamRegistry::new();
    reg.register_with_circuit(
        fake("flaky", 500),
        CircuitConfig { failure_threshold: 2, cooldown_ms: 30_000 },
    );
    let now = 10_000;
    reg.record_failure("flaky", now);
    reg.record_failure("flaky", now);

    assert!(
        !reg.snapshot(&yt_track(), now).iter().any(|s| s.id == "flaky"),
        "circuito abierto: fuera del plan"
    );

    let later = now + 31_000;
    assert!(reg.snapshot(&yt_track(), later).iter().any(|s| s.id == "flaky"));
    assert!(reg.allow_attempt("flaky", later), "concede UNA sonda");
    assert!(!reg.allow_attempt("flaky", later), "no concede dos sondas");
}

#[test]
fn success_resets_recent_failures_and_closes_breaker() {
    let mut reg = StreamRegistry::new();
    reg.register(fake("a", 1));
    reg.record_failure("a", 1_000);
    reg.record_failure("a", 1_000);
    reg.record_success("a");
    let snaps = reg.snapshot(&yt_track(), 2_000);
    assert_eq!(snaps[0].recent_failures, 0);
    assert_eq!(snaps[0].state, CircuitState::Healthy);
}

#[test]
fn unknown_ids_are_ignored_safely() {
    let mut reg = StreamRegistry::new();
    assert!(!reg.set_enabled("ghost", false));
    assert!(!reg.allow_attempt("ghost", 1_000));
    reg.record_success("ghost");
    reg.record_failure("ghost", 1_000);
}

#[test]
fn unsupported_tracks_get_no_candidates() {
    let mut reg = StreamRegistry::new();
    reg.register(fake("a", 100));
    // No external id: no provider can resolve it.
    let track = Track::new("T".into(), Vec::new(), Source::YouTube);
    assert!(reg.snapshot(&track, 1_000).is_empty());
}

#[test]
fn failures_are_counted_for_ordering() {
    let mut reg = StreamRegistry::new();
    reg.register(fake("a", 100));
    reg.record_failure("a", 1_000);
    let snaps = reg.snapshot(&yt_track(), 1_000);
    assert_eq!(snaps[0].recent_failures, 1);
    assert_eq!(snaps[0].state, CircuitState::Degraded);
}

fn snap(id: &str, priority: u32, failures: u32) -> ProviderSnapshot {
    ProviderSnapshot {
        id: id.to_string(),
        source: Source::YouTube,
        priority,
        enabled: true,
        state: CircuitState::Healthy,
        recent_failures: failures,
        supports_track: true,
    }
}

#[test]
fn orders_by_priority_then_fewest_recent_failures() {
    let track = Track::new("T".into(), Vec::new(), Source::YouTube);
    let plan = order(
        &track,
        vec![
            snap("low-clean", 10, 0),
            snap("high-dirty", 100, 5),
            snap("high-clean", 100, 0),
            snap("mid", 50, 2),
        ],
    );
    let ids: Vec<_> = plan.iter().map(|s| s.id.as_str()).collect();
    assert_eq!(ids, vec!["high-clean", "high-dirty", "mid", "low-clean"]);
}

#[test]
fn equal_candidates_keep_insertion_order() {
    let track = Track::new("T".into(), Vec::new(), Source::YouTube);
    let plan = order(&track, vec![snap("first", 100, 1), snap("second", 100, 1)]);
    assert_eq!(plan[0].id, "first");
    assert_eq!(plan[1].id, "second");
}
