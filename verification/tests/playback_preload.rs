use playfusion::domain::track::Track;
use playfusion::playback::preload::{should_preload, PreloadConfig, PreloadManager};
use playfusion::Source;

const S: u64 = 1000;

fn track(id: &str) -> Track {
    let mut t = Track::new(id.to_string(), Vec::new(), Source::YouTube);
    t.external_id = Some(id.to_string());
    t
}

#[test]
fn decision_matrix_matches_spec() {
    let cfg = PreloadConfig::default();
    let long = 200 * S;
    assert!(!should_preload(0, Some(long), true, &cfg), "lejos del final");
    assert!(should_preload(long - 30 * S, Some(long), true, &cfg), "en la ventana del lead time");
    assert!(should_preload(long - 5 * S, Some(long), true, &cfg), "dentro del último tramo");
    assert!(!should_preload(0, Some(long), false, &cfg), "sin siguiente");
    assert!(!should_preload(0, None, true, &cfg), "sin duración");
    assert!(
        !should_preload(0, Some(long), true, &PreloadConfig { enabled: false, ..Default::default() }),
        "apagado"
    );
    assert!(!should_preload(0, Some(10 * S), true, &cfg));
}

#[test]
fn dedupes_concurrent_considerations_for_same_track() {
    let mut manager = PreloadManager::new(PreloadConfig::default());
    assert_eq!(manager.consider(Some(&track("v1"))), Some("v1".to_string()));
    assert_eq!(manager.consider(Some(&track("v1"))), None);
    assert_eq!(manager.consider(Some(&track("v1"))), None);
    assert!(manager.is_inflight("v1"), "la primera tarea sigue en vuelo");
    manager.finish("v1");
    assert!(!manager.is_inflight("v1"));
    assert_eq!(manager.consider(Some(&track("v1"))), Some("v1".to_string()));
}

#[test]
fn disabled_manager_does_not_spawn_anything() {
    let mut manager = PreloadManager::new(PreloadConfig { enabled: false, ..Default::default() });
    assert_eq!(manager.consider(Some(&track("v1"))), None);
    assert!(!manager.is_inflight("v1"));
}

#[test]
fn nothing_to_preload_without_next() {
    let mut manager = PreloadManager::new(PreloadConfig::default());
    assert_eq!(manager.consider(None), None);
}

#[test]
fn position_past_duration_counts_as_at_the_end() {
    let cfg = PreloadConfig::default();
    assert!(should_preload(250 * S, Some(200 * S), true, &cfg));
}
