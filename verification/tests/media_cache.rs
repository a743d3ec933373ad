use playfusion::domain::stream::StreamResolution;
use playfusion::media::cache::{MemoryResolutionCache, TierStep, TwoTierCache};
use playfusion::media::expiration::ExpirationManager;
use playfusion::Source;

const HOUR_MS: i64 = 3_600_000;

/// 2026-08-22 at `h`:00 UTC, in Unix milliseconds.
fn t(h: i64) -> i64 {
    1_787_356_800_000 + h * HOUR_MS
}

fn resolution(uri: &str, expires_at: Option<i64>) -> StreamResolution {
    StreamResolution { expires_at, ..StreamResolution::new(Source::YouTube, uri.to_string()) }
}

#[test]
fn memory_roundtrip_and_expiry_filtering() {
    let mut cache = MemoryResolutionCache::default();
    let now = t(12);
    cache.put("a", resolution("https://cdn/a", None));
    assert!(cache.get("a", now).is_some());

    cache.put("b", resolution("https://cdn/b", Some(t(10))));
    assert!(
        cache.get("b", now).map_or(true, |r| r.uri != "https://cdn/b"),
        "una entrada caducada no se sirve"
    );
    assert!(cache.get("b", now).is_none(), "la entrada caducada se purga");
}

#[test]
fn memory_invalidate_is_key_scoped() {
    let mut cache = MemoryResolutionCache::default();
    cache.put("yt1", resolution("https://cdn/yt1", None));
    cache.put("yt2", resolution("https://cdn/yt2", None));
    cache.invalidate("yt1");
    assert!(cache.get("yt1", t(0)).is_none());
    assert!(cache.get("yt2", t(0)).is_some(), "invalidar una clave no toca otras");
}

#[test]
fn memory_capacity_evicts_oldest_first() {
    let mut cache = MemoryResolutionCache::new(2);
    for k in ["k1", "k2", "k3"] {
        cache.put(k, resolution(format!("https://cdn/{k}").as_str(), None));
    }
    assert!(cache.get("k1", t(0)).is_none(), "el más viejo sale primero");
    assert!(cache.get("k2", t(0)).is_some());
    assert!(cache.get("k3", t(0)).is_some());
}

#[test]
fn memory_expiring_within_lists_only_near_entries() {
    let now = t(0);
    let soon = now + 5 * 60_000;
    let far = now + 5 * HOUR_MS;
    let mut cache = MemoryResolutionCache::default();
    cache.put("soon", resolution("https://c/s", Some(soon)));
    cache.put("far", resolution("https://c/f", Some(far)));
    cache.put("never", resolution("https://c/n", None));

    let near = cache.expiring_within(600_000, now);
    assert_eq!(near.len(), 1);
    assert_eq!(near[0].0, "soon");
    assert_eq!(near[0].1, soon);
}

#[test]
fn updating_a_key_keeps_one_entry() {
    let mut cache = MemoryResolutionCache::new(2);
    cache.put("k", resolution("https://cdn/old", None));
    cache.put("k", resolution("https://cdn/new", None));
    cache.put("other", resolution("https://cdn/o", None));
    assert_eq!(cache.get("k", t(0)).unwrap().uri, "https://cdn/new");
    assert!(cache.get("other", t(0)).is_some());
}

#[test]
fn clear_provider_drops_the_source() {
    let mut cache = MemoryResolutionCache::default();
    cache.put("a", resolution("https://cdn/a", None));
    cache.clear_provider(Source::YouTube);
    assert!(cache.get("a", t(0)).is_none());
}

#[test]
fn zero_capacity_still_holds_one_entry() {
    let mut cache = MemoryResolutionCache::new(0);
    cache.put("a", resolution("https://cdn/a", None));
    cache.put("b", resolution("https://cdn/b", None));
    assert!(cache.get("a", t(0)).is_none());
    assert!(cache.get("b", t(0)).is_some());
}

#[test]
fn sweep_purges_expired_and_reports_near_expiry() {
    let mut cache = MemoryResolutionCache::default();
    let now = t(6);
    cache.put("dead", resolution("https://cdn/dead", Some(now - HOUR_MS)));
    cache.put("soon", resolution("https://cdn/soon", Some(now + 2 * 60_000)));
    cache.put("immortal", resolution("https://cdn/immortal", None));

    let mut manager = ExpirationManager::new(cache, 5 * 60_000);
    let report = manager.sweep(now);

    assert_eq!(report.purged, vec!["dead".to_string()]);
    assert_eq!(report.expiring_soon.len(), 1);
    assert_eq!(report.expiring_soon[0].0, "soon");

    let cache = manager.cache_mut();
    assert!(cache.get("dead", now).is_none());
    assert!(cache.get("soon", now).is_some());
    assert!(cache.get("immortal", now).is_some());
}

#[test]
fn zero_window_disables_preventive_reporting() {
    let mut cache = MemoryResolutionCache::default();
    let now = t(6);
    cache.put("soon", resolution("https://cdn/soon", Some(now + 60_000)));
    let mut manager = ExpirationManager::new(cache, 0);
    let report = manager.sweep(now);
    assert!(report.purged.is_empty(), "no está caducada");
    assert!(report.expiring_soon.is_empty(), "ventana cero: sin informes preventivos");
}

#[test]
fn two_tier_reads_through_and_writes_both() {
    let now = t(6);
    let mut tiered = TwoTierCache::new(MemoryResolutionCache::default());
    let mut cold_gets = 0;
    let mut cold_puts = 0;

    // Miss: the cold tier is asked (and has nothing).
    match tiered.get_hot("miss", now) {
        TierStep::AskCold => {
            cold_gets += 1;
            assert!(tiered.on_cold(None, now).is_none());
        }
        TierStep::Hit(_) => panic!("empty hot tier"),
    }
    assert_eq!(cold_gets, 1, "el miss consulta la capa fría");

    // Put reaches both tiers.
    tiered.hot_mut().put("k", resolution("https://cdn/k", None));
    cold_puts += 1;
    assert_eq!(cold_puts, 1, "put llega a ambas capas");

    assert!(matches!(tiered.get_hot("k", now), TierStep::Hit(_)));
    assert_eq!(tiered.hit_stats(), (1, 0), "tras el put, el hit lo sirve la capa caliente");

    tiered.hot_mut().invalidate("k");
    assert!(matches!(tiered.get_hot("k", now), TierStep::AskCold));
    assert!(tiered.on_cold(None, now).is_none());
}

#[test]
fn cold_answers_are_filtered_by_expiry() {
    let now = t(6);
    let mut tiered = TwoTierCache::new(MemoryResolutionCache::default());
    assert!(tiered.on_cold(Some(resolution("https://cdn/old", Some(now - 1))), now).is_none());
    assert_eq!(tiered.on_cold(Some(resolution("https://cdn/ok", None)), now).unwrap().uri, "https://cdn/ok");
    assert_eq!(tiered.hit_stats(), (0, 1));
}

#[test]
fn two_tier_expiring_lists_hot_then_unseen_cold() {
    let now = t(0);
    let mut hot = MemoryResolutionCache::default();
    hot.put("a", resolution("https://cdn/a", Some(now + 60_000)));
    let tiered = TwoTierCache::new(hot);
    let cold = vec![("a".to_string(), now + 1), ("b".to_string(), now + 2)];
    let all = tiered.expiring_within(600_000, now, cold);
    assert_eq!(all, vec![("a".to_string(), now + 60_000), ("b".to_string(), now + 2)]);
}
