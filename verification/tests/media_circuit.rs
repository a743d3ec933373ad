use playfusion::media::circuit::{CircuitBreaker, CircuitConfig, CircuitState};

fn t(secs: u64) -> u64 {
    1_000_000 + secs * 1000
}

fn breaker() -> CircuitBreaker {
    CircuitBreaker::new(CircuitConfig { failure_threshold: 3, cooldown_ms: 30_000 })
}

#[test]
fn healthy_until_threshold_reached() {
    let mut b = breaker();
    let now = t(0);
    assert_eq!(b.state(now), CircuitState::Healthy);
    assert!(b.allow_request(now));
    b.on_failure(now);
    assert_eq!(b.state(now), CircuitState::Degraded, "bajo umbral: degradado");
    assert!(b.allow_request(now), "degradado NO bloquea");
    b.on_failure(now);
    b.on_failure(now);
    assert_eq!(b.state(now), CircuitState::Open, "tercer fallo abre");
}

#[test]
fn open_rejects_without_touching_provider() {
    let mut b = breaker();
    let now = t(0);
    for _ in 0..3 {
        b.on_failure(now);
    }
    assert_eq!(b.state(now), CircuitState::Open);
    assert!(!b.allow_request(now), "abierto rechaza");
}

#[test]
fn success_resets_the_circuit() {
    let mut b = breaker();
    let now = t(0);
    b.on_failure(now);
    b.on_failure(now);
    b.on_success();
    assert_eq!(b.state(now), CircuitState::Healthy, "éxito limpia fallos");
    for _ in 0..2 {
        b.on_failure(now);
    }
    assert_ne!(b.state(now), CircuitState::Open);
}

#[test]
fn cooldown_leads_to_half_open_with_single_probe() {
    let mut b = breaker();
    let t0 = t(0);
    for _ in 0..3 {
        b.on_failure(t0);
    }
    let after = t0 + 31_000;
    assert_eq!(b.state(after), CircuitState::HalfOpen);
    assert!(b.allow_request(after));
    assert!(!b.allow_request(after), "una sola sonda a la vez");
    b.on_failure(after);
    assert_eq!(b.state(after), CircuitState::Open);
}

#[test]
fn successful_probe_recovers_to_healthy() {
    let mut b = breaker();
    let t0 = t(0);
    for _ in 0..3 {
        b.on_failure(t0);
    }
    let after = t0 + 31_000;
    assert!(b.allow_request(after));
    b.on_success();
    assert_eq!(b.state(after), CircuitState::Healthy);
    assert!(b.allow_request(after));
}

#[test]
fn abandoned_probe_expires_and_allows_recovery() {
    let mut b = breaker();
    let t0 = t(0);
    for _ in 0..3 {
        b.on_failure(t0);
    }
    let after = t0 + 31_000;
    assert!(b.allow_request(after));
    let much_later = after + 61_000;
    assert!(b.allow_request(much_later), "la sonda abandonada no bloquea la recuperación para siempre");
}

#[test]
fn open_window_ends_exactly_at_cooldown() {
    let mut b = breaker();
    let t0 = t(0);
    for _ in 0..3 {
        b.on_failure(t0);
    }
    assert_eq!(b.state(t0 + 29_999), CircuitState::Open);
    assert_eq!(b.state(t0 + 30_000), CircuitState::HalfOpen);
}

#[test]
fn default_config_values() {
    let c = CircuitConfig::default();
    assert_eq!(c.failure_threshold, 3);
    assert_eq!(c.cooldown_ms, 30_000);
}
