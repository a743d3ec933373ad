use playfusion::media::failure::{FailureCategory as C, ResolutionError};
use playfusion::media::policy::{FailurePolicy, PolicyAction};
use playfusion::Source;

fn err(c: C) -> ResolutionError {
    ResolutionError::new(c, Source::YouTube, "prueba")
}

#[test]
fn retryable_errors_retry_with_backoff() {
    let p = FailurePolicy::default();
    match p.decide(&err(C::NetworkFailure), 0) {
        PolicyAction::Retry { delay_ms } => {
            assert_eq!(delay_ms, 1500, "base × 2");
        }
        other => panic!("esperaba Retry, llegó {other:?}"),
    }
}

#[test]
fn non_retryable_errors_fallback_immediately() {
    let p = FailurePolicy::default();
    assert_eq!(p.decide(&err(C::Unsupported), 0), PolicyAction::Fallback);
    assert_eq!(p.decide(&err(C::InvalidResponse), 0), PolicyAction::Fallback);
    assert_eq!(p.decide(&err(C::ProviderUnavailable), 0), PolicyAction::Fallback);
}

#[test]
fn per_provider_retries_are_bounded() {
    let p = FailurePolicy { retries_per_provider: 2, ..FailurePolicy::default() };
    assert!(matches!(p.decide(&err(C::Timeout), 0), PolicyAction::Retry { .. }));
    assert!(matches!(p.decide(&err(C::Timeout), 1), PolicyAction::Retry { .. }));
    assert_eq!(p.decide(&err(C::Timeout), 2), PolicyAction::Fallback);
    let p0 = FailurePolicy { retries_per_provider: 0, ..FailurePolicy::default() };
    assert_eq!(p0.decide(&err(C::NetworkFailure), 0), PolicyAction::Fallback);
}

#[test]
fn backoff_grows_and_is_capped() {
    let p = FailurePolicy { retries_per_provider: 10, ..FailurePolicy::default() };
    let d1 = match p.decide(&err(C::NetworkFailure), 0) {
        PolicyAction::Retry { delay_ms } => delay_ms,
        _ => panic!(),
    };
    let d2 = match p.decide(&err(C::NetworkFailure), 1) {
        PolicyAction::Retry { delay_ms } => delay_ms,
        _ => panic!(),
    };
    assert!(d2 > d1, "el backoff crece");
    let d5 = match p.decide(&err(C::NetworkFailure), 5) {
        PolicyAction::Retry { delay_ms } => delay_ms,
        _ => panic!(),
    };
    assert_eq!(d5, p.max_backoff_ms, "el backoff se acota");
}

#[test]
fn rate_limited_waits_longer() {
    let p = FailurePolicy::default();
    let rl = match p.decide(&err(C::RateLimited), 0) {
        PolicyAction::Retry { delay_ms } => delay_ms,
        _ => panic!(),
    };
    let net = match p.decide(&err(C::NetworkFailure), 0) {
        PolicyAction::Retry { delay_ms } => delay_ms,
        _ => panic!(),
    };
    assert!(rl > net, "rate limit espera más que un fallo de red");
}

#[test]
fn global_attempt_cap_is_respected() {
    let p = FailurePolicy::default();
    assert!(!p.total_exhausted(5));
    assert!(p.total_exhausted(6));
    assert!(p.total_exhausted(7));
}

#[test]
fn backoff_values_are_exact() {
    let p = FailurePolicy { retries_per_provider: 10, ..FailurePolicy::default() };
    // base 750 × 2^(attempt+1), capped at 4000.
    assert_eq!(p.decide(&err(C::Timeout), 1), PolicyAction::Retry { delay_ms: 3000 });
    assert_eq!(p.decide(&err(C::Timeout), 2), PolicyAction::Retry { delay_ms: 4000 });
    // rate limited: base × 4^(attempt+1) = 3000.
    assert_eq!(p.decide(&err(C::RateLimited), 0), PolicyAction::Retry { delay_ms: 3000 });
}
