use playfusion::media::failure::{FailureCategory as C, ResolutionError};
use playfusion::Source;

#[test]
fn transient_categories_are_retryable() {
    assert!(C::NetworkFailure.is_retryable());
    assert!(C::Timeout.is_retryable());
    assert!(C::RateLimited.is_retryable());
    assert!(C::AuthenticationRequired.is_retryable());
    assert!(C::StreamExpired.is_retryable());
    assert!(C::PlaybackFailure.is_retryable());
    assert!(C::StreamRestricted.is_retryable());
}

#[test]
fn restricted_stream_invalidates_the_cached_resolution() {
    assert!(C::StreamRestricted.invalidates_cache());
}

#[test]
fn deterministic_categories_are_not_retryable() {
    assert!(!C::Unsupported.is_retryable());
    assert!(!C::ProviderUnavailable.is_retryable());
    assert!(!C::InvalidResponse.is_retryable());
    assert!(!C::Unknown.is_retryable());
}

#[test]
fn dead_or_suspect_resolutions_invalidate_cache() {
    assert!(C::StreamExpired.invalidates_cache());
    assert!(C::PlaybackFailure.invalidates_cache());
    assert!(C::AuthenticationRequired.invalidates_cache());

    assert!(!C::NetworkFailure.invalidates_cache());
    assert!(!C::Timeout.invalidates_cache());
    assert!(!C::RateLimited.invalidates_cache());
    assert!(!C::InvalidResponse.invalidates_cache());
    assert!(!C::Unsupported.invalidates_cache());
}

#[test]
fn error_display_carries_provider_category_and_message() {
    let e = ResolutionError::new(C::StreamExpired, Source::YouTube, "la URL respondió 403");
    assert_eq!(e.to_string(), "YouTube: stream caducado: la URL respondió 403");
    assert_eq!(e.category, C::StreamExpired);
}

#[test]
fn category_labels_are_exact() {
    assert_eq!(C::NetworkFailure.label(), "fallo de red");
    assert_eq!(C::StreamExpired.label(), "stream caducado");
}
