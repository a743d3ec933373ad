//! Structured taxonomy of resolution and playback failures.
//!
//! Every failure of the media layer is classified into a [`FailureCategory`];
//! the categories carry their intrinsic properties (retry? invalidate the
//! cached resolution?) so that policies only compose decisions.

use vstd::prelude::*;

use crate::domain::source::{source_label_spec, Source};

verus! {

/// Structural category of a failure.
#[derive(Debug, Clone, Copy, PartialEq, Eq, Structural, Hash)]
pub enum FailureCategory {
    /// The provider cannot handle this track (deterministic).
    Unsupported,
    /// Network error (DNS, connection, stream read).
    NetworkFailure,
    /// The operation exceeded its time limit.
    Timeout,
    /// Authentication / token needed; resolving again may renew it.
    AuthenticationRequired,
    /// The provider is down (open circuit, sustained 5xx).
    ProviderUnavailable,
    /// The provider answered with an unexpected format.
    InvalidResponse,
    /// The resolved stream expired (dead URL).
    StreamExpired,
    /// Failure during playback (decode, cut mid-way).
    PlaybackFailure,
    /// Request quota reached (429): back off before retrying.
    RateLimited,
    /// The server restricts the stream beyond a positional ceiling per URL.
    StreamRestricted,
    /// Not classifiable: fallback yes, retry no.
    Unknown,
}

/// Categories for which repeating the attempt makes sense.
pub open spec fn retryable_spec(c: FailureCategory) -> bool {
    match c {
        FailureCategory::NetworkFailure
        | FailureCategory::Timeout
        | FailureCategory::AuthenticationRequired
        | FailureCategory::StreamExpired
        | FailureCategory::PlaybackFailure
        | FailureCategory::RateLimited
        | FailureCategory::StreamRestricted => true,
        _ => false,
    }
}

/// Categories that make a cached resolution unusable or suspect.
pub open spec fn invalidates_cache_spec(c: FailureCategory) -> bool {
    match c {
        FailureCategory::StreamExpired
        | FailureCategory::AuthenticationRequired
        | FailureCategory::PlaybackFailure
        | FailureCategory::StreamRestricted => true,
        _ => false,
    }
}

/// User facing label of each category.
pub open spec fn category_label_spec(c: FailureCategory) -> Seq<char> {
    match c {
        FailureCategory::Unsupported => "no soportado"@,
        FailureCategory::NetworkFailure => "fallo de red"@,
        FailureCategory::Timeout => "timeout"@,
        FailureCategory::AuthenticationRequired => "autenticación requerida"@,
        FailureCategory::ProviderUnavailable => "proveedor no disponible"@,
        FailureCategory::InvalidResponse => "respuesta inválida"@,
        FailureCategory::StreamExpired => "stream caducado"@,
        FailureCategory::PlaybackFailure => "fallo de reproducción"@,
        FailureCategory::RateLimited => "límite de peticiones"@,
        FailureCategory::StreamRestricted => "stream restringido por el servidor"@,
        FailureCategory::Unknown => "desconocido"@,
    }
}

impl FailureCategory {
    /// `true` when repeating the attempt (after backoff) makes sense:
    /// transient or self-renewing failures.
    pub fn is_retryable(self) -> (b: bool)
        ensures
            b == retryable_spec(self),
    {
        match self {
            FailureCategory::NetworkFailure
            | FailureCategory::Timeout
            | FailureCategory::AuthenticationRequired
            | FailureCategory::StreamExpired
            | FailureCategory::PlaybackFailure
            | FailureCategory::RateLimited
            | FailureCategory::StreamRestricted => true,
            FailureCategory::Unsupported
            | FailureCategory::ProviderUnavailable
            | FailureCategory::InvalidResponse
            | FailureCategory::Unknown => false,
        }
    }

    /// `true` when the failure invalidates a stored resolution.
    pub fn invalidates_cache(self) -> (b: bool)
        ensures
            b == invalidates_cache_spec(self),
    {
        match self {
            FailureCategory::StreamExpired
            | FailureCategory::AuthenticationRequired
            | FailureCategory::PlaybackFailure
            | FailureCategory::StreamRestricted => true,
            _ => false,
        }
    }

    /// Human readable label (what the category displays as).
    pub fn label(self) -> (r: &'static str)
        ensures
            r@ == category_label_spec(self),
    {
        match self {
            FailureCategory::Unsupported => "no soportado",
            FailureCategory::NetworkFailure => "fallo de red",
            FailureCategory::Timeout => "timeout",
            FailureCategory::AuthenticationRequired => "autenticación requerida",
            FailureCategory::ProviderUnavailable => "proveedor no disponible",
            FailureCategory::InvalidResponse => "respuesta inválida",
            FailureCategory::StreamExpired => "stream caducado",
            FailureCategory::PlaybackFailure => "fallo de reproducción",
            FailureCategory::RateLimited => "límite de peticiones",
            FailureCategory::StreamRestricted => "stream restringido por el servidor",
            FailureCategory::Unknown => "desconocido",
        }
    }
}

/// Typed error returned by a stream provider: always keeps its category and
/// its origin.
#[derive(Debug, PartialEq, Eq)]
pub struct ResolutionError {
    pub category: FailureCategory,
    pub provider: Source,
    pub message: String,
}

impl DeepView for ResolutionError {
    type V = (FailureCategory, Source, Seq<char>);

    open spec fn deep_view(&self) -> (FailureCategory, Source, Seq<char>) {
        (self.category, self.provider, self.message@)
    }
}

impl Clone for ResolutionError {
    fn clone(&self) -> (r: Self)
        ensures
            r.deep_view() == self.deep_view(),
    {
        ResolutionError {
            category: self.category,
            provider: self.provider,
            message: self.message.clone(),
        }
    }
}

/// Text of an error: `provider: category: message`.
pub open spec fn resolution_error_text(e: (FailureCategory, Source, Seq<char>)) -> Seq<char> {
    source_label_spec(e.1) + ": "@ + category_label_spec(e.0) + ": "@ + e.2
}

impl ResolutionError {
    /// New classified error.
    pub fn new(category: FailureCategory, provider: Source, message: &str) -> (e: Self)
        ensures
            e.category == category,
            e.provider == provider,
            e.message@ == message@,
    {
        ResolutionError { category, provider, message: message.to_owned() }
    }

    /// Display text: `provider: category: message`.
    pub fn to_string(&self) -> (s: String)
        ensures
            s@ == resolution_error_text(self.deep_view()),
    {
        let mut s = String::from_str(self.provider.label());
        s.append(": ");
        s.append(self.category.label());
        s.append(": ");
        s.append(self.message.as_str());
        s
    }
}

/// Transient or self-renewing failures are worth repeating; deterministic
/// ones (unsupported, provider unavailable, invalid response, unknown) never
/// are; and every failure that spoils a cached resolution is one that a new
/// attempt can cure.
pub proof fn law_retry_classification(c: FailureCategory)
    ensures
        c == FailureCategory::NetworkFailure || c == FailureCategory::Timeout || c
            == FailureCategory::RateLimited ==> retryable_spec(c),
        c == FailureCategory::Unsupported || c == FailureCategory::ProviderUnavailable || c
            == FailureCategory::InvalidResponse || c == FailureCategory::Unknown ==> !retryable_spec(c),
        invalidates_cache_spec(c) ==> retryable_spec(c),
        c == FailureCategory::StreamExpired || c == FailureCategory::StreamRestricted ==> invalidates_cache_spec(c),
        c == FailureCategory::NetworkFailure || c == FailureCategory::Timeout ==> !invalidates_cache_spec(c),
{
}

} // verus!
