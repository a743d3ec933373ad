//! A resolved, playable stream of a track.

use vstd::prelude::*;

use crate::domain::source::Source;

verus! {

/// One HTTP request header needed to download a stream.
#[derive(Debug, PartialEq, Eq)]
pub struct Header {
    pub name: String,
    pub value: String,
}

impl DeepView for Header {
    type V = (Seq<char>, Seq<char>);

    open spec fn deep_view(&self) -> (Seq<char>, Seq<char>) {
        (self.name@, self.value@)
    }
}

impl Clone for Header {
    fn clone(&self) -> (r: Self)
        ensures
            r.deep_view() == self.deep_view(),
    {
        Header { name: self.name.clone(), value: self.value.clone() }
    }
}

/// A resolved audio stream: URI plus optional expiry and request headers.
#[derive(Debug, PartialEq, Eq)]
pub struct StreamResolution {
    /// Provider that resolved the stream.
    pub provider: Source,
    /// Playable URI.
    pub uri: String,
    /// Expiry instant in Unix milliseconds, when the provider knows it.
    pub expires_at: Option<i64>,
    /// Extra request headers needed to download the URI.
    pub headers: Vec<Header>,
}

/// Mathematical content of a [`StreamResolution`].
pub struct ResolutionModel {
    pub provider: Source,
    pub uri: Seq<char>,
    pub expires_at: Option<i64>,
    pub headers: Seq<(Seq<char>, Seq<char>)>,
}

impl DeepView for StreamResolution {
    type V = ResolutionModel;

    open spec fn deep_view(&self) -> ResolutionModel {
        ResolutionModel {
            provider: self.provider,
            uri: self.uri@,
            expires_at: self.expires_at,
            headers: self.headers.deep_view(),
        }
    }
}

impl Clone for StreamResolution {
    fn clone(&self) -> (r: Self)
        ensures
            r.deep_view() == self.deep_view(),
    {
        let headers = self.headers.clone();
        proof {
            assert(headers.deep_view() =~= self.headers.deep_view());
        }
        StreamResolution {
            provider: self.provider,
            uri: self.uri.clone(),
            expires_at: self.expires_at,
            headers,
        }
    }
}

/// Why a resolution cannot be served.
#[derive(Debug, Clone, Copy, PartialEq, Eq, Structural)]
pub enum ResolutionInvalid {
    /// The URI is empty.
    EmptyUri,
}

impl ResolutionInvalid {
    /// Human readable reason.
    pub fn message(self) -> (r: &'static str)
        ensures
            r@ == "la resolución no tiene URI"@,
    {
        "la resolución no tiene URI"
    }
}

/// An entry is expired at `now` when its expiry is known and not after `now`.
pub open spec fn expired_at(r: ResolutionModel, now: i64) -> bool {
    match r.expires_at {
        Some(exp) => exp <= now,
        None => false,
    }
}

impl StreamResolution {
    /// Resolution without expiry nor headers.
    pub fn new(provider: Source, uri: String) -> (r: Self)
        ensures
            r.provider == provider,
            r.uri == uri,
            r.expires_at is None,
            r.headers@.len() == 0,
    {
        StreamResolution { provider, uri, expires_at: None, headers: Vec::new() }
    }

    /// `true` when the resolution is no longer valid at `now` (Unix ms).
    pub fn is_expired_at(&self, now: i64) -> (b: bool)
        ensures
            b == expired_at(self.deep_view(), now),
    {
        match self.expires_at {
            Some(exp) => exp <= now,
            None => false,
        }
    }

    /// Structural validation: a resolution must carry a URI.
    pub fn validate(&self) -> (r: Result<(), ResolutionInvalid>)
        ensures
            r is Ok <==> self.uri@.len() > 0,
    {
        if self.uri.as_str().is_empty() {
            Err(ResolutionInvalid::EmptyUri)
        } else {
            Ok(())
        }
    }
}

} // verus!
