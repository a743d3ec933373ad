//! Streaming contract: what a stream provider declares about itself.
//!
//! A provider turns a track into a stream resolution. The resolution itself
//! is network work done outside the library; ORDER and HEALTH decisions are
//! taken here over what providers declare ([`ProviderDescriptor`]) and over
//! observed results.

use vstd::prelude::*;

use crate::domain::source::Source;
use crate::domain::track::Track;
use crate::text::{blank_spec, is_blank};

verus! {

/// Context of one individual resolution.
#[derive(Debug, Clone, Copy, PartialEq, Eq, Structural)]
pub struct ResolveContext {
    /// Optional deadline (monotonic ms) for the whole operation.
    pub deadline: Option<u64>,
}

impl Default for ResolveContext {
    fn default() -> (c: Self)
        ensures
            c.deadline is None,
    {
        ResolveContext { deadline: None }
    }
}

impl ResolveContext {
    /// Context bounded by `deadline`.
    pub fn with_deadline(deadline: u64) -> (c: Self)
        ensures
            c.deadline == Some(deadline),
    {
        ResolveContext { deadline: Some(deadline) }
    }
}

/// Static declaration of a stream provider: stable id, source of the tracks
/// it resolves and static priority (HIGHER is tried first, 100 by default).
#[derive(Debug, PartialEq, Eq)]
pub struct ProviderDescriptor {
    pub id: String,
    pub source: Source,
    pub priority: u32,
}

impl DeepView for ProviderDescriptor {
    type V = (Seq<char>, Source, u32);

    open spec fn deep_view(&self) -> (Seq<char>, Source, u32) {
        (self.id@, self.source, self.priority)
    }
}

impl Clone for ProviderDescriptor {
    fn clone(&self) -> (r: Self)
        ensures
            r.deep_view() == self.deep_view(),
    {
        ProviderDescriptor { id: self.id.clone(), source: self.source, priority: self.priority }
    }
}

/// Default priority of a provider.
pub const DEFAULT_PRIORITY: u32 = 100;

/// A provider may TRY a track of its own source that carries a non blank
/// external id.
pub open spec fn supports_spec(source: Source, t: Track) -> bool {
    t.source == source && match t.external_id {
        Some(id) => !blank_spec(id@),
        None => false,
    }
}

impl ProviderDescriptor {
    /// Descriptor with the default priority.
    pub fn new(id: &str, source: Source) -> (d: Self)
        ensures
            d.id@ == id@,
            d.source == source,
            d.priority == DEFAULT_PRIORITY,
    {
        ProviderDescriptor { id: id.to_owned(), source, priority: DEFAULT_PRIORITY }
    }

    /// Descriptor with an explicit priority.
    pub fn with_priority(id: &str, source: Source, priority: u32) -> (d: Self)
        ensures
            d.id@ == id@,
            d.source == source,
            d.priority == priority,
    {
        ProviderDescriptor { id: id.to_owned(), source, priority }
    }

    /// `true` if this provider can TRY to resolve the track: pure and cheap.
    pub fn supports(&self, track: &Track) -> (b: bool)
        ensures
            b == supports_spec(self.source, *track),
    {
        if track.source != self.source {
            return false;
        }
        match &track.external_id {
            Some(id) => !is_blank(id.as_str()),
            None => false,
        }
    }
}

} // verus!
