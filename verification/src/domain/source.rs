//! Origin of a track or of a resolved stream.

use vstd::prelude::*;

verus! {

/// Platform where a track was found and from which it is played.
#[derive(Debug, Clone, Copy, PartialEq, Eq, Structural, Hash)]
pub enum Source {
    YouTube,
}

/// Human readable label of a source.
pub open spec fn source_label_spec(s: Source) -> Seq<char> {
    match s {
        Source::YouTube => "YouTube"@,
    }
}

/// Stable lower-case key of a source (persistence, configuration).
pub open spec fn source_key_spec(s: Source) -> Seq<char> {
    match s {
        Source::YouTube => "youtube"@,
    }
}

impl Source {
    /// Label shown to the user ("YouTube").
    pub fn label(self) -> (r: &'static str)
        ensures
            r@ == source_label_spec(self),
    {
        match self {
            Source::YouTube => "YouTube",
        }
    }

    /// Stable key used in storage ("youtube").
    pub fn as_str(self) -> (r: &'static str)
        ensures
            r@ == source_key_spec(self),
    {
        match self {
            Source::YouTube => "youtube",
        }
    }
}

} // verus!
