//! Catalog layer: provider-independent metadata sources. The providers
//! themselves (network clients) live outside the library; these are the
//! decisions the catalog registry and its providers share.

use vstd::prelude::*;

use crate::domain::source::Source;
use crate::domain::track::Track;

verus! {

/// Candidate thumbnail URLs of a track by default: the thumbnail the
/// provider attached to it, if any.
pub fn thumbnail_candidates(track: &Track) -> (urls: Vec<String>)
    ensures
        match track.thumbnail {
            Some(t) => urls@.len() == 1 && urls@[0]@ == t.url@,
            None => urls@.len() == 0,
        },
{
    let mut urls: Vec<String> = Vec::new();
    if let Some(t) = &track.thumbnail {
        urls.push(t.url.clone());
    }
    urls
}

/// Position of the first registered provider whose source is `source`.
pub open spec fn provider_for_spec(sources: Seq<Source>, source: Source) -> Option<int>
    decreases sources.len(),
{
    if sources.len() == 0 {
        None
    } else {
        match provider_for_spec(sources.drop_last(), source) {
            Some(i) => Some(i),
            None => if sources.last() == source {
                Some(sources.len() - 1)
            } else {
                None
            },
        }
    }
}

/// Provider of the catalog registry serving `source`: the first registered
/// one with that source.
pub fn provider_for(sources: &Vec<Source>, source: Source) -> (r: Option<usize>)
    ensures
        match r {
            Some(i) => provider_for_spec(sources@, source) == Some(i as int),
            None => provider_for_spec(sources@, source) is None,
        },
{
    let mut i: usize = 0;
    while i < sources.len()
        invariant
            i <= sources@.len(),
            provider_for_spec(sources@.take(i as int), source) is None,
        decreases sources@.len() - i,
    {
        proof {
            assert(sources@.take(i + 1).drop_last() =~= sources@.take(i as int));
        }
        if sources[i] == source {
            proof {
                lemma_provider_prefix(sources@, source, (i + 1) as int);
            }
            return Some(i);
        }
        i = i + 1;
    }
    proof {
        assert(sources@.take(sources@.len() as int) =~= sources@);
    }
    None
}

proof fn lemma_provider_prefix(v: Seq<Source>, source: Source, k: int)
    requires
        0 <= k <= v.len(),
        provider_for_spec(v.take(k), source) is Some,
    ensures
        provider_for_spec(v, source) == provider_for_spec(v.take(k), source),
    decreases v.len() - k,
{
    if k < v.len() {
        assert(v.take(k + 1).drop_last() =~= v.take(k));
        lemma_provider_prefix(v, source, k + 1);
    } else {
        assert(v.take(k) =~= v);
    }
}

} // verus!
