//! Early preparation of the NEXT track.
//!
//! Hard rules: ONLY the next track, never a whole playlist; only when the
//! current one is about to end (`lead_time_ms`); "preparing" means warming
//! the resolver's cache; dedupe by identifier so repeated clock ticks never
//! start duplicate work. The warm itself runs outside the library; the
//! manager decides and keeps the set of keys in flight.

use vstd::prelude::*;

use crate::domain::track::{track_key, Track};
use crate::text::same_text;

verus! {

/// Preload configuration (milliseconds).
#[derive(Debug, Clone, Copy, PartialEq, Eq, Structural)]
pub struct PreloadConfig {
    pub enabled: bool,
    /// How long before the end the next track is prepared.
    pub lead_time_ms: u64,
}

impl Default for PreloadConfig {
    fn default() -> (c: Self)
        ensures
            c.enabled,
            c.lead_time_ms == 30_000,
    {
        PreloadConfig { enabled: true, lead_time_ms: 30_000 }
    }
}

/// Whether the next track is due: enabled, there is a next track, the
/// duration is known and longer than the lead time, and the remaining time
/// is within the lead time.
pub open spec fn should_preload_spec(position_ms: u64, duration_ms: Option<u64>, has_next: bool, c: PreloadConfig) -> bool {
    c.enabled && has_next && match duration_ms {
        Some(total) => total > c.lead_time_ms && (if total >= position_ms {
            total - position_ms
        } else {
            0
        }) <= c.lead_time_ms,
        None => false,
    }
}

/// PURE decision: is it time to prepare the next track? Without a known
/// duration there is no reliable signal of proximity, so no preload.
pub fn should_preload(position_ms: u64, duration_ms: Option<u64>, has_next: bool, config: &PreloadConfig) -> (b: bool)
    ensures
        b == should_preload_spec(position_ms, duration_ms, has_next, *config),
{
    if !config.enabled || !has_next {
        return false;
    }
    match duration_ms {
        Some(total) => if total > config.lead_time_ms {
            let left = if total >= position_ms { total - position_ms } else { 0 };
            left <= config.lead_time_ms
        } else {
            false
        },
        None => false,
    }
}

/// Preload manager: configuration and identifiers with a warm in flight.
#[derive(Debug)]
pub struct PreloadManager {
    config: PreloadConfig,
    inflight: Vec<String>,
}

impl View for PreloadManager {
    type V = Set<Seq<char>>;

    closed spec fn view(&self) -> Set<Seq<char>> {
        Set::new(|k: Seq<char>| listed(self.inflight@, k))
    }
}

impl PreloadManager {
    /// Configuration of the manager.
    pub closed spec fn spec_config(&self) -> PreloadConfig {
        self.config
    }

    /// Manager with nothing in flight.
    pub fn new(config: PreloadConfig) -> (m: Self)
        ensures
            m.spec_config() == config,
            m@ == Set::<Seq<char>>::empty(),
    {
        let m = PreloadManager { config, inflight: Vec::new() };
        assert(m@ =~= Set::<Seq<char>>::empty());
        m
    }

    /// The configuration.
    pub fn config(&self) -> (c: &PreloadConfig)
        ensures
            *c == self.spec_config(),
    {
        &self.config
    }

    fn position_of(&self, key: &str) -> (r: Option<usize>)
        ensures
            match r {
                Some(i) => i < self.inflight@.len() && self.inflight@[i as int]@ == key@,
                None => !self@.contains(key@),
            },
    {
        let mut i: usize = 0;
        while i < self.inflight.len()
            invariant
                i <= self.inflight@.len(),
                forall|j: int| 0 <= j < i ==> self.inflight@[j]@ != key@,
            decreases self.inflight@.len() - i,
        {
            if same_text(self.inflight[i].as_str(), key) {
                return Some(i);
            }
            i = i + 1;
        }
        None
    }

    /// Whether a warm for `key` is in flight.
    pub fn is_inflight(&self, key: &str) -> (b: bool)
        ensures
            b == self@.contains(key@),
    {
        self.position_of(key).is_some()
    }

    /// Considers preparing `next`: when enabled and no warm is in flight for
    /// its identifier, the identifier is registered and returned (the caller
    /// starts the warm and reports its end with [`Self::finish`]); otherwise
    /// nothing happens.
    pub fn consider(&mut self, next: Option<&Track>) -> (started: Option<String>)
        ensures
            final(self).spec_config() == old(self).spec_config(),
            match next {
                Some(t) => if old(self).spec_config().enabled && !old(self)@.contains(track_key(*t)) {
                    &&& started matches Some(k) && k@ == track_key(*t)
                    &&& final(self)@ == old(self)@.insert(track_key(*t))
                } else {
                    &&& started is None
                    &&& final(self)@ == old(self)@
                },
                None => started is None && final(self)@ == old(self)@,
            },
    {
        if !self.config.enabled {
            return None;
        }
        match next {
            None => None,
            Some(track) => {
                let key = track.identifier();
                if self.position_of(key.as_str()).is_some() {
                    return None;
                }
                let ghost before = self@;
                let ghost bv = self.inflight@;
                let c = key.clone();
                self.inflight.push(c);
                proof {
                    assert(self.inflight@ == bv.push(c));
                    assert forall|k: Seq<char>| self@.contains(k) == before.insert(key@).contains(k) by {
                        lemma_listed_push(bv, c, k);
                    }
                    assert(self@ =~= before.insert(key@));
                }
                Some(key)
            },
        }
    }

    /// The warm for `key` ended (ready or failed): it leaves the set.
    pub fn finish(&mut self, key: &str)
        ensures
            final(self).spec_config() == old(self).spec_config(),
            final(self)@ == old(self)@.remove(key@),
    {
        let ghost before = self@;
        let ghost all = self.inflight@;
        let mut kept: Vec<String> = Vec::new();
        let mut i: usize = 0;
        while i < self.inflight.len()
            invariant
                i <= all.len(),
                self.inflight@ == all,
                forall|k: Seq<char>| #[trigger] listed(kept@, k) <==> (k != key@ && listed(all.take(i as int), k)),
            decreases all.len() - i,
        {
            let ghost prev = kept@;
            let ghost pre = all.take(i as int);
            let ghost post = all.take(i + 1);
            assert(post =~= pre.push(all[i as int]));
            if !same_text(self.inflight[i].as_str(), key) {
                kept.push(self.inflight[i].clone());
                proof {
                    assert forall|k: Seq<char>| #[trigger] listed(kept@, k) <==> (k != key@ && listed(post, k)) by {
                        lemma_listed_push(prev, kept@[prev.len() as int], k);
                        lemma_listed_push(pre, all[i as int], k);
                        assert(kept@ =~= prev.push(kept@[prev.len() as int]));
                    }
                }
            } else {
                proof {
                    assert forall|k: Seq<char>| #[trigger] listed(kept@, k) <==> (k != key@ && listed(post, k)) by {
                        lemma_listed_push(pre, all[i as int], k);
                    }
                }
            }
            i = i + 1;
        }
        self.inflight = kept;
        proof {
            assert(all.take(all.len() as int) =~= all);
            assert forall|k: Seq<char>| self@.contains(k) == before.remove(key@).contains(k) by {
                assert(self@.contains(k) == listed(self.inflight@, k));
                assert(before.contains(k) == listed(all, k));
            }
            assert(self@ =~= before.remove(key@));
        }
    }
}

/// Some element of `v` has the text `k`.
pub open spec fn listed(v: Seq<String>, k: Seq<char>) -> bool {
    exists|j: int| 0 <= j < v.len() && v[j]@ == k
}

proof fn lemma_listed_push(v: Seq<String>, x: String, k: Seq<char>)
    ensures
        listed(v.push(x), k) == (listed(v, k) || x@ == k),
{
    let w = v.push(x);
    if listed(v, k) {
        let j = choose|j: int| 0 <= j < v.len() && v[j]@ == k;
        assert(w[j]@ == k);
    }
    if x@ == k {
        assert(w[v.len() as int]@ == k);
    }
    if listed(w, k) {
        let j = choose|j: int| 0 <= j < w.len() && w[j]@ == k;
        if j < v.len() {
            assert(v[j]@ == k);
        }
    }
}

/// A track shorter than (or as long as) the lead time is never preloaded,
/// and nothing is preloaded without a next track or while disabled.
pub proof fn law_preload_needs_margin(position_ms: u64, total: u64, has_next: bool, c: PreloadConfig)
    requires
        total <= c.lead_time_ms || !has_next || !c.enabled,
    ensures
        !should_preload_spec(position_ms, Some(total), has_next, c),
{
}

/// A preload is due only near the end of a track of known duration: while
/// more than the lead time remains nothing is warmed, and once the remaining
/// time is within the lead time (on a track longer than the lead time, with
/// a next track and preloading enabled) it is.
pub proof fn law_preload_only_near_end(position_ms: u64, duration_ms: Option<u64>, has_next: bool, c: PreloadConfig)
    ensures
        duration_ms is None ==> !should_preload_spec(position_ms, duration_ms, has_next, c),
        duration_ms matches Some(total) && total > position_ms + c.lead_time_ms
            ==> !should_preload_spec(position_ms, duration_ms, has_next, c),
        duration_ms matches Some(total) && c.enabled && has_next && total > c.lead_time_ms
            && total <= position_ms + c.lead_time_ms ==> should_preload_spec(
            position_ms,
            duration_ms,
            has_next,
            c,
        ),
{
}

} // verus!
