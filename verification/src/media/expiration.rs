//! Expiration manager: the ONE place that reasons about the validity window
//! of resolutions. It sweeps expired entries out of the cache and reports
//! the ones about to expire; it never refreshes on its own.

use vstd::prelude::*;

use crate::domain::stream::expired_at;
use crate::media::cache::{expiring_spec, has_key, key_index, keys_unique, remove_spec, CacheItem, MemoryResolutionCache};

verus! {

/// Cache after removing each key of `keys`, in order.
pub open spec fn remove_keys(s: Seq<CacheItem>, keys: Seq<(Seq<char>, i64)>) -> Seq<CacheItem>
    decreases keys.len(),
{
    if keys.len() == 0 {
        s
    } else {
        remove_keys(remove_spec(s, keys[0].0), keys.subrange(1, keys.len() as int))
    }
}

/// Result of a sweep.
#[derive(Debug)]
pub struct SweepReport {
    /// Keys removed because they had already expired.
    pub purged: Vec<String>,
    /// Live keys expiring within the preventive window, with their expiry
    /// (Unix ms).
    pub expiring_soon: Vec<(String, i64)>,
}

/// Validity manager over the resolution cache.
pub struct ExpirationManager {
    cache: MemoryResolutionCache,
    /// Preventive "about to expire" window, in ms.
    near_window_ms: u64,
}

impl ExpirationManager {
    /// The managed cache.
    pub closed spec fn spec_cache(&self) -> MemoryResolutionCache {
        self.cache
    }

    /// Configured preventive window (ms).
    pub closed spec fn spec_near_window(&self) -> u64 {
        self.near_window_ms
    }

    /// Manager over `cache` with the given preventive window.
    pub fn new(cache: MemoryResolutionCache, near_window_ms: u64) -> (m: Self)
        ensures
            m.spec_cache() == cache,
            m.spec_near_window() == near_window_ms,
    {
        ExpirationManager { cache, near_window_ms }
    }

    /// Preventive window (ms).
    pub fn near_window(&self) -> (w: u64)
        ensures
            w == self.spec_near_window(),
    {
        self.near_window_ms
    }

    /// Read access to the managed cache.
    pub fn cache(&self) -> (c: &MemoryResolutionCache)
        ensures
            *c == self.spec_cache(),
    {
        &self.cache
    }

    /// Write access to the managed cache.
    pub fn cache_mut(&mut self) -> (c: &mut MemoryResolutionCache)
        ensures
            *c == old(self).spec_cache(),
            final(self).spec_cache() == *final(c),
            final(self).spec_near_window() == old(self).spec_near_window(),
    {
        &mut self.cache
    }

    /// Sweeps at `now` (Unix ms): removes the expired entries and reports
    /// them together with the live entries expiring within the window.
    pub fn sweep(&mut self, now: i64) -> (report: SweepReport)
        requires
            old(self).spec_cache().wf(),
        ensures
            final(self).spec_cache().wf(),
            final(self).spec_near_window() == old(self).spec_near_window(),
            final(self).spec_cache().spec_capacity() == old(self).spec_cache().spec_capacity(),
            report.purged.deep_view() == expiring_spec(old(self).spec_cache()@, now as int).map_values(
                |e: (Seq<char>, i64)| e.0,
            ),
            final(self).spec_cache()@ == remove_keys(
                old(self).spec_cache()@,
                expiring_spec(old(self).spec_cache()@, now as int),
            ),
            old(self).spec_near_window() == 0 ==> report.expiring_soon@.len() == 0,
            old(self).spec_near_window() > 0 ==> report.expiring_soon.deep_view() == expiring_spec(
                final(self).spec_cache()@,
                now + old(self).spec_near_window(),
            ),
    {
        let expired = self.cache.expiring_within(0, now);
        let ghost start = self.cache@;
        let ghost ev = expired.deep_view();
        let mut purged: Vec<String> = Vec::new();
        let mut i: usize = 0;
        proof {
            assert(ev.subrange(0, ev.len() as int) =~= ev);
            assert(purged.deep_view() =~= ev.subrange(0, 0).map_values(|e: (Seq<char>, i64)| e.0));
        }
        while i < expired.len()
            invariant
                i <= expired@.len(),
                ev == expired.deep_view(),
                ev == expiring_spec(start, now as int),
                self.cache.wf(),
                self.cache.spec_capacity() == old(self).spec_cache().spec_capacity(),
                self.near_window_ms == old(self).spec_near_window(),
                remove_keys(self.cache@, ev.subrange(i as int, ev.len() as int)) == remove_keys(start, ev),
                purged.deep_view() == ev.subrange(0, i as int).map_values(|e: (Seq<char>, i64)| e.0),
            decreases expired@.len() - i,
        {
            let ghost cur = self.cache@;
            self.cache.invalidate(expired[i].0.as_str());
            let ghost pv = purged.deep_view();
            purged.push(expired[i].0.clone());
            proof {
                let rest = ev.subrange(i as int, ev.len() as int);
                assert(ev[i as int] == expired@[i as int].deep_view());
                assert(rest[0] == ev[i as int]);
                assert(rest[0].0 == expired@[i as int].0@);
                assert(remove_keys(cur, rest) == remove_keys(remove_spec(cur, rest[0].0), rest.subrange(1, rest.len() as int)));
                assert(ev.subrange(0, i + 1).map_values(|e: (Seq<char>, i64)| e.0) =~= ev.subrange(0, i as int).map_values(|e: (Seq<char>, i64)| e.0).push(ev[i as int].0));
                assert(rest.subrange(1, rest.len() as int) =~= ev.subrange(i + 1, ev.len() as int));
                assert(purged.deep_view() =~= ev.subrange(0, i + 1).map_values(|e: (Seq<char>, i64)| e.0));
            }
            i = i + 1;
        }
        proof {
            assert(ev.subrange(expired@.len() as int, ev.len() as int) =~= Seq::<(Seq<char>, i64)>::empty());
            assert(ev.subrange(0, ev.len() as int) =~= ev);
        }
        let expiring_soon = if self.near_window_ms == 0 {
            Vec::new()
        } else {
            self.cache.expiring_within(self.near_window_ms, now)
        };
        SweepReport { purged, expiring_soon }
    }

}

proof fn lemma_remove_member(s: Seq<CacheItem>, k: Seq<char>)
    requires
        keys_unique(s),
    ensures
        keys_unique(remove_spec(s, k)),
        forall|j: int| 0 <= j < remove_spec(s, k).len() ==> (#[trigger] remove_spec(s, k)[j]).0 != k
            && member(s, remove_spec(s, k)[j]),
{
    let t = remove_spec(s, k);
    if has_key(s, k) {
        let i = key_index(s, k);
        assert forall|j: int| 0 <= j < t.len() implies (#[trigger] t[j]).0 != k && member(s, t[j]) by {
            let sj = if j < i { j } else { j + 1 };
            assert(t[j] == s[sj]);
            assert(sj != i);
            if sj < i {
                assert(s[sj].0 != s[i].0);
            } else {
                assert(s[i].0 != s[sj].0);
            }
        }
        assert forall|a: int, b: int| 0 <= a < b < t.len() implies t[a].0 != t[b].0 by {
            let sa = if a < i { a } else { a + 1 };
            let sb = if b < i { b } else { b + 1 };
            assert(t[a] == s[sa] && t[b] == s[sb]);
        }
    } else {
        assert forall|j: int| 0 <= j < t.len() implies (#[trigger] t[j]).0 != k && member(s, t[j]) by {
            assert(t[j] == s[j]);
            if s[j].0 == k {
                assert(has_key(s, k));
            }
        }
    }
}

/// `x` is an entry of `s`.
pub open spec fn member(s: Seq<CacheItem>, x: CacheItem) -> bool {
    exists|i: int| 0 <= i < s.len() && s[i] == x
}

/// No key of `keys` is `k`.
pub open spec fn unlisted(keys: Seq<(Seq<char>, i64)>, k: Seq<char>) -> bool {
    forall|m: int| 0 <= m < keys.len() ==> (#[trigger] keys[m]).0 != k
}

proof fn lemma_remove_keys_member(s: Seq<CacheItem>, keys: Seq<(Seq<char>, i64)>)
    requires
        keys_unique(s),
    ensures
        forall|j: int| 0 <= j < remove_keys(s, keys).len() ==> member(s, #[trigger] remove_keys(s, keys)[j])
            && unlisted(keys, remove_keys(s, keys)[j].0),
    decreases keys.len(),
{
    let r = remove_keys(s, keys);
    if keys.len() == 0 {
        assert forall|j: int| 0 <= j < r.len() implies member(s, #[trigger] r[j]) && unlisted(keys, r[j].0) by {
            assert(s[j] == r[j]);
        }
    } else {
        let s1 = remove_spec(s, keys[0].0);
        let rest = keys.subrange(1, keys.len() as int);
        lemma_remove_member(s, keys[0].0);
        lemma_remove_keys_member(s1, rest);
        assert(r == remove_keys(s1, rest));
        assert forall|j: int| 0 <= j < r.len() implies member(s, #[trigger] r[j]) && unlisted(keys, r[j].0) by {
            assert(member(s1, r[j]));
            let i1 = choose|i: int| 0 <= i < s1.len() && s1[i] == r[j];
            assert(s1[i1].0 != keys[0].0);
            assert(member(s, s1[i1]));
            assert(unlisted(rest, r[j].0));
            assert forall|m: int| 0 <= m < keys.len() implies (#[trigger] keys[m]).0 != r[j].0 by {
                if m > 0 {
                    assert(keys[m] == rest[m - 1]);
                }
            }
        }
    }
}

proof fn lemma_expired_listed(s: Seq<CacheItem>, now: i64, i: int)
    requires
        0 <= i < s.len(),
        expired_at(s[i].1, now),
    ensures
        exists|m: int| 0 <= m < expiring_spec(s, now as int).len() && (#[trigger] expiring_spec(s, now as int)[m]).0 == s[i].0,
    decreases s.len(),
{
    let rest = expiring_spec(s.drop_last(), now as int);
    if i == s.len() - 1 {
        let e = expiring_spec(s, now as int);
        assert(e[e.len() - 1].0 == s[i].0);
    } else {
        assert(s.drop_last()[i] == s[i]);
        lemma_expired_listed(s.drop_last(), now, i);
        let m = choose|m: int| 0 <= m < rest.len() && (#[trigger] rest[m]).0 == s[i].0;
        let e = expiring_spec(s, now as int);
        assert(e[m] == rest[m]);
    }
}

/// After a sweep at `now`, no entry expired at `now` is left in the cache,
/// and every entry left was already there.
pub proof fn law_sweep_leaves_no_expired(s: Seq<CacheItem>, now: i64)
    requires
        keys_unique(s),
    ensures
        forall|j: int| 0 <= j < remove_keys(s, expiring_spec(s, now as int)).len()
            ==> !expired_at(#[trigger] remove_keys(s, expiring_spec(s, now as int))[j].1, now),
{
    let keys = expiring_spec(s, now as int);
    let r = remove_keys(s, keys);
    lemma_remove_keys_member(s, keys);
    assert forall|j: int| 0 <= j < r.len() implies !expired_at(#[trigger] r[j].1, now) by {
        assert(member(s, r[j]) && unlisted(keys, r[j].0));
        let i = choose|i: int| 0 <= i < s.len() && s[i] == r[j];
        if expired_at(r[j].1, now) {
            lemma_expired_listed(s, now, i);
            let m = choose|m: int| 0 <= m < keys.len() && (#[trigger] keys[m]).0 == s[i].0;
            assert(keys[m].0 != r[j].0);
        }
    }
}

} // verus!
