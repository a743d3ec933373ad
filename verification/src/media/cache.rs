//! Cache of stream resolutions.
//!
//! Entries live and die by their `expires_at`: an expired entry is never
//! served. The hot in-memory layer is bounded and evicts in insertion order
//! (FIFO) so that it does not grow with the playback history.

use vstd::prelude::*;

use crate::domain::source::Source;
use crate::domain::stream::{expired_at, ResolutionModel, StreamResolution};
use crate::text::same_text;

verus! {

struct CacheEntry {
    key: String,
    resolution: StreamResolution,
}

/// One cached entry: key and resolution.
pub type CacheItem = (Seq<char>, ResolutionModel);

/// Keys are unique.
pub open spec fn keys_unique(s: Seq<CacheItem>) -> bool {
    forall|a: int, b: int| 0 <= a < b < s.len() ==> s[a].0 != s[b].0
}

/// The cache holds an entry for `k`.
pub open spec fn has_key(s: Seq<CacheItem>, k: Seq<char>) -> bool {
    exists|i: int| 0 <= i < s.len() && s[i].0 == k
}

/// Position of the entry of `k` (meaningful when `has_key`).
pub open spec fn key_index(s: Seq<CacheItem>, k: Seq<char>) -> int {
    choose|i: int| 0 <= i < s.len() && s[i].0 == k
}

/// Cache after `put(k, r)`: an existing key is updated in place (its age is
/// kept), a new key is appended; beyond the capacity the oldest entry goes.
pub open spec fn put_spec(s: Seq<CacheItem>, k: Seq<char>, r: ResolutionModel, cap: nat) -> Seq<CacheItem> {
    if has_key(s, k) {
        s.update(key_index(s, k), (k, r))
    } else if s.len() + 1 > cap {
        s.push((k, r)).subrange(1, s.len() + 1 as int)
    } else {
        s.push((k, r))
    }
}

/// Cache after removing the entry of `k`, if any.
pub open spec fn remove_spec(s: Seq<CacheItem>, k: Seq<char>) -> Seq<CacheItem> {
    if has_key(s, k) {
        s.remove(key_index(s, k))
    } else {
        s
    }
}

/// Entries that do not come from `source`, in insertion order.
pub open spec fn without_provider(s: Seq<CacheItem>, source: Source) -> Seq<CacheItem>
    decreases s.len(),
{
    if s.len() == 0 {
        Seq::empty()
    } else {
        let rest = without_provider(s.drop_last(), source);
        if s.last().1.provider != source {
            rest.push(s.last())
        } else {
            rest
        }
    }
}

/// `(key, expiry)` of the entries expiring at or before `deadline`, in
/// insertion order.
pub open spec fn expiring_spec(s: Seq<CacheItem>, deadline: int) -> Seq<(Seq<char>, i64)>
    decreases s.len(),
{
    if s.len() == 0 {
        Seq::empty()
    } else {
        let rest = expiring_spec(s.drop_last(), deadline);
        match s.last().1.expires_at {
            Some(exp) => if exp <= deadline {
                rest.push((s.last().0, exp))
            } else {
                rest
            },
            None => rest,
        }
    }
}


/// Answer of a lookup of `k` at `now`: the live entry, nothing otherwise.
pub open spec fn get_spec(s: Seq<CacheItem>, k: Seq<char>, now: i64) -> Option<ResolutionModel> {
    if has_key(s, k) && !expired_at(s[key_index(s, k)].1, now) {
        Some(s[key_index(s, k)].1)
    } else {
        None
    }
}

/// State after a lookup of `k` at `now`: an expired entry is purged.
pub open spec fn after_get(s: Seq<CacheItem>, k: Seq<char>, now: i64) -> Seq<CacheItem> {
    if has_key(s, k) && expired_at(s[key_index(s, k)].1, now) {
        s.remove(key_index(s, k))
    } else {
        s
    }
}

/// Bounded in-memory cache of resolutions, FIFO eviction.
pub struct MemoryResolutionCache {
    entries: Vec<CacheEntry>,
    capacity: usize,
}

impl View for MemoryResolutionCache {
    type V = Seq<CacheItem>;

    closed spec fn view(&self) -> Seq<CacheItem> {
        Seq::new(self.entries@.len(), |i: int| (self.entries@[i].key@, self.entries@[i].resolution.deep_view()))
    }
}

proof fn lemma_unique_index(s: Seq<CacheItem>, i: int, k: Seq<char>)
    requires
        keys_unique(s),
        0 <= i < s.len(),
        s[i].0 == k,
    ensures
        has_key(s, k),
        key_index(s, k) == i,
{
    assert(has_key(s, k));
    let j = key_index(s, k);
    if j != i {
        if j < i {
            assert(s[j].0 != s[i].0);
        } else {
            assert(s[i].0 != s[j].0);
        }
    }
}

impl MemoryResolutionCache {
    /// Maximum number of live entries.
    pub closed spec fn spec_capacity(&self) -> nat {
        self.capacity as nat
    }

    /// Cache invariant: unique keys, never beyond capacity, capacity ≥ 1.
    pub open spec fn wf(&self) -> bool {
        &&& keys_unique(self@)
        &&& self.spec_capacity() >= 1
        &&& self@.len() <= self.spec_capacity()
    }

    /// Cache holding at most `capacity` live entries (at least one).
    pub fn new(capacity: usize) -> (c: Self)
        ensures
            c.wf(),
            c@ == Seq::<CacheItem>::empty(),
            c.spec_capacity() == if capacity == 0 { 1 } else { capacity as nat },
    {
        let c = MemoryResolutionCache {
            entries: Vec::new(),
            capacity: if capacity == 0 { 1 } else { capacity },
        };
        assert(c@ =~= Seq::<CacheItem>::empty());
        c
    }

    fn find(&self, key: &str) -> (r: Option<usize>)
        ensures
            match r {
                Some(i) => i < self@.len() && self@[i as int].0 == key@,
                None => !has_key(self@, key@),
            },
    {
        let mut i: usize = 0;
        while i < self.entries.len()
            invariant
                i <= self.entries@.len(),
                forall|j: int| 0 <= j < i ==> self@[j].0 != key@,
            decreases self.entries@.len() - i,
        {
            if same_text(self.entries[i].key.as_str(), key) {
                return Some(i);
            }
            i = i + 1;
        }
        None
    }

    /// Live entry of `key` at `now` (Unix ms); an expired entry is treated
    /// as missing and purged.
    pub fn get(&mut self, key: &str, now: i64) -> (r: Option<StreamResolution>)
        requires
            old(self).wf(),
        ensures
            final(self).wf(),
            final(self).spec_capacity() == old(self).spec_capacity(),
            r.deep_view() == get_spec(old(self)@, key@, now),
            final(self)@ == after_get(old(self)@, key@, now),
    {
        let ghost before = self@;
        match self.find(key) {
            None => {
                proof {
                    assert(self@ =~= before);
                }
                None
            },
            Some(i) => {
                proof {
                    lemma_unique_index(before, i as int, key@);
                }
                if self.entries[i].resolution.is_expired_at(now) {
                    self.entries.remove(i);
                    proof {
                        assert(self@ =~= before.remove(i as int));
                    }
                    None
                } else {
                    let r = self.entries[i].resolution.clone();
                    Some(r)
                }
            },
        }
    }

    /// Stores (or updates) the resolution of `key`; beyond the capacity the
    /// oldest entry is evicted.
    pub fn put(&mut self, key: &str, resolution: StreamResolution)
        requires
            old(self).wf(),
        ensures
            final(self).wf(),
            final(self).spec_capacity() == old(self).spec_capacity(),
            final(self)@ == put_spec(old(self)@, key@, resolution.deep_view(), old(self).spec_capacity()),
            final(self)@.len() <= final(self).spec_capacity(),
    {
        let ghost before = self@;
        let ghost rv = resolution.deep_view();
        match self.find(key) {
            Some(i) => {
                proof {
                    lemma_unique_index(before, i as int, key@);
                }
                let old_entry = self.entries.remove(i);
                self.entries.insert(i, CacheEntry { key: old_entry.key, resolution });
                proof {
                    assert(self@ =~= before.update(i as int, (key@, rv)));
                    assert forall|a: int, b: int| 0 <= a < b < self@.len() implies self@[a].0 != self@[b].0 by {
                        assert(self@[a].0 == before[a].0);
                        assert(self@[b].0 == before[b].0);
                    }
                }
            },
            None => {
                self.entries.push(CacheEntry { key: key.to_owned(), resolution });
                proof {
                    assert(self@ =~= before.push((key@, rv)));
                }
                if self.entries.len() > self.capacity {
                    self.entries.remove(0);
                    proof {
                        assert(self@ =~= before.push((key@, rv)).subrange(1, before.len() + 1 as int));
                    }
                }
            },
        }
    }

    /// Removes the entry of `key`.
    pub fn invalidate(&mut self, key: &str)
        requires
            old(self).wf(),
        ensures
            final(self).wf(),
            final(self).spec_capacity() == old(self).spec_capacity(),
            final(self)@ == remove_spec(old(self)@, key@),
    {
        let ghost before = self@;
        match self.find(key) {
            Some(i) => {
                proof {
                    lemma_unique_index(before, i as int, key@);
                }
                self.entries.remove(i);
                proof {
                    assert(self@ =~= before.remove(i as int));
                }
            },
            None => {
                proof {
                    assert(self@ =~= before);
                }
            },
        }
    }

    /// Removes EVERY entry resolved by `source`.
    pub fn clear_provider(&mut self, source: Source)
        requires
            old(self).wf(),
        ensures
            final(self).wf(),
            final(self).spec_capacity() == old(self).spec_capacity(),
            final(self)@ == without_provider(old(self)@, source),
    {
        let ghost before = self@;
        let mut kept: Vec<CacheEntry> = Vec::new();
        let mut taken: Vec<CacheEntry> = Vec::new();
        std::mem::swap(&mut taken, &mut self.entries);
        let ghost all = taken@;
        let mut i: usize = 0;
        let n = taken.len();
        proof {
            assert(before =~= Seq::new(all.len(), |j: int| (all[j].key@, all[j].resolution.deep_view())));
        }
        while taken.len() > 0
            invariant
                n == all.len(),
                i + taken@.len() == n,
                taken@ == all.subrange(i as int, n as int),
                Seq::new(kept@.len(), |j: int| (kept@[j].key@, kept@[j].resolution.deep_view()))
                    == without_provider(before.subrange(0, i as int), source),
                before == Seq::new(all.len(), |j: int| (all[j].key@, all[j].resolution.deep_view())),
            decreases taken@.len(),
        {
            let e = taken.remove(0);
            proof {
                assert(e == all[i as int]);
                assert(taken@ =~= all.subrange(i + 1, n as int));
                assert(before.subrange(0, i + 1).drop_last() =~= before.subrange(0, i as int));
                assert(before.subrange(0, i + 1).last() == before[i as int]);
            }
            let ghost kv = Seq::new(kept@.len(), |j: int| (kept@[j].key@, kept@[j].resolution.deep_view()));
            if e.resolution.provider != source {
                kept.push(e);
                proof {
                    assert(Seq::new(kept@.len(), |j: int| (kept@[j].key@, kept@[j].resolution.deep_view()))
                        =~= kv.push(before[i as int]));
                }
            }
            i = i + 1;
        }
        self.entries = kept;
        proof {
            assert(before.subrange(0, n as int) =~= before);
            lemma_without_provider_sub(before, source);
        }
    }

    /// `(key, expiry)` of the entries expiring within `window_ms` from `now`
    /// (Unix ms), expired ones included.
    pub fn expiring_within(&self, window_ms: u64, now: i64) -> (r: Vec<(String, i64)>)
        ensures
            r.deep_view() == expiring_spec(self@, now + window_ms),
    {
        let deadline: i128 = (now as i128) + (window_ms as i128);
        let mut out: Vec<(String, i64)> = Vec::new();
        let mut i: usize = 0;
        while i < self.entries.len()
            invariant
                i <= self.entries@.len(),
                deadline == now + window_ms,
                out.deep_view() == expiring_spec(self@.subrange(0, i as int), deadline as int),
            decreases self.entries@.len() - i,
        {
            proof {
                assert(self@.subrange(0, i + 1).drop_last() =~= self@.subrange(0, i as int));
                assert(self@.subrange(0, i + 1).last() == self@[i as int]);
            }
            match self.entries[i].resolution.expires_at {
                Some(exp) => {
                    if (exp as i128) <= deadline {
                        let ghost before = out.deep_view();
                        out.push((self.entries[i].key.clone(), exp));
                        proof {
                            assert(out.deep_view() =~= before.push((self@[i as int].0, exp)));
                        }
                    }
                },
                None => {},
            }
            i = i + 1;
        }
        proof {
            assert(self@.subrange(0, self@.len() as int) =~= self@);
        }
        out
    }

}

impl Default for MemoryResolutionCache {
    /// 512 entries: plenty for a session, small (metadata only).
    fn default() -> (c: Self)
        ensures
            c.wf(),
            c@ == Seq::<CacheItem>::empty(),
            c.spec_capacity() == 512,
    {
        MemoryResolutionCache::new(512)
    }
}

proof fn lemma_without_provider_sub(s: Seq<CacheItem>, source: Source)
    ensures
        without_provider(s, source).len() <= s.len(),
        keys_unique(s) ==> keys_unique(without_provider(s, source)),
        forall|j: int| 0 <= j < without_provider(s, source).len() ==> has_key(s, #[trigger] without_provider(s, source)[j].0),
    decreases s.len(),
{
    if s.len() > 0 {
        lemma_without_provider_sub(s.drop_last(), source);
        let rest = without_provider(s.drop_last(), source);
        assert forall|j: int| 0 <= j < rest.len() implies has_key(s, #[trigger] rest[j].0) by {
            let w = choose|i: int| 0 <= i < s.drop_last().len() && s.drop_last()[i].0 == rest[j].0;
            assert(s[w].0 == rest[j].0);
        }
        if s.last().1.provider != source {
            assert(has_key(s, s.last().0)) by {
                assert(s[s.len() - 1].0 == s.last().0);
            }
            if keys_unique(s) {
                assert(keys_unique(s.drop_last()));
                assert forall|j: int| 0 <= j < rest.len() implies rest[j].0 != s.last().0 by {
                    let w = choose|i: int| 0 <= i < s.drop_last().len() && s.drop_last()[i].0 == rest[j].0;
                    assert(s[w].0 != s[s.len() - 1].0);
                }
            }
        } else {
            if keys_unique(s) {
                assert(keys_unique(s.drop_last()));
            }
        }
    }
}

/// Answer of the hot tier of a two-tier lookup.
#[derive(Debug)]
pub enum TierStep {
    /// Served by the hot tier.
    Hit(StreamResolution),
    /// Missing from the hot tier: ask the cold tier and hand its answer to
    /// [`TwoTierCache::on_cold`].
    AskCold,
}

/// Hot in-memory tier over a cold persistent tier (driven by the caller):
/// lookups cascade hot then cold, writes go to both tiers.
pub struct TwoTierCache {
    hot: MemoryResolutionCache,
    hits_hot: u64,
    hits_cold: u64,
}

/// Entries of `cold` whose key does not occur in `hot`, in order.
pub open spec fn unseen_entries(cold: Seq<(Seq<char>, i64)>, hot: Seq<(Seq<char>, i64)>) -> Seq<(Seq<char>, i64)>
    decreases cold.len(),
{
    if cold.len() == 0 {
        Seq::empty()
    } else {
        let rest = unseen_entries(cold.drop_last(), hot);
        if exists|m: int| 0 <= m < hot.len() && hot[m].0 == cold.last().0 {
            rest
        } else {
            rest.push(cold.last())
        }
    }
}

/// Counter increment that stops at the maximum.
pub open spec fn saturating_inc(n: u64) -> u64 {
    if n == u64::MAX {
        n
    } else {
        (n + 1) as u64
    }
}

impl TwoTierCache {
    /// The hot tier.
    pub closed spec fn spec_hot(&self) -> MemoryResolutionCache {
        self.hot
    }

    /// Hits served by each tier (hot, cold).
    pub closed spec fn spec_hits(&self) -> (u64, u64) {
        (self.hits_hot, self.hits_cold)
    }

    /// Two tiers over the given hot cache, no hits yet.
    pub fn new(hot: MemoryResolutionCache) -> (t: Self)
        ensures
            t.spec_hot() == hot,
            t.spec_hits() == (0u64, 0u64),
    {
        TwoTierCache { hot, hits_hot: 0, hits_cold: 0 }
    }

    /// Hit counters per tier (cheap observability).
    pub fn hit_stats(&self) -> (r: (u64, u64))
        ensures
            r == self.spec_hits(),
    {
        (self.hits_hot, self.hits_cold)
    }

    /// The hot tier, for the writes that go to both tiers.
    pub fn hot_mut(&mut self) -> (h: &mut MemoryResolutionCache)
        ensures
            *h == old(self).spec_hot(),
            final(self).spec_hot() == *final(h),
            final(self).spec_hits() == old(self).spec_hits(),
    {
        &mut self.hot
    }

    /// Lookup in the hot tier at `now`: a live entry is a hot hit,
    /// otherwise the cold tier must be asked.
    pub fn get_hot(&mut self, key: &str, now: i64) -> (r: TierStep)
        requires
            old(self).spec_hot().wf(),
        ensures
            final(self).spec_hot().wf(),
            final(self).spec_hot().spec_capacity() == old(self).spec_hot().spec_capacity(),
            final(self).spec_hot()@ == after_get(old(self).spec_hot()@, key@, now),
            match get_spec(old(self).spec_hot()@, key@, now) {
                Some(v) => r matches TierStep::Hit(x) && x.deep_view() == v
                    && final(self).spec_hits() == (saturating_inc(old(self).spec_hits().0), old(self).spec_hits().1),
                None => r is AskCold && final(self).spec_hits() == old(self).spec_hits(),
            },
    {
        match self.hot.get(key, now) {
            Some(r) => {
                self.hits_hot = if self.hits_hot == u64::MAX { self.hits_hot } else { self.hits_hot + 1 };
                TierStep::Hit(r)
            },
            None => TierStep::AskCold,
        }
    }

    /// Entries expiring within `window_ms` from `now`: those of the hot tier,
    /// then those the cold tier reported (`cold`) whose key the hot tier did
    /// not list.
    pub fn expiring_within(&self, window_ms: u64, now: i64, cold: Vec<(String, i64)>) -> (r: Vec<(String, i64)>)
        ensures
            ({
                let hot = expiring_spec(self.spec_hot()@, now + window_ms);
                r.deep_view() == hot + unseen_entries(cold.deep_view(), hot)
            }),
    {
        let mut all = self.hot.expiring_within(window_ms, now);
        let ghost hot = all.deep_view();
        let hot_len = all.len();
        let mut i: usize = 0;
        while i < cold.len()
            invariant
                i <= cold@.len(),
                hot_len == hot.len(),
                all.deep_view() == hot + unseen_entries(cold.deep_view().subrange(0, i as int), hot),
            decreases cold@.len() - i,
        {
            let ghost cv = cold.deep_view();
            proof {
                assert(cv.subrange(0, i + 1).drop_last() =~= cv.subrange(0, i as int));
                assert(cv.subrange(0, i + 1).last() == cv[i as int]);
            }
            let mut seen = false;
            let mut j: usize = 0;
            while j < hot_len
                invariant
                    j <= hot_len,
                    hot_len == hot.len(),
                    hot_len <= all.deep_view().len(),
                    all.deep_view().subrange(0, hot_len as int) == hot,
                    seen <==> exists|m: int| 0 <= m < j && hot[m].0 == cold@[i as int].0@,
                    i < cold@.len(),
                decreases hot_len - j,
            {
                proof {
                    assert(all.deep_view()[j as int] == hot[j as int]);
                }
                if crate::text::same_text(all[j].0.as_str(), cold[i].0.as_str()) {
                    seen = true;
                }
                j = j + 1;
            }
            let ghost before = all.deep_view();
            if !seen {
                let e = (cold[i].0.clone(), cold[i].1);
                all.push(e);
                proof {
                    assert(all.deep_view() =~= before.push(cv[i as int]));
                }
            }
            i = i + 1;
        }
        proof {
            assert(cold.deep_view().subrange(0, cold@.len() as int) =~= cold.deep_view());
        }
        all
    }

    /// Answer of the cold tier at `now`: an expired entry counts as missing;
    /// a live one is a cold hit.
    pub fn on_cold(&mut self, cold: Option<StreamResolution>, now: i64) -> (r: Option<StreamResolution>)
        ensures
            final(self).spec_hot() == old(self).spec_hot(),
            match cold {
                Some(c) => if expired_at(c.deep_view(), now) {
                    r is None && final(self).spec_hits() == old(self).spec_hits()
                } else {
                    r matches Some(x) && x.deep_view() == c.deep_view()
                        && final(self).spec_hits() == (old(self).spec_hits().0, saturating_inc(old(self).spec_hits().1))
                },
                None => r is None && final(self).spec_hits() == old(self).spec_hits(),
            },
    {
        match cold {
            Some(c) => {
                if c.is_expired_at(now) {
                    return None;
                }
                self.hits_cold = if self.hits_cold == u64::MAX { self.hits_cold } else { self.hits_cold + 1 };
                Some(c)
            },
            None => None,
        }
    }
}

/// Read after write: right after `put(k, r)` a lookup of `k` gives `r`
/// back (unless `r` is already expired), keys stay unique and the cache
/// stays within its capacity.
pub proof fn law_read_after_write(s: Seq<CacheItem>, k: Seq<char>, r: ResolutionModel, cap: nat, now: i64)
    requires
        keys_unique(s),
        s.len() <= cap,
        cap >= 1,
        !expired_at(r, now),
    ensures
        get_spec(put_spec(s, k, r, cap), k, now) == Some(r),
        keys_unique(put_spec(s, k, r, cap)),
        put_spec(s, k, r, cap).len() <= cap,
{
    let t = put_spec(s, k, r, cap);
    if has_key(s, k) {
        let i = key_index(s, k);
        lemma_unique_index(s, i, k);
        assert forall|a: int, b: int| 0 <= a < b < t.len() implies t[a].0 != t[b].0 by {
            assert(t[a].0 == s[a].0);
            assert(t[b].0 == s[b].0);
        }
        lemma_unique_index(t, i, k);
    } else {
        assert forall|j: int| 0 <= j < s.len() implies s[j].0 != k by {
            if s[j].0 == k {
                assert(has_key(s, k));
            }
        }
        let u = s.push((k, r));
        assert forall|a: int, b: int| 0 <= a < b < u.len() implies u[a].0 != u[b].0 by {
            if b == s.len() {
                assert(u[a] == s[a]);
            } else {
                assert(u[a] == s[a] && u[b] == s[b]);
            }
        }
        if s.len() + 1 > cap {
            assert forall|a: int, b: int| 0 <= a < b < t.len() implies t[a].0 != t[b].0 by {
                assert(t[a] == u[a + 1] && t[b] == u[b + 1]);
            }
            assert(t[t.len() - 1] == (k, r));
            lemma_unique_index(t, t.len() - 1, k);
        } else {
            assert(t[t.len() - 1] == (k, r));
            lemma_unique_index(t, t.len() - 1, k);
        }
    }
}

/// Invalidation is scoped to its key: the invalidated key is gone and every
/// other key reads as before.
pub proof fn law_invalidate_is_key_scoped(s: Seq<CacheItem>, k: Seq<char>, other: Seq<char>, now: i64)
    requires
        keys_unique(s),
        other != k,
    ensures
        get_spec(remove_spec(s, k), k, now) is None,
        get_spec(remove_spec(s, k), other, now) == get_spec(s, other, now),
{
    if has_key(s, k) {
        let i = key_index(s, k);
        lemma_unique_index(s, i, k);
        let t = s.remove(i);
        assert forall|j: int| 0 <= j < t.len() implies t[j].0 != k by {
            if j < i {
                assert(t[j] == s[j]);
            } else {
                assert(t[j] == s[j + 1]);
            }
        }
        assert forall|a: int, b: int| 0 <= a < b < t.len() implies t[a].0 != t[b].0 by {
            let sa = if a < i { a } else { a + 1 };
            let sb = if b < i { b } else { b + 1 };
            assert(t[a] == s[sa] && t[b] == s[sb]);
        }
        if has_key(s, other) {
            let o = key_index(s, other);
            lemma_unique_index(s, o, other);
            let to = if o < i { o } else { o - 1 };
            assert(o != i);
            assert(t[to] == s[o]);
            lemma_unique_index(t, to, other);
        } else {
            if has_key(t, other) {
                let j = key_index(t, other);
                let sj = if j < i { j } else { j + 1 };
                assert(t[j] == s[sj]);
                assert(has_key(s, other));
            }
        }
    }
}

/// FIFO eviction: putting a new key into a full cache evicts exactly the
/// oldest entry and keeps the others in order.
pub proof fn law_fifo_eviction(s: Seq<CacheItem>, k: Seq<char>, r: ResolutionModel, cap: nat)
    requires
        keys_unique(s),
        s.len() == cap,
        cap >= 1,
        !has_key(s, k),
    ensures
        put_spec(s, k, r, cap) == s.subrange(1, s.len() as int).push((k, r)),
        !has_key(put_spec(s, k, r, cap), s[0].0),
{
    let t = put_spec(s, k, r, cap);
    assert(t =~= s.subrange(1, s.len() as int).push((k, r)));
    if has_key(t, s[0].0) {
        let j = key_index(t, s[0].0);
        if j < t.len() - 1 {
            assert(t[j] == s[j + 1]);
        } else {
            assert(t[j].0 == k);
            assert(has_key(s, k));
        }
    }
}

} // verus!
