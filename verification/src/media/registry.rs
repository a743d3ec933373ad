//! Registry of stream providers.
//!
//! Providers are registered once at the composition point. Per provider the
//! registry owns its declaration, its enabled flag (hot switch-off), its
//! [`CircuitBreaker`] (observed health) and a counter of recent failures
//! (signal for the router). Entries are kept in registration order, which
//! makes plans deterministic when priorities tie.

use vstd::prelude::*;

use crate::domain::source::Source;
use crate::domain::track::Track;
use crate::media::circuit::{
    after_allow, after_failure, allow_spec, fresh_model, state_spec, CircuitBreaker,
    CircuitConfig, CircuitModel, CircuitState,
};
use crate::media::provider::{supports_spec, ProviderDescriptor};
use crate::media::router::{stable_sort, stable_sorted_by, ProviderSnapshot, SnapshotModel};
use crate::text::same_text;

verus! {

struct RegistryEntry {
    descriptor: ProviderDescriptor,
    enabled: bool,
    breaker: CircuitBreaker,
    recent_failures: u32,
}

/// Mathematical content of one registry entry.
pub struct EntryModel {
    pub id: Seq<char>,
    pub source: Source,
    pub priority: u32,
    pub enabled: bool,
    pub circuit: CircuitConfig,
    pub breaker: CircuitModel,
    pub recent_failures: u32,
}

impl RegistryEntry {
    spec fn model(&self) -> EntryModel {
        EntryModel {
            id: self.descriptor.id@,
            source: self.descriptor.source,
            priority: self.descriptor.priority,
            enabled: self.enabled,
            circuit: self.breaker.spec_config(),
            breaker: self.breaker.model(),
            recent_failures: self.recent_failures,
        }
    }
}

/// Position of the entry registered under `id`, if any.
pub open spec fn has_id(s: Seq<EntryModel>, id: Seq<char>) -> bool {
    exists|i: int| 0 <= i < s.len() && s[i].id == id
}

/// Ids are unique.
pub open spec fn ids_unique(s: Seq<EntryModel>) -> bool {
    forall|a: int, b: int| 0 <= a < b < s.len() ==> s[a].id != s[b].id
}

/// Counter increment of the recent failures (wrapping like an atomic).
pub open spec fn bump(n: u32) -> u32 {
    if n == u32::MAX {
        0
    } else {
        (n + 1) as u32
    }
}

/// Whether an entry takes part in the plan for `track` at `now`.
pub open spec fn plan_candidate(e: EntryModel, track: Track, now: u64) -> bool {
    supports_spec(e.source, track) && e.enabled && state_spec(e.breaker, now)
        != CircuitState::Open
}

/// Snapshot of an entry at `now`.
pub open spec fn snapshot_of(e: EntryModel, now: u64) -> SnapshotModel {
    SnapshotModel {
        id: e.id,
        source: e.source,
        priority: e.priority,
        enabled: e.enabled,
        state: state_spec(e.breaker, now),
        recent_failures: e.recent_failures,
        supports_track: true,
    }
}

/// Snapshots of the candidate entries, in registration order.
pub open spec fn candidates(s: Seq<EntryModel>, track: Track, now: u64) -> Seq<SnapshotModel>
    decreases s.len(),
{
    if s.len() == 0 {
        Seq::empty()
    } else {
        let rest = candidates(s.drop_last(), track, now);
        if plan_candidate(s.last(), track, now) {
            rest.push(snapshot_of(s.last(), now))
        } else {
            rest
        }
    }
}

/// Central registry of stream providers.
pub struct StreamRegistry {
    entries: Vec<RegistryEntry>,
}

impl View for StreamRegistry {
    type V = Seq<EntryModel>;

    closed spec fn view(&self) -> Seq<EntryModel> {
        Seq::new(self.entries@.len(), |i: int| self.entries@[i].model())
    }
}

impl StreamRegistry {
    /// Registry invariant: unique ids and well formed breakers.
    pub closed spec fn wf(&self) -> bool {
        &&& ids_unique(self@)
        &&& forall|i: int| 0 <= i < self.entries@.len() ==> #[trigger] self.entries@[i].breaker.wf()
    }

    /// Empty registry.
    pub fn new() -> (r: Self)
        ensures
            r@ == Seq::<EntryModel>::empty(),
            r.wf(),
    {
        let r = StreamRegistry { entries: Vec::new() };
        assert(r@ =~= Seq::<EntryModel>::empty());
        r
    }

    fn find(&self, id: &str) -> (r: Option<usize>)
        ensures
            match r {
                Some(i) => i < self@.len() && self@[i as int].id == id@,
                None => !has_id(self@, id@),
            },
    {
        let mut i: usize = 0;
        while i < self.entries.len()
            invariant
                i <= self.entries@.len(),
                forall|j: int| 0 <= j < i ==> self@[j].id != id@,
            decreases self.entries@.len() - i,
        {
            if same_text(self.entries[i].descriptor.id.as_str(), id) {
                return Some(i);
            }
            i = i + 1;
        }
        None
    }

    /// Registers (or replaces) a provider with the default breaker.
    pub fn register(&mut self, provider: ProviderDescriptor)
        requires
            old(self).wf(),
        ensures
            final(self).wf(),
            final(self)@ == registered(old(self)@, provider.deep_view(), CircuitConfig {
                failure_threshold: 3,
                cooldown_ms: 30_000,
            }),
    {
        self.register_with_circuit(provider, CircuitConfig::default());
    }

    /// Registers (or replaces) a provider with its own breaker
    /// configuration. A replacement keeps the previous breaker: health
    /// survives a re-registration.
    pub fn register_with_circuit(&mut self, provider: ProviderDescriptor, circuit: CircuitConfig)
        requires
            old(self).wf(),
        ensures
            final(self).wf(),
            final(self)@ == registered(old(self)@, provider.deep_view(), circuit),
    {
        let ghost before = self@;
        match self.find(provider.id.as_str()) {
            Some(i) => {
                let old_entry = self.entries.remove(i);
                let entry = RegistryEntry {
                    descriptor: provider,
                    enabled: true,
                    breaker: old_entry.breaker,
                    recent_failures: 0,
                };
                self.entries.insert(i, entry);
                proof {
                    assert(self@ =~= before.update(i as int, EntryModel {
                        id: before[i as int].id,
                        source: self@[i as int].source,
                        priority: self@[i as int].priority,
                        enabled: true,
                        circuit: before[i as int].circuit,
                        breaker: before[i as int].breaker,
                        recent_failures: 0,
                    }));
                    assert(before[i as int].id == provider.deep_view().0);
                    lemma_index_unique(before, i as int, provider.deep_view().0);
                }
            },
            None => {
                self.entries.push(RegistryEntry {
                    descriptor: provider,
                    enabled: true,
                    breaker: CircuitBreaker::new(circuit),
                    recent_failures: 0,
                });
                proof {
                    assert(self@ =~= before.push(new_entry(provider.deep_view(), circuit)));
                }
            },
        }
    }

    /// Enables/disables a provider; `false` when the id is unknown.
    pub fn set_enabled(&mut self, id: &str, enabled: bool) -> (found: bool)
        requires
            old(self).wf(),
        ensures
            final(self).wf(),
            found == has_id(old(self)@, id@),
            final(self)@ == with_enabled(old(self)@, id@, enabled),
    {
        let ghost before = self@;
        match self.find(id) {
            Some(i) => {
                let mut e = self.entries.remove(i);
                e.enabled = enabled;
                self.entries.insert(i, e);
                proof {
                    assert(self@ =~= before.update(i as int, EntryModel { enabled, ..before[i as int] }));
                    lemma_index_unique(before, i as int, id@);
                }
                true
            },
            None => {
                proof {
                    assert(self@ =~= before);
                }
                false
            },
        }
    }

    /// Candidates to resolve `track` at `now`: providers that support it,
    /// are enabled and whose breaker is not open, by descending priority and
    /// then registration order.
    pub fn snapshot(&self, track: &Track, now: u64) -> (snaps: Vec<ProviderSnapshot>)
        ensures
            exists|perm: Seq<int>|
                stable_sorted_by(candidates(self@, *track, now), snaps.deep_view(), false, perm),
    {
        let mut out: Vec<ProviderSnapshot> = Vec::new();
        let mut i: usize = 0;
        while i < self.entries.len()
            invariant
                i <= self.entries@.len(),
                out.deep_view() == candidates(self@.subrange(0, i as int), *track, now),
            decreases self.entries@.len() - i,
        {
            let e = &self.entries[i];
            let state = e.breaker.state(now);
            proof {
                assert(self@.subrange(0, i + 1).drop_last() =~= self@.subrange(0, i as int));
                assert(self@.subrange(0, i + 1).last() == self@[i as int]);
            }
            if e.descriptor.supports(track) && e.enabled && state != CircuitState::Open {
                let ghost before = out.deep_view();
                out.push(ProviderSnapshot {
                    id: e.descriptor.id.clone(),
                    source: e.descriptor.source,
                    priority: e.descriptor.priority,
                    enabled: e.enabled,
                    state,
                    recent_failures: e.recent_failures,
                    supports_track: true,
                });
                proof {
                    assert(out.deep_view() =~= before.push(snapshot_of(self@[i as int], now)));
                }
            }
            i = i + 1;
        }
        proof {
            assert(self@.subrange(0, self@.len() as int) =~= self@);
        }
        stable_sort(out, false)
    }

    /// `true` when the breaker lets the provider be tried now (half-open
    /// probe included); `false` for unknown ids.
    pub fn allow_attempt(&mut self, id: &str, now: u64) -> (ok: bool)
        requires
            old(self).wf(),
        ensures
            final(self).wf(),
            ok == reg_allows(old(self)@, id@, now),
            final(self)@ == allow_update(old(self)@, id@, now),
    {
        let ghost before = self@;
        match self.find(id) {
            Some(i) => {
                proof {
                    lemma_index_unique(before, i as int, id@);
                }
                let mut e = self.entries.remove(i);
                let ok = e.breaker.allow_request(now);
                self.entries.insert(i, e);
                proof {
                    assert(self@ =~= before.update(i as int, EntryModel {
                        breaker: after_allow(before[i as int].circuit, before[i as int].breaker, now),
                        ..before[i as int]
                    }));
                }
                ok
            },
            None => {
                proof {
                    assert(self@ =~= before);
                }
                false
            },
        }
    }

    /// Records a success: resets recent failures and closes the breaker.
    pub fn record_success(&mut self, id: &str)
        requires
            old(self).wf(),
        ensures
            final(self).wf(),
            final(self)@ == success_update(old(self)@, id@),
    {
        let ghost before = self@;
        match self.find(id) {
            Some(i) => {
                proof {
                    lemma_index_unique(before, i as int, id@);
                }
                let mut e = self.entries.remove(i);
                e.recent_failures = 0;
                e.breaker.on_success();
                self.entries.insert(i, e);
                proof {
                    assert(self@ =~= before.update(i as int, EntryModel {
                        recent_failures: 0,
                        breaker: fresh_model(),
                        ..before[i as int]
                    }));
                }
            },
            None => {
                proof {
                    assert(self@ =~= before);
                }
            },
        }
    }

    /// Records a failure at `now`: feeds the breaker and the recent counter.
    pub fn record_failure(&mut self, id: &str, now: u64)
        requires
            old(self).wf(),
        ensures
            final(self).wf(),
            final(self)@ == failure_update(old(self)@, id@, now),
    {
        let ghost before = self@;
        match self.find(id) {
            Some(i) => {
                proof {
                    lemma_index_unique(before, i as int, id@);
                }
                let mut e = self.entries.remove(i);
                e.recent_failures = if e.recent_failures == u32::MAX {
                    0
                } else {
                    e.recent_failures + 1
                };
                e.breaker.on_failure(now);
                self.entries.insert(i, e);
                proof {
                    assert(self@ =~= before.update(i as int, EntryModel {
                        recent_failures: bump(before[i as int].recent_failures),
                        breaker: after_failure(before[i as int].circuit, before[i as int].breaker, now),
                        ..before[i as int]
                    }));
                }
            },
            None => {
                proof {
                    assert(self@ =~= before);
                }
            },
        }
    }
}

/// Position of the entry registered under `id` (meaningful when `has_id`).
pub open spec fn entry_index(s: Seq<EntryModel>, id: Seq<char>) -> int {
    choose|i: int| 0 <= i < s.len() && s[i].id == id
}

/// The breaker of `id` lets a request through at `now`.
pub open spec fn reg_allows(s: Seq<EntryModel>, id: Seq<char>, now: u64) -> bool {
    has_id(s, id) && allow_spec(s[entry_index(s, id)].circuit, s[entry_index(s, id)].breaker, now)
}

/// Registry after asking the breaker of `id` at `now`.
pub open spec fn allow_update(s: Seq<EntryModel>, id: Seq<char>, now: u64) -> Seq<EntryModel> {
    if has_id(s, id) {
        let i = entry_index(s, id);
        s.update(i, EntryModel { breaker: after_allow(s[i].circuit, s[i].breaker, now), ..s[i] })
    } else {
        s
    }
}

/// Registry after a success of `id`.
pub open spec fn success_update(s: Seq<EntryModel>, id: Seq<char>) -> Seq<EntryModel> {
    if has_id(s, id) {
        let i = entry_index(s, id);
        s.update(i, EntryModel { recent_failures: 0, breaker: fresh_model(), ..s[i] })
    } else {
        s
    }
}

/// Registry after a failure of `id` at `now`.
pub open spec fn failure_update(s: Seq<EntryModel>, id: Seq<char>, now: u64) -> Seq<EntryModel> {
    if has_id(s, id) {
        let i = entry_index(s, id);
        s.update(
            i,
            EntryModel {
                recent_failures: bump(s[i].recent_failures),
                breaker: after_failure(s[i].circuit, s[i].breaker, now),
                ..s[i]
            },
        )
    } else {
        s
    }
}

/// Entry created by a first registration.
pub open spec fn new_entry(d: (Seq<char>, Source, u32), circuit: CircuitConfig) -> EntryModel {
    EntryModel {
        id: d.0,
        source: d.1,
        priority: d.2,
        enabled: true,
        circuit,
        breaker: fresh_model(),
        recent_failures: 0,
    }
}

/// Registry after registering `d`: a known id is replaced in place (enabled,
/// failures reset, breaker kept), a new id is appended.
pub open spec fn registered(s: Seq<EntryModel>, d: (Seq<char>, Source, u32), circuit: CircuitConfig) -> Seq<EntryModel> {
    if has_id(s, d.0) {
        let i = choose|i: int| 0 <= i < s.len() && s[i].id == d.0;
        s.update(i, EntryModel {
            id: d.0,
            source: d.1,
            priority: d.2,
            enabled: true,
            circuit: s[i].circuit,
            breaker: s[i].breaker,
            recent_failures: 0,
        })
    } else {
        s.push(new_entry(d, circuit))
    }
}

/// Registry after switching the flag of `id` (unchanged for unknown ids).
pub open spec fn with_enabled(s: Seq<EntryModel>, id: Seq<char>, enabled: bool) -> Seq<EntryModel> {
    if has_id(s, id) {
        let i = choose|i: int| 0 <= i < s.len() && s[i].id == id;
        s.update(i, EntryModel { enabled, ..s[i] })
    } else {
        s
    }
}

/// Within unique ids, `id` sits at exactly one position.
pub proof fn lemma_index_unique(s: Seq<EntryModel>, i: int, id: Seq<char>)
    requires
        ids_unique(s),
        0 <= i < s.len(),
        s[i].id == id,
    ensures
        (choose|j: int| 0 <= j < s.len() && s[j].id == id) == i,
        forall|j: int| 0 <= j < s.len() && s[j].id == id ==> j == i,
{
    assert(exists|j: int| 0 <= j < s.len() && s[j].id == id);
    let j = choose|j: int| 0 <= j < s.len() && s[j].id == id;
    if j != i {
        if j < i {
            assert(s[j].id != s[i].id);
        } else {
            assert(s[i].id != s[j].id);
        }
    }
}

/// The plan offered for a track only holds enabled providers that support
/// it and whose breaker is not open at that instant.
pub proof fn law_snapshot_only_healthy_candidates(s: Seq<EntryModel>, track: Track, now: u64)
    ensures
        forall|k: int| 0 <= k < candidates(s, track, now).len() ==> {
            let c = #[trigger] candidates(s, track, now)[k];
            &&& c.enabled
            &&& c.state != CircuitState::Open
            &&& c.supports_track
            &&& supports_spec(c.source, track)
        },
    decreases s.len(),
{
    if s.len() > 0 {
        law_snapshot_only_healthy_candidates(s.drop_last(), track, now);
        let rest = candidates(s.drop_last(), track, now);
        if plan_candidate(s.last(), track, now) {
            assert forall|k: int| 0 <= k < candidates(s, track, now).len() implies {
                let c = #[trigger] candidates(s, track, now)[k];
                &&& c.enabled
                &&& c.state != CircuitState::Open
                &&& c.supports_track
                &&& supports_spec(c.source, track)
            } by {
                if k < rest.len() {
                    assert(candidates(s, track, now)[k] == rest[k]);
                }
            }
        }
    }
}

} // verus!
