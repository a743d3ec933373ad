//! Provider router: decides the ORDER in which providers are tried.
//!
//! Pure functions over registry snapshots: static priority first (higher
//! first), then fewer recent failures, then registration order (stable).

use vstd::prelude::*;

use crate::domain::source::Source;
use crate::domain::track::Track;
use crate::media::circuit::CircuitState;

verus! {

/// Immutable view of a registry entry taken for one resolution.
#[derive(Debug, PartialEq, Eq)]
pub struct ProviderSnapshot {
    pub id: String,
    pub source: Source,
    pub priority: u32,
    pub enabled: bool,
    /// State of the provider's breaker when the snapshot was taken.
    pub state: CircuitState,
    /// Recent failures (reset by a success): ordering heuristic.
    pub recent_failures: u32,
    pub supports_track: bool,
}

/// Mathematical content of a [`ProviderSnapshot`].
pub struct SnapshotModel {
    pub id: Seq<char>,
    pub source: Source,
    pub priority: u32,
    pub enabled: bool,
    pub state: CircuitState,
    pub recent_failures: u32,
    pub supports_track: bool,
}

impl DeepView for ProviderSnapshot {
    type V = SnapshotModel;

    open spec fn deep_view(&self) -> SnapshotModel {
        SnapshotModel {
            id: self.id@,
            source: self.source,
            priority: self.priority,
            enabled: self.enabled,
            state: self.state,
            recent_failures: self.recent_failures,
            supports_track: self.supports_track,
        }
    }
}

impl Clone for ProviderSnapshot {
    fn clone(&self) -> (r: Self)
        ensures
            r.deep_view() == self.deep_view(),
    {
        ProviderSnapshot {
            id: self.id.clone(),
            source: self.source,
            priority: self.priority,
            enabled: self.enabled,
            state: self.state,
            recent_failures: self.recent_failures,
            supports_track: self.supports_track,
        }
    }
}

/// `a` must be tried strictly before `b`: higher priority, or (when failures
/// count) same priority and fewer recent failures.
pub open spec fn precedes(a: SnapshotModel, b: SnapshotModel, by_failures: bool) -> bool {
    a.priority > b.priority || (by_failures && a.priority == b.priority && a.recent_failures
        < b.recent_failures)
}

/// `perm` lists distinct positions of a sequence of length `n`.
pub open spec fn is_perm(perm: Seq<int>, n: nat) -> bool {
    &&& perm.len() == n
    &&& forall|k: int| 0 <= k < n ==> 0 <= #[trigger] perm[k] < n
    &&& forall|a: int, b: int| 0 <= a < b < n ==> perm[a] != perm[b]
}

/// `r` is `s` sorted by `precedes`, elements that tie keeping their
/// relative order of the input; `perm[k]` is the input position of `r[k]`.
pub open spec fn stable_sorted_by(
    s: Seq<SnapshotModel>,
    r: Seq<SnapshotModel>,
    by_failures: bool,
    perm: Seq<int>,
) -> bool {
    &&& r.len() == s.len()
    &&& is_perm(perm, s.len())
    &&& forall|k: int| 0 <= k < r.len() ==> #[trigger] r[k] == s[perm[k]]
    &&& forall|a: int, b: int| 0 <= a < b < r.len() ==> !precedes(r[b], r[a], by_failures)
    &&& forall|a: int, b: int|
        0 <= a < b < r.len() && !precedes(r[a], r[b], by_failures) ==> perm[a] < perm[b]
}

proof fn lemma_precedes_chain(x: SnapshotModel, y: SnapshotModel, z: SnapshotModel, f: bool)
    requires
        precedes(x, y, f),
        !precedes(z, y, f),
    ensures
        precedes(x, z, f),
        !precedes(z, x, f),
{
}

fn precedes_exec(a: &ProviderSnapshot, b: &ProviderSnapshot, by_failures: bool) -> (r: bool)
    ensures
        r == precedes(a.deep_view(), b.deep_view(), by_failures),
{
    a.priority > b.priority || (by_failures && a.priority == b.priority && a.recent_failures
        < b.recent_failures)
}

/// Stable insertion sort of snapshots by `precedes`.
pub fn stable_sort(v: Vec<ProviderSnapshot>, by_failures: bool) -> (r: Vec<ProviderSnapshot>)
    ensures
        exists|perm: Seq<int>| stable_sorted_by(v.deep_view(), r.deep_view(), by_failures, perm),
{
    let ghost s = v.deep_view();
    let mut input = v;
    let mut out: Vec<ProviderSnapshot> = Vec::new();
    let ghost mut perm: Seq<int> = Seq::empty();
    let ghost mut i: int = 0;
    while input.len() > 0
        invariant
            0 <= i <= s.len(),
            input.deep_view() == s.subrange(i, s.len() as int),
            out@.len() == i,
            is_perm(perm, i as nat),
            forall|k: int| 0 <= k < i ==> #[trigger] out.deep_view()[k] == s[perm[k]],
            forall|a: int, b: int|
                0 <= a < b < i ==> !precedes(out.deep_view()[b], out.deep_view()[a], by_failures),
            forall|a: int, b: int|
                0 <= a < b < i && !precedes(out.deep_view()[a], out.deep_view()[b], by_failures)
                    ==> perm[a] < perm[b],
        decreases input@.len(),
    {
        let ghost before_input = input.deep_view();
        let ghost before_raw = input@;
        let x = input.remove(0);
        proof {
            assert(x == before_raw[0]);
            assert(before_input[0] == before_raw[0].deep_view());
            assert(before_input.len() == before_raw.len());
            assert(i < s.len());
            assert(s.subrange(i, s.len() as int)[0] == s[i]);
            assert(before_input[0] == s[i]);
            assert(input.deep_view() =~= before_input.subrange(1, before_input.len() as int));
            assert(x.deep_view() == s[i]);
            assert(input.deep_view() =~= s.subrange(i + 1, s.len() as int));
        }
        let mut p: usize = 0;
        while p < out.len() && !precedes_exec(&x, &out[p], by_failures)
            invariant
                p <= out@.len(),
                forall|q: int| 0 <= q < p ==> !precedes(x.deep_view(), #[trigger] out.deep_view()[q], by_failures),
            decreases out@.len() - p,
        {
            p = p + 1;
        }
        let ghost old_out = out.deep_view();
        let ghost xv = x.deep_view();
        proof {
            if p < out@.len() {
                assert(precedes(xv, old_out[p as int], by_failures));
                assert forall|q: int| p <= q < old_out.len() implies precedes(xv, #[trigger] old_out[q], by_failures) by {
                    if q > p {
                        lemma_precedes_chain(xv, old_out[p as int], old_out[q], by_failures);
                    }
                }
            }
        }
        out.insert(p, x);
        proof {
            assert(out.deep_view() =~= old_out.insert(p as int, xv));
            let old_perm = perm;
            perm = perm.insert(p as int, i);
            i = i + 1;
            let nv = out.deep_view();
            assert forall|k: int| 0 <= k < i implies #[trigger] nv[k] == s[perm[k]] by {
                if k < p {
                    assert(nv[k] == old_out[k]);
                } else if k > p {
                    assert(nv[k] == old_out[k - 1]);
                }
            }
            assert forall|a: int, b: int| 0 <= a < b < i implies !precedes(nv[b], nv[a], by_failures) by {
                if b < p {
                } else if b == p {
                } else if a < p {
                    assert(nv[b] == old_out[b - 1]);
                    if b - 1 >= p {
                        assert(precedes(xv, old_out[b - 1], by_failures));
                    }
                } else if a == p {
                    assert(precedes(xv, old_out[b - 1], by_failures));
                } else {
                    assert(nv[a] == old_out[a - 1]);
                    assert(nv[b] == old_out[b - 1]);
                }
            }
            assert forall|a: int, b: int|
                0 <= a < b < i && !precedes(nv[a], nv[b], by_failures) implies perm[a] < perm[b] by {
                if b < p {
                } else if b == p {
                    assert(old_perm[a] < i - 1);
                } else if a < p {
                    assert(perm[b] == old_perm[b - 1]);
                    assert(nv[b] == old_out[b - 1]);
                    if b - 1 >= p {
                        assert(precedes(xv, old_out[b - 1], by_failures));
                    }
                } else if a == p {
                    assert(precedes(xv, old_out[b - 1], by_failures));
                } else {
                    assert(nv[a] == old_out[a - 1]);
                    assert(nv[b] == old_out[b - 1]);
                }
            }
            assert forall|k: int| 0 <= k < i implies 0 <= #[trigger] perm[k] < i by {
                if k < p {
                } else if k > p {
                    assert(perm[k] == old_perm[k - 1]);
                }
            }
            assert forall|a: int, b: int| 0 <= a < b < i implies perm[a] != perm[b] by {
                if a < p && b > p {
                    assert(perm[b] == old_perm[b - 1]);
                } else if a > p {
                    assert(perm[a] == old_perm[a - 1]);
                    assert(perm[b] == old_perm[b - 1]);
                }
            }
        }
    }
    proof {
        assert(s.subrange(i, s.len() as int).len() == 0);
        assert(i == s.len());
        assert(stable_sorted_by(s, out.deep_view(), by_failures, perm));
    }
    out
}

/// Orders the candidates to resolve `track`: priority descending, then
/// fewest recent failures, then registration order (stable).
pub fn order(track: &Track, snapshots: Vec<ProviderSnapshot>) -> (plan: Vec<ProviderSnapshot>)
    ensures
        exists|perm: Seq<int>| stable_sorted_by(snapshots.deep_view(), plan.deep_view(), true, perm),
{
    stable_sort(snapshots, true)
}

} // verus!
