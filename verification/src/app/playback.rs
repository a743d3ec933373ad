//! Engine selection of the playback router: which engine serves a song
//! under the configured policy. The router itself (engines, event fan-out)
//! lives outside the library and asks these functions.

use vstd::prelude::*;

use crate::app::audio::PlaybackPolicy;
use crate::text::same_text;

verus! {

/// Position of the first engine whose id is `id`.
pub open spec fn first_with_id(ids: Seq<String>, id: Seq<char>) -> Option<int>
    decreases ids.len(),
{
    if ids.len() == 0 {
        None
    } else {
        match first_with_id(ids.drop_last(), id) {
            Some(i) => Some(i),
            None => if ids.last()@ == id {
                Some(ids.len() - 1)
            } else {
                None
            },
        }
    }
}

/// Engine pinned by the policy: with `Global(id)` the first engine with that
/// id, with `Auto` none.
pub open spec fn global_engine_spec(policy: PlaybackPolicy, ids: Seq<String>) -> Option<int> {
    match policy {
        PlaybackPolicy::Global(id) => first_with_id(ids, id@),
        PlaybackPolicy::Auto => None,
    }
}

/// First position holding `true`.
pub open spec fn first_true(v: Seq<bool>) -> Option<int>
    decreases v.len(),
{
    if v.len() == 0 {
        None
    } else {
        match first_true(v.drop_last()) {
            Some(i) => Some(i),
            None => if v.last() {
                Some(v.len() - 1)
            } else {
                None
            },
        }
    }
}

/// Engine that serves a song: the pinned one when it exists; otherwise,
/// for a known source, the first engine that supports it, else the first
/// engine; nothing without a source.
pub open spec fn engine_for_spec(global: Option<usize>, count: nat, support: Option<Seq<bool>>) -> Option<int> {
    match global {
        Some(g) => if g < count {
            Some(g as int)
        } else {
            None
        },
        None => match support {
            None => None,
            Some(v) => match first_true(v) {
                Some(i) => Some(i),
                None => if count > 0 {
                    Some(0)
                } else {
                    None
                },
            },
        },
    }
}

proof fn lemma_first_with_id_step(ids: Seq<String>, id: Seq<char>, i: int)
    requires
        0 <= i < ids.len(),
        first_with_id(ids.take(i), id) is None,
    ensures
        first_with_id(ids.take(i + 1), id) == if ids[i]@ == id {
            Some(i)
        } else {
            None::<int>
        },
{
    assert(ids.take(i + 1).drop_last() =~= ids.take(i));
}

/// Engine pinned by the policy, among engines with the given ids.
pub fn global_engine(policy: &PlaybackPolicy, ids: &Vec<String>) -> (r: Option<usize>)
    ensures
        match r {
            Some(i) => global_engine_spec(*policy, ids@) == Some(i as int),
            None => global_engine_spec(*policy, ids@) is None,
        },
{
    match policy {
        PlaybackPolicy::Auto => None,
        PlaybackPolicy::Global(id) => {
            let mut i: usize = 0;
            while i < ids.len()
                invariant
                    i <= ids@.len(),
                    first_with_id(ids@.take(i as int), id@) is None,
                    global_engine_spec(*policy, ids@) == first_with_id(ids@, id@),
                decreases ids@.len() - i,
            {
                proof {
                    lemma_first_with_id_step(ids@, id@, i as int);
                }
                if same_text(ids[i].as_str(), id.as_str()) {
                    proof {
                        lemma_first_with_id_prefix(ids@, id@, (i + 1) as int);
                    }
                    return Some(i);
                }
                i = i + 1;
            }
            proof {
                assert(ids@.take(ids@.len() as int) =~= ids@);
            }
            None
        },
    }
}

proof fn lemma_first_with_id_prefix(ids: Seq<String>, id: Seq<char>, k: int)
    requires
        0 <= k <= ids.len(),
        first_with_id(ids.take(k), id) is Some,
    ensures
        first_with_id(ids, id) == first_with_id(ids.take(k), id),
    decreases ids.len() - k,
{
    if k < ids.len() {
        assert(ids.take(k + 1).drop_last() =~= ids.take(k));
        lemma_first_with_id_prefix(ids, id, k + 1);
    } else {
        assert(ids.take(k) =~= ids);
    }
}

proof fn lemma_first_true_prefix(v: Seq<bool>, k: int)
    requires
        0 <= k <= v.len(),
        first_true(v.take(k)) is Some,
    ensures
        first_true(v) == first_true(v.take(k)),
    decreases v.len() - k,
{
    if k < v.len() {
        assert(v.take(k + 1).drop_last() =~= v.take(k));
        lemma_first_true_prefix(v, k + 1);
    } else {
        assert(v.take(k) =~= v);
    }
}

/// Engine that serves a song (see [`engine_for_spec`]); `support` tells,
/// per engine, whether it supports the song's source.
pub fn engine_for(global: Option<usize>, count: usize, support: Option<&Vec<bool>>) -> (r: Option<usize>)
    requires
        support matches Some(v) ==> v@.len() == count,
    ensures
        match r {
            Some(i) => engine_for_spec(global, count as nat, match support {
                Some(v) => Some(v@),
                None => None,
            }) == Some(i as int) && i < count,
            None => engine_for_spec(global, count as nat, match support {
                Some(v) => Some(v@),
                None => None,
            }) is None,
        },
{
    match global {
        Some(g) => if g < count {
            Some(g)
        } else {
            None
        },
        None => match support {
            None => None,
            Some(v) => {
                let mut i: usize = 0;
                while i < v.len()
                    invariant
                        i <= v@.len(),
                        v@.len() == count,
                        first_true(v@.take(i as int)) is None,
                        engine_for_spec(global, count as nat, match support {
                            Some(w) => Some(w@),
                            None => None,
                        }) == match first_true(v@) {
                            Some(j) => Some(j),
                            None => if count > 0 { Some(0int) } else { None },
                        },
                    decreases v@.len() - i,
                {
                    proof {
                        assert(v@.take(i + 1).drop_last() =~= v@.take(i as int));
                    }
                    if v[i] {
                        proof {
                            lemma_first_true_prefix(v@, (i + 1) as int);
                        }
                        return Some(i);
                    }
                    i = i + 1;
                }
                proof {
                    assert(v@.take(v@.len() as int) =~= v@);
                }
                if count > 0 {
                    Some(0)
                } else {
                    None
                }
            },
        },
    }
}

} // verus!
