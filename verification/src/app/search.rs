//! Enrichment of search results with related recommendations: up to a
//! fixed number of related tracks are appended, never one whose identifier
//! is already listed. Fetching results and related tracks happens outside
//! the library.

use vstd::prelude::*;

use crate::domain::track::{track_key, Track};
use crate::text::same_text;

verus! {

/// Maximum number of recommendations added to a search result.
pub const SEARCH_REC_LIMIT: usize = 8;

/// Identifiers of a sequence of tracks.
pub open spec fn keys_of(ts: Seq<Track>) -> Set<Seq<char>> {
    Set::new(|k: Seq<char>| exists|i: int| 0 <= i < ts.len() && track_key(ts[i]) == k)
}

/// Related tracks kept, in order: each one whose identifier was not seen
/// yet, until `budget` of them are kept.
pub open spec fn related_kept(seen: Set<Seq<char>>, related: Seq<Track>, budget: nat) -> Seq<Track>
    decreases related.len(),
{
    if related.len() == 0 || budget == 0 {
        Seq::empty()
    } else {
        let t = related[0];
        if seen.contains(track_key(t)) {
            related_kept(seen, related.drop_first(), budget)
        } else {
            seq![t] + related_kept(seen.insert(track_key(t)), related.drop_first(), (budget - 1) as nat)
        }
    }
}

/// At most `budget` related tracks are kept.
pub proof fn law_related_bounded(seen: Set<Seq<char>>, related: Seq<Track>, budget: nat)
    ensures
        related_kept(seen, related, budget).len() <= budget,
{
    lemma_related_kept_len(seen, related, budget);
}

/// Kept related tracks are new: none has an identifier already listed, and
/// no two of them share one.
pub proof fn law_related_are_new(seen: Set<Seq<char>>, related: Seq<Track>, budget: nat)
    ensures
        forall|i: int| 0 <= i < related_kept(seen, related, budget).len()
            ==> !seen.contains(track_key(#[trigger] related_kept(seen, related, budget)[i])),
        forall|i: int, j: int| 0 <= i < j < related_kept(seen, related, budget).len()
            ==> track_key(related_kept(seen, related, budget)[i]) != track_key(related_kept(seen, related, budget)[j]),
    decreases related.len(),
{
    if related.len() > 0 && budget > 0 {
        let t = related[0];
        let k = track_key(t);
        if seen.contains(k) {
            law_related_are_new(seen, related.drop_first(), budget);
            assert(related_kept(seen, related, budget) == related_kept(seen, related.drop_first(), budget));
        } else {
            let s2 = seen.insert(k);
            law_related_are_new(s2, related.drop_first(), (budget - 1) as nat);
            let tail = related_kept(s2, related.drop_first(), (budget - 1) as nat);
            let all = related_kept(seen, related, budget);
            assert(all == seq![t] + tail);
            assert forall|i: int| 0 <= i < all.len() implies !seen.contains(track_key(#[trigger] all[i])) by {
                if i == 0 {
                    assert(all[0] == t);
                } else {
                    assert(all[i] == tail[i - 1]);
                    assert(!s2.contains(track_key(tail[i - 1])));
                }
            }
            assert forall|i: int, j: int| 0 <= i < j < all.len() implies track_key(all[i]) != track_key(all[j]) by {
                assert(all[j] == tail[j - 1]);
                assert(!s2.contains(track_key(tail[j - 1])));
                if i > 0 {
                    assert(all[i] == tail[i - 1]);
                } else {
                    assert(all[0] == t);
                }
            }
        }
    }
}

proof fn lemma_related_kept_len(seen: Set<Seq<char>>, related: Seq<Track>, budget: nat)
    ensures
        related_kept(seen, related, budget).len() <= budget,
    decreases related.len(),
{
    if related.len() > 0 && budget > 0 {
        let t = related[0];
        if seen.contains(track_key(t)) {
            lemma_related_kept_len(seen, related.drop_first(), budget);
        } else {
            lemma_related_kept_len(seen.insert(track_key(t)), related.drop_first(), (budget - 1) as nat);
        }
    }
}

/// Texts held by a sequence of strings.
pub open spec fn listed_keys(v: Seq<String>) -> Set<Seq<char>> {
    Set::new(|k: Seq<char>| exists|j: int| 0 <= j < v.len() && v[j]@ == k)
}

proof fn lemma_listed_push(v: Seq<String>, x: String)
    ensures
        listed_keys(v.push(x)) == listed_keys(v).insert(x@),
{
    let w = v.push(x);
    assert forall|k: Seq<char>| listed_keys(w).contains(k) <==> listed_keys(v).insert(x@).contains(k) by {
        if listed_keys(w).contains(k) {
            let j = choose|j: int| 0 <= j < w.len() && w[j]@ == k;
            if j < v.len() {
                assert(v[j]@ == k);
            }
        }
        if listed_keys(v).contains(k) {
            let j = choose|j: int| 0 <= j < v.len() && v[j]@ == k;
            assert(w[j]@ == k);
        }
        if k == x@ {
            assert(w[v.len() as int]@ == k);
        }
    }
    assert(listed_keys(w) =~= listed_keys(v).insert(x@));
}

fn contains_key(keys: &Vec<String>, key: &str) -> (b: bool)
    ensures
        b == listed_keys(keys@).contains(key@),
{
    let mut i: usize = 0;
    while i < keys.len()
        invariant
            i <= keys@.len(),
            forall|j: int| 0 <= j < i ==> keys@[j]@ != key@,
        decreases keys@.len() - i,
    {
        if same_text(keys[i].as_str(), key) {
            assert(keys@[i as int]@ == key@);
            return true;
        }
        i = i + 1;
    }
    false
}

/// External id of the first track at or after position `i` that has one.
pub open spec fn seed_from(ts: Seq<Track>, i: int) -> Option<Seq<char>>
    decreases ts.len() - i,
{
    if i < 0 || i >= ts.len() {
        None
    } else {
        match ts[i].external_id {
            Some(id) => Some(id@),
            None => seed_from(ts, i + 1),
        }
    }
}

/// Seed of the related recommendations: the external id of the first
/// result that has one (`None` when no result has one, and the seed must be
/// searched for).
pub fn related_seed(items: &Vec<Track>) -> (seed: Option<String>)
    ensures
        match seed {
            Some(s) => seed_from(items@, 0) == Some(s@),
            None => seed_from(items@, 0) is None,
        },
{
    let mut i: usize = 0;
    while i < items.len()
        invariant
            i <= items@.len(),
            seed_from(items@, 0) == seed_from(items@, i as int),
        decreases items@.len() - i,
    {
        match &items[i].external_id {
            Some(id) => {
                return Some(id.clone());
            },
            None => {},
        }
        i = i + 1;
    }
    None
}

/// Appends to `items` the related tracks not already listed (by
/// identifier), at most [`SEARCH_REC_LIMIT`] of them, keeping their order.
/// Returns where the related part starts when something was added.
pub fn merge_related(items: &mut Vec<Track>, related: Vec<Track>) -> (from: Option<usize>)
    ensures
        ({
            let kept = related_kept(keys_of(old(items)@), related@, SEARCH_REC_LIMIT as nat);
            &&& final(items)@ == old(items)@ + kept
            &&& from == if kept.len() > 0 {
                Some(old(items)@.len() as usize)
            } else {
                None::<usize>
            }
        }),
{
    let ghost start = items@;
    let direct_len = items.len();
    let mut seen: Vec<String> = Vec::new();
    let mut i: usize = 0;
    while i < items.len()
        invariant
            i <= items@.len(),
            items@ == start,
            seen@.len() == i,
            forall|j: int| 0 <= j < i ==> seen@[j]@ == track_key(items@[j]),
        decreases items@.len() - i,
    {
        seen.push(items[i].identifier());
        i = i + 1;
    }
    proof {
        assert forall|k: Seq<char>| keys_of(start).contains(k) <==> listed_keys(seen@).contains(k) by {
            if keys_of(start).contains(k) {
                let j = choose|j: int| 0 <= j < start.len() && track_key(start[j]) == k;
                assert(seen@[j]@ == k);
            }
            if listed_keys(seen@).contains(k) {
                let j = choose|j: int| 0 <= j < seen@.len() && seen@[j]@ == k;
                assert(track_key(start[j]) == k);
            }
        }
        assert(keys_of(start) =~= listed_keys(seen@));
        assert(start.subrange(0, start.len() as int) =~= start);
    }
    let mut added: usize = 0;
    let ghost related_view = related@;
    let mut rest = related;
    let ghost total = related_kept(keys_of(start), rest@, SEARCH_REC_LIMIT as nat);
    while rest.len() > 0
        invariant_except_break
            added <= SEARCH_REC_LIMIT,
            items@ + related_kept(listed_keys(seen@), rest@, (SEARCH_REC_LIMIT - added) as nat) == start + total,
            items@.len() == start.len() + added,
            items@.subrange(0, start.len() as int) == start,
        ensures
            items@ == start + total,
            items@.len() == start.len() + added,
        decreases rest@.len(),
    {
        if added >= SEARCH_REC_LIMIT {
            proof {
                assert(related_kept(listed_keys(seen@), rest@, 0) == Seq::<Track>::empty());
                assert(items@ =~= start + total);
            }
            break;
        }
        let ghost before = rest@;
        let ghost seen_set = listed_keys(seen@);
        let t = rest.remove(0);
        proof {
            assert(before[0] == t);
            assert(before.drop_first() =~= rest@);
        }
        let key = t.identifier();
        if !contains_key(&seen, key.as_str()) {
            let ghost prev_items = items@;
            let ghost prev_seen = seen@;
            let ghost key_copy = key;
            items.push(t);
            seen.push(key);
            proof {
                lemma_listed_push(prev_seen, key_copy);
                assert(items@ == prev_items.push(t));
                assert(items@ + related_kept(listed_keys(seen@), rest@, (SEARCH_REC_LIMIT - added - 1) as nat)
                    =~= prev_items + related_kept(seen_set, before, (SEARCH_REC_LIMIT - added) as nat));
                assert(items@.subrange(0, start.len() as int) =~= start);
            }
            added = added + 1;
        }
    }
    proof {
        lemma_related_kept_len(keys_of(start), related_view, SEARCH_REC_LIMIT as nat);
        if rest@.len() == 0 {
            assert(items@ =~= start + total);
        }
    }
    if added > 0 {
        Some(direct_len)
    } else {
        proof {
            assert(total.len() == 0);
        }
        None
    }
}

} // verus!
