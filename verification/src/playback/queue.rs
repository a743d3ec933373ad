//! Formal play queue: next/previous with wrap-around, shuffle and repeat.
//!
//! - navigation is relative to the LAST played track (no cursor of its own);
//! - unknown anchor: `next` starts from the first, `previous` from the last;
//! - empty queue → `None`;
//! - `RepeatMode::All` by default (the queue always wrapped).
//!
//! Shuffle is a permutation of indices anchored at the current track (it
//! comes first when shuffle is switched on); the generator is a seedable
//! xorshift so that runs are reproducible.

use vstd::prelude::*;

use crate::domain::track::{track_key, Track};
use crate::text::same_text;

verus! {

/// What happens at the edge of the queue.
#[derive(Debug, Clone, Copy, PartialEq, Eq, Structural)]
pub enum RepeatMode {
    /// Wraps to the other end (historic behaviour of the queue).
    All,
    /// Stops at the edge (`None`).
    Off,
}

impl Default for RepeatMode {
    fn default() -> (m: Self)
        ensures
            m == RepeatMode::All,
    {
        RepeatMode::All
    }
}

/// Play queue manager.
#[derive(Debug)]
pub struct QueueManager {
    tracks: Vec<Track>,
    last_played: Option<String>,
    shuffle: bool,
    /// Permutation of indices in force while shuffle is on.
    order: Vec<usize>,
    /// State of the xorshift generator.
    rng: u64,
    repeat: RepeatMode,
}

/// Mathematical state of the queue.
pub struct QueueModel {
    pub tracks: Seq<Track>,
    pub last_played: Option<Seq<char>>,
    pub shuffle: bool,
    pub order: Seq<usize>,
    pub rng: u64,
    pub repeat: RepeatMode,
}

impl View for QueueManager {
    type V = QueueModel;

    closed spec fn view(&self) -> QueueModel {
        QueueModel {
            tracks: self.tracks@,
            last_played: match self.last_played {
                Some(k) => Some(k@),
                None => None,
            },
            shuffle: self.shuffle,
            order: self.order@,
            rng: self.rng,
            repeat: self.repeat,
        }
    }
}

/// `o` lists each index below `n` exactly once.
pub open spec fn perm_of(o: Seq<usize>, n: nat) -> bool {
    &&& o.len() == n
    &&& forall|k: int| 0 <= k < o.len() ==> (#[trigger] o[k]) < n
    &&& forall|a: int, b: int| 0 <= a < b < o.len() ==> o[a] != o[b]
}

/// Queue invariant: the shuffle order is a permutation of the queue while
/// shuffle is on, and empty otherwise.
pub open spec fn queue_wf(m: QueueModel) -> bool {
    if m.shuffle {
        perm_of(m.order, m.tracks.len())
    } else {
        m.order.len() == 0
    }
}

/// One xorshift step of the generator state.
pub open spec fn xorshift_step(x: u64) -> u64 {
    let a = x ^ (x >> 12u64);
    let b = a ^ (a << 25u64);
    b ^ (b >> 27u64)
}

/// Output of the generator for a state.
pub open spec fn scramble(x: u64) -> u64 {
    x.wrapping_mul(0x2545F4914F6CDD1Du64)
}

/// `s` with positions `i` and `j` exchanged.
pub open spec fn swap_at(s: Seq<usize>, i: int, j: int) -> Seq<usize> {
    s.update(i, s[j]).update(j, s[i])
}

/// Fisher-Yates from position `i` down to 1, with the generator state.
pub open spec fn fisher_yates(s: Seq<usize>, rng: u64, i: nat) -> (Seq<usize>, u64)
    decreases i,
{
    if i == 0 {
        (s, rng)
    } else {
        let x = xorshift_step(rng);
        let j = (scramble(x) % ((i + 1) as u64)) as int;
        fisher_yates(swap_at(s, i as int, j), x, (i - 1) as nat)
    }
}

/// Indices `0..n` without `anchor`, in increasing order.
pub open spec fn rest_indices(n: nat, anchor: Option<usize>) -> Seq<usize>
    decreases n,
{
    if n == 0 {
        Seq::empty()
    } else {
        let r = rest_indices((n - 1) as nat, anchor);
        if anchor == Some((n - 1) as usize) {
            r
        } else {
            r.push((n - 1) as usize)
        }
    }
}

/// New shuffle order (anchor first when it is a valid index) and generator
/// state after it.
pub open spec fn shuffled(n: nat, anchor: Option<usize>, rng: u64) -> (Seq<usize>, u64) {
    let rest = rest_indices(n, anchor);
    let mixed = if rest.len() == 0 {
        (rest, rng)
    } else {
        fisher_yates(rest, rng, (rest.len() - 1) as nat)
    };
    match anchor {
        Some(a) => if a < n {
            (seq![a] + mixed.0, mixed.1)
        } else {
            mixed
        },
        None => mixed,
    }
}

/// First position of a track with identifier `key`.
pub open spec fn key_index(ts: Seq<Track>, key: Seq<char>) -> Option<int>
    decreases ts.len(),
{
    if ts.len() == 0 {
        None
    } else {
        match key_index(ts.drop_last(), key) {
            Some(i) => Some(i),
            None => if track_key(ts.last()) == key {
                Some(ts.len() - 1)
            } else {
                None
            },
        }
    }
}

/// Index of the current track: the explicit anchor wins, else the last
/// played one.
pub open spec fn anchor_of(m: QueueModel, anchor: Option<Seq<char>>) -> Option<int> {
    let key = match anchor {
        Some(a) => Some(a),
        None => m.last_played,
    };
    match key {
        Some(k) => key_index(m.tracks, k),
        None => None,
    }
}

/// First position of `idx` in `order`.
pub open spec fn position_in(order: Seq<usize>, idx: int) -> Option<int>
    decreases order.len(),
{
    if order.len() == 0 {
        None
    } else {
        match position_in(order.drop_last(), idx) {
            Some(p) => Some(p),
            None => if order.last() as int == idx {
                Some(order.len() - 1)
            } else {
                None
            },
        }
    }
}

/// Step from `start` in a sequence of `n > 0` positions.
pub open spec fn step_index(start: Option<int>, n: int, forward: bool, repeat: RepeatMode) -> Option<int> {
    match start {
        Some(i) => if forward {
            match repeat {
                RepeatMode::All => Some((i + 1) % n),
                RepeatMode::Off => if i + 1 < n {
                    Some(i + 1)
                } else {
                    None
                },
            }
        } else {
            match repeat {
                RepeatMode::All => Some((i + n - 1) % n),
                RepeatMode::Off => if i >= 1 {
                    Some(i - 1)
                } else {
                    None
                },
            }
        },
        None => if forward {
            Some(0)
        } else {
            Some(n - 1)
        },
    }
}

/// Index of the track picked next (`forward`) or previous.
pub open spec fn pick_spec(m: QueueModel, forward: bool, anchor: Option<Seq<char>>) -> Option<int> {
    let n = m.tracks.len() as int;
    if n == 0 {
        None
    } else if m.shuffle {
        let p = match anchor_of(m, anchor) {
            Some(i) => position_in(m.order, i),
            None => None,
        };
        match step_index(p, n, forward, m.repeat) {
            Some(q) => Some(m.order[q] as int),
            None => None,
        }
    } else {
        step_index(anchor_of(m, anchor), n, forward, m.repeat)
    }
}

proof fn lemma_key_index(ts: Seq<Track>, key: Seq<char>)
    ensures
        match key_index(ts, key) {
            Some(i) => 0 <= i < ts.len() && track_key(ts[i]) == key && forall|j: int|
                0 <= j < i ==> track_key(#[trigger] ts[j]) != key,
            None => forall|j: int| 0 <= j < ts.len() ==> track_key(#[trigger] ts[j]) != key,
        },
    decreases ts.len(),
{
    if ts.len() > 0 {
        lemma_key_index(ts.drop_last(), key);
        assert forall|j: int| 0 <= j < ts.len() - 1 implies ts.drop_last()[j] == ts[j] by {}
    }
}

proof fn lemma_position_in(order: Seq<usize>, idx: int)
    ensures
        match position_in(order, idx) {
            Some(p) => 0 <= p < order.len() && order[p] as int == idx,
            None => forall|j: int| 0 <= j < order.len() ==> (#[trigger] order[j]) as int != idx,
        },
    decreases order.len(),
{
    if order.len() > 0 {
        lemma_position_in(order.drop_last(), idx);
        assert forall|j: int| 0 <= j < order.len() - 1 implies order.drop_last()[j] == order[j] by {}
    }
}

proof fn lemma_rest_indices(n: nat, anchor: Option<usize>)
    requires
        n <= usize::MAX,
    ensures
        forall|k: int| 0 <= k < rest_indices(n, anchor).len() ==> (#[trigger] rest_indices(n, anchor)[k]) < n
            && Some(rest_indices(n, anchor)[k]) != anchor,
        forall|a: int, b: int|
            0 <= a < b < rest_indices(n, anchor).len() ==> rest_indices(n, anchor)[a] < rest_indices(n, anchor)[b],
        rest_indices(n, anchor).len() == match anchor {
            Some(a) => if a < n { n - 1 } else { n as int },
            None => n as int,
        },
    decreases n,
{
    if n > 0 {
        lemma_rest_indices((n - 1) as nat, anchor);
        let r = rest_indices((n - 1) as nat, anchor);
        let t = rest_indices(n, anchor);
        if anchor == Some((n - 1) as usize) {
            assert(t == r);
        } else {
            assert(t == r.push((n - 1) as usize));
            assert forall|a: int, b: int| 0 <= a < b < t.len() implies t[a] < t[b] by {
                if b == t.len() - 1 {
                    assert(t[a] == r[a]);
                    assert(r[a] < n - 1);
                    assert(t[b] == (n - 1) as usize);
                } else {
                    assert(t[a] == r[a] && t[b] == r[b]);
                }
            }
        }
    }
}

proof fn lemma_fisher_yates(s: Seq<usize>, rng: u64, i: nat, bound: nat, banned: Option<usize>)
    requires
        i < s.len(),
        s.len() <= u64::MAX,
        forall|k: int| 0 <= k < s.len() ==> (#[trigger] s[k]) < bound && Some(s[k]) != banned,
        forall|a: int, b: int| 0 <= a < b < s.len() ==> s[a] != s[b],
    ensures
        fisher_yates(s, rng, i).0.len() == s.len(),
        forall|k: int| 0 <= k < s.len() ==> (#[trigger] fisher_yates(s, rng, i).0[k]) < bound
            && Some(fisher_yates(s, rng, i).0[k]) != banned,
        forall|a: int, b: int| 0 <= a < b < s.len() ==> fisher_yates(s, rng, i).0[a] != fisher_yates(s, rng, i).0[b],
    decreases i,
{
    if i > 0 {
        let x = xorshift_step(rng);
        let j = (scramble(x) % ((i + 1) as u64)) as int;
        let t = swap_at(s, i as int, j);
        assert(0 <= j <= i);
        assert forall|k: int| 0 <= k < t.len() implies (#[trigger] t[k]) < bound && Some(t[k]) != banned by {
            if k == j {
            } else if k == i {
            } else {
                assert(t[k] == s[k]);
            }
        }
        assert forall|a: int, b: int| 0 <= a < b < t.len() implies t[a] != t[b] by {
            let sa = if a == j { i as int } else if a == i { j } else { a };
            let sb = if b == j { i as int } else if b == i { j } else { b };
            assert(t[a] == s[sa]);
            assert(t[b] == s[sb]);
        }
        lemma_fisher_yates(t, x, (i - 1) as nat, bound, banned);
    }
}

proof fn lemma_shuffled_perm(n: nat, anchor: Option<usize>, rng: u64)
    requires
        n <= usize::MAX,
    ensures
        perm_of(shuffled(n, anchor, rng).0, n),
        match anchor {
            Some(a) => a < n ==> shuffled(n, anchor, rng).0[0] == a,
            None => true,
        },
{
    lemma_rest_indices(n, anchor);
    let rest = rest_indices(n, anchor);
    let mixed = if rest.len() == 0 {
        (rest, rng)
    } else {
        fisher_yates(rest, rng, (rest.len() - 1) as nat)
    };
    if rest.len() > 0 {
        lemma_fisher_yates(rest, rng, (rest.len() - 1) as nat, n, anchor);
    }
    match anchor {
        Some(a) => if a < n {
            let o = seq![a] + mixed.0;
            assert forall|k: int| 0 <= k < o.len() implies (#[trigger] o[k]) < n by {
                if k > 0 {
                    assert(o[k] == mixed.0[k - 1]);
                }
            }
            assert forall|x: int, y: int| 0 <= x < y < o.len() implies o[x] != o[y] by {
                assert(o[y] == mixed.0[y - 1]);
                if x > 0 {
                    assert(o[x] == mixed.0[x - 1]);
                }
            }
        },
        None => {},
    }
}

impl QueueManager {
    /// Queue invariant.
    pub open spec fn wf(&self) -> bool {
        queue_wf(self@)
    }

    /// Empty queue with a fixed generator seed.
    pub fn with_seed(seed: u64) -> (q: Self)
        ensures
            q.wf(),
            q@.tracks.len() == 0,
            q@.last_played is None,
            !q@.shuffle,
            q@.rng == seed | 1,
            q@.repeat == RepeatMode::All,
    {
        let q = QueueManager {
            tracks: Vec::new(),
            last_played: None,
            shuffle: false,
            order: Vec::new(),
            rng: seed | 1,
            repeat: RepeatMode::All,
        };
        q
    }

    /// Whether the queue holds no track.
    pub fn is_empty(&self) -> (b: bool)
        ensures
            b == (self@.tracks.len() == 0),
    {
        self.tracks.len() == 0
    }

    /// Number of tracks.
    pub fn len(&self) -> (n: usize)
        ensures
            n == self@.tracks.len(),
    {
        self.tracks.len()
    }

    /// The tracks, in queue order.
    pub fn tracks(&self) -> (t: &[Track])
        ensures
            t@ == self@.tracks,
    {
        self.tracks.as_slice()
    }

    /// Identifier of the last played track.
    pub fn last_played(&self) -> (k: Option<&str>)
        ensures
            match k {
                Some(s) => self@.last_played == Some(s@),
                None => self@.last_played is None,
            },
    {
        match &self.last_played {
            Some(s) => Some(s.as_str()),
            None => None,
        }
    }

    /// Records that a track was played (moves the navigation anchor).
    pub fn mark_played(&mut self, id: &str)
        ensures
            final(self)@ == (QueueModel { last_played: Some(id@), ..old(self)@ }),
    {
        self.last_played = Some(id.to_owned());
    }

    /// Whether shuffle is on.
    pub fn shuffle_active(&self) -> (b: bool)
        ensures
            b == self@.shuffle,
    {
        self.shuffle
    }

    /// Sets the repeat mode.
    pub fn set_repeat(&mut self, mode: RepeatMode)
        ensures
            final(self)@ == (QueueModel { repeat: mode, ..old(self)@ }),
    {
        self.repeat = mode;
    }

    /// The repeat mode.
    pub fn repeat(&self) -> (m: RepeatMode)
        ensures
            m == self@.repeat,
    {
        self.repeat
    }

    fn anchor_index(&self, anchor: Option<&str>) -> (r: Option<usize>)
        ensures
            ({
                let a = match anchor {
                    Some(s) => Some(s@),
                    None => None,
                };
                match r {
                    Some(i) => anchor_of(self@, a) == Some(i as int),
                    None => anchor_of(self@, a) is None,
                }
            }),
    {
        let key: &str = match anchor {
            Some(a) => a,
            None => match &self.last_played {
                Some(l) => l.as_str(),
                None => return None,
            },
        };
        let ghost a = match anchor {
            Some(s) => Some(s@),
            None => None,
        };
        assert(anchor_of(self@, a) == key_index(self@.tracks, key@));
        let mut i: usize = 0;
        while i < self.tracks.len()
            invariant
                i <= self.tracks@.len(),
                anchor_of(self@, a) == key_index(self@.tracks, key@),
                a == match anchor {
                    Some(s) => Some(s@),
                    None => None,
                },
                forall|j: int| 0 <= j < i ==> track_key(#[trigger] self.tracks@[j]) != key@,
            decreases self.tracks@.len() - i,
        {
            let id = self.tracks[i].identifier();
            if same_text(id.as_str(), key) {
                proof {
                    lemma_key_index(self@.tracks, key@);
                    match key_index(self@.tracks, key@) {
                        Some(p) => {
                            if p < i {
                                assert(track_key(self.tracks@[p]) != key@);
                            }
                            if p > i {
                                assert(track_key(self.tracks@[i as int]) != key@);
                            }
                        },
                        None => {
                            assert(track_key(self.tracks@[i as int]) != key@);
                        },
                    }
                    assert(key_index(self@.tracks, key@) == Some(i as int));
                }
                return Some(i);
            }
            i = i + 1;
        }
        proof {
            lemma_key_index(self@.tracks, key@);
            match key_index(self@.tracks, key@) {
                Some(p) => {
                    assert(track_key(self.tracks@[p]) != key@);
                },
                None => {},
            }
        }
        None
    }

    /// One generator step: new state and output.
    fn next_random(&mut self) -> (r: u64)
        ensures
            final(self)@ == (QueueModel { rng: xorshift_step(old(self)@.rng), ..old(self)@ }),
            r == scramble(xorshift_step(old(self)@.rng)),
    {
        let mut x = self.rng;
        x = x ^ (x >> 12u64);
        x = x ^ (x << 25u64);
        x = x ^ (x >> 27u64);
        self.rng = x;
        x.wrapping_mul(0x2545F4914F6CDD1Du64)
    }

    /// New permutation with the anchor track first.
    fn reshuffle(&mut self, anchor: Option<usize>)
        ensures
            ({
                let s = shuffled(old(self)@.tracks.len(), anchor, old(self)@.rng);
                final(self)@ == (QueueModel { order: s.0, rng: s.1, ..old(self)@ })
            }),
    {
        let n = self.tracks.len();
        let mut rest: Vec<usize> = Vec::new();
        let mut k: usize = 0;
        while k < n
            invariant
                k <= n,
                n == self.tracks@.len(),
                rest@ == rest_indices(k as nat, anchor),
            decreases n - k,
        {
            let skip = match anchor {
                Some(a) => a == k,
                None => false,
            };
            if !skip {
                rest.push(k);
            }
            k = k + 1;
        }
        let ghost rest0 = rest@;
        let ghost rng0 = self.rng;
        let ghost target = if rest0.len() == 0 {
            (rest0, rng0)
        } else {
            fisher_yates(rest0, rng0, (rest0.len() - 1) as nat)
        };
        let len0 = rest.len();
        if len0 > 1 {
            let mut i: usize = len0 - 1;
            while i > 0
                invariant
                    i < rest@.len(),
                    rest@.len() == len0,
                    len0 == rest0.len(),
                    fisher_yates(rest@, self.rng, i as nat) == target,
                    self@.tracks == old(self)@.tracks,
                    self@.last_played == old(self)@.last_played,
                    self@.shuffle == old(self)@.shuffle,
                    self@.order == old(self)@.order,
                    self@.repeat == old(self)@.repeat,
                decreases i,
            {
                let r = self.next_random();
                let j: usize = (r % ((i as u64) + 1)) as usize;
                let ghost before = rest@;
                let t = rest[i];
                let u = rest[j];
                rest.set(i, u);
                rest.set(j, t);
                proof {
                    assert(rest@ =~= swap_at(before, i as int, j as int));
                }
                i = i - 1;
            }
        }
        let order = match anchor {
            Some(a) => if a < n {
                let mut o: Vec<usize> = Vec::new();
                o.push(a);
                o.append(&mut rest);
                o
            } else {
                rest
            },
            None => rest,
        };
        self.order = order;
        proof {
            let s = shuffled(old(self)@.tracks.len(), anchor, old(self)@.rng);
            assert(self@.order =~= s.0);
        }
    }

    /// Replaces the queue, keeping the anchor even when its track is gone
    /// (navigation then starts from an edge). The shuffle is regenerated when
    /// on.
    pub fn set_tracks(&mut self, tracks: Vec<Track>)
        requires
            old(self).wf(),
        ensures
            final(self).wf(),
            final(self)@.tracks == tracks@,
            final(self)@.last_played == old(self)@.last_played,
            final(self)@.shuffle == old(self)@.shuffle,
            final(self)@.repeat == old(self)@.repeat,
            old(self)@.shuffle ==> ({
                let m = QueueModel { tracks: tracks@, ..old(self)@ };
                let a = match anchor_of(m, None) {
                    Some(i) => Some(i as usize),
                    None => None,
                };
                let s = shuffled(tracks@.len(), a, old(self)@.rng);
                final(self)@.order == s.0 && final(self)@.rng == s.1
            }),
            !old(self)@.shuffle ==> final(self)@.rng == old(self)@.rng,
    {
        self.tracks = tracks;
        if self.shuffle {
            let anchor = self.anchor_index(None);
            let count = self.tracks.len();
            self.reshuffle(anchor);
            proof {
                assert(count == self@.tracks.len());
                lemma_shuffled_perm(self@.tracks.len(), anchor, old(self)@.rng);
            }
        }
    }

    /// Switches shuffle on or off. Switching it on puts the current track
    /// first in the permutation (the playing song is not cut).
    pub fn set_shuffle(&mut self, on: bool)
        requires
            old(self).wf(),
        ensures
            final(self).wf(),
            final(self)@.tracks == old(self)@.tracks,
            final(self)@.last_played == old(self)@.last_played,
            final(self)@.shuffle == on,
            final(self)@.repeat == old(self)@.repeat,
            on ==> ({
                let a = match anchor_of(old(self)@, None) {
                    Some(i) => Some(i as usize),
                    None => None,
                };
                let s = shuffled(old(self)@.tracks.len(), a, old(self)@.rng);
                final(self)@.order == s.0 && final(self)@.rng == s.1
            }),
            !on ==> final(self)@.rng == old(self)@.rng,
    {
        self.shuffle = on;
        if on {
            let anchor = self.anchor_index(None);
            let count = self.tracks.len();
            self.reshuffle(anchor);
            proof {
                assert(count == self@.tracks.len());
                lemma_shuffled_perm(self@.tracks.len(), anchor, old(self)@.rng);
            }
        } else {
            self.order.clear();
        }
    }

    fn order_position(&self, idx: usize) -> (r: Option<usize>)
        ensures
            match r {
                Some(p) => position_in(self@.order, idx as int) == Some(p as int),
                None => position_in(self@.order, idx as int) is None,
            },
    {
        let mut p: usize = 0;
        while p < self.order.len()
            invariant
                p <= self.order@.len(),
                forall|j: int| 0 <= j < p ==> (#[trigger] self.order@[j]) != idx,
            decreases self.order@.len() - p,
        {
            if self.order[p] == idx {
                proof {
                    lemma_position_in(self@.order, idx as int);
                    match position_in(self@.order, idx as int) {
                        Some(q) => {
                            if q < p {
                                assert(self.order@[q] != idx);
                            }
                            lemma_first_position(self@.order, idx as int, p as int);
                        },
                        None => {
                            assert(self.order@[p as int] as int != idx as int);
                        },
                    }
                }
                return Some(p);
            }
            p = p + 1;
        }
        proof {
            lemma_position_in(self@.order, idx as int);
            match position_in(self@.order, idx as int) {
                Some(q) => {
                    assert(self.order@[q] != idx);
                },
                None => {},
            }
        }
        None
    }

    /// Next (`forward`) or previous track relative to the anchor (or to the
    /// last played one). The anchor does NOT move: whoever plays decides to
    /// mark it.
    pub fn pick(&mut self, forward: bool, anchor: Option<&str>) -> (r: Option<Track>)
        requires
            old(self).wf(),
        ensures
            final(self)@ == old(self)@,
            ({
                let a = match anchor {
                    Some(s) => Some(s@),
                    None => None,
                };
                match pick_spec(old(self)@, forward, a) {
                    Some(i) => r matches Some(t) && 0 <= i < old(self)@.tracks.len()
                        && t.deep_view() == old(self)@.tracks[i].deep_view(),
                    None => r is None,
                }
            }),
    {
        let n = self.tracks.len();
        if n == 0 {
            return None;
        }
        let start = self.anchor_index(anchor);
        let ghost a = match anchor {
            Some(s) => Some(s@),
            None => None,
        };
        if self.shuffle {
            let pos: Option<usize> = match start {
                Some(idx) => self.order_position(idx),
                None => None,
            };
            proof {
                assert(self.order@.len() == n);
                if let Some(p) = pos {
                    lemma_position_in(self@.order, start.unwrap() as int);
                }
            }
            let next_pos = match step(pos, n, forward, self.repeat) {
                Some(q) => q,
                None => return None,
            };
            let idx = self.order[next_pos];
            return Some(self.tracks[idx].clone());
        }
        proof {
            if let Some(i) = start {
                lemma_key_index(self@.tracks, anchor_key(self@, a));
            }
        }
        let idx = match step(start, n, forward, self.repeat) {
            Some(q) => q,
            None => return None,
        };
        Some(self.tracks[idx].clone())
    }
}

/// Key used to find the anchor: the explicit one, else the last played.
pub open spec fn anchor_key(m: QueueModel, anchor: Option<Seq<char>>) -> Seq<char> {
    match anchor {
        Some(a) => a,
        None => m.last_played.unwrap(),
    }
}

proof fn lemma_first_position(order: Seq<usize>, idx: int, p: int)
    requires
        0 <= p < order.len(),
        order[p] as int == idx,
        forall|j: int| 0 <= j < p ==> (#[trigger] order[j]) as int != idx,
    ensures
        position_in(order, idx) == Some(p),
    decreases order.len(),
{
    if p < order.len() - 1 {
        let d = order.drop_last();
        assert forall|j: int| 0 <= j < p implies (#[trigger] d[j]) as int != idx by {
            assert(d[j] == order[j]);
        }
        lemma_first_position(d, idx, p);
    } else {
        let d = order.drop_last();
        lemma_position_in(d, idx);
        match position_in(d, idx) {
            Some(q) => {
                assert(d[q] == order[q]);
            },
            None => {},
        }
    }
}

/// Executable [`step_index`] over positions `0..n`.
fn step(start: Option<usize>, n: usize, forward: bool, repeat: RepeatMode) -> (r: Option<usize>)
    requires
        n > 0,
        start matches Some(i) ==> i < n,
    ensures
        match step_index(
            match start {
                Some(i) => Some(i as int),
                None => None,
            },
            n as int,
            forward,
            repeat,
        ) {
            Some(q) => r == Some(q as usize) && 0 <= q < n,
            None => r is None,
        },
{
    match start {
        Some(i) => if forward {
            if i + 1 < n {
                proof {
                    assert((i + 1) % (n as int) == i + 1) by (nonlinear_arith)
                        requires
                            i + 1 < n,
                    ;
                }
                Some(i + 1)
            } else {
                match repeat {
                    RepeatMode::All => {
                        proof {
                            assert((i + 1) % (n as int) == 0) by (nonlinear_arith)
                                requires
                                    i + 1 == n,
                                    n > 0,
                            ;
                        }
                        Some(0)
                    },
                    RepeatMode::Off => None,
                }
            }
        } else {
            if i >= 1 {
                proof {
                    assert((i + n - 1) % (n as int) == i - 1) by (nonlinear_arith)
                        requires
                            1 <= i < n,
                    ;
                }
                Some(i - 1)
            } else {
                match repeat {
                    RepeatMode::All => {
                        proof {
                            assert((i + n - 1) % (n as int) == n - 1) by (nonlinear_arith)
                                requires
                                    i == 0,
                                    n > 0,
                            ;
                        }
                        Some(n - 1)
                    },
                    RepeatMode::Off => None,
                }
            }
        },
        None => if forward {
            Some(0)
        } else {
            Some(n - 1)
        },
    }
}

impl Default for QueueManager {
    fn default() -> (q: Self)
        ensures
            q.wf(),
            q@.tracks.len() == 0,
            q@.last_played is None,
            !q@.shuffle,
            q@.rng == 0x9E3779B97F4A7C15u64 | 1,
            q@.repeat == RepeatMode::All,
    {
        QueueManager::with_seed(0x9E3779B97F4A7C15)
    }
}

/// Switching shuffle on yields a permutation of the queue (no track lost
/// or repeated) with the current track first.
pub proof fn law_shuffle_keeps_every_track(n: nat, anchor: Option<usize>, rng: u64)
    requires
        n <= usize::MAX,
    ensures
        perm_of(shuffled(n, anchor, rng).0, n),
        match anchor {
            Some(a) => a < n ==> shuffled(n, anchor, rng).0[0] == a,
            None => true,
        },
{
    lemma_shuffled_perm(n, anchor, rng);
}

/// Tracks of the queue have distinct identifiers.
pub open spec fn distinct_keys(ts: Seq<Track>) -> bool {
    forall|a: int, b: int| 0 <= a < b < ts.len() ==> track_key(ts[a]) != track_key(ts[b])
}

/// With shuffle on and distinct identifiers, picking forward from the track
/// at position `p` of the permutation gives the track at the following
/// position (wrapping with repeat-all): walking the queue visits the whole
/// permutation.
pub proof fn law_shuffled_walk(m: QueueModel, p: int)
    requires
        queue_wf(m),
        m.shuffle,
        distinct_keys(m.tracks),
        m.repeat == RepeatMode::All,
        0 <= p < m.order.len(),
    ensures
        pick_spec(m, true, Some(track_key(m.tracks[m.order[p] as int])))
            == Some(m.order[(p + 1) % (m.order.len() as int)] as int),
{
    let i = m.order[p] as int;
    let key = track_key(m.tracks[i]);
    lemma_key_index(m.tracks, key);
    match key_index(m.tracks, key) {
        Some(q) => {
            if q != i {
                if q < i {
                    assert(track_key(m.tracks[q]) != track_key(m.tracks[i]));
                } else {
                    assert(track_key(m.tracks[i]) != track_key(m.tracks[q]));
                }
            }
        },
        None => {
            assert(track_key(m.tracks[i]) != key);
        },
    }
    assert(anchor_of(m, Some(key)) == Some(i));
    lemma_position_in(m.order, i);
    match position_in(m.order, i) {
        Some(q) => {
            if q != p {
                if q < p {
                    assert(m.order[q] != m.order[p]);
                } else {
                    assert(m.order[p] != m.order[q]);
                }
            }
        },
        None => {
            assert(m.order[p] as int != i);
        },
    }
}

/// With repeat off the queue stops at its edges: forward from the last
/// track and backward from the first give nothing.
pub proof fn law_repeat_off_stops_at_edges(m: QueueModel, key_last: Seq<char>, key_first: Seq<char>)
    requires
        !m.shuffle,
        m.repeat == RepeatMode::Off,
        m.tracks.len() > 0,
        anchor_of(m, Some(key_last)) == Some(m.tracks.len() - 1),
        anchor_of(m, Some(key_first)) == Some(0int),
    ensures
        pick_spec(m, true, Some(key_last)) is None,
        pick_spec(m, false, Some(key_first)) is None,
{
}

/// With an empty queue nothing is ever picked.
pub proof fn law_empty_queue_never_picks(m: QueueModel, forward: bool, anchor: Option<Seq<char>>)
    requires
        m.tracks.len() == 0,
    ensures
        pick_spec(m, forward, anchor) is None,
{
}

/// Without shuffle, stepping from the current track (the explicit anchor,
/// else the last played one; its first occurrence at position `i`) moves to
/// the neighbouring position: forward to `i + 1` and backward to `i - 1`
/// whenever that position exists, whatever the repeat mode. At the ends,
/// repeat Off stops and repeat All wraps around.
pub proof fn law_sequential_neighbours(m: QueueModel, anchor: Option<Seq<char>>, key: Seq<char>, i: int)
    requires
        !m.shuffle,
        anchor == Some(key) || (anchor is None && m.last_played == Some(key)),
        0 <= i < m.tracks.len(),
        track_key(m.tracks[i]) == key,
        forall|j: int| 0 <= j < i ==> track_key(#[trigger] m.tracks[j]) != key,
    ensures
        i + 1 < m.tracks.len() ==> pick_spec(m, true, anchor) == Some(i + 1),
        i >= 1 ==> pick_spec(m, false, anchor) == Some(i - 1),
        i + 1 == m.tracks.len() && m.repeat == RepeatMode::Off ==> pick_spec(m, true, anchor) is None,
        i == 0 && m.repeat == RepeatMode::Off ==> pick_spec(m, false, anchor) is None,
        i + 1 == m.tracks.len() && m.repeat == RepeatMode::All ==> pick_spec(m, true, anchor) == Some(0int),
        i == 0 && m.repeat == RepeatMode::All ==> pick_spec(m, false, anchor) == Some(
            m.tracks.len() - 1,
        ),
{
    lemma_key_index(m.tracks, key);
    let n = m.tracks.len() as int;
    assert(anchor_of(m, anchor) == Some(i));
    if i + 1 < n {
        assert((i + 1) % n == i + 1) by (nonlinear_arith)
            requires
                0 <= i,
                i + 1 < n,
        ;
    } else {
        assert((i + 1) % n == 0) by (nonlinear_arith)
            requires
                i + 1 == n,
                n > 0,
        ;
    }
    if i >= 1 {
        assert((i + n - 1) % n == i - 1) by (nonlinear_arith)
            requires
                1 <= i < n,
        ;
    } else {
        assert((i + n - 1) % n == n - 1) by (nonlinear_arith)
            requires
                i == 0,
                n > 0,
        ;
    }
}

/// Without shuffle and with no current track (no anchor and nothing played,
/// or an identifier not in the queue), moving forward starts at the first
/// track and moving backward at the last one.
pub proof fn law_no_current_starts_at_edges(m: QueueModel, anchor: Option<Seq<char>>)
    requires
        !m.shuffle,
        m.tracks.len() > 0,
        forall|j: int|
            0 <= j < m.tracks.len() ==> Some(track_key(#[trigger] m.tracks[j])) != match anchor {
                Some(a) => Some(a),
                None => m.last_played,
            },
    ensures
        pick_spec(m, true, anchor) == Some(0int),
        pick_spec(m, false, anchor) == Some(m.tracks.len() - 1),
{
    match anchor {
        Some(a) => lemma_key_index(m.tracks, a),
        None => match m.last_played {
            Some(k) => lemma_key_index(m.tracks, k),
            None => {},
        },
    }
}

} // verus!
