//! Bounded ring between the audio producer and the analysis consumer.
//!
//! The producer is never held back: when the ring is full, what does not
//! fit is dropped (drop-newest) and counted, so the stored samples always
//! keep their order and the oldest ones are never overwritten. The number
//! of slots is a power of two of at least 1024; one slot stays free, so the
//! usable capacity is one less.

use vstd::prelude::*;

verus! {

/// Slot count for a requested capacity: 1024 doubled until it reaches the
/// request.
pub open spec fn slots_for(requested: nat, p: nat) -> nat
    decreases if p <= requested { requested - p } else { 0 },
{
    if p == 0 || p >= requested {
        p
    } else {
        slots_for(requested, p * 2)
    }
}

/// Physical slot of the `i`-th stored element when the oldest sits in
/// slot `head` of `size`.
pub open spec fn slot(head: int, i: int, size: int) -> int {
    if head + i < size {
        head + i
    } else {
        head + i - size
    }
}

/// Bounded single-producer / single-consumer ring.
pub struct SpScRing<T> {
    buf: Vec<T>,
    size: usize,
    head: usize,
    len: usize,
    dropped: usize,
}

impl<T: Copy> View for SpScRing<T> {
    type V = Seq<T>;

    /// Stored elements, oldest first.
    closed spec fn view(&self) -> Seq<T> {
        Seq::new(
            self.len as nat,
            |i: int| self.buf@[slot(self.head as int, i, self.size as int)],
        )
    }
}

impl<T: Copy> SpScRing<T> {
    /// Usable capacity (slots minus the one kept free).
    pub closed spec fn spec_capacity(&self) -> nat {
        (self.size - 1) as nat
    }

    /// Elements dropped so far because the ring was full (wrapping count).
    pub closed spec fn spec_dropped(&self) -> usize {
        self.dropped
    }

    /// Ring invariant: at least two slots, the stored elements fit in the
    /// usable capacity, and slots are filled in order before the first wrap.
    pub closed spec fn wf(&self) -> bool {
        &&& 2 <= self.size <= usize::MAX / 2
        &&& self.buf@.len() <= self.size
        &&& self.head < self.size
        &&& self.len < self.size
        &&& self.buf@.len() < self.size ==> self.head + self.len == self.buf@.len()
    }

    proof fn lemma_slot_stored(&self, i: int)
        requires
            self.wf(),
            0 <= i < self.len,
        ensures
            0 <= slot(self.head as int, i, self.size as int) < self.buf@.len(),
    {
    }

    /// Ring for at least `capacity` elements: the slot count is the first
    /// power of two from 1024 on that reaches `capacity`.
    pub fn new(capacity: usize) -> (r: Self)
        requires
            capacity <= usize::MAX / 4,
        ensures
            r.wf(),
            r@ == Seq::<T>::empty(),
            r.spec_capacity() == slots_for(capacity as nat, 1024) - 1,
            r.spec_dropped() == 0,
    {
        let mut p: usize = 1024;
        while p < capacity
            invariant
                1024 <= p,
                p == 1024 || p < 2 * capacity,
                capacity <= usize::MAX / 4,
                slots_for(capacity as nat, p as nat) == slots_for(capacity as nat, 1024),
            decreases usize::MAX - p,
        {
            p = p * 2;
        }
        let r = SpScRing { buf: Vec::new(), size: p, head: 0, len: 0, dropped: 0 };
        proof {
            assert(r@ =~= Seq::<T>::empty());
        }
        r
    }

    /// Number of stored elements.
    pub fn len(&self) -> (n: usize)
        requires
            self.wf(),
        ensures
            n == self@.len(),
    {
        self.len
    }

    /// Whether nothing is stored.
    pub fn is_empty(&self) -> (b: bool)
        requires
            self.wf(),
        ensures
            b == (self@.len() == 0),
    {
        self.len == 0
    }

    /// Usable capacity.
    pub fn capacity(&self) -> (c: usize)
        requires
            self.wf(),
        ensures
            c == self.spec_capacity(),
    {
        self.size - 1
    }

    /// Elements dropped so far because the ring was full.
    pub fn dropped(&self) -> (d: usize)
        ensures
            d == self.spec_dropped(),
    {
        self.dropped
    }

    /// Stores one element behind the others (room is known to be there).
    fn push_one(&mut self, v: T)
        requires
            old(self).wf(),
            old(self)@.len() < old(self).spec_capacity(),
        ensures
            final(self).wf(),
            final(self)@ == old(self)@.push(v),
            final(self).spec_capacity() == old(self).spec_capacity(),
            final(self).spec_dropped() == old(self).spec_dropped(),
    {
        let ghost before = self@;
        let ghost old_buf = self.buf@;
        let w = if self.head + self.len < self.size {
            self.head + self.len
        } else {
            self.head + self.len - self.size
        };
        if w == self.buf.len() {
            self.buf.push(v);
        } else {
            self.buf[w] = v;
        }
        self.len = self.len + 1;
        proof {
            assert forall|i: int| 0 <= i < before.len() implies #[trigger] self@[i] == before[i] by {
                assert(slot(self.head as int, i, self.size as int) != w);
                assert(0 <= slot(self.head as int, i, self.size as int) < old_buf.len());
            }
            assert(self@ =~= before.push(v));
        }
    }

    /// Writes `data` behind the stored elements and returns how many
    /// entered: as many as fit, in order. The rest is dropped and counted;
    /// what was stored is never touched.
    pub fn push(&mut self, data: &[T]) -> (n: usize)
        requires
            old(self).wf(),
        ensures
            final(self).wf(),
            n == if data@.len() <= old(self).spec_capacity() - old(self)@.len() {
                data@.len()
            } else {
                (old(self).spec_capacity() - old(self)@.len()) as nat
            },
            final(self)@ == old(self)@ + data@.subrange(0, n as int),
            final(self).spec_capacity() == old(self).spec_capacity(),
            final(self).spec_dropped() == old(self).spec_dropped().wrapping_add(
                (data@.len() - n) as usize,
            ),
    {
        let free = self.size - 1 - self.len;
        let n = if data.len() < free { data.len() } else { free };
        let ghost start = self@;
        let mut k: usize = 0;
        while k < n
            invariant
                self.wf(),
                k <= n,
                n <= data@.len(),
                start.len() + n <= self.spec_capacity(),
                self.spec_capacity() == old(self).spec_capacity(),
                self.spec_dropped() == old(self).spec_dropped(),
                start == old(self)@,
                self@ == start + data@.subrange(0, k as int),
            decreases n - k,
        {
            self.push_one(data[k]);
            proof {
                assert(data@.subrange(0, k + 1) =~= data@.subrange(0, k as int).push(data@[k as int]));
            }
            k = k + 1;
        }
        self.dropped = self.dropped.wrapping_add(data.len() - n);
        n
    }

    /// Takes the oldest element.
    fn pop_one(&mut self) -> (v: T)
        requires
            old(self).wf(),
            old(self)@.len() > 0,
        ensures
            final(self).wf(),
            v == old(self)@[0],
            final(self)@ == old(self)@.drop_first(),
            final(self).spec_capacity() == old(self).spec_capacity(),
            final(self).spec_dropped() == old(self).spec_dropped(),
    {
        let ghost before = self@;
        proof {
            self.lemma_slot_stored(0);
        }
        let v = self.buf[self.head];
        self.head = if self.head + 1 == self.size { 0 } else { self.head + 1 };
        self.len = self.len - 1;
        proof {
            assert forall|i: int| 0 <= i < self@.len() implies #[trigger] self@[i] == before[i + 1] by {}
            assert(self@ =~= before.drop_first());
        }
        v
    }

    /// Moves up to `out.len()` of the oldest elements, in order, to the front
    /// of `out` and returns how many were moved.
    pub fn pop(&mut self, out: &mut [T]) -> (n: usize)
        requires
            old(self).wf(),
        ensures
            final(self).wf(),
            n == if old(out)@.len() <= old(self)@.len() {
                old(out)@.len()
            } else {
                old(self)@.len()
            },
            final(self)@ == old(self)@.subrange(n as int, old(self)@.len() as int),
            final(out)@ == old(self)@.subrange(0, n as int) + old(out)@.subrange(
                n as int,
                old(out)@.len() as int,
            ),
            final(self).spec_capacity() == old(self).spec_capacity(),
            final(self).spec_dropped() == old(self).spec_dropped(),
    {
        let n = if out.len() < self.len { out.len() } else { self.len };
        let ghost start = self@;
        let ghost out0 = out@;
        let mut k: usize = 0;
        while k < n
            invariant
                self.wf(),
                k <= n,
                n <= start.len(),
                n <= out0.len(),
                out@.len() == out0.len(),
                self.spec_capacity() == old(self).spec_capacity(),
                self.spec_dropped() == old(self).spec_dropped(),
                start == old(self)@,
                out0 == old(out)@,
                self@ == start.subrange(k as int, start.len() as int),
                out@ == start.subrange(0, k as int) + out0.subrange(k as int, out0.len() as int),
            decreases n - k,
        {
            let v = self.pop_one();
            out[k] = v;
            proof {
                assert(self@ =~= start.subrange(k + 1, start.len() as int));
                assert(out@ =~= start.subrange(0, k + 1) + out0.subrange(k + 1, out0.len() as int));
            }
            k = k + 1;
        }
        n
    }
}

/// What a push stores comes out of later pops in the same order, behind
/// everything stored before it, and a full ring drops the newest data
/// rather than anything already stored.
pub proof fn law_fifo_drop_newest<T>(stored: Seq<T>, data: Seq<T>, capacity: nat)
    requires
        stored.len() <= capacity,
    ensures
        ({
            let n = if data.len() <= capacity - stored.len() {
                data.len()
            } else {
                (capacity - stored.len()) as nat
            };
            let after = stored + data.subrange(0, n as int);
            &&& after.len() <= capacity
            &&& after.subrange(0, stored.len() as int) == stored
            &&& after.subrange(stored.len() as int, after.len() as int) == data.subrange(0, n as int)
        }),
{
    let n = if data.len() <= capacity - stored.len() {
        data.len()
    } else {
        (capacity - stored.len()) as nat
    };
    let after = stored + data.subrange(0, n as int);
    assert(after.subrange(0, stored.len() as int) =~= stored);
    assert(after.subrange(stored.len() as int, after.len() as int) =~= data.subrange(0, n as int));
}

} // verus!
