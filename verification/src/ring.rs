//! Fixed-capacity FIFO ring of 32-bit samples connecting a capture worker to
//! a render worker.
//!
//! The ring stores samples as the `u32` bit patterns of 32-bit float PCM.
//! Capacity is rounded up to a power of two and one slot stays permanently
//! reserved, so the usable capacity is `rounded - 1`; head and tail indices
//! advance modulo the rounded capacity.  The in-process callers use it under
//! the single-producer single-consumer discipline; the synchronisation that
//! publishes the indices between the two threads lives outside this crate.

use vstd::prelude::*;

verus! {

/// Position `start + i` wrapped once around a ring of size `cap`.
/// Meaningful for `0 <= start < cap` and `0 <= i < cap`.
pub open spec fn ring_idx(start: int, i: int, cap: int) -> int {
    if start + i < cap {
        start + i
    } else {
        start + i - cap
    }
}

/// Whether `n` is a power of two.
pub open spec fn is_pow2(n: nat) -> bool
    decreases n,
{
    if n == 0 {
        false
    } else if n == 1 {
        true
    } else {
        n % 2 == 0 && is_pow2(n / 2)
    }
}

/// Offsets below `cap` wrap to the same slot exactly when they are equal.
proof fn lemma_ring_idx_injective(start: int, i: int, j: int, cap: int)
    requires
        0 <= start < cap,
        0 <= i < cap,
        0 <= j < cap,
    ensures
        (ring_idx(start, i, cap) == ring_idx(start, j, cap)) == (i == j),
{
}

/// Wrapping twice in turn equals wrapping once by the combined offset,
/// as long as the combined offset stays below `cap`.
proof fn lemma_ring_idx_compose(start: int, a: int, b: int, cap: int)
    requires
        0 <= start < cap,
        0 <= a < cap,
        0 <= b < cap,
        a + b < cap,
    ensures
        ring_idx(ring_idx(start, a, cap), b, cap) == ring_idx(start, a + b, cap),
{
}

pub struct AudioRingBuffer {
    buffer: Vec<u32>,
    capacity: usize,
    write_pos: usize,
    read_pos: usize,
}

impl AudioRingBuffer {
    /// The rounded capacity: the length of the backing storage.
    pub closed spec fn spec_rounded(self) -> int {
        self.capacity as int
    }

    /// The usable capacity: one slot is reserved to tell full from empty.
    pub open spec fn spec_capacity(self) -> int {
        self.spec_rounded() - 1
    }

    pub closed spec fn wf(self) -> bool {
        &&& self.buffer@.len() == self.capacity
        &&& is_pow2(self.capacity as nat)
        &&& self.write_pos < self.capacity
        &&& self.read_pos < self.capacity
    }

    /// Number of queued samples, from the head and tail indices.
    closed spec fn spec_occupancy(self) -> int {
        if self.write_pos >= self.read_pos {
            self.write_pos - self.read_pos
        } else {
            self.capacity - (self.read_pos - self.write_pos)
        }
    }

    /// The head index lies exactly `occupancy` slots past the tail index.
    proof fn lemma_head_past_tail(self)
        requires
            self.wf(),
        ensures
            0 <= self.spec_occupancy() < self.spec_rounded(),
            self.write_pos as int == ring_idx(
                self.read_pos as int,
                self.spec_occupancy(),
                self.spec_rounded(),
            ),
    {
    }
}

impl View for AudioRingBuffer {
    type V = Seq<u32>;

    /// The queued samples, oldest first.
    closed spec fn view(&self) -> Seq<u32> {
        Seq::new(
            self.spec_occupancy() as nat,
            |i: int| self.buffer@[ring_idx(self.read_pos as int, i, self.capacity as int)],
        )
    }
}

/// The smallest power of two that is at least `max(n, 1)`.
fn next_pow2(n: usize) -> (r: usize)
    requires
        n <= usize::MAX / 2 + 1,
    ensures
        is_pow2(r as nat),
        r >= n,
        n <= 1 || r < 2 * n,
{
    let mut p: usize = 1;
    while p < n
        invariant
            n <= usize::MAX / 2 + 1,
            1 <= p,
            is_pow2(p as nat),
            p == 1 || p < 2 * n,
        decreases 2 * n - p,
    {
        p = p * 2;
    }
    p
}

impl AudioRingBuffer {
    /// Create a ring whose usable capacity is `next_pow2(capacity) - 1`
    /// samples.  The ring starts empty.
    pub fn new(capacity: usize) -> (r: AudioRingBuffer)
        requires
            capacity <= usize::MAX / 2 + 1,
        ensures
            r.wf(),
            r@ == Seq::<u32>::empty(),
            r.spec_capacity() + 1 >= capacity,
            is_pow2((r.spec_capacity() + 1) as nat),
            capacity <= 1 || r.spec_capacity() + 1 < 2 * capacity,
    {
        let rounded = next_pow2(capacity);
        let mut buffer: Vec<u32> = Vec::new();
        let mut i: usize = 0;
        while i < rounded
            invariant
                buffer@.len() == i,
                i <= rounded,
            decreases rounded - i,
        {
            buffer.push(0);
            i = i + 1;
        }
        let r = AudioRingBuffer { buffer, capacity: rounded, write_pos: 0, read_pos: 0 };
        assert(r@ =~= Seq::<u32>::empty());
        r
    }

    /// Copy as many leading elements of `samples` as fit; return how many.
    /// The accepted prefix is appended to the queue; nothing blocks and the
    /// backing storage never grows.
    pub fn write(&mut self, samples: &[u32]) -> (count: usize)
        requires
            old(self).wf(),
        ensures
            final(self).wf(),
            final(self).spec_capacity() == old(self).spec_capacity(),
            count == vstd::math::min(
                samples@.len() as int,
                old(self).spec_capacity() - old(self)@.len(),
            ),
            final(self)@ == old(self)@ + samples@.take(count as int),
    {
        let ghost old_view = old(self)@;
        let ghost old_buf = old(self).buffer@;
        let cap = self.capacity;
        let w = self.write_pos;
        let r = self.read_pos;
        let available = if w >= r {
            cap - (w - r) - 1
        } else {
            r - w - 1
        };
        assert(available == self.spec_capacity() - self.spec_occupancy());

        let to_write = if samples.len() < available {
            samples.len()
        } else {
            available
        };

        let mut i: usize = 0;
        while i < to_write
            invariant
                self.buffer@.len() == cap,
                self.capacity == cap,
                self.write_pos == w,
                self.read_pos == r,
                w < cap,
                r < cap,
                i <= to_write,
                to_write <= samples@.len(),
                to_write + old_view.len() <= cap - 1,
                forall|j: int|
                    0 <= j < i ==> self.buffer@[ring_idx(w as int, j, cap as int)] == samples@[j],
                forall|k: int|
                    0 <= k < cap && (forall|j: int|
                        0 <= j < i ==> ring_idx(w as int, j, cap as int) != k) ==> self.buffer@[k]
                        == old_buf[k],
            decreases to_write - i,
        {
            let idx = if i < cap - w {
                w + i
            } else {
                i - (cap - w)
            };
            assert(idx == ring_idx(w as int, i as int, cap as int));
            self.buffer[idx] = samples[i];
            assert forall|j: int|
                0 <= j < i + 1 implies self.buffer@[ring_idx(w as int, j, cap as int)]
                == samples@[j] by {
                lemma_ring_idx_injective(w as int, j, i as int, cap as int);
            }
            i = i + 1;
        }

        let new_w = if to_write < cap - w {
            w + to_write
        } else {
            to_write - (cap - w)
        };
        self.write_pos = new_w;

        proof {
            let capi = cap as int;
            let occ0 = old_view.len() as int;
            old(self).lemma_head_past_tail();
            assert(w as int == ring_idx(r as int, occ0, capi));
            assert(new_w as int == ring_idx(w as int, to_write as int, capi));
            assert forall|k: int| 0 <= k < self@.len() implies self@[k] == (old_view
                + samples@.take(to_write as int))[k] by {
                lemma_ring_idx_compose(r as int, occ0, to_write as int, capi);
                assert(self.spec_occupancy() == occ0 + to_write);
                if k < occ0 {
                    // Slots of the old queue were untouched by the copy loop.
                    assert forall|j: int|
                        0 <= j < to_write implies ring_idx(w as int, j, capi) != ring_idx(
                        r as int,
                        k,
                        capi,
                    ) by {
                        lemma_ring_idx_compose(r as int, occ0, j, capi);
                        assert(ring_idx(w as int, j, capi) == ring_idx(r as int, occ0 + j, capi));
                        lemma_ring_idx_injective(r as int, occ0 + j, k, capi);
                    }
                    assert(self.buffer@[ring_idx(r as int, k, capi)] == old_buf[ring_idx(
                        r as int,
                        k,
                        capi,
                    )]);
                } else {
                    // New slots hold the copied prefix.
                    lemma_ring_idx_compose(r as int, occ0, k - occ0, capi);
                    assert(ring_idx(r as int, k, capi) == ring_idx(w as int, k - occ0, capi));
                }
            }
            assert(self@ =~= old_view + samples@.take(to_write as int));
        }
        to_write
    }

    /// Copy up to `out.len()` queued samples into the front of `out`; return
    /// how many.  The copied samples leave the queue; the rest of `out` is
    /// untouched.
    pub fn read(&mut self, out: &mut Vec<u32>) -> (count: usize)
        requires
            old(self).wf(),
        ensures
            final(self).wf(),
            final(self).spec_capacity() == old(self).spec_capacity(),
            count == vstd::math::min(old(out)@.len() as int, old(self)@.len() as int),
            final(out)@.len() == old(out)@.len(),
            final(out)@ == old(self)@.take(count as int) + old(out)@.skip(count as int),
            final(self)@ == old(self)@.skip(count as int),
    {
        let ghost old_view = old(self)@;
        let cap = self.capacity;
        let w = self.write_pos;
        let r = self.read_pos;
        let available = if w >= r {
            w - r
        } else {
            cap - (r - w)
        };
        assert(available == self.spec_occupancy());

        let to_read = if out.len() < available {
            out.len()
        } else {
            available
        };

        let mut i: usize = 0;
        while i < to_read
            invariant
                self.wf(),
                self.capacity == cap,
                self.write_pos == w,
                self.read_pos == r,
                self@ == old_view,
                i <= to_read,
                to_read <= old_view.len(),
                to_read <= out@.len(),
                out@.len() == old(out)@.len(),
                forall|j: int| 0 <= j < i ==> out@[j] == old_view[j],
                forall|j: int| i <= j < out@.len() ==> out@[j] == old(out)@[j],
            decreases to_read - i,
        {
            let idx = if i < cap - r {
                r + i
            } else {
                i - (cap - r)
            };
            assert(idx == ring_idx(r as int, i as int, cap as int));
            assert(old_view[i as int] == self.buffer@[idx as int]);
            let v = self.buffer[idx];
            out[i] = v;
            i = i + 1;
        }

        let new_r = if to_read < cap - r {
            r + to_read
        } else {
            to_read - (cap - r)
        };
        self.read_pos = new_r;

        proof {
            let capi = cap as int;
            assert(new_r as int == ring_idx(r as int, to_read as int, capi));
            assert(self.spec_occupancy() == old_view.len() - to_read);
            assert forall|k: int| 0 <= k < self@.len() implies self@[k] == old_view.skip(
                to_read as int,
            )[k] by {
                lemma_ring_idx_compose(r as int, to_read as int, k, capi);
                assert(ring_idx(new_r as int, k, capi) == ring_idx(r as int, to_read + k, capi));
            }
            assert(self@ =~= old_view.skip(to_read as int));
            assert(out@ =~= old_view.take(to_read as int) + old(out)@.skip(to_read as int));
        }
        to_read
    }

    /// Number of samples currently queued.
    pub fn len(&self) -> (r: usize)
        requires
            self.wf(),
        ensures
            r == self@.len(),
    {
        let w = self.write_pos;
        let rd = self.read_pos;
        if w >= rd {
            w - rd
        } else {
            self.capacity - (rd - w)
        }
    }

    /// Whether the queue holds no samples.
    pub fn is_empty(&self) -> (r: bool)
        requires
            self.wf(),
        ensures
            r == (self@.len() == 0),
    {
        self.len() == 0
    }

    /// Usable capacity in samples: the rounded capacity minus the reserved
    /// slot.
    pub fn capacity(&self) -> (r: usize)
        requires
            self.wf(),
        ensures
            r == self.spec_capacity(),
    {
        self.capacity - 1
    }

    /// Drop every queued sample.
    pub fn clear(&mut self)
        requires
            old(self).wf(),
        ensures
            final(self).wf(),
            final(self).spec_capacity() == old(self).spec_capacity(),
            final(self)@ == Seq::<u32>::empty(),
    {
        self.read_pos = 0;
        self.write_pos = 0;
        assert(self@ =~= Seq::<u32>::empty());
    }
}

/// The queue never exceeds the usable capacity: `0 <= len <= capacity`.
pub proof fn lemma_occupancy_bounded(r: AudioRingBuffer)
    requires
        r.wf(),
    ensures
        0 <= r@.len() <= r.spec_capacity(),
{
}

/// The FIFO history invariant: everything read so far, followed by what is
/// still queued, equals everything the ring has accepted from writes so far.
pub open spec fn fifo_history(reads: Seq<u32>, queue: Seq<u32>, writes: Seq<u32>) -> bool {
    reads + queue == writes
}

/// A fresh ring satisfies the FIFO history invariant: nothing read, nothing
/// queued, nothing written.
pub proof fn lemma_fifo_init()
    ensures
        fifo_history(Seq::<u32>::empty(), Seq::<u32>::empty(), Seq::<u32>::empty()),
{
    assert(Seq::<u32>::empty() + Seq::<u32>::empty() =~= Seq::<u32>::empty());
}

/// `write` preserves the FIFO history invariant: it appends the accepted
/// prefix of its argument both to the queue (its `ensures`) and to the
/// history of accepted samples.
pub proof fn lemma_fifo_write_step(
    reads: Seq<u32>,
    queue: Seq<u32>,
    writes: Seq<u32>,
    accepted: Seq<u32>,
)
    requires
        fifo_history(reads, queue, writes),
    ensures
        fifo_history(reads, queue + accepted, writes + accepted),
{
    assert(reads + (queue + accepted) =~= (reads + queue) + accepted);
}

/// `read` preserves the FIFO history invariant: the `n` samples it returns
/// are the front of the queue (its `ensures`), and move from the queue to
/// the history of read samples.
pub proof fn lemma_fifo_read_step(reads: Seq<u32>, queue: Seq<u32>, writes: Seq<u32>, n: int)
    requires
        fifo_history(reads, queue, writes),
        0 <= n <= queue.len(),
    ensures
        fifo_history(reads + queue.take(n), queue.skip(n), writes),
{
    assert((reads + queue.take(n)) + queue.skip(n) =~= reads + queue);
}

/// Ring FIFO: under the history invariant, the concatenation of everything
/// read is a prefix of the concatenation of everything accepted by writes.
/// Together with the three step lemmas this holds over any interleaving of
/// `write` and `read`.
pub proof fn lemma_fifo_reads_are_prefix_of_writes(
    reads: Seq<u32>,
    queue: Seq<u32>,
    writes: Seq<u32>,
)
    requires
        fifo_history(reads, queue, writes),
    ensures
        reads.len() <= writes.len(),
        reads == writes.take(reads.len() as int),
{
    assert(reads =~= writes.take(reads.len() as int));
}

/// Ring no-loss under sufficient drain: a write of `s` into an empty ring
/// whose usable capacity is at least `s.len()` accepts all of `s`, and a
/// single read with a destination of the same length then returns exactly
/// `s`, in order, leaving the ring empty.  The counts and sequences below
/// are the ones the `ensures` of `write` and `read` give for that pair of
/// calls.
pub proof fn lemma_no_loss_under_sufficient_drain(s: Seq<u32>, capacity: int, dest: Seq<u32>)
    requires
        s.len() <= capacity,
        dest.len() == s.len(),
    ensures
        vstd::math::min(s.len() as int, capacity - Seq::<u32>::empty().len()) == s.len(),
        Seq::<u32>::empty() + s.take(s.len() as int) == s,
        vstd::math::min(dest.len() as int, s.len() as int) == s.len(),
        s.take(s.len() as int) + dest.skip(s.len() as int) == s,
        s.skip(s.len() as int) == Seq::<u32>::empty(),
{
    assert(Seq::<u32>::empty() + s.take(s.len() as int) =~= s);
    assert(s.take(s.len() as int) + dest.skip(s.len() as int) =~= s);
    assert(s.skip(s.len() as int) =~= Seq::<u32>::empty());
}

} // verus!
