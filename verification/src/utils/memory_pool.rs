//! Buffer allocation with counters, and a ring of reusable byte buffers per
//! size class.

use crate::bytes_io::{bytes_mut_capacity, bytes_mut_clear, bytes_mut_new, bytes_mut_view, bytes_mut_with_capacity};
use bytes::BytesMut;
use vstd::prelude::*;

verus! {

pub const CACHE_LINE_SIZE: usize = 64;

pub const DEFAULT_POOL_SIZE: usize = 4096;

pub const SMALL_BUFFER_SIZE: usize = 256;

pub const MEDIUM_BUFFER_SIZE: usize = 2048;

pub const LARGE_BUFFER_SIZE: usize = 65536;

/// Counters of a memory pool; each wraps around at `usize::MAX`.
pub struct PoolStats {
    pub allocated: usize,
    pub freed: usize,
    pub reused: usize,
}

impl Default for PoolStats {
    fn default() -> (s: Self)
        ensures
            s.allocated == 0 && s.freed == 0 && s.reused == 0,
    {
        PoolStats { allocated: 0, freed: 0, reused: 0 }
    }
}

/// Hands out zeroed buffers of any size and counts what it hands out and
/// takes back. The per-class counters are kept for the layout's sake.
pub struct HighPerfMemoryPool {
    small: usize,
    medium: usize,
    large: usize,
    stats: PoolStats,
}

impl HighPerfMemoryPool {
    /// The counts of buffers handed out, taken back and reused.
    pub closed spec fn counts(self) -> (usize, usize, usize) {
        (self.stats.allocated, self.stats.freed, self.stats.reused)
    }

    pub fn new() -> (p: Self)
        ensures
            p.counts() == (0usize, 0usize, 0usize),
            p.counts() == pool_counts_after((0usize, 0usize, 0usize), Seq::empty()),
    {
        HighPerfMemoryPool { small: 0, medium: 0, large: 0, stats: PoolStats::default() }
    }

    /// `size` zero bytes, counted as handed out, whatever the size class.
    pub fn allocate(&mut self, size: usize) -> (v: Vec<u8>)
        requires
            size <= isize::MAX,
        ensures
            v@ == Seq::new(size as nat, |i: int| 0u8),
            final(self).counts() == (old(self).counts().0.wrapping_add(1), old(self).counts().1, old(self).counts().2),
            forall|calls: Seq<bool>|
                old(self).counts() == #[trigger] pool_counts_after((0usize, 0usize, 0usize), calls)
                    ==> final(self).counts() == pool_counts_after((0usize, 0usize, 0usize), calls.push(true)),
    {
        proof {
            assert forall|calls: Seq<bool>| #[trigger] calls.push(true).drop_last() == calls by {
                assert(calls.push(true).drop_last() =~= calls);
            }
        }
        self.stats.allocated = self.stats.allocated.wrapping_add(1);
        let v = vec![0u8; size];
        assert(v@ =~= Seq::new(size as nat, |i: int| 0u8));
        v
    }

    /// Takes a buffer back: it is dropped and counted.
    pub fn free(&mut self, buf: Vec<u8>)
        ensures
            final(self).counts() == (old(self).counts().0, old(self).counts().1.wrapping_add(1), old(self).counts().2),
            forall|calls: Seq<bool>|
                old(self).counts() == #[trigger] pool_counts_after((0usize, 0usize, 0usize), calls)
                    ==> final(self).counts() == pool_counts_after((0usize, 0usize, 0usize), calls.push(false)),
    {
        proof {
            assert forall|calls: Seq<bool>| #[trigger] calls.push(false).drop_last() == calls by {
                assert(calls.push(false).drop_last() =~= calls);
            }
        }
        self.stats.freed = self.stats.freed.wrapping_add(1);
    }

    /// `(handed out, taken back, reused)`.
    pub fn stats(&self) -> (r: (usize, usize, usize))
        ensures
            r == self.counts(),
    {
        (self.stats.allocated, self.stats.freed, self.stats.reused)
    }
}

impl Default for HighPerfMemoryPool {
    fn default() -> (p: Self)
        ensures
            p.counts() == (0usize, 0usize, 0usize),
    {
        Self::new()
    }
}

/// The counts of a `HighPerfMemoryPool` after a run of calls made from counts
/// `c`: `true` is a call of `allocate`, `false` one of `free`.
pub open spec fn pool_counts_after(c: (usize, usize, usize), calls: Seq<bool>) -> (usize, usize, usize)
    decreases calls.len(),
{
    if calls.len() == 0 {
        c
    } else {
        let d = pool_counts_after(c, calls.drop_last());
        if calls.last() {
            (d.0.wrapping_add(1), d.1, d.2)
        } else {
            (d.0, d.1.wrapping_add(1), d.2)
        }
    }
}

/// The number of calls in `calls` that are `want`.
pub open spec fn calls_of(calls: Seq<bool>, want: bool) -> nat
    decreases calls.len(),
{
    if calls.len() == 0 {
        0
    } else {
        calls_of(calls.drop_last(), want) + if calls.last() == want {
            1nat
        } else {
            0nat
        }
    }
}

/// From a new pool, after `n` buffers handed out and `k` taken back in any
/// order, the counts are `(n, k, 0)`, while neither count has wrapped.
pub proof fn lemma_pool_counts(calls: Seq<bool>)
    requires
        calls_of(calls, true) <= usize::MAX,
        calls_of(calls, false) <= usize::MAX,
    ensures
        pool_counts_after((0usize, 0usize, 0usize), calls) == (
            calls_of(calls, true) as usize,
            calls_of(calls, false) as usize,
            0usize,
        ),
    decreases calls.len(),
{
    if calls.len() > 0 {
        lemma_pool_counts(calls.drop_last());
    }
}

/// The number of slots in each size class of a `BytesPool`.
pub const SMALL_SLOTS: usize = 64;

pub const MEDIUM_SLOTS: usize = 32;

pub const LARGE_SLOTS: usize = 16;

/// Rings of buffers, one per size class. Each take moves to the next slot
/// of its ring, hands out the buffer there emptied, and leaves an empty
/// buffer in the slot, which is given fresh room at its next take.
pub struct BytesPool {
    small_buffers: Vec<BytesMut>,
    medium_buffers: Vec<BytesMut>,
    large_buffers: Vec<BytesMut>,
    small_head: usize,
    medium_head: usize,
    large_head: usize,
}

/// `n` buffers, each of `capacity` bytes of room.
fn buffer_ring(n: usize, capacity: usize) -> (v: Vec<BytesMut>)
    requires
        capacity <= isize::MAX,
    ensures
        v@.len() == n,
{
    let mut v: Vec<BytesMut> = Vec::new();
    let mut i: usize = 0;
    while i < n
        invariant
            i <= n,
            v@.len() == i,
            capacity <= isize::MAX,
        decreases n - i,
    {
        v.push(bytes_mut_with_capacity(capacity));
        i = i + 1;
    }
    v
}

/// Takes the buffer of slot `head % ring.len()`, emptied; the slot keeps an
/// empty buffer.
fn take_slot(ring: &mut Vec<BytesMut>, head: usize, capacity: usize) -> (buf: BytesMut)
    requires
        old(ring)@.len() > 0,
        capacity <= isize::MAX,
    ensures
        final(ring)@.len() == old(ring)@.len(),
        bytes_mut_view(buf) == Seq::<u8>::empty(),
{
    let index = head % ring.len();
    let mut buf = bytes_mut_new();
    std::mem::swap(&mut ring[index], &mut buf);
    if bytes_mut_capacity(&buf) == 0 {
        buf = bytes_mut_with_capacity(capacity);
    }
    bytes_mut_clear(&mut buf);
    buf
}

impl BytesPool {
    /// Each ring has its number of slots.
    pub closed spec fn wf(self) -> bool {
        &&& self.small_buffers@.len() == SMALL_SLOTS
        &&& self.medium_buffers@.len() == MEDIUM_SLOTS
        &&& self.large_buffers@.len() == LARGE_SLOTS
    }

    /// The next slot of each ring: `(small, medium, large)`, before reduction.
    pub closed spec fn heads(self) -> (usize, usize, usize) {
        (self.small_head, self.medium_head, self.large_head)
    }

    pub fn new() -> (p: Self)
        ensures
            p.wf(),
            p.heads() == (0usize, 0usize, 0usize),
    {
        BytesPool {
            small_buffers: buffer_ring(SMALL_SLOTS, SMALL_BUFFER_SIZE),
            medium_buffers: buffer_ring(MEDIUM_SLOTS, MEDIUM_BUFFER_SIZE),
            large_buffers: buffer_ring(LARGE_SLOTS, LARGE_BUFFER_SIZE),
            small_head: 0,
            medium_head: 0,
            large_head: 0,
        }
    }

    /// An empty buffer from the small ring.
    pub fn get_small(&mut self) -> (buf: BytesMut)
        requires
            old(self).wf(),
        ensures
            final(self).wf(),
            bytes_mut_view(buf) == Seq::<u8>::empty(),
            final(self).heads() == (old(self).heads().0.wrapping_add(1), old(self).heads().1, old(self).heads().2),
    {
        let head = self.small_head;
        self.small_head = self.small_head.wrapping_add(1);
        take_slot(&mut self.small_buffers, head, SMALL_BUFFER_SIZE)
    }

    /// An empty buffer from the medium ring.
    pub fn get_medium(&mut self) -> (buf: BytesMut)
        requires
            old(self).wf(),
        ensures
            final(self).wf(),
            bytes_mut_view(buf) == Seq::<u8>::empty(),
            final(self).heads() == (old(self).heads().0, old(self).heads().1.wrapping_add(1), old(self).heads().2),
    {
        let head = self.medium_head;
        self.medium_head = self.medium_head.wrapping_add(1);
        take_slot(&mut self.medium_buffers, head, MEDIUM_BUFFER_SIZE)
    }

    /// An empty buffer from the large ring.
    pub fn get_large(&mut self) -> (buf: BytesMut)
        requires
            old(self).wf(),
        ensures
            final(self).wf(),
            bytes_mut_view(buf) == Seq::<u8>::empty(),
            final(self).heads() == (old(self).heads().0, old(self).heads().1, old(self).heads().2.wrapping_add(1)),
    {
        let head = self.large_head;
        self.large_head = self.large_head.wrapping_add(1);
        take_slot(&mut self.large_buffers, head, LARGE_BUFFER_SIZE)
    }

    /// An empty buffer for `size` bytes: from the small ring up to
    /// `SMALL_BUFFER_SIZE`, from the medium ring up to `MEDIUM_BUFFER_SIZE`,
    /// else a fresh one with room for `size`.
    pub fn get_sized(&mut self, size: usize) -> (buf: BytesMut)
        requires
            old(self).wf(),
            size <= isize::MAX,
        ensures
            final(self).wf(),
            bytes_mut_view(buf) == Seq::<u8>::empty(),
            size <= SMALL_BUFFER_SIZE ==> final(self).heads() == (
                old(self).heads().0.wrapping_add(1),
                old(self).heads().1,
                old(self).heads().2,
            ),
            SMALL_BUFFER_SIZE < size <= MEDIUM_BUFFER_SIZE ==> final(self).heads() == (
                old(self).heads().0,
                old(self).heads().1.wrapping_add(1),
                old(self).heads().2,
            ),
            MEDIUM_BUFFER_SIZE < size ==> final(self).heads() == old(self).heads(),
    {
        if size <= SMALL_BUFFER_SIZE {
            self.get_small()
        } else if size <= MEDIUM_BUFFER_SIZE {
            self.get_medium()
        } else {
            bytes_mut_with_capacity(size)
        }
    }
}

impl Default for BytesPool {
    fn default() -> (p: Self)
        ensures
            p.wf(),
            p.heads() == (0usize, 0usize, 0usize),
    {
        Self::new()
    }
}

/// An empty buffer for `size` bytes from the process-wide pool `pool`.
pub fn fast_alloc(pool: &mut BytesPool, size: usize) -> (buf: BytesMut)
    requires
        old(pool).wf(),
        size <= isize::MAX,
    ensures
        final(pool).wf(),
        bytes_mut_view(buf) == Seq::<u8>::empty(),
        size <= SMALL_BUFFER_SIZE ==> final(pool).heads() == (
            old(pool).heads().0.wrapping_add(1),
            old(pool).heads().1,
            old(pool).heads().2,
        ),
        SMALL_BUFFER_SIZE < size <= MEDIUM_BUFFER_SIZE ==> final(pool).heads() == (
            old(pool).heads().0,
            old(pool).heads().1.wrapping_add(1),
            old(pool).heads().2,
        ),
        MEDIUM_BUFFER_SIZE < size ==> final(pool).heads() == old(pool).heads(),
{
    pool.get_sized(size)
}

pub fn fast_alloc_small(pool: &mut BytesPool) -> (buf: BytesMut)
    requires
        old(pool).wf(),
    ensures
        final(pool).wf(),
        bytes_mut_view(buf) == Seq::<u8>::empty(),
        final(pool).heads() == (old(pool).heads().0.wrapping_add(1), old(pool).heads().1, old(pool).heads().2),
{
    pool.get_small()
}

pub fn fast_alloc_medium(pool: &mut BytesPool) -> (buf: BytesMut)
    requires
        old(pool).wf(),
    ensures
        final(pool).wf(),
        bytes_mut_view(buf) == Seq::<u8>::empty(),
        final(pool).heads() == (old(pool).heads().0, old(pool).heads().1.wrapping_add(1), old(pool).heads().2),
{
    pool.get_medium()
}

pub fn fast_alloc_large(pool: &mut BytesPool) -> (buf: BytesMut)
    requires
        old(pool).wf(),
    ensures
        final(pool).wf(),
        bytes_mut_view(buf) == Seq::<u8>::empty(),
        final(pool).heads() == (old(pool).heads().0, old(pool).heads().1, old(pool).heads().2.wrapping_add(1)),
{
    pool.get_large()
}

} // verus!
