//! Ring buffers of packets.
//!
//! Every ring finds a slot by masking its counters with `RING_MASK`, whatever
//! its own number of slots: a ring of fewer than `RING_SIZE` slots can only
//! be used while the masked counters stay below its number of slots, and a
//! ring of more uses only its first `RING_SIZE` slots.

use crate::bytes_io::{bytes_new, bytes_view};
use crate::math::{is_next_power_of_two, lemma_mask_below, next_power_of_two};
use crate::msgs::socks5::{AddrOrDomain, SocksAddr, SpecAddr, SpecSocksAddr};
use crate::msgs::WireModel;
use bytes::Bytes;
use vstd::prelude::*;

verus! {

pub const RING_SIZE: usize = 4096;

pub const RING_MASK: usize = 4095;

/// A packet with its source and destination.
#[derive(Clone)]
pub struct RingEntry {
    pub data: Bytes,
    pub src_addr: SocksAddr,
    pub dst_addr: SocksAddr,
}

/// `a` and `b` are the same packet between the same addresses.
pub open spec fn same_entry(a: RingEntry, b: RingEntry) -> bool {
    &&& bytes_view(a.data) == bytes_view(b.data)
    &&& a.src_addr.model() == b.src_addr.model()
    &&& a.dst_addr.model() == b.dst_addr.model()
}

/// The unspecified address `0.0.0.0:0`.
pub fn unspecified_addr() -> (a: SocksAddr)
    ensures
        a.model() == (SpecSocksAddr { addr: SpecAddr::V4(seq![0u8, 0u8, 0u8, 0u8]), port: 0 }),
{
    let a = SocksAddr { addr: AddrOrDomain::V4([0u8, 0u8, 0u8, 0u8]), port: 0 };
    assert(a.model().addr == SpecAddr::V4(seq![0u8, 0u8, 0u8, 0u8]));
    a
}

impl RingEntry {
    /// An empty packet between unspecified addresses.
    pub fn placeholder() -> (e: Self)
        ensures
            bytes_view(e.data) == Seq::<u8>::empty(),
    {
        RingEntry { data: bytes_new(), src_addr: unspecified_addr(), dst_addr: unspecified_addr() }
    }

    /// A copy of the same packet.
    pub fn duplicate(&self) -> (r: Self)
        ensures
            same_entry(r, *self),
    {
        RingEntry {
            data: self.data.clone(),
            src_addr: self.src_addr.duplicate(),
            dst_addr: self.dst_addr.duplicate(),
        }
    }
}

/// Counters of a ring; each wraps around at `usize::MAX`.
#[derive(Clone, Copy, Debug, Default)]
pub struct RingStats {
    pub pushed: usize,
    pub popped: usize,
    pub overflows: usize,
    pub underflows: usize,
}

/// The slot of a counter.
pub open spec fn ring_slot(x: usize) -> int {
    (x & RING_MASK) as int
}

/// The number of entries between `head` and `tail`, as the rings count it.
pub open spec fn ring_len(head: usize, tail: usize) -> usize {
    tail.wrapping_sub(head) & RING_MASK
}

/// A ring that keeps every slot filled; taking an entry copies it out.
pub struct LockFreeRingBuffer {
    buffer: Vec<RingEntry>,
    head: usize,
    tail: usize,
    capacity: usize,
    stats: RingStats,
}

impl LockFreeRingBuffer {
    pub closed spec fn slots(self) -> Seq<RingEntry> {
        self.buffer@
    }

    pub closed spec fn head(self) -> usize {
        self.head
    }

    pub closed spec fn tail(self) -> usize {
        self.tail
    }

    pub closed spec fn cap(self) -> usize {
        self.capacity
    }

    pub closed spec fn counters(self) -> RingStats {
        self.stats
    }

    /// The slots number the capacity, which is at least one.
    pub closed spec fn wf(self) -> bool {
        self.buffer@.len() == self.capacity && self.capacity >= 1
    }

    /// A well-formed ring has a slot for each unit of its capacity.
    pub proof fn lemma_slots_match_capacity(self)
        requires
            self.wf(),
        ensures
            self.slots().len() == self.cap(),
            self.cap() >= 1,
    {
    }

    /// A push would overflow.
    pub open spec fn push_overflows(self) -> bool {
        ring_len(self.head(), self.tail()) >= self.cap() - 1
    }

    /// A push can reach its slot.
    pub open spec fn push_fits(self) -> bool {
        self.push_overflows() || ring_slot(self.tail()) < self.cap()
    }

    /// A pop can reach its slot.
    pub open spec fn pop_fits(self) -> bool {
        self.head() == self.tail() || ring_slot(self.head()) < self.cap()
    }

    /// `capacity` rounded up to a power of two slots, each an empty packet.
    pub fn new(capacity: usize) -> (r: Self)
        requires
            capacity <= usize::MAX / 2 + 1,
        ensures
            r.wf(),
            is_next_power_of_two(capacity as nat, r.cap() as nat),
            r.head() == 0,
            r.tail() == 0,
            r.counters() == (RingStats { pushed: 0, popped: 0, overflows: 0, underflows: 0 }),
            forall|i: int| 0 <= i < r.slots().len() ==> bytes_view(#[trigger] r.slots()[i].data) == Seq::<
                u8,
            >::empty(),
    {
        let capacity = next_power_of_two(capacity);
        let mut buffer: Vec<RingEntry> = Vec::new();
        let mut i: usize = 0;
        while i < capacity
            invariant
                i <= capacity,
                buffer@.len() == i,
                forall|j: int| 0 <= j < i ==> bytes_view(#[trigger] buffer@[j].data) == Seq::<u8>::empty(),
            decreases capacity - i,
        {
            buffer.push(RingEntry::placeholder());
            i = i + 1;
        }
        LockFreeRingBuffer {
            buffer,
            head: 0,
            tail: 0,
            capacity,
            stats: RingStats { pushed: 0, popped: 0, overflows: 0, underflows: 0 },
        }
    }

    /// Stores `entry` in the slot of the tail and moves the tail on, unless
    /// the ring counts `capacity - 1` entries, which is an overflow.
    pub fn push(&mut self, entry: RingEntry) -> (r: bool)
        requires
            old(self).wf(),
            old(self).push_fits(),
        ensures
            final(self).wf(),
            final(self).cap() == old(self).cap(),
            final(self).head() == old(self).head(),
            r == !old(self).push_overflows(),
            !r ==> final(self).slots() == old(self).slots() && final(self).tail() == old(self).tail()
                && final(self).counters() == (RingStats {
                overflows: old(self).counters().overflows.wrapping_add(1),
                ..old(self).counters()
            }),
            r ==> final(self).slots() == old(self).slots().update(ring_slot(old(self).tail()), entry)
                && final(self).tail() == old(self).tail().wrapping_add(1) && final(self).counters() == (
            RingStats { pushed: old(self).counters().pushed.wrapping_add(1), ..old(self).counters() }),
    {
        let tail = self.tail;
        let head = self.head;
        if (tail.wrapping_sub(head) & RING_MASK) >= self.capacity - 1 {
            self.stats.overflows = self.stats.overflows.wrapping_add(1);
            return false;
        }
        self.buffer.set(tail & RING_MASK, entry);
        self.tail = tail.wrapping_add(1);
        self.stats.pushed = self.stats.pushed.wrapping_add(1);
        true
    }

    /// A copy of the entry in the slot of the head, moving the head on, or
    /// `None` when head and tail meet, which is an underflow.
    pub fn pop(&mut self) -> (r: Option<RingEntry>)
        requires
            old(self).wf(),
            old(self).pop_fits(),
        ensures
            final(self).wf(),
            final(self).cap() == old(self).cap(),
            final(self).slots() == old(self).slots(),
            final(self).tail() == old(self).tail(),
            old(self).head() == old(self).tail() ==> r is None && final(self).head() == old(self).head()
                && final(self).counters() == (RingStats {
                underflows: old(self).counters().underflows.wrapping_add(1),
                ..old(self).counters()
            }),
            old(self).head() != old(self).tail() ==> r is Some && same_entry(
                r->0,
                old(self).slots()[ring_slot(old(self).head())],
            ) && final(self).head() == old(self).head().wrapping_add(1) && final(self).counters() == (
            RingStats { popped: old(self).counters().popped.wrapping_add(1), ..old(self).counters() }),
    {
        let head = self.head;
        let tail = self.tail;
        if head == tail {
            self.stats.underflows = self.stats.underflows.wrapping_add(1);
            return None;
        }
        let entry = self.buffer[head & RING_MASK].duplicate();
        self.head = head.wrapping_add(1);
        self.stats.popped = self.stats.popped.wrapping_add(1);
        Some(entry)
    }

    /// The same as `push`.
    pub fn try_push(&mut self, entry: RingEntry) -> (r: bool)
        requires
            old(self).wf(),
            old(self).push_fits(),
        ensures
            final(self).wf(),
            r == !old(self).push_overflows(),
            r ==> final(self).slots() == old(self).slots().update(ring_slot(old(self).tail()), entry)
                && final(self).tail() == old(self).tail().wrapping_add(1),
            final(self).head() == old(self).head(),
    {
        self.push(entry)
    }

    /// The same as `pop`.
    pub fn try_pop(&mut self) -> (r: Option<RingEntry>)
        requires
            old(self).wf(),
            old(self).pop_fits(),
        ensures
            final(self).wf(),
            r is Some <==> old(self).head() != old(self).tail(),
            r matches Some(e) ==> same_entry(e, old(self).slots()[ring_slot(old(self).head())]),
    {
        self.pop()
    }

    /// The number of entries, counted modulo `RING_SIZE`.
    pub fn len(&self) -> (n: usize)
        ensures
            n == ring_len(self.head(), self.tail()),
    {
        self.tail.wrapping_sub(self.head) & RING_MASK
    }

    pub fn is_empty(&self) -> (r: bool)
        ensures
            r == (ring_len(self.head(), self.tail()) == 0),
    {
        self.len() == 0
    }

    pub fn is_full(&self) -> (r: bool)
        requires
            self.wf(),
        ensures
            r == self.push_overflows(),
    {
        self.len() >= self.capacity - 1
    }

    pub fn capacity(&self) -> (c: usize)
        ensures
            c == self.cap(),
    {
        self.capacity
    }

    pub fn stats(&self) -> (s: RingStats)
        ensures
            s == self.counters(),
    {
        self.stats
    }

    /// Moves head and tail back to zero; the slots keep their entries.
    pub fn clear(&mut self)
        ensures
            final(self).head() == 0,
            final(self).tail() == 0,
            final(self).slots() == old(self).slots(),
            final(self).cap() == old(self).cap(),
            final(self).counters() == old(self).counters(),
            old(self).wf() ==> final(self).wf(),
    {
        self.head = 0;
        self.tail = 0;
    }
}

/// A ring of at least `RING_SIZE` slots reaches every slot it masks to.
pub proof fn lemma_large_ring_fits(x: usize, cap: usize)
    requires
        cap >= RING_SIZE,
    ensures
        ring_slot(x) < cap,
{
    lemma_mask_below(x, RING_MASK);
}

/// A ring that leaves a slot empty when its entry is taken, for several
/// producers and one consumer.
pub struct MpscRingBuffer {
    buffer: Vec<Option<RingEntry>>,
    head: usize,
    tail: usize,
    capacity: usize,
}

/// A ring that leaves a slot empty when its entry is taken, for one producer
/// and one consumer; it refuses a push once `capacity` entries wait.
pub struct SpscRingBuffer {
    buffer: Vec<Option<RingEntry>>,
    read_idx: usize,
    write_idx: usize,
    capacity: usize,
}

/// `n` empty slots.
fn empty_slots(n: usize) -> (v: Vec<Option<RingEntry>>)
    ensures
        v@.len() == n,
        forall|i: int| 0 <= i < n ==> (#[trigger] v@[i]) is None,
{
    let mut v: Vec<Option<RingEntry>> = Vec::new();
    let mut i: usize = 0;
    while i < n
        invariant
            i <= n,
            v@.len() == i,
            forall|j: int| 0 <= j < i ==> (#[trigger] v@[j]) is None,
        decreases n - i,
    {
        v.push(None);
        i = i + 1;
    }
    v
}

/// Takes the entry out of slot `index`, leaving it empty.
fn take_slot(buffer: &mut Vec<Option<RingEntry>>, index: usize) -> (r: Option<RingEntry>)
    requires
        index < old(buffer)@.len(),
    ensures
        r == old(buffer)@[index as int],
        final(buffer)@ == old(buffer)@.update(index as int, None),
{
    let mut r: Option<RingEntry> = None;
    std::mem::swap(&mut buffer[index], &mut r);
    r
}

impl MpscRingBuffer {
    pub closed spec fn slots(self) -> Seq<Option<RingEntry>> {
        self.buffer@
    }

    pub closed spec fn head(self) -> usize {
        self.head
    }

    pub closed spec fn tail(self) -> usize {
        self.tail
    }

    pub closed spec fn cap(self) -> usize {
        self.capacity
    }

    pub closed spec fn wf(self) -> bool {
        self.buffer@.len() == self.capacity
    }

    /// A push would overflow.
    pub open spec fn push_overflows(self) -> bool {
        ring_len(self.head(), self.tail().wrapping_add(1)) >= self.cap()
    }

    /// `capacity` rounded up to a power of two empty slots.
    pub fn new(capacity: usize) -> (r: Self)
        requires
            capacity <= usize::MAX / 2 + 1,
        ensures
            r.wf(),
            is_next_power_of_two(capacity as nat, r.cap() as nat),
            r.head() == 0,
            r.tail() == 0,
            forall|i: int| 0 <= i < r.slots().len() ==> (#[trigger] r.slots()[i]) is None,
    {
        let capacity = next_power_of_two(capacity);
        MpscRingBuffer { buffer: empty_slots(capacity), head: 0, tail: 0, capacity }
    }

    /// Stores `entry` in the slot of the tail and moves the tail on, unless
    /// the ring would then count `capacity` entries.
    pub fn push(&mut self, entry: RingEntry) -> (r: bool)
        requires
            old(self).wf(),
            old(self).push_overflows() || ring_slot(old(self).tail()) < old(self).cap(),
        ensures
            final(self).wf(),
            final(self).cap() == old(self).cap(),
            final(self).head() == old(self).head(),
            r == !old(self).push_overflows(),
            !r ==> final(self).slots() == old(self).slots() && final(self).tail() == old(self).tail(),
            r ==> final(self).slots() == old(self).slots().update(ring_slot(old(self).tail()), Some(entry))
                && final(self).tail() == old(self).tail().wrapping_add(1),
    {
        let tail = self.tail;
        let next = tail.wrapping_add(1);
        let head = self.head;
        if next.wrapping_sub(head) & RING_MASK >= self.capacity {
            return false;
        }
        self.tail = next;
        self.buffer.set(tail & RING_MASK, Some(entry));
        true
    }

    /// Takes the entry out of the slot of the head and moves the head on, or
    /// `None` when head and tail meet.
    pub fn pop(&mut self) -> (r: Option<RingEntry>)
        requires
            old(self).wf(),
            old(self).head() == old(self).tail() || ring_slot(old(self).head()) < old(self).cap(),
        ensures
            final(self).wf(),
            final(self).cap() == old(self).cap(),
            final(self).tail() == old(self).tail(),
            old(self).head() == old(self).tail() ==> r is None && final(self).head() == old(self).head()
                && final(self).slots() == old(self).slots(),
            old(self).head() != old(self).tail() ==> r == old(self).slots()[ring_slot(old(self).head())]
                && final(self).slots() == old(self).slots().update(ring_slot(old(self).head()), None)
                && final(self).head() == old(self).head().wrapping_add(1),
    {
        let head = self.head;
        let tail = self.tail;
        if head == tail {
            return None;
        }
        let entry = take_slot(&mut self.buffer, head & RING_MASK);
        self.head = head.wrapping_add(1);
        entry
    }

    pub fn len(&self) -> (n: usize)
        ensures
            n == ring_len(self.head(), self.tail()),
    {
        self.tail.wrapping_sub(self.head) & RING_MASK
    }

    pub fn is_empty(&self) -> (r: bool)
        ensures
            r == (ring_len(self.head(), self.tail()) == 0),
    {
        self.len() == 0
    }

    pub fn capacity(&self) -> (c: usize)
        ensures
            c == self.cap(),
    {
        self.capacity
    }
}

impl SpscRingBuffer {
    pub closed spec fn slots(self) -> Seq<Option<RingEntry>> {
        self.buffer@
    }

    pub closed spec fn read_index(self) -> usize {
        self.read_idx
    }

    pub closed spec fn write_index(self) -> usize {
        self.write_idx
    }

    pub closed spec fn cap(self) -> usize {
        self.capacity
    }

    pub closed spec fn wf(self) -> bool {
        self.buffer@.len() == self.capacity
    }

    /// A push would overflow: `capacity` entries wait.
    pub open spec fn push_overflows(self) -> bool {
        self.write_index().wrapping_sub(self.read_index()) >= self.cap()
    }

    /// `capacity` rounded up to a power of two empty slots.
    pub fn new(capacity: usize) -> (r: Self)
        requires
            capacity <= usize::MAX / 2 + 1,
        ensures
            r.wf(),
            is_next_power_of_two(capacity as nat, r.cap() as nat),
            r.read_index() == 0,
            r.write_index() == 0,
            forall|i: int| 0 <= i < r.slots().len() ==> (#[trigger] r.slots()[i]) is None,
    {
        let capacity = next_power_of_two(capacity);
        SpscRingBuffer { buffer: empty_slots(capacity), read_idx: 0, write_idx: 0, capacity }
    }

    /// Stores `entry` in the slot of the write index and moves it on, unless
    /// `capacity` entries wait.
    pub fn push(&mut self, entry: RingEntry) -> (r: bool)
        requires
            old(self).wf(),
            old(self).push_overflows() || ring_slot(old(self).write_index()) < old(self).cap(),
        ensures
            final(self).wf(),
            final(self).cap() == old(self).cap(),
            final(self).read_index() == old(self).read_index(),
            r == !old(self).push_overflows(),
            !r ==> final(self).slots() == old(self).slots() && final(self).write_index()
                == old(self).write_index(),
            r ==> final(self).slots() == old(self).slots().update(
                ring_slot(old(self).write_index()),
                Some(entry),
            ) && final(self).write_index() == old(self).write_index().wrapping_add(1),
    {
        let write = self.write_idx;
        let read = self.read_idx;
        if write.wrapping_sub(read) >= self.capacity {
            return false;
        }
        self.buffer.set(write & RING_MASK, Some(entry));
        self.write_idx = write.wrapping_add(1);
        true
    }

    /// Takes the entry out of the slot of the read index and moves it on, or
    /// `None` when the indices meet.
    pub fn pop(&mut self) -> (r: Option<RingEntry>)
        requires
            old(self).wf(),
            old(self).read_index() == old(self).write_index() || ring_slot(old(self).read_index())
                < old(self).cap(),
        ensures
            final(self).wf(),
            final(self).cap() == old(self).cap(),
            final(self).write_index() == old(self).write_index(),
            old(self).read_index() == old(self).write_index() ==> r is None && final(self).read_index()
                == old(self).read_index() && final(self).slots() == old(self).slots(),
            old(self).read_index() != old(self).write_index() ==> r == old(self).slots()[ring_slot(
                old(self).read_index(),
            )] && final(self).slots() == old(self).slots().update(ring_slot(old(self).read_index()), None)
                && final(self).read_index() == old(self).read_index().wrapping_add(1),
    {
        let read = self.read_idx;
        let write = self.write_idx;
        if read == write {
            return None;
        }
        let entry = take_slot(&mut self.buffer, read & RING_MASK);
        self.read_idx = read.wrapping_add(1);
        entry
    }

    pub fn len(&self) -> (n: usize)
        ensures
            n == ring_len(self.read_index(), self.write_index()),
    {
        self.write_idx.wrapping_sub(self.read_idx) & RING_MASK
    }

    pub fn is_empty(&self) -> (r: bool)
        ensures
            r == (ring_len(self.read_index(), self.write_index()) == 0),
    {
        self.len() == 0
    }

    pub fn capacity(&self) -> (c: usize)
        ensures
            c == self.cap(),
    {
        self.capacity
    }
}

/// A `LockFreeRingBuffer` filled and drained in batches; the batches reach
/// every slot they mask to when the ring has at least `RING_SIZE` slots.
pub struct BatchRingBuffer {
    ring: LockFreeRingBuffer,
    batch_size: usize,
}

impl BatchRingBuffer {
    pub closed spec fn inner(self) -> LockFreeRingBuffer {
        self.ring
    }

    pub closed spec fn batch(self) -> usize {
        self.batch_size
    }

    /// A ring of `capacity` slots, rounded up to a power of two.
    pub fn new(capacity: usize, batch_size: usize) -> (b: Self)
        requires
            capacity <= usize::MAX / 2 + 1,
        ensures
            b.inner().wf(),
            is_next_power_of_two(capacity as nat, b.inner().cap() as nat),
            b.inner().head() == b.inner().tail(),
            b.batch() == batch_size,
    {
        let ring = LockFreeRingBuffer::new(capacity);
        BatchRingBuffer { ring, batch_size }
    }

    /// Pushes `entries` in order until one does not fit; returns how many went in.
    pub fn push_batch(&mut self, entries: Vec<RingEntry>) -> (n: usize)
        requires
            old(self).inner().wf(),
            old(self).inner().cap() >= RING_SIZE,
        ensures
            final(self).inner().wf(),
            final(self).inner().cap() == old(self).inner().cap(),
            final(self).inner().head() == old(self).inner().head(),
            n <= entries@.len(),
            n < entries@.len() ==> final(self).inner().push_overflows(),
    {
        let mut pushed: usize = 0;
        let mut i: usize = 0;
        let ghost cap = self.ring.cap();
        let ghost head = self.ring.head();
        while i < entries.len()
            invariant
                i <= entries@.len(),
                pushed == i,
                self.ring.wf(),
                self.ring.cap() == cap,
                cap >= RING_SIZE,
                self.ring.head() == head,
            ensures
                pushed <= entries@.len(),
                self.ring.wf(),
                self.ring.cap() == cap,
                self.ring.head() == head,
                pushed < entries@.len() ==> self.ring.push_overflows(),
            decreases entries@.len() - i,
        {
            proof {
                lemma_large_ring_fits(self.ring.tail(), cap);
            }
            let entry = entries[i].duplicate();
            if self.ring.push(entry) {
                pushed = pushed + 1;
            } else {
                break;
            }
            i = i + 1;
        }
        pushed
    }

    /// Pops up to `batch_size` entries, oldest first, stopping when the ring
    /// runs empty.
    pub fn pop_batch(&mut self) -> (batch: Vec<RingEntry>)
        requires
            old(self).inner().wf(),
            old(self).inner().cap() >= RING_SIZE,
        ensures
            final(self).inner().wf(),
            final(self).inner().cap() == old(self).inner().cap(),
            final(self).inner().tail() == old(self).inner().tail(),
            batch@.len() <= old(self).batch(),
            batch@.len() < old(self).batch() ==> final(self).inner().head() == final(self).inner().tail(),
    {
        let mut batch: Vec<RingEntry> = Vec::new();
        let mut i: usize = 0;
        let ghost cap = self.ring.cap();
        let ghost tail = self.ring.tail();
        while i < self.batch_size
            invariant
                i <= self.batch_size,
                batch@.len() == i,
                self.ring.wf(),
                self.ring.cap() == cap,
                cap >= RING_SIZE,
                self.ring.tail() == tail,
                self.batch_size == old(self).batch_size,
            ensures
                batch@.len() <= self.batch_size,
                self.ring.wf(),
                self.ring.cap() == cap,
                self.ring.tail() == tail,
                batch@.len() < self.batch_size ==> self.ring.head() == self.ring.tail(),
            decreases self.batch_size - i,
        {
            proof {
                lemma_large_ring_fits(self.ring.head(), cap);
            }
            match self.ring.pop() {
                Some(entry) => {
                    batch.push(entry);
                },
                None => {
                    break;
                },
            }
            i = i + 1;
        }
        batch
    }

    pub fn len(&self) -> (n: usize)
        ensures
            n == ring_len(self.inner().head(), self.inner().tail()),
    {
        self.ring.len()
    }

    pub fn is_empty(&self) -> (r: bool)
        ensures
            r == (ring_len(self.inner().head(), self.inner().tail()) == 0),
    {
        self.ring.is_empty()
    }
}

/// Packets from one source, up to a capacity.
pub struct PacketBatch {
    packets: Vec<RingEntry>,
    capacity: usize,
    src_addr: SocksAddr,
}

impl PacketBatch {
    pub closed spec fn items(self) -> Seq<RingEntry> {
        self.packets@
    }

    pub closed spec fn limit(self) -> usize {
        self.capacity
    }

    /// The source of the packets, once there is one.
    pub closed spec fn source(self) -> SocksAddr {
        self.src_addr
    }

    pub fn new(capacity: usize) -> (b: Self)
        ensures
            b.items() == Seq::<RingEntry>::empty(),
            b.limit() == capacity,
    {
        PacketBatch { packets: Vec::new(), capacity, src_addr: unspecified_addr() }
    }

    /// Appends `entry` when it comes from the batch's source (any source for
    /// an empty batch, which takes it as its own) and there is room.
    pub fn push(&mut self, entry: RingEntry) -> (r: bool)
        ensures
            final(self).limit() == old(self).limit(),
            old(self).items().len() == 0 ==> final(self).source().model() == entry.src_addr.model(),
            old(self).items().len() > 0 ==> final(self).source() == old(self).source(),
            r == ((old(self).items().len() == 0 || entry.src_addr.model() == old(self).source().model())
                && old(self).items().len() < old(self).limit()),
            r ==> final(self).items() == old(self).items().push(entry),
            !r ==> final(self).items() == old(self).items(),
    {
        if self.packets.len() == 0 {
            self.src_addr = entry.src_addr.duplicate();
        }
        if !entry.src_addr.same_addr(&self.src_addr) && self.packets.len() != 0 {
            return false;
        }
        if self.packets.len() < self.capacity {
            self.packets.push(entry);
            true
        } else {
            false
        }
    }

    pub fn packets(&self) -> (s: &[RingEntry])
        ensures
            s@ == self.items(),
    {
        self.packets.as_slice()
    }

    pub fn clear(&mut self)
        ensures
            final(self).items() == Seq::<RingEntry>::empty(),
            final(self).limit() == old(self).limit(),
            final(self).source() == old(self).source(),
    {
        self.packets.clear();
    }

    pub fn len(&self) -> (n: usize)
        ensures
            n == self.items().len(),
    {
        self.packets.len()
    }

    pub fn is_empty(&self) -> (r: bool)
        ensures
            r == (self.items().len() == 0),
    {
        self.packets.len() == 0
    }

    pub fn capacity(&self) -> (c: usize)
        ensures
            c == self.limit(),
    {
        self.capacity
    }

    pub fn src_addr(&self) -> (a: SocksAddr)
        ensures
            a.model() == self.source().model(),
    {
        self.src_addr.duplicate()
    }
}

} // verus!
