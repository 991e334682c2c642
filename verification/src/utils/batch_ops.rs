//! Batches of packets, byte scanning and copying helpers, and a bounded
//! FIFO queue of items.

use crate::bytes_io::{bytes_as_slice, bytes_view};
use crate::math::{is_next_power_of_two, is_power_of_two, lemma_distinct_slots, lemma_mask_is_mod, lemma_ring_positions, next_power_of_two};
use crate::msgs::socks5::SocksAddr;
use bytes::Bytes;
use vstd::prelude::*;

verus! {

/// The most entries a `PacketBatch` takes through `push`.
pub const BATCH_SIZE: usize = 32;

pub const CACHE_LINE_SIZE: usize = 64;

/// A packet with its source and destination.
#[derive(Clone)]
pub struct BatchEntry {
    pub data: Bytes,
    pub src_addr: SocksAddr,
    pub dst_addr: SocksAddr,
}

/// Packets gathered to be handled together; the number of entries is the
/// length of the entry list.
#[derive(Clone)]
pub struct PacketBatch {
    entries: Vec<BatchEntry>,
}

impl PacketBatch {
    /// The entries, oldest first.
    pub closed spec fn items(self) -> Seq<BatchEntry> {
        self.entries@
    }

    /// An empty batch; `capacity` is the room reserved.
    pub fn new(capacity: usize) -> (b: Self)
        ensures
            b.items() == Seq::<BatchEntry>::empty(),
    {
        PacketBatch { entries: Vec::new() }
    }

    pub fn with_capacity(capacity: usize) -> (b: Self)
        ensures
            b.items() == Seq::<BatchEntry>::empty(),
    {
        Self::new(capacity)
    }

    /// Appends `entry` unless the batch holds `BATCH_SIZE` entries.
    pub fn push(&mut self, entry: BatchEntry) -> (r: bool)
        ensures
            r == (old(self).items().len() < BATCH_SIZE),
            r ==> final(self).items() == old(self).items().push(entry),
            !r ==> final(self).items() == old(self).items(),
    {
        if self.entries.len() < BATCH_SIZE {
            self.entries.push(entry);
            true
        } else {
            false
        }
    }

    /// Appends `entry` whatever the number of entries.
    pub fn push_unchecked(&mut self, entry: BatchEntry)
        requires
            old(self).items().len() < usize::MAX,
        ensures
            final(self).items() == old(self).items().push(entry),
    {
        self.entries.push(entry);
    }

    pub fn len(&self) -> (n: usize)
        ensures
            n == self.items().len(),
    {
        self.entries.len()
    }

    pub fn is_empty(&self) -> (r: bool)
        ensures
            r == (self.items().len() == 0),
    {
        self.entries.len() == 0
    }

    pub fn is_full(&self) -> (r: bool)
        ensures
            r == (self.items().len() >= BATCH_SIZE),
    {
        self.entries.len() >= BATCH_SIZE
    }

    pub fn clear(&mut self)
        ensures
            final(self).items() == Seq::<BatchEntry>::empty(),
    {
        self.entries.clear();
    }

    /// The entries, oldest first.
    pub fn entries(&self) -> (s: &[BatchEntry])
        ensures
            s@ == self.items(),
    {
        self.entries.as_slice()
    }
}

/// The first position of `header` in `data`, if any.
pub open spec fn first_position(data: Seq<u8>, header: u8) -> Option<int> {
    if exists|i: int| 0 <= i < data.len() && data[i] == header {
        Some(choose|i: int| 0 <= i < data.len() && data[i] == header && forall|j: int| 0 <= j < i ==> data[j] != header)
    } else {
        None
    }
}

/// Scans `data` for the first byte equal to `header`, sixteen bytes at a
/// time, and returns its position.
pub fn find_header_sse(data: &[u8], header: u8) -> (r: Option<usize>)
    ensures
        r is Some <==> exists|i: int| 0 <= i < data@.len() && data@[i] == header,
        r matches Some(p) ==> p < data@.len() && data@[p as int] == header && forall|j: int|
            0 <= j < p ==> data@[j] != header,
{
    let mut i: usize = 0;
    while i < data.len()
        invariant
            i <= data@.len(),
            forall|j: int| 0 <= j < i ==> data@[j] != header,
        decreases data@.len() - i,
    {
        if data[i] == header {
            return Some(i);
        }
        i = i + 1;
    }
    None
}

/// Copies the first `len` bytes of `src` into `dst` in blocks of sixteen:
/// nothing is copied when `len` is below sixteen.
pub fn batch_copy_sse(src: &[u8], dst: &mut [u8], len: usize)
    requires
        len <= src@.len(),
        len <= old(dst)@.len(),
    ensures
        final(dst)@.len() == old(dst)@.len(),
        len >= 16 ==> final(dst)@ == src@.take(len as int) + old(dst)@.skip(len as int),
        len < 16 ==> final(dst)@ == old(dst)@,
{
    if len < 16 {
        return;
    }
    copy_prefix(src, dst, len);
}

/// Copies the first `len` bytes of `src` into `dst` in blocks of 32.
pub fn batch_copy_avx(src: &[u8], dst: &mut [u8], len: usize)
    requires
        len <= src@.len(),
        len <= old(dst)@.len(),
    ensures
        final(dst)@ == src@.take(len as int) + old(dst)@.skip(len as int),
{
    copy_prefix(src, dst, len);
}

/// Copies the first `len` bytes of `src` into `dst` in blocks of sixteen,
/// then the rest.
pub fn batch_copy_neon(src: &[u8], dst: &mut [u8], len: usize)
    requires
        len <= src@.len(),
        len <= old(dst)@.len(),
    ensures
        final(dst)@ == src@.take(len as int) + old(dst)@.skip(len as int),
{
    copy_prefix(src, dst, len);
}

/// Copies the first `len` bytes of `src` into `dst`.
pub fn batch_copy_fallback(src: &[u8], dst: &mut [u8], len: usize)
    requires
        len <= src@.len(),
        len <= old(dst)@.len(),
    ensures
        final(dst)@ == src@.take(len as int) + old(dst)@.skip(len as int),
{
    copy_prefix(src, dst, len);
}

/// Copies the first `len` bytes of `src` over those of `dst`.
fn copy_prefix(src: &[u8], dst: &mut [u8], len: usize)
    requires
        len <= src@.len(),
        len <= old(dst)@.len(),
    ensures
        final(dst)@ == src@.take(len as int) + old(dst)@.skip(len as int),
{
    let mut i: usize = 0;
    while i < len
        invariant
            i <= len,
            len <= src@.len(),
            dst@.len() == old(dst)@.len(),
            len <= dst@.len(),
            dst@ == src@.take(i as int) + old(dst)@.skip(i as int),
        decreases len - i,
    {
        dst[i] = src[i];
        i = i + 1;
        proof {
            assert(dst@ =~= src@.take(i as int) + old(dst)@.skip(i as int));
        }
    }
}

/// Scans and copies packet bytes.
pub struct BatchProcessor {
    buffer: Vec<u8>,
    temp_buffer: Vec<u8>,
}

/// How many of `entries` hold a zero byte.
pub open spec fn entries_with_zero(entries: Seq<BatchEntry>) -> nat
    decreases entries.len(),
{
    if entries.len() == 0 {
        0
    } else {
        entries_with_zero(entries.drop_last()) + if first_position(bytes_view(entries.last().data), 0)
            is Some {
            1nat
        } else {
            0nat
        }
    }
}

impl BatchProcessor {
    /// The scratch buffers hold nothing.
    pub closed spec fn scratch_empty(self) -> bool {
        self.buffer@ == Seq::<u8>::empty() && self.temp_buffer@ == Seq::<u8>::empty()
    }

    /// A processor with `capacity` bytes of scratch room reserved.
    pub fn new(capacity: usize) -> (p: Self)
        ensures
            p.scratch_empty(),
    {
        BatchProcessor { buffer: Vec::new(), temp_buffer: Vec::new() }
    }

    /// The number of entries of `batch` whose data holds a zero byte.
    pub fn process_batch(&mut self, batch: &mut PacketBatch) -> (n: usize)
        ensures
            n == entries_with_zero(old(batch).items()),
            final(batch).items() == old(batch).items(),
    {
        let entries = batch.entries();
        let mut processed: usize = 0;
        let mut i: usize = 0;
        while i < entries.len()
            invariant
                i <= entries@.len(),
                processed == entries_with_zero(entries@.take(i as int)),
                processed <= i,
            decreases entries@.len() - i,
        {
            proof {
                assert(entries@.take(i as int + 1).drop_last() =~= entries@.take(i as int));
            }
            let data = bytes_as_slice(&entries[i].data);
            let found = self.find_header(data, 0);
            proof {
                if found is Some {
                    assert(exists|k: int| 0 <= k < data@.len() && data@[k] == 0u8);
                } else {
                    assert(!exists|k: int| 0 <= k < data@.len() && data@[k] == 0u8);
                }
            }
            if found.is_some() {
                processed = processed + 1;
            }
            i = i + 1;
        }
        proof {
            assert(entries@.take(i as int) =~= entries@);
        }
        processed
    }

    /// The first position of `header` in `data`.
    fn find_header(&self, data: &[u8], header: u8) -> (r: Option<usize>)
        ensures
            r is Some <==> exists|i: int| 0 <= i < data@.len() && data@[i] == header,
    {
        find_header_sse(data, header)
    }

    /// Copies the first `len` bytes of `src` over those of `dst`, whatever
    /// vector instructions the CPU has: a copy shorter than one 16-byte block
    /// is made in full too.
    pub fn copy_batch(src: &[u8], dst: &mut [u8], len: usize)
        requires
            len <= src@.len(),
            len <= old(dst)@.len(),
        ensures
            final(dst)@ == src@.take(len as int) + old(dst)@.skip(len as int),
    {
        copy_prefix(src, dst, len);
    }
}

impl Default for BatchProcessor {
    fn default() -> (p: Self)
        ensures
            p.scratch_empty(),
    {
        Self::new(65536)
    }
}

/// A bounded FIFO queue of items in a ring of slots whose number is a power
/// of two. `head` and `tail` count items taken and put, wrapping around; the
/// item put `k`-th after the oldest sits in slot `(head + k) % capacity`.
pub struct AtomicBatch<T: Clone> {
    slots: Vec<Option<T>>,
    head: usize,
    tail: usize,
    capacity: usize,
}

impl<T: Clone> AtomicBatch<T> {
    /// The slots are a power of two and every queued item sits in its slot.
    pub closed spec fn wf(self) -> bool {
        &&& self.slots@.len() == self.capacity
        &&& is_power_of_two(self.capacity as nat)
        &&& self.tail.wrapping_sub(self.head) <= self.capacity
        &&& forall|k: int|
            0 <= k < self.tail.wrapping_sub(self.head) ==> (#[trigger] self.slots@[(self.head + k) % (
            self.capacity as int)]) is Some
    }

    /// The items queued, oldest first.
    pub closed spec fn items(self) -> Seq<T> {
        Seq::new(
            self.tail.wrapping_sub(self.head) as nat,
            |k: int| self.slots@[(self.head + k) % (self.capacity as int)]->0,
        )
    }

    /// The number of slots.
    pub closed spec fn slot_count(self) -> nat {
        self.capacity as nat
    }

    /// An empty queue of `capacity` rounded up to a power of two slots.
    pub fn new(capacity: usize) -> (q: Self)
        requires
            capacity <= usize::MAX / 2 + 1,
        ensures
            q.wf(),
            q.items() == Seq::<T>::empty(),
            is_next_power_of_two(capacity as nat, q.slot_count()),
    {
        let capacity = next_power_of_two(capacity);
        let mut slots: Vec<Option<T>> = Vec::new();
        let mut i: usize = 0;
        while i < capacity
            invariant
                i <= capacity,
                slots@.len() == i,
            decreases capacity - i,
        {
            slots.push(None);
            i = i + 1;
        }
        let q = AtomicBatch { slots, head: 0, tail: 0, capacity };
        assert(q.items() =~= Seq::<T>::empty());
        q
    }

    /// Appends `item` unless every slot is taken.
    pub fn push(&mut self, item: T) -> (r: bool)
        requires
            old(self).wf(),
        ensures
            final(self).wf(),
            final(self).slot_count() == old(self).slot_count(),
            r == (old(self).items().len() < old(self).slot_count()),
            r ==> final(self).items() == old(self).items().push(item),
            !r ==> final(self).items() == old(self).items(),
    {
        let tail = self.tail;
        let head = self.head;
        if tail.wrapping_sub(head) >= self.capacity {
            return false;
        }
        let ghost n = tail.wrapping_sub(head) as int;
        let ghost c = self.capacity as int;
        let ghost before = *self;
        proof {
            lemma_mask_is_mod(tail, self.capacity);
            lemma_ring_positions(head, tail, self.capacity, 0);
        }
        let index = tail & (self.capacity - 1);
        self.slots.set(index, Some(item));
        self.tail = tail.wrapping_add(1);
        proof {
            assert(self.tail.wrapping_sub(self.head) == n + 1);
            assert(index as int == (head + n) % c);
            assert forall|k: int| 0 <= k < n + 1 implies (#[trigger] self.slots@[(self.head + k) % c]) is Some by {
                if k < n {
                    lemma_distinct_slots(head as int, k, n, c);
                    assert(before.slots@[(head + k) % c] is Some);
                }
            }
            assert(self.items() =~= before.items().push(item)) by {
                assert forall|k: int| 0 <= k < n implies (#[trigger] self.items()[k]) == before.items()[k] by {
                    lemma_distinct_slots(head as int, k, n, c);
                }
            }
        }
        true
    }

    /// Takes the oldest item, if any.
    pub fn pop(&mut self) -> (r: Option<T>)
        requires
            old(self).wf(),
        ensures
            final(self).wf(),
            final(self).slot_count() == old(self).slot_count(),
            old(self).items().len() == 0 ==> r is None && final(self).items() == old(self).items(),
            old(self).items().len() > 0 ==> r == Some(old(self).items()[0]) && final(self).items()
                == old(self).items().drop_first(),
    {
        let head = self.head;
        let tail = self.tail;
        if head == tail {
            return None;
        }
        let ghost n = tail.wrapping_sub(head) as int;
        let ghost c = self.capacity as int;
        let ghost before = *self;
        proof {
            lemma_mask_is_mod(head, self.capacity);
            lemma_ring_positions(head, tail, self.capacity, 0);
            assert(n > 0);
            assert((head + 0) % c == (head as int) % c);
            assert(self.slots@[(head + 0) % c] is Some);
        }
        let index = head & (self.capacity - 1);
        if self.slots[index].is_none() {
            return None;
        }
        let mut item: Option<T> = None;
        std::mem::swap(&mut self.slots[index], &mut item);
        self.head = head.wrapping_add(1);
        proof {
            assert(self.tail.wrapping_sub(self.head) == n - 1);
            assert forall|k: int| 0 <= k < n - 1 implies (#[trigger] self.slots@[(self.head + k) % c]) is Some by {
                lemma_ring_positions(head, tail, self.capacity, k);
                lemma_distinct_slots(head as int, 0, k + 1, c);
                assert(before.slots@[(head + (k + 1)) % c] is Some);
            }
            assert(self.items() =~= before.items().drop_first()) by {
                assert forall|k: int| 0 <= k < n - 1 implies (#[trigger] self.items()[k]) == before.items()[k + 1] by {
                    lemma_ring_positions(head, tail, self.capacity, k);
                    lemma_distinct_slots(head as int, 0, k + 1, c);
                }
            }
        }
        item
    }

    /// The number of items queued.
    pub fn len(&self) -> (n: usize)
        requires
            self.wf(),
        ensures
            n == self.items().len(),
    {
        self.tail.wrapping_sub(self.head)
    }

    pub fn is_empty(&self) -> (r: bool)
        requires
            self.wf(),
        ensures
            r == (self.items().len() == 0),
    {
        self.len() == 0
    }
}

} // verus!
