//! A pool of byte buffers of a fixed size that are handed out and taken back.

use crate::bytes_io::{bytes_mut_capacity, bytes_mut_clear, bytes_mut_view, bytes_mut_with_capacity};
use crate::seg_queue::{buffer_queue_new, buffer_queue_pop, buffer_queue_push, seg_queue_buffers};
use bytes::BytesMut;
use crossbeam::queue::SegQueue;
use vstd::prelude::*;

verus! {

pub const DEFAULT_POOL_SIZE: usize = 1024;

/// The capacity of a pooled buffer; smaller buffers are not taken back.
pub const BUFFER_SIZE: usize = 2048;

/// What a pool holds: its queued buffers (by their bytes, oldest first), the
/// capacity it was made with, and its counts of fresh and reused buffers.
pub struct BufferPoolState {
    pub queued: Seq<Seq<u8>>,
    pub capacity: usize,
    pub allocated: usize,
    pub reused: usize,
}

/// `n` empty buffers.
pub open spec fn empty_buffers(n: nat) -> Seq<Seq<u8>> {
    Seq::new(n, |i: int| Seq::<u8>::empty())
}

pub struct BufferPool {
    queue: SegQueue<BytesMut>,
    capacity: usize,
    total_allocated: usize,
    total_reused: usize,
}

impl View for BufferPool {
    type V = BufferPoolState;

    closed spec fn view(&self) -> BufferPoolState {
        BufferPoolState {
            queued: seg_queue_buffers(self.queue),
            capacity: self.capacity,
            allocated: self.total_allocated,
            reused: self.total_reused,
        }
    }
}

impl BufferPool {
    /// A pool warmed up with `capacity / 4` empty buffers.
    pub fn new(capacity: usize) -> (p: Self)
        ensures
            p@ == (BufferPoolState {
                queued: empty_buffers((capacity / 4) as nat),
                capacity,
                allocated: 0,
                reused: 0,
            }),
    {
        let mut pool = BufferPool {
            queue: buffer_queue_new(),
            capacity,
            total_allocated: 0,
            total_reused: 0,
        };
        pool.warm_up();
        pool
    }

    /// Queues `capacity / 4` fresh buffers.
    fn warm_up(&mut self)
        ensures
            final(self)@ == (BufferPoolState {
                queued: old(self)@.queued + empty_buffers((old(self)@.capacity / 4) as nat),
                ..old(self)@
            }),
    {
        let n = self.capacity / 4;
        let ghost start = self@.queued;
        let mut i: usize = 0;
        while i < n
            invariant
                i <= n,
                n == self.capacity / 4,
                self@ == (BufferPoolState { queued: start + empty_buffers(i as nat), ..old(self)@ }),
            decreases n - i,
        {
            let buf = bytes_mut_with_capacity(BUFFER_SIZE);
            buffer_queue_push(&mut self.queue, buf);
            proof {
                assert(start + empty_buffers((i + 1) as nat) =~= (start + empty_buffers(i as nat)).push(
                    Seq::<u8>::empty(),
                ));
            }
            i = i + 1;
        }
    }

    /// The oldest queued buffer, else a fresh one, which is counted.
    pub fn allocate(&mut self) -> (buf: BytesMut)
        ensures
            old(self)@.queued.len() > 0 ==> bytes_mut_view(buf) == old(self)@.queued[0] && final(self)@
                == (BufferPoolState { queued: old(self)@.queued.skip(1), ..old(self)@ }),
            old(self)@.queued.len() == 0 ==> bytes_mut_view(buf) == Seq::<u8>::empty() && final(self)@
                == (BufferPoolState { allocated: old(self)@.allocated.wrapping_add(1), ..old(self)@ }),
    {
        match buffer_queue_pop(&mut self.queue) {
            Some(buf) => buf,
            None => {
                self.total_allocated = self.total_allocated.wrapping_add(1);
                bytes_mut_with_capacity(BUFFER_SIZE)
            },
        }
    }

    /// The oldest queued buffer, counted as reused, or `None` when none is queued.
    pub fn try_alloc(&mut self) -> (r: Option<BytesMut>)
        ensures
            old(self)@.queued.len() > 0 ==> r is Some && bytes_mut_view(r->0) == old(self)@.queued[0]
                && final(self)@ == (BufferPoolState {
                queued: old(self)@.queued.skip(1),
                reused: old(self)@.reused.wrapping_add(1),
                ..old(self)@
            }),
            old(self)@.queued.len() == 0 ==> r is None && final(self)@ == old(self)@,
    {
        match buffer_queue_pop(&mut self.queue) {
            Some(buf) => {
                self.total_reused = self.total_reused.wrapping_add(1);
                Some(buf)
            },
            None => None,
        }
    }

    /// Takes `buf` back, emptied, when its capacity is at least `BUFFER_SIZE`;
    /// else drops it.
    pub fn free(&mut self, buf: BytesMut)
        ensures
            final(self)@ == old(self)@ || final(self)@ == (BufferPoolState {
                queued: old(self)@.queued.push(Seq::<u8>::empty()),
                ..old(self)@
            }),
    {
        let capacity = bytes_mut_capacity(&buf);
        self.recycle(buf, capacity);
    }

    /// What `free` does once the capacity of `buf` is known.
    pub fn recycle(&mut self, buf: BytesMut, capacity: usize)
        ensures
            capacity >= BUFFER_SIZE ==> final(self)@ == (BufferPoolState {
                queued: old(self)@.queued.push(Seq::<u8>::empty()),
                ..old(self)@
            }),
            capacity < BUFFER_SIZE ==> final(self)@ == old(self)@,
    {
        if capacity >= BUFFER_SIZE {
            let mut buf = buf;
            bytes_mut_clear(&mut buf);
            buffer_queue_push(&mut self.queue, buf);
        }
    }

    /// `(fresh + reused, fresh, reused)`.
    pub fn stats(&self) -> (r: (usize, usize, usize))
        requires
            self@.allocated + self@.reused <= usize::MAX,
        ensures
            r == (((self@.allocated + self@.reused) as usize, self@.allocated, self@.reused)),
    {
        let allocated = self.total_allocated;
        let reused = self.total_reused;
        (allocated + reused, allocated, reused)
    }
}

impl Default for BufferPool {
    fn default() -> (p: Self)
        ensures
            p@ == (BufferPoolState {
                queued: empty_buffers((DEFAULT_POOL_SIZE / 4) as nat),
                capacity: DEFAULT_POOL_SIZE,
                allocated: 0,
                reused: 0,
            }),
    {
        Self::new(DEFAULT_POOL_SIZE)
    }
}

/// A buffer handed back to a pool with nothing queued is the next one
/// handed out, and comes out empty.
pub proof fn lemma_recycled_buffer_reused(s: BufferPoolState)
    requires
        s.queued.len() == 0,
    ensures
        ({
            let t = BufferPoolState { queued: s.queued.push(Seq::<u8>::empty()), ..s };
            &&& t.queued.len() > 0
            &&& t.queued[0] == Seq::<u8>::empty()
            &&& (BufferPoolState { queued: t.queued.skip(1), ..t }) == s
        }),
{
    assert(s.queued.push(Seq::<u8>::empty()).skip(1) =~= s.queued);
}

} // verus!
