//! A buffer pool that only counts: 64 slots each hold a number of buffers
//! given back, up to 64; a buffer is handed out fresh either way, counted as
//! reused when a slot had one to give.

use crate::bytes_io::{bytes_mut_capacity, bytes_mut_clear, bytes_mut_view, bytes_mut_with_capacity};
use bytes::BytesMut;
use vstd::prelude::*;

verus! {

/// The number of slots, and the most buffers a slot counts.
pub const POOL_SIZE: usize = 64;

/// The capacity of the buffers handed out; only such buffers are taken back.
pub const BUFFER_SIZE: usize = 2048;

pub struct BufferPool {
    pool: Vec<usize>,
    total_allocated: usize,
    total_reused: usize,
}

/// The first slot of `slots` that counts a buffer is `i`.
pub open spec fn first_filled(slots: Seq<usize>, i: int) -> bool {
    &&& 0 <= i < slots.len()
    &&& slots[i] > 0
    &&& forall|j: int| 0 <= j < i ==> #[trigger] slots[j] == 0
}

/// The first slot of `slots` with room for a buffer is `i`.
pub open spec fn first_with_room(slots: Seq<usize>, i: int) -> bool {
    &&& 0 <= i < slots.len()
    &&& slots[i] < POOL_SIZE
    &&& forall|j: int| 0 <= j < i ==> #[trigger] slots[j] >= POOL_SIZE
}

impl BufferPool {
    /// The number of buffers each slot counts.
    pub closed spec fn slots(self) -> Seq<usize> {
        self.pool@
    }

    /// The counts of fresh and of reused buffers handed out.
    pub closed spec fn counts(self) -> (usize, usize) {
        (self.total_allocated, self.total_reused)
    }

    /// `POOL_SIZE` empty slots and zero counts.
    pub fn new() -> (p: Self)
        ensures
            p.slots() == Seq::new(POOL_SIZE as nat, |i: int| 0usize),
            p.counts() == (0usize, 0usize),
    {
        let mut pool: Vec<usize> = Vec::new();
        let mut i: usize = 0;
        while i < POOL_SIZE
            invariant
                i <= POOL_SIZE,
                pool@ == Seq::new(i as nat, |k: int| 0usize),
            decreases POOL_SIZE - i,
        {
            pool.push(0);
            i = i + 1;
            assert(pool@ =~= Seq::new(i as nat, |k: int| 0usize));
        }
        BufferPool { pool, total_allocated: 0, total_reused: 0 }
    }

    /// An empty buffer of `BUFFER_SIZE` bytes of room. The first slot that
    /// counts a buffer counts one fewer and the buffer is counted reused;
    /// with none, it is counted fresh.
    pub fn allocate(&mut self) -> (buf: BytesMut)
        ensures
            bytes_mut_view(buf) == Seq::<u8>::empty(),
            forall|i: int|
                first_filled(old(self).slots(), i) ==> final(self).slots() == old(self).slots().update(
                    i,
                    (old(self).slots()[i] - 1) as usize,
                ) && final(self).counts() == (old(self).counts().0, old(self).counts().1.wrapping_add(1)),
            (exists|i: int| 0 <= i < old(self).slots().len() && #[trigger] old(self).slots()[i] > 0) ==> exists|
                i: int,
            | first_filled(old(self).slots(), i),
            (forall|i: int| 0 <= i < old(self).slots().len() ==> #[trigger] old(self).slots()[i] == 0)
                ==> final(self).slots() == old(self).slots() && final(self).counts() == (
                old(self).counts().0.wrapping_add(1),
                old(self).counts().1,
            ),
    {
        let mut i: usize = 0;
        while i < self.pool.len()
            invariant
                i <= self.pool@.len(),
                self.pool@ == old(self).pool@,
                self.total_allocated == old(self).total_allocated,
                self.total_reused == old(self).total_reused,
                forall|j: int| 0 <= j < i ==> #[trigger] self.pool@[j] == 0,
            decreases self.pool@.len() - i,
        {
            let val = self.pool[i];
            if val > 0 {
                self.pool.set(i, val - 1);
                self.total_reused = self.total_reused.wrapping_add(1);
                proof {
                    assert(first_filled(old(self).slots(), i as int));
                    assert forall|k: int| first_filled(old(self).slots(), k) implies k == i by {
                        if k < i {
                        } else if k > i {
                            assert(old(self).slots()[i as int] == 0);
                        }
                    }
                }
                return bytes_mut_with_capacity(BUFFER_SIZE);
            }
            i = i + 1;
        }
        proof {
            assert forall|k: int| !first_filled(old(self).slots(), k) by {}
        }
        self.total_allocated = self.total_allocated.wrapping_add(1);
        bytes_mut_with_capacity(BUFFER_SIZE)
    }

    /// Takes `buf` back when its capacity is `BUFFER_SIZE`: the first slot
    /// with room counts it and `buf` is emptied. Otherwise nothing changes.
    pub fn free(&mut self, buf: &mut BytesMut)
        ensures
            final(self).counts() == old(self).counts(),
            (final(self).slots() == old(self).slots() && *final(buf) == *old(buf)) || (exists|i: int|
                first_with_room(old(self).slots(), i) && final(self).slots() == old(self).slots().update(
                    i,
                    (old(self).slots()[i] + 1) as usize,
                ) && bytes_mut_view(*final(buf)) == Seq::<u8>::empty()),
    {
        let capacity = bytes_mut_capacity(buf);
        self.free_with_capacity(buf, capacity);
    }

    /// What `free` does once the capacity of `buf` is known.
    pub fn free_with_capacity(&mut self, buf: &mut BytesMut, capacity: usize)
        ensures
            final(self).counts() == old(self).counts(),
            capacity == BUFFER_SIZE ==> forall|i: int|
                first_with_room(old(self).slots(), i) ==> final(self).slots() == old(self).slots().update(
                    i,
                    (old(self).slots()[i] + 1) as usize,
                ) && bytes_mut_view(*final(buf)) == Seq::<u8>::empty(),
            capacity == BUFFER_SIZE && (exists|i: int|
                0 <= i < old(self).slots().len() && #[trigger] old(self).slots()[i] < POOL_SIZE) ==> exists|i: int|
                first_with_room(old(self).slots(), i),
            capacity == BUFFER_SIZE && (forall|i: int|
                0 <= i < old(self).slots().len() ==> #[trigger] old(self).slots()[i] >= POOL_SIZE)
                ==> final(self).slots() == old(self).slots() && *final(buf) == *old(buf),
            capacity != BUFFER_SIZE ==> final(self).slots() == old(self).slots() && *final(buf) == *old(buf),
    {
        if capacity != BUFFER_SIZE {
            return;
        }
        let mut i: usize = 0;
        while i < self.pool.len()
            invariant
                i <= self.pool@.len(),
                self.pool@ == old(self).pool@,
                self.total_allocated == old(self).total_allocated,
                self.total_reused == old(self).total_reused,
                *buf == *old(buf),
                capacity == BUFFER_SIZE,
                forall|j: int| 0 <= j < i ==> #[trigger] self.pool@[j] >= POOL_SIZE,
            decreases self.pool@.len() - i,
        {
            let val = self.pool[i];
            if val < POOL_SIZE {
                self.pool.set(i, val + 1);
                bytes_mut_clear(buf);
                proof {
                    assert(first_with_room(old(self).slots(), i as int));
                    assert forall|k: int| first_with_room(old(self).slots(), k) implies k == i by {
                        if k < i {
                        } else if k > i {
                            assert(old(self).slots()[i as int] >= POOL_SIZE);
                        }
                    }
                }
                return;
            }
            i = i + 1;
        }
    }

    /// `(handed out, fresh, reused)`; the sum must fit in a `usize`.
    pub fn stats(&self) -> (r: (usize, usize, usize))
        requires
            self.counts().0 + self.counts().1 <= usize::MAX,
        ensures
            r == ((self.counts().0 + self.counts().1) as usize, self.counts().0, self.counts().1),
    {
        (self.total_allocated + self.total_reused, self.total_allocated, self.total_reused)
    }
}

impl Default for BufferPool {
    fn default() -> (p: Self)
        ensures
            p.slots() == Seq::new(POOL_SIZE as nat, |i: int| 0usize),
            p.counts() == (0usize, 0usize),
    {
        Self::new()
    }
}

} // verus!
