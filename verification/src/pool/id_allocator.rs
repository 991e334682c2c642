//! Allocators of session ids: a counter with a FIFO list of freed ids, backed
//! by a slab that is kept at least as long as the largest id handed out.

use crate::id::{id_gen_free, id_gen_next, ids_accounted, lemma_free_live_id, lemma_next_id_not_live, IdGenState};
use crate::math::{is_next_power_of_two, lemma_mask_below, next_power_of_two};
use crate::seg_queue::{seg_queue_items, seg_queue_new, seg_queue_pop, seg_queue_push};
use crate::slab_keys::{slab_insert, slab_keys, slab_len, slab_with_capacity};
use crossbeam::queue::SegQueue;
use slab::Slab;
use std::marker::PhantomData;
use vstd::prelude::*;

verus! {

/// The first id a fresh allocator hands out, and the length of its slab.
pub const INITIAL_CAPACITY: usize = 4096;

/// What an allocator holds: the freed ids (oldest first), the next fresh id
/// and the number of slab entries.
pub struct IdAllocatorState {
    pub free: Seq<u32>,
    pub next_id: u32,
    pub slab_len: nat,
}

/// The state after handing out an id, and the id.
pub open spec fn id_alloc_step(s: IdAllocatorState, id: u32, t: IdAllocatorState) -> bool {
    if s.free.len() > 0 {
        id == s.free[0] && t == IdAllocatorState { free: s.free.skip(1), ..s }
    } else {
        &&& id == s.next_id
        &&& t.free == s.free
        &&& t.next_id == s.next_id.wrapping_add(1)
        &&& if (id as nat) < s.slab_len {
            t.slab_len == s.slab_len
        } else {
            is_next_power_of_two(id as nat + 1024, t.slab_len)
        }
    }
}

/// Hands out ids of sessions whose data is of type `T`.
pub struct IdAllocator<T> {
    slab: Slab<()>,
    free_list: SegQueue<u32>,
    next_id: u32,
    marker: PhantomData<T>,
}

impl<T> View for IdAllocator<T> {
    type V = IdAllocatorState;

    closed spec fn view(&self) -> IdAllocatorState {
        IdAllocatorState {
            free: seg_queue_items(self.free_list),
            next_id: self.next_id,
            slab_len: slab_keys(self.slab).len(),
        }
    }
}

/// A slab holding `n` entries, under the keys `0..n`.
fn filled_slab(n: usize) -> (s: Slab<()>)
    ensures
        slab_keys(s).finite(),
        slab_keys(s).len() == n,
{
    let mut s = slab_with_capacity(n);
    let mut i: usize = 0;
    while i < n
        invariant
            i <= n,
            slab_keys(s).finite(),
            slab_keys(s).len() == i,
        decreases n - i,
    {
        slab_insert(&mut s);
        i = i + 1;
    }
    s
}

impl<T> IdAllocator<T> {
    /// An allocator whose first id is `INITIAL_CAPACITY`, with that many slab entries.
    pub fn new() -> (a: Self)
        ensures
            a@ == (IdAllocatorState {
                free: Seq::empty(),
                next_id: INITIAL_CAPACITY as u32,
                slab_len: INITIAL_CAPACITY as nat,
            }),
    {
        let slab = filled_slab(INITIAL_CAPACITY);
        IdAllocator {
            slab,
            free_list: seg_queue_new(),
            next_id: INITIAL_CAPACITY as u32,
            marker: PhantomData,
        }
    }

    /// The oldest freed id, else the next fresh one. A fresh id beyond the
    /// slab replaces the slab by one of `(id + 1024).next_power_of_two()`
    /// entries; that length must fit in a `usize`.
    pub fn allocate(&mut self) -> (id: u32)
        requires
            old(self)@.next_id + 1024 <= usize::MAX / 2 + 1,
        ensures
            id_alloc_step(old(self)@, id, final(self)@),
    {
        if let Some(id) = seg_queue_pop(&mut self.free_list) {
            return id;
        }
        let id = self.next_id;
        self.next_id = self.next_id.wrapping_add(1);
        if id as usize >= slab_len(&self.slab) {
            let new_capacity = next_power_of_two(id as usize + 1024);
            self.slab = filled_slab(new_capacity);
        }
        id
    }

    /// Puts `id` at the back of the freed list.
    pub fn free(&mut self, id: u32)
        ensures
            final(self)@ == (IdAllocatorState { free: old(self)@.free.push(id), ..old(self)@ }),
    {
        seg_queue_push(&mut self.free_list, id);
    }

    /// The number of slab entries.
    pub fn len(&self) -> (n: usize)
        ensures
            n == self@.slab_len,
    {
        slab_len(&self.slab)
    }
}

impl<T> Default for IdAllocator<T> {
    fn default() -> (a: Self)
        ensures
            a@ == (IdAllocatorState {
                free: Seq::empty(),
                next_id: INITIAL_CAPACITY as u32,
                slab_len: INITIAL_CAPACITY as nat,
            }),
    {
        Self::new()
    }
}

/// A freed id is the next one handed out when no other freed id waits, and
/// handing it out changes nothing else.
pub proof fn lemma_freed_id_allocated_again(s: IdAllocatorState, id: u32, t: IdAllocatorState, r: u32)
    requires
        s.free.len() == 0,
        id_alloc_step(IdAllocatorState { free: s.free.push(id), ..s }, r, t),
    ensures
        r == id,
        t == s,
{
    assert(s.free.push(id).skip(1) =~= s.free);
}

/// Two fresh ids handed out in a row differ.
pub proof fn lemma_fresh_ids_differ(s: IdAllocatorState, a: u32, t: IdAllocatorState, b: u32, u: IdAllocatorState)
    requires
        s.free.len() == 0,
        id_alloc_step(s, a, t),
        id_alloc_step(t, b, u),
    ensures
        a != b,
{
}

/// The freed ids and next fresh id of an allocator, as a generator.
pub open spec fn alloc_as_generator(s: IdAllocatorState) -> IdGenState {
    IdGenState { counter: s.next_id, free: s.free }
}

/// An allocator never hands out an id that is still in use (handed out and
/// not freed since), as long as its next fresh id has not reached `u32::MAX`
/// with no freed id waiting; the id it hands out is then in use.
pub proof fn lemma_allocated_id_not_live(s: IdAllocatorState, live: Set<u32>, id: u32, t: IdAllocatorState)
    requires
        ids_accounted(alloc_as_generator(s), live),
        s.free.len() > 0 || s.next_id < u32::MAX,
        id_alloc_step(s, id, t),
    ensures
        !live.contains(id),
        ids_accounted(alloc_as_generator(t), live.insert(id)),
{
    lemma_next_id_not_live(alloc_as_generator(s), live);
    assert(id_gen_next(alloc_as_generator(s)) == (id, alloc_as_generator(t)));
}

/// Freeing an id in use keeps the account: it is no longer in use.
pub proof fn lemma_freed_id_not_live(s: IdAllocatorState, live: Set<u32>, id: u32)
    requires
        ids_accounted(alloc_as_generator(s), live),
        live.contains(id),
    ensures
        ids_accounted(alloc_as_generator(IdAllocatorState { free: s.free.push(id), ..s }), live.remove(id)),
{
    lemma_free_live_id(alloc_as_generator(s), live, id);
    assert(alloc_as_generator(IdAllocatorState { free: s.free.push(id), ..s }) == id_gen_free(
        alloc_as_generator(s),
        id,
    ));
}

/// Allocators by shard; a shard key selects a shard by its low bits.
pub struct ShardedIdAllocator {
    shards: Vec<IdAllocator<()>>,
    shard_mask: usize,
}

impl ShardedIdAllocator {
    #[verifier::type_invariant]
    spec fn shards_cover_mask(self) -> bool {
        self.shards@.len() == self.shard_mask + 1
    }

    /// The allocators, by shard.
    pub closed spec fn shard_states(self) -> Seq<IdAllocatorState> {
        self.shards@.map_values(|a: IdAllocator<()>| a@)
    }

    pub closed spec fn mask(self) -> usize {
        self.shard_mask
    }

    /// `num_shards` rounded up to a power of two fresh allocators.
    pub fn new(num_shards: usize) -> (a: Self)
        requires
            num_shards <= usize::MAX / 2 + 1,
        ensures
            a.shard_states().len() == a.mask() + 1,
            is_next_power_of_two(num_shards as nat, a.shard_states().len()),
            forall|i: int|
                0 <= i < a.shard_states().len() ==> #[trigger] a.shard_states()[i] == (IdAllocatorState {
                    free: Seq::empty(),
                    next_id: INITIAL_CAPACITY as u32,
                    slab_len: INITIAL_CAPACITY as nat,
                }),
    {
        let num = next_power_of_two(num_shards);
        let mut shards: Vec<IdAllocator<()>> = Vec::new();
        let mut i: usize = 0;
        while i < num
            invariant
                i <= num,
                shards@.len() == i,
                forall|j: int|
                    0 <= j < i ==> #[trigger] shards@[j]@ == (IdAllocatorState {
                        free: Seq::empty(),
                        next_id: INITIAL_CAPACITY as u32,
                        slab_len: INITIAL_CAPACITY as nat,
                    }),
            decreases num - i,
        {
            shards.push(IdAllocator::new());
            i = i + 1;
        }
        ShardedIdAllocator { shards, shard_mask: num - 1 }
    }

    /// An id from the shard of `shard_key`; the other shards are unchanged.
    pub fn allocate(&mut self, shard_key: usize) -> (id: u32)
        requires
            forall|i: int|
                0 <= i < old(self).shard_states().len() ==> #[trigger] old(self).shard_states()[i].next_id
                    + 1024 <= usize::MAX / 2 + 1,
        ensures
            final(self).mask() == old(self).mask(),
            ({
                let i = (shard_key & old(self).mask()) as int;
                &&& 0 <= i < old(self).shard_states().len()
                &&& id_alloc_step(old(self).shard_states()[i], id, final(self).shard_states()[i])
                &&& final(self).shard_states() == old(self).shard_states().update(
                    i,
                    final(self).shard_states()[i],
                )
            }),
    {
        proof {
            use_type_invariant(&*self);
            lemma_mask_below(shard_key, self.shard_mask);
        }
        let ghost before = self.shard_states();
        let idx = shard_key & self.shard_mask;
        assert(before[idx as int] == self.shards@[idx as int]@);
        let id = self.shards[idx].allocate();
        proof {
            assert(self.shard_states() =~= before.update(idx as int, self.shard_states()[idx as int]));
        }
        id
    }

    /// Frees `id` into the shard of `shard_key`; the other shards are unchanged.
    pub fn free(&mut self, id: u32, shard_key: usize)
        ensures
            final(self).mask() == old(self).mask(),
            ({
                let i = (shard_key & old(self).mask()) as int;
                &&& 0 <= i < old(self).shard_states().len()
                &&& final(self).shard_states() == old(self).shard_states().update(
                    i,
                    IdAllocatorState { free: old(self).shard_states()[i].free.push(id), ..old(self).shard_states()[i] },
                )
            }),
    {
        proof {
            use_type_invariant(&*self);
            lemma_mask_below(shard_key, self.shard_mask);
        }
        let ghost before = self.shard_states();
        let idx = shard_key & self.shard_mask;
        self.shards[idx].free(id);
        proof {
            assert(self.shard_states() =~= before.update(
                idx as int,
                IdAllocatorState { free: before[idx as int].free.push(id), ..before[idx as int] },
            ));
        }
    }
}

/// A session identifier.
pub type SessionId = u32;

/// Hands out session ids counting up from zero, wrapping past `u32::MAX`.
pub struct SessionIdGenerator {
    counter: u32,
}

impl View for SessionIdGenerator {
    type V = u32;

    /// The id the next call hands out.
    closed spec fn view(&self) -> u32 {
        self.counter
    }
}

impl SessionIdGenerator {
    pub fn new() -> (g: Self)
        ensures
            g@ == 0,
    {
        SessionIdGenerator { counter: 0 }
    }

    pub fn next(&mut self) -> (id: SessionId)
        ensures
            id == old(self)@,
            final(self)@ == old(self)@.wrapping_add(1),
    {
        let id = self.counter;
        self.counter = self.counter.wrapping_add(1);
        id
    }
}

impl Default for SessionIdGenerator {
    fn default() -> (g: Self)
        ensures
            g@ == 0,
    {
        Self::new()
    }
}

} // verus!
