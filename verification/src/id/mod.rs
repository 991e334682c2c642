//! Identifier generators: a counter with a FIFO list of freed ids that are
//! handed out again first, and a sharded set of such generators.
//!
//! State is held by value and changed through `&mut self`; callers that share
//! a generator between threads put it behind a lock.

pub mod optimized;
pub mod per_cpu;
pub mod sealed;

use crate::math::{lemma_mask_below, next_power_of_two};
use crate::seg_queue::{seg_queue_items, seg_queue_new, seg_queue_pop, seg_queue_push};
use crossbeam::queue::SegQueue;
use vstd::prelude::*;

verus! {

/// The first id a fresh generator hands out.
pub const INITIAL_CAPACITY: usize = 4096;

/// Generators of `u32` ids.
pub trait IdGenerator: sealed::Sealed + Sized {
    /// `after` is what handing out `id` leaves of `before`.
    spec fn hands_out(before: Self, id: u32, after: Self) -> bool;

    /// `after` is what taking `id` back leaves of `before`.
    spec fn takes_back(before: Self, id: u32, after: Self) -> bool;

    fn next(&mut self) -> (id: u32)
        ensures
            Self::hands_out(*old(self), id, *final(self)),
    ;

    fn free(&mut self, id: u32)
        ensures
            Self::takes_back(*old(self), id, *final(self)),
    ;
}

/// A generator as a value: the next fresh id and the freed ids, oldest first.
pub struct IdGenState {
    pub counter: u32,
    pub free: Seq<u32>,
}

/// What handing out an id does: the oldest freed id if there is one, else
/// the counter, which then advances (wrapping past `u32::MAX`).
pub open spec fn id_gen_next(s: IdGenState) -> (u32, IdGenState) {
    if s.free.len() > 0 {
        (s.free[0], IdGenState { counter: s.counter, free: s.free.skip(1) })
    } else {
        (s.counter, IdGenState { counter: s.counter.wrapping_add(1), free: s.free })
    }
}

/// What freeing an id does: it joins the end of the freed list.
pub open spec fn id_gen_free(s: IdGenState, id: u32) -> IdGenState {
    IdGenState { counter: s.counter, free: s.free.push(id) }
}

pub struct AtomicIdGenerator {
    counter: u32,
    free_list: SegQueue<u32>,
}

impl View for AtomicIdGenerator {
    type V = IdGenState;

    closed spec fn view(&self) -> IdGenState {
        IdGenState { counter: self.counter, free: seg_queue_items(self.free_list) }
    }
}

impl AtomicIdGenerator {
    /// A generator whose first id is `INITIAL_CAPACITY`.
    pub fn new() -> (g: Self)
        ensures
            g@ == (IdGenState { counter: INITIAL_CAPACITY as u32, free: Seq::empty() }),
    {
        AtomicIdGenerator { counter: INITIAL_CAPACITY as u32, free_list: seg_queue_new() }
    }

    pub fn next(&mut self) -> (id: u32)
        ensures
            (id, final(self)@) == id_gen_next(old(self)@),
    {
        if let Some(id) = seg_queue_pop(&mut self.free_list) {
            return id;
        }
        let id = self.counter;
        self.counter = self.counter.wrapping_add(1);
        id
    }

    pub fn free(&mut self, id: u32)
        ensures
            final(self)@ == id_gen_free(old(self)@, id),
    {
        seg_queue_push(&mut self.free_list, id);
    }
}

impl Default for AtomicIdGenerator {
    fn default() -> (g: Self)
        ensures
            g@ == (IdGenState { counter: INITIAL_CAPACITY as u32, free: Seq::empty() }),
    {
        Self::new()
    }
}

impl IdGenerator for AtomicIdGenerator {
    /// The oldest freed id, else the counter, which advances.
    open spec fn hands_out(before: Self, id: u32, after: Self) -> bool {
        (id, after@) == id_gen_next(before@)
    }

    /// The id joins the end of the freed list.
    open spec fn takes_back(before: Self, id: u32, after: Self) -> bool {
        after@ == id_gen_free(before@, id)
    }

    fn next(&mut self) -> (id: u32) {
        AtomicIdGenerator::next(self)
    }

    fn free(&mut self, id: u32) {
        AtomicIdGenerator::free(self, id)
    }
}

/// A freed id is the next one handed out, when no other freed id waits.
pub proof fn lemma_freed_id_reused(s: IdGenState, id: u32)
    requires
        s.free.len() == 0,
    ensures
        id_gen_next(id_gen_free(s, id)).0 == id,
        id_gen_next(id_gen_free(s, id)).1 == s,
{
    assert(s.free.push(id).skip(1) =~= s.free);
}

/// Freed ids come back in the order they were freed.
pub proof fn lemma_freed_ids_fifo(s: IdGenState, a: u32, b: u32)
    requires
        s.free.len() == 0,
    ensures
        id_gen_next(id_gen_free(id_gen_free(s, a), b)).0 == a,
        id_gen_next(id_gen_next(id_gen_free(id_gen_free(s, a), b)).1).0 == b,
{
    let s2 = id_gen_free(id_gen_free(s, a), b);
    assert(s2.free =~= seq![a, b]);
    assert(s2.free.skip(1) =~= seq![b]);
}

/// Two ids handed out in a row without a free in between differ.
pub proof fn lemma_consecutive_ids_differ(s: IdGenState)
    requires
        s.free.len() == 0,
    ensures
        id_gen_next(s).0 != id_gen_next(id_gen_next(s).1).0,
{
}

/// `live` holds the ids that `s` has handed out and not taken back: each of
/// them is below the counter; each freed id is below it too and not live; and
/// no freed id waits twice.
pub open spec fn ids_accounted(s: IdGenState, live: Set<u32>) -> bool {
    &&& forall|x: u32| #[trigger] live.contains(x) ==> x < s.counter
    &&& forall|i: int| 0 <= i < s.free.len() ==> #[trigger] s.free[i] < s.counter && !live.contains(s.free[i])
    &&& forall|i: int, j: int| 0 <= i < j < s.free.len() ==> #[trigger] s.free[i] != #[trigger] s.free[j]
}

/// A fresh generator has handed out nothing.
pub proof fn lemma_fresh_generator_accounted()
    ensures
        ids_accounted(IdGenState { counter: INITIAL_CAPACITY as u32, free: Seq::empty() }, Set::empty()),
{
}

/// A generator never hands out an id that is still in use, as long as its
/// counter has not reached `u32::MAX` with no freed id waiting; the id it
/// hands out is then in use.
pub proof fn lemma_next_id_not_live(s: IdGenState, live: Set<u32>)
    requires
        ids_accounted(s, live),
        s.free.len() > 0 || s.counter < u32::MAX,
    ensures
        !live.contains(id_gen_next(s).0),
        ids_accounted(id_gen_next(s).1, live.insert(id_gen_next(s).0)),
{
    let (id, t) = id_gen_next(s);
    if s.free.len() > 0 {
        assert forall|i: int| 0 <= i < t.free.len() implies #[trigger] t.free[i] < t.counter && !live.insert(
            id,
        ).contains(t.free[i]) by {
            assert(t.free[i] == s.free[i + 1]);
            assert(s.free[0] != s.free[i + 1]);
        }
        assert forall|i: int, j: int| 0 <= i < j < t.free.len() implies #[trigger] t.free[i] != #[trigger] t.free[j] by {
            assert(t.free[i] == s.free[i + 1]);
            assert(t.free[j] == s.free[j + 1]);
        }
    } else {
        assert(t.counter == s.counter + 1);
    }
}

/// Taking back an id in use keeps the account: it is no longer in use.
pub proof fn lemma_free_live_id(s: IdGenState, live: Set<u32>, id: u32)
    requires
        ids_accounted(s, live),
        live.contains(id),
    ensures
        ids_accounted(id_gen_free(s, id), live.remove(id)),
{
    let t = id_gen_free(s, id);
    assert forall|i: int| 0 <= i < t.free.len() implies #[trigger] t.free[i] < t.counter && !live.remove(id).contains(
        t.free[i],
    ) by {
        if i < s.free.len() {
            assert(t.free[i] == s.free[i]);
        }
    }
    assert forall|i: int, j: int| 0 <= i < j < t.free.len() implies #[trigger] t.free[i] != #[trigger] t.free[j] by {
        if j < s.free.len() {
            assert(t.free[i] == s.free[i]);
            assert(t.free[j] == s.free[j]);
        } else {
            assert(t.free[j] == id);
            assert(t.free[i] == s.free[i]);
        }
    }
}

/// The shard a key falls in.
pub open spec fn shard_index(key: usize, mask: usize) -> int {
    (key & mask) as int
}

/// A set of generators, one per shard; keys select shards by their low bits.
pub struct ShardedIdGenerator {
    shards: Vec<AtomicIdGenerator>,
    mask: usize,
}

impl ShardedIdGenerator {
    #[verifier::type_invariant]
    spec fn shards_cover_mask(self) -> bool {
        self.shards@.len() == self.mask + 1
    }

    /// The generators, by shard.
    pub closed spec fn shard_states(self) -> Seq<IdGenState> {
        Seq::new(self.shards@.len(), |i: int| self.shards@[i]@)
    }

    /// The mask that selects a shard from a key.
    pub closed spec fn shard_mask(self) -> usize {
        self.mask
    }

    /// `num_shards` rounded up to a power of two fresh generators.
    pub fn new(num_shards: usize) -> (g: Self)
        requires
            num_shards <= usize::MAX / 2 + 1,
        ensures
            g.shard_states().len() == g.shard_mask() + 1,
            g.shard_states().len() >= num_shards,
            crate::math::is_power_of_two(g.shard_states().len()),
            g.shard_states().len() == 1 || g.shard_states().len() / 2 < num_shards,
            forall|i: int|
                0 <= i < g.shard_states().len() ==> #[trigger] g.shard_states()[i] == (IdGenState {
                    counter: INITIAL_CAPACITY as u32,
                    free: Seq::empty(),
                }),
    {
        let num = next_power_of_two(num_shards);
        let mut shards: Vec<AtomicIdGenerator> = Vec::new();
        let mut i: usize = 0;
        while i < num
            invariant
                i <= num,
                shards@.len() == i,
                forall|j: int|
                    0 <= j < i ==> #[trigger] shards@[j]@ == (IdGenState {
                        counter: INITIAL_CAPACITY as u32,
                        free: Seq::empty(),
                    }),
            decreases num - i,
        {
            shards.push(AtomicIdGenerator::new());
            i = i + 1;
        }
        let g = ShardedIdGenerator { shards, mask: num - 1 };
        assert(g.shard_states() =~= Seq::new(num as nat, |i: int| shards@[i]@));
        g
    }

    /// An id from the shard of `key`; the other shards are unchanged.
    pub fn next(&mut self, key: usize) -> (id: u32)
        ensures
            final(self).shard_mask() == old(self).shard_mask(),
            ({
                let i = shard_index(key, old(self).shard_mask());
                &&& 0 <= i < old(self).shard_states().len()
                &&& (id, final(self).shard_states()[i]) == id_gen_next(old(self).shard_states()[i])
                &&& final(self).shard_states() == old(self).shard_states().update(
                    i,
                    final(self).shard_states()[i],
                )
            }),
    {
        proof {
            use_type_invariant(&*self);
            lemma_mask_below(key, self.mask);
        }
        let ghost before = self.shard_states();
        let idx = key & self.mask;
        let id = self.shards[idx].next();
        proof {
            assert(self.shard_states() =~= before.update(idx as int, self.shard_states()[idx as int]));
        }
        id
    }

    /// Frees `id` into the shard of `key`; the other shards are unchanged.
    pub fn free(&mut self, key: usize, id: u32)
        ensures
            final(self).shard_mask() == old(self).shard_mask(),
            ({
                let i = shard_index(key, old(self).shard_mask());
                &&& 0 <= i < old(self).shard_states().len()
                &&& final(self).shard_states() == old(self).shard_states().update(
                    i,
                    id_gen_free(old(self).shard_states()[i], id),
                )
            }),
    {
        proof {
            use_type_invariant(&*self);
            lemma_mask_below(key, self.mask);
        }
        let ghost before = self.shard_states();
        let idx = key & self.mask;
        self.shards[idx].free(id);
        proof {
            assert(self.shard_states() =~= before.update(idx as int, id_gen_free(before[idx as int], id)));
        }
    }
}

impl Default for ShardedIdGenerator {
    fn default() -> (g: Self)
        ensures
            g.shard_states().len() == 4,
    {
        let g = Self::new(4);
        proof {
            crate::math::lemma_power_of_two_four(g.shard_states().len());
        }
        g
    }
}

impl IdGenerator for ShardedIdGenerator {
    /// The first shard hands out the id; the other shards are unchanged.
    open spec fn hands_out(before: Self, id: u32, after: Self) -> bool {
        &&& after.shard_mask() == before.shard_mask()
        &&& 0 < before.shard_states().len()
        &&& (id, after.shard_states()[0]) == id_gen_next(before.shard_states()[0])
        &&& after.shard_states() == before.shard_states().update(0, after.shard_states()[0])
    }

    /// The first shard takes the id back; the other shards are unchanged.
    open spec fn takes_back(before: Self, id: u32, after: Self) -> bool {
        &&& after.shard_mask() == before.shard_mask()
        &&& 0 < before.shard_states().len()
        &&& after.shard_states() == before.shard_states().update(0, id_gen_free(before.shard_states()[0], id))
    }

    /// Takes an id from the first shard.
    fn next(&mut self) -> u32 {
        proof {
            crate::math::lemma_zero_key_first_shard(self.shard_mask());
        }
        ShardedIdGenerator::next(self, 0)
    }

    /// Frees an id into the first shard.
    fn free(&mut self, id: u32) {
        proof {
            crate::math::lemma_zero_key_first_shard(self.shard_mask());
        }
        ShardedIdGenerator::free(self, 0, id)
    }
}

/// An id for a UDP association from the process-wide generator `ids`.
pub fn next_udp_id(ids: &mut AtomicIdGenerator) -> (id: u32)
    ensures
        (id, final(ids)@) == id_gen_next(old(ids)@),
{
    ids.next()
}

/// Gives a UDP id back to the process-wide generator `ids`.
pub fn free_udp_id(ids: &mut AtomicIdGenerator, id: u32)
    ensures
        final(ids)@ == id_gen_free(old(ids)@, id),
{
    ids.free(id)
}

/// A slot that holds an optional value and counts the changes made to it.
pub struct IdSlot<T> {
    data: Option<T>,
    version: u32,
}

impl<T> IdSlot<T> {
    /// The value held.
    pub closed spec fn value(self) -> Option<T> {
        self.data
    }

    /// The number of changes, wrapping past `u32::MAX`.
    pub closed spec fn changes(self) -> u32 {
        self.version
    }

    pub fn new() -> (s: Self)
        ensures
            s.value() is None,
            s.changes() == 0,
    {
        IdSlot { data: None, version: 0 }
    }

    /// Puts `value` in the slot and counts a change.
    pub fn set(&mut self, value: T)
        ensures
            final(self).value() == Some(value),
            final(self).changes() == old(self).changes().wrapping_add(1),
    {
        self.data = Some(value);
        self.version = self.version.wrapping_add(1);
    }

    /// A copy of the value held.
    pub fn get(&self) -> (r: Option<T>) where T: Clone
        ensures
            r is Some <==> self.value() is Some,
            r matches Some(v) ==> cloned::<T>(self.value()->0, v),
    {
        match &self.data {
            Some(v) => Some(v.clone()),
            None => None,
        }
    }

    /// Empties the slot; a change is counted when there was a value.
    pub fn take(&mut self) -> (r: Option<T>)
        ensures
            r == old(self).value(),
            final(self).value() is None,
            final(self).changes() == if old(self).value() is Some {
                old(self).changes().wrapping_add(1)
            } else {
                old(self).changes()
            },
    {
        let val = self.data.take();
        if val.is_some() {
            self.version = self.version.wrapping_add(1);
        }
        val
    }

    pub fn version(&self) -> (v: u32)
        ensures
            v == self.changes(),
    {
        self.version
    }
}

impl<T> Default for IdSlot<T> {
    fn default() -> (s: Self)
        ensures
            s.value() is None,
            s.changes() == 0,
    {
        Self::new()
    }
}

} // verus!
