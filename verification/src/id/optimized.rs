//! The same generators without the slab, and the process-wide UDP id source.

use crate::id::{id_gen_free, id_gen_next, shard_index, IdGenState, INITIAL_CAPACITY};
use crate::math::{is_power_of_two, lemma_mask_below, lemma_zero_key_first_shard, next_power_of_two};
use crate::seg_queue::{seg_queue_items, seg_queue_new, seg_queue_pop, seg_queue_push};
use crossbeam::queue::SegQueue;
use vstd::prelude::*;

verus! {

/// A counter with a FIFO list of freed ids that are handed out again first.
pub struct LockFreeIdGenerator {
    counter: u32,
    free_list: SegQueue<u32>,
}

impl View for LockFreeIdGenerator {
    type V = IdGenState;

    closed spec fn view(&self) -> IdGenState {
        IdGenState { counter: self.counter, free: seg_queue_items(self.free_list) }
    }
}

impl LockFreeIdGenerator {
    pub fn new() -> (g: Self)
        ensures
            g@ == (IdGenState { counter: INITIAL_CAPACITY as u32, free: Seq::empty() }),
    {
        LockFreeIdGenerator { counter: INITIAL_CAPACITY as u32, free_list: seg_queue_new() }
    }

    pub fn next(&mut self) -> (id: u32)
        ensures
            (id, final(self)@) == id_gen_next(old(self)@),
    {
        if let Some(id) = seg_queue_pop(&mut self.free_list) {
            return id;
        }
        let id = self.counter;
        self.counter = self.counter.wrapping_add(1);
        id
    }

    pub fn free(&mut self, id: u32)
        ensures
            final(self)@ == id_gen_free(old(self)@, id),
    {
        seg_queue_push(&mut self.free_list, id);
    }
}

impl Default for LockFreeIdGenerator {
    fn default() -> (g: Self)
        ensures
            g@ == (IdGenState { counter: INITIAL_CAPACITY as u32, free: Seq::empty() }),
    {
        Self::new()
    }
}

/// One `LockFreeIdGenerator` per shard; keys select shards by their low bits.
pub struct ShardedIdGeneratorOptimized {
    shards: Vec<LockFreeIdGenerator>,
    mask: usize,
}

impl ShardedIdGeneratorOptimized {
    #[verifier::type_invariant]
    spec fn shards_cover_mask(self) -> bool {
        self.shards@.len() == self.mask + 1
    }

    pub closed spec fn shard_states(self) -> Seq<IdGenState> {
        Seq::new(self.shards@.len(), |i: int| self.shards@[i]@)
    }

    pub closed spec fn shard_mask(self) -> usize {
        self.mask
    }

    pub fn new(num_shards: usize) -> (g: Self)
        requires
            num_shards <= usize::MAX / 2 + 1,
        ensures
            g.shard_states().len() == g.shard_mask() + 1,
            g.shard_states().len() >= num_shards,
            is_power_of_two(g.shard_states().len()),
            g.shard_states().len() == 1 || g.shard_states().len() / 2 < num_shards,
            forall|i: int|
                0 <= i < g.shard_states().len() ==> #[trigger] g.shard_states()[i] == (IdGenState {
                    counter: INITIAL_CAPACITY as u32,
                    free: Seq::empty(),
                }),
    {
        let num = next_power_of_two(num_shards);
        let mut shards: Vec<LockFreeIdGenerator> = Vec::new();
        let mut i: usize = 0;
        while i < num
            invariant
                i <= num,
                shards@.len() == i,
                forall|j: int|
                    0 <= j < i ==> #[trigger] shards@[j]@ == (IdGenState {
                        counter: INITIAL_CAPACITY as u32,
                        free: Seq::empty(),
                    }),
            decreases num - i,
        {
            shards.push(LockFreeIdGenerator::new());
            i = i + 1;
        }
        let g = ShardedIdGeneratorOptimized { shards, mask: num - 1 };
        assert(g.shard_states() =~= Seq::new(num as nat, |i: int| shards@[i]@));
        g
    }

    pub fn next(&mut self, key: usize) -> (id: u32)
        ensures
            final(self).shard_mask() == old(self).shard_mask(),
            ({
                let i = shard_index(key, old(self).shard_mask());
                &&& 0 <= i < old(self).shard_states().len()
                &&& (id, final(self).shard_states()[i]) == id_gen_next(old(self).shard_states()[i])
                &&& final(self).shard_states() == old(self).shard_states().update(
                    i,
                    final(self).shard_states()[i],
                )
            }),
    {
        proof {
            use_type_invariant(&*self);
            lemma_mask_below(key, self.mask);
        }
        let ghost before = self.shard_states();
        let idx = key & self.mask;
        let id = self.shards[idx].next();
        proof {
            assert(self.shard_states() =~= before.update(idx as int, self.shard_states()[idx as int]));
        }
        id
    }

    pub fn free(&mut self, key: usize, id: u32)
        ensures
            final(self).shard_mask() == old(self).shard_mask(),
            ({
                let i = shard_index(key, old(self).shard_mask());
                &&& 0 <= i < old(self).shard_states().len()
                &&& final(self).shard_states() == old(self).shard_states().update(
                    i,
                    id_gen_free(old(self).shard_states()[i], id),
                )
            }),
    {
        proof {
            use_type_invariant(&*self);
            lemma_mask_below(key, self.mask);
        }
        let ghost before = self.shard_states();
        let idx = key & self.mask;
        self.shards[idx].free(id);
        proof {
            assert(self.shard_states() =~= before.update(idx as int, id_gen_free(before[idx as int], id)));
        }
    }
}

impl Default for ShardedIdGeneratorOptimized {
    fn default() -> (g: Self)
        ensures
            g.shard_states().len() == 4,
    {
        let g = Self::new(4);
        proof {
            crate::math::lemma_power_of_two_four(g.shard_states().len());
        }
        g
    }
}

/// An id for a UDP association from the process-wide generator, which is
/// made with eight shards; every UDP id comes from its first shard.
pub fn next_udp_id_optimized(ids: &mut ShardedIdGeneratorOptimized) -> (id: u32)
    ensures
        final(ids).shard_mask() == old(ids).shard_mask(),
        0 < old(ids).shard_states().len(),
        (id, final(ids).shard_states()[0]) == id_gen_next(old(ids).shard_states()[0]),
        final(ids).shard_states() == old(ids).shard_states().update(0, final(ids).shard_states()[0]),
{
    proof {
        lemma_zero_key_first_shard(ids.shard_mask());
    }
    ids.next(0)
}

/// Gives a UDP id back to the first shard of the process-wide generator.
pub fn free_udp_id_optimized(ids: &mut ShardedIdGeneratorOptimized, id: u32)
    ensures
        final(ids).shard_mask() == old(ids).shard_mask(),
        0 < old(ids).shard_states().len(),
        final(ids).shard_states() == old(ids).shard_states().update(
            0,
            id_gen_free(old(ids).shard_states()[0], id),
        ),
{
    proof {
        lemma_zero_key_first_shard(ids.shard_mask());
    }
    ids.free(0, id);
}

} // verus!
