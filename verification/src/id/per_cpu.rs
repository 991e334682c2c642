//! Counters kept one per CPU, so that CPUs count without sharing a counter,
//! and read together as a sum.

use crate::id::shard_index;
use crate::math::{is_power_of_two, lemma_mask_below, next_power_of_two};
use std::sync::atomic::Ordering;
use vstd::prelude::*;

verus! {

/// A 64-bit counter. The memory orderings are accepted for the callers'
/// sake; a value held by one owner needs none.
pub struct PaddedAtomicU64 {
    value: u64,
}

impl View for PaddedAtomicU64 {
    type V = u64;

    closed spec fn view(&self) -> u64 {
        self.value
    }
}

impl PaddedAtomicU64 {
    pub fn new(val: u64) -> (c: Self)
        ensures
            c@ == val,
    {
        PaddedAtomicU64 { value: val }
    }

    pub fn load(&self, order: Ordering) -> (v: u64)
        ensures
            v == self@,
    {
        self.value
    }

    pub fn store(&mut self, val: u64, order: Ordering)
        ensures
            final(self)@ == val,
    {
        self.value = val;
    }

    /// Adds `val` (wrapping) and returns the previous value.
    pub fn fetch_add(&mut self, val: u64, order: Ordering) -> (prev: u64)
        ensures
            prev == old(self)@,
            final(self)@ == old(self)@.wrapping_add(val),
    {
        let prev = self.value;
        self.value = self.value.wrapping_add(val);
        prev
    }

    /// Subtracts `val` (wrapping) and returns the previous value.
    pub fn fetch_sub(&mut self, val: u64, order: Ordering) -> (prev: u64)
        ensures
            prev == old(self)@,
            final(self)@ == old(self)@.wrapping_sub(val),
    {
        let prev = self.value;
        self.value = self.value.wrapping_sub(val);
        prev
    }

    /// Stores `new` if the value is `current`; returns the previous value,
    /// in `Ok` when it was stored and in `Err` when not.
    pub fn compare_exchange(&mut self, current: u64, new: u64, success: Ordering, failure: Ordering) -> (r:
        Result<u64, u64>)
        ensures
            old(self)@ == current ==> r == Ok::<u64, u64>(current) && final(self)@ == new,
            old(self)@ != current ==> r == Err::<u64, u64>(old(self)@) && final(self)@ == old(self)@,
    {
        if self.value == current {
            self.value = new;
            Ok(current)
        } else {
            Err(self.value)
        }
    }
}

impl Default for PaddedAtomicU64 {
    fn default() -> (c: Self)
        ensures
            c@ == 0,
    {
        Self::new(0)
    }
}

/// The sum of the counters, in unbounded integers.
pub open spec fn counters_sum(s: Seq<u64>) -> int
    decreases s.len(),
{
    if s.len() == 0 {
        0
    } else {
        counters_sum(s.drop_last()) + s.last()
    }
}

/// Counters indexed by CPU; a CPU id selects a counter by its low bits.
pub struct PerCpuCounter {
    counters: Vec<PaddedAtomicU64>,
    mask: usize,
}

impl PerCpuCounter {
    #[verifier::type_invariant]
    spec fn counters_cover_mask(self) -> bool {
        self.counters@.len() == self.mask + 1
    }

    /// The counter values.
    pub closed spec fn values(self) -> Seq<u64> {
        Seq::new(self.counters@.len(), |i: int| self.counters@[i]@)
    }

    pub closed spec fn counter_mask(self) -> usize {
        self.mask
    }

    /// `num_counters` rounded up to a power of two counters at zero.
    pub fn new(num_counters: usize) -> (c: Self)
        requires
            num_counters <= usize::MAX / 2 + 1,
        ensures
            c.values().len() == c.counter_mask() + 1,
            c.values().len() >= num_counters,
            is_power_of_two(c.values().len()),
            c.values().len() == 1 || c.values().len() / 2 < num_counters,
            forall|i: int| 0 <= i < c.values().len() ==> #[trigger] c.values()[i] == 0,
    {
        let num = next_power_of_two(num_counters);
        let mut counters: Vec<PaddedAtomicU64> = Vec::new();
        let mut i: usize = 0;
        while i < num
            invariant
                i <= num,
                counters@.len() == i,
                forall|j: int| 0 <= j < i ==> #[trigger] counters@[j]@ == 0,
            decreases num - i,
        {
            counters.push(PaddedAtomicU64::new(0));
            i = i + 1;
        }
        let c = PerCpuCounter { counters, mask: num - 1 };
        assert(c.values() =~= counters@.map_values(|p: PaddedAtomicU64| p@));
        c
    }

    /// Adds one (wrapping) to the counter of `cpu_id`.
    pub fn increment(&mut self, cpu_id: usize)
        ensures
            final(self).counter_mask() == old(self).counter_mask(),
            ({
                let i = shard_index(cpu_id, old(self).counter_mask());
                &&& 0 <= i < old(self).values().len()
                &&& final(self).values() == old(self).values().update(
                    i,
                    old(self).values()[i].wrapping_add(1),
                )
            }),
    {
        proof {
            use_type_invariant(&*self);
            lemma_mask_below(cpu_id, self.mask);
        }
        let ghost before = self.values();
        let idx = cpu_id & self.mask;
        self.counters[idx].fetch_add(1, Ordering::Relaxed);
        proof {
            let ghost k = shard_index(cpu_id, self.mask);
            assert(self.values() =~= before.update(k, before[k].wrapping_add(1)));
        }
    }

    /// The counter of `cpu_id`.
    pub fn get(&self, cpu_id: usize) -> (v: u64)
        ensures
            v == self.values()[shard_index(cpu_id, self.counter_mask())],
            0 <= shard_index(cpu_id, self.counter_mask()) < self.values().len(),
    {
        proof {
            use_type_invariant(self);
            lemma_mask_below(cpu_id, self.mask);
        }
        self.counters[cpu_id & self.mask].load(Ordering::Relaxed)
    }

    /// The sum of all counters, which must not overflow.
    pub fn sum(&self) -> (total: u64)
        requires
            counters_sum(self.values()) <= u64::MAX,
        ensures
            total == counters_sum(self.values()),
    {
        let ghost vals = self.values();
        let mut total: u64 = 0;
        let mut i: usize = 0;
        let ghost mut k: int = 0;
        while i < self.counters.len()
            invariant
                k == i,
                i <= self.counters@.len(),
                vals == self.values(),
                vals.len() == self.counters@.len(),
                counters_sum(vals) <= u64::MAX,
                total == counters_sum(vals.take(k)),
            decreases self.counters@.len() - i,
        {
            proof {
                assert(vals.take(k + 1).drop_last() =~= vals.take(k));
                lemma_counters_sum_prefix(vals, k + 1);
            }
            total = total + self.counters[i].load(Ordering::Relaxed);
            i = i + 1;
            proof {
                k = k + 1;
            }
        }
        proof {
            assert(vals.take(k) =~= vals);
        }
        total
    }

    /// Sets the counter of `cpu_id` to zero.
    pub fn reset(&mut self, cpu_id: usize)
        ensures
            final(self).counter_mask() == old(self).counter_mask(),
            ({
                let i = shard_index(cpu_id, old(self).counter_mask());
                &&& 0 <= i < old(self).values().len()
                &&& final(self).values() == old(self).values().update(i, 0)
            }),
    {
        proof {
            use_type_invariant(&*self);
            lemma_mask_below(cpu_id, self.mask);
        }
        let ghost before = self.values();
        let idx = cpu_id & self.mask;
        self.counters[idx].store(0, Ordering::Relaxed);
        proof {
            assert(self.values() =~= before.update(shard_index(cpu_id, self.mask), 0));
        }
    }

    /// Sets every counter to zero.
    pub fn reset_all(&mut self)
        ensures
            final(self).counter_mask() == old(self).counter_mask(),
            final(self).values().len() == old(self).values().len(),
            forall|i: int| 0 <= i < final(self).values().len() ==> #[trigger] final(self).values()[i] == 0,
    {
        proof {
            use_type_invariant(&*self);
        }
        let ghost n = self.counters@.len();
        let mut i: usize = 0;
        while i < self.counters.len()
            invariant
                i <= self.counters@.len(),
                self.counters@.len() == n,
                n == self.mask + 1,
                forall|j: int| 0 <= j < i ==> #[trigger] self.counters@[j]@ == 0,
            decreases self.counters@.len() - i,
        {
            self.counters[i].store(0, Ordering::Relaxed);
            i = i + 1;
        }
    }
}

/// A prefix of the counters sums to at most the whole.
pub proof fn lemma_counters_sum_prefix(s: Seq<u64>, k: int)
    requires
        0 <= k <= s.len(),
    ensures
        counters_sum(s.take(k)) <= counters_sum(s),
        counters_sum(s.take(k)) >= 0,
    decreases s.len(),
{
    if k < s.len() {
        assert(s.drop_last().take(k) =~= s.take(k));
        lemma_counters_sum_prefix(s.drop_last(), k);
    } else {
        assert(s.take(k) =~= s);
    }
    lemma_counters_sum_nonneg(s);
    lemma_counters_sum_nonneg(s.take(k));
}

pub proof fn lemma_counters_sum_nonneg(s: Seq<u64>)
    ensures
        counters_sum(s) >= 0,
    decreases s.len(),
{
    if s.len() > 0 {
        lemma_counters_sum_nonneg(s.drop_last());
    }
}

} // verus!
