//! How per-core workers are laid out: how many there are, which CPU each
//! runs on, how flows are spread over them, and their counters summed.

use crate::math::next_power_of_two;
use vstd::prelude::*;

verus! {

/// How a pool of workers is set up.
pub struct WorkerConfig {
    /// The CPUs to pin workers to, in turn; without them worker `i` runs on
    /// CPU `i` modulo the number of CPUs.
    pub cpu_affinity: Option<Vec<usize>>,
    pub worker_threads: usize,
    pub queue_size: usize,
    pub poll_timeout_us: usize,
}

impl WorkerConfig {
    /// The default set-up on a machine with `cpus` CPUs: one worker per CPU,
    /// queues of 4096 packets, polls of 100 µs, no pinning list.
    pub fn default_for(cpus: usize) -> (c: Self)
        ensures
            c.cpu_affinity is None,
            c.worker_threads == cpus,
            c.queue_size == 4096,
            c.poll_timeout_us == 100,
    {
        WorkerConfig { cpu_affinity: None, worker_threads: cpus, queue_size: 4096, poll_timeout_us: 100 }
    }
}

/// The number of CPUs assumed when the machine does not tell.
pub const FALLBACK_CPUS: usize = 4;

/// Counters of one worker; each wraps around at `usize::MAX`.
#[derive(Clone, Copy, Debug, Default)]
pub struct WorkerStats {
    pub packets_processed: usize,
    pub packets_dropped: usize,
    pub cycles_idle: usize,
    pub cycles_busy: usize,
}

impl WorkerStats {
    /// Counts a packet handed to the worker.
    pub fn record_processed(&mut self)
        ensures
            *final(self) == (WorkerStats {
                packets_processed: old(self).packets_processed.wrapping_add(1),
                ..*old(self)
            }),
    {
        self.packets_processed = self.packets_processed.wrapping_add(1);
    }
}

/// Counters of a pool of workers.
#[derive(Debug, Default)]
pub struct PoolStats {
    pub worker_count: usize,
    pub total_processed: usize,
    pub total_dropped: usize,
}

/// The CPU of worker `i`: from the pinning list in turn, else `i` modulo the
/// number of CPUs.
pub open spec fn cpu_of_worker(affinity: Option<Seq<usize>>, cpu_count: usize, i: int) -> usize {
    match affinity {
        Some(list) => list[i % list.len() as int],
        None => (i % cpu_count as int) as usize,
    }
}

/// The CPUs of the workers of a pool: as many workers as asked for, but no
/// more than there are CPUs.
pub fn worker_cpus(config: &WorkerConfig, cpu_count: usize) -> (cpus: Vec<usize>)
    requires
        config.cpu_affinity matches Some(list) ==> list@.len() > 0,
    ensures
        cpus@.len() == if config.worker_threads < cpu_count { config.worker_threads } else { cpu_count },
        forall|i: int|
            0 <= i < cpus@.len() ==> #[trigger] cpus@[i] == cpu_of_worker(
                match config.cpu_affinity {
                    Some(list) => Some(list@),
                    None => None,
                },
                cpu_count,
                i,
            ),
{
    let worker_count = if config.worker_threads < cpu_count {
        config.worker_threads
    } else {
        cpu_count
    };
    let mut cpus: Vec<usize> = Vec::new();
    let mut i: usize = 0;
    while i < worker_count
        invariant
            i <= worker_count,
            worker_count <= cpu_count,
            worker_count == if config.worker_threads < cpu_count { config.worker_threads } else { cpu_count },
            config.cpu_affinity matches Some(list) ==> list@.len() > 0,
            cpus@.len() == i,
            forall|j: int|
                0 <= j < i ==> #[trigger] cpus@[j] == cpu_of_worker(
                    match config.cpu_affinity {
                        Some(list) => Some(list@),
                        None => None,
                    },
                    cpu_count,
                    j,
                ),
        decreases worker_count - i,
    {
        let cpu = match &config.cpu_affinity {
            Some(list) => list[i % list.len()],
            None => i % cpu_count,
        };
        cpus.push(cpu);
        i = i + 1;
    }
    cpus
}

/// The sum of the processed (`processed`) or dropped counters of `stats`.
pub open spec fn stats_sum(stats: Seq<WorkerStats>, processed: bool) -> int
    decreases stats.len(),
{
    if stats.len() == 0 {
        0
    } else {
        stats_sum(stats.drop_last(), processed) + if processed {
            stats.last().packets_processed as int
        } else {
            stats.last().packets_dropped as int
        }
    }
}

proof fn lemma_stats_sum_prefix(stats: Seq<WorkerStats>, processed: bool, k: int)
    requires
        0 <= k <= stats.len(),
    ensures
        0 <= stats_sum(stats.take(k), processed) <= stats_sum(stats, processed),
    decreases stats.len(),
{
    if stats.len() > 0 {
        if k < stats.len() {
            assert(stats.drop_last().take(k) =~= stats.take(k));
            lemma_stats_sum_prefix(stats.drop_last(), processed, k);
        } else {
            assert(stats.take(k) =~= stats);
            lemma_stats_sum_prefix(stats.drop_last(), processed, stats.len() - 1);
            assert(stats.drop_last().take(stats.len() - 1) =~= stats.drop_last());
        }
    } else {
        assert(stats.take(k) =~= stats);
    }
}

/// The counters of a pool: its workers, and their processed and dropped
/// packets summed; the sums must fit in `usize`.
pub fn pool_stats(workers: &Vec<WorkerStats>) -> (s: PoolStats)
    requires
        stats_sum(workers@, true) <= usize::MAX,
        stats_sum(workers@, false) <= usize::MAX,
    ensures
        s.worker_count == workers@.len(),
        s.total_processed == stats_sum(workers@, true),
        s.total_dropped == stats_sum(workers@, false),
{
    let mut s = PoolStats { worker_count: 0, total_processed: 0, total_dropped: 0 };
    let mut i: usize = 0;
    while i < workers.len()
        invariant
            i <= workers@.len(),
            stats_sum(workers@, true) <= usize::MAX,
            stats_sum(workers@, false) <= usize::MAX,
            s.worker_count == i,
            s.total_processed == stats_sum(workers@.take(i as int), true),
            s.total_dropped == stats_sum(workers@.take(i as int), false),
        decreases workers@.len() - i,
    {
        proof {
            let k = i as int + 1;
            assert(workers@.take(k).drop_last() =~= workers@.take(i as int));
            lemma_stats_sum_prefix(workers@, true, k);
            lemma_stats_sum_prefix(workers@, false, k);
        }
        s.total_processed = s.total_processed + workers[i].packets_processed;
        s.total_dropped = s.total_dropped + workers[i].packets_dropped;
        s.worker_count = s.worker_count + 1;
        i = i + 1;
    }
    proof {
        assert(workers@.take(i as int) =~= workers@);
    }
    s
}

/// The mask a flow distributor picks a worker with: the number of workers
/// rounded up to a power of two, less one.
pub fn flow_mask(workers: usize) -> (mask: usize)
    requires
        workers <= usize::MAX / 2 + 1,
    ensures
        crate::math::is_next_power_of_two(workers as nat, (mask + 1) as nat),
{
    next_power_of_two(workers) - 1
}

/// The worker of a flow whose addresses hash to `hash`: the low bits of the
/// hash. It names a worker only when it is below the number of workers.
pub fn flow_index(hash: u64, mask: usize) -> (i: usize)
    ensures
        i == (hash as usize) & mask,
        i <= mask,
{
    proof {
        crate::math::lemma_mask_below(hash as usize, mask);
    }
    (hash as usize) & mask
}

/// The worker that serves id `id` among `workers` workers.
pub fn worker_by_id(id: usize, workers: usize) -> (i: usize)
    requires
        workers > 0,
    ensures
        i == id % workers,
        i < workers,
{
    id % workers
}

} // verus!
