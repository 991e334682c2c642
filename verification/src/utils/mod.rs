//! Buffer pools, batching and queueing helpers for the packet paths.

pub mod memory_pool;
pub mod numa_allocator;
pub mod batch_ops;
pub mod lock_free_ring;
pub mod optimized_addr;
pub mod udp_batch;
pub mod batch_udp;
pub mod per_core_worker;
