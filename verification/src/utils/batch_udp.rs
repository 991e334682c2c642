//! Sizes and counters of batched UDP receiving and sending.

use vstd::prelude::*;

verus! {

pub const MAX_BATCH_SIZE: usize = 64;

pub const DEFAULT_BATCH_SIZE: usize = 32;

/// The number of receive slots a batch buffer of `capacity` is made with.
pub fn batch_slots(capacity: usize) -> (n: usize)
    ensures
        n == if capacity < MAX_BATCH_SIZE { capacity } else { MAX_BATCH_SIZE },
{
    if capacity < MAX_BATCH_SIZE {
        capacity
    } else {
        MAX_BATCH_SIZE
    }
}

/// Counters of a batched UDP socket; each wraps around at `usize::MAX`.
#[derive(Clone, Copy, Debug, Default)]
pub struct BatchUdpStats {
    pub packets_received: usize,
    pub packets_sent: usize,
    pub recv_calls: usize,
    pub send_calls: usize,
    pub errors: usize,
}

} // verus!
