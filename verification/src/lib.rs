//! Wire formats, identifier allocation and bookkeeping for a QUIC-based proxy.

pub mod arena;
pub mod bytes_io;
pub mod clock;
pub mod error;
pub mod id;
pub mod math;
pub mod metrics;
pub mod msgs;
pub mod pool;
pub mod quic;
pub mod seg_queue;
pub mod slab_keys;
pub mod socks;
pub mod squic;
pub mod utils;
