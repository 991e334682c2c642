//! The marker that keeps `IdGenerator` closed to this crate.

use vstd::prelude::*;

verus! {

pub trait Sealed {}

impl Sealed for super::AtomicIdGenerator {}

impl Sealed for super::ShardedIdGenerator {}

} // verus!
