//! The `slab` crate's `Slab`, as the id allocators use it: a store whose
//! entries are known by the keys it hands out.
//!
//! Only slabs of `()` are used; their contents are named by `slab_keys`,
//! the set of keys that hold an entry.

use slab::Slab;
use vstd::prelude::*;

verus! {

#[verifier::external_type_specification]
#[verifier::external_body]
#[verifier::reject_recursive_types(T)]
pub struct ExSlab<T>(Slab<T>);

/// The keys of the occupied entries of a slab.
pub uninterp spec fn slab_keys(s: Slab<()>) -> Set<usize>;

/// `Slab::with_capacity`: an empty slab with room for `capacity` entries.
#[verifier::external_body]
pub(crate) fn slab_with_capacity(capacity: usize) -> (s: Slab<()>)
    ensures
        slab_keys(s) == Set::<usize>::empty(),
{
    Slab::with_capacity(capacity)
}

/// `Slab::insert`: stores an entry under a key that held none, and returns the key.
#[verifier::external_body]
pub(crate) fn slab_insert(s: &mut Slab<()>) -> (key: usize)
    requires
        slab_keys(*old(s)).finite(),
        slab_keys(*old(s)).len() < usize::MAX,
    ensures
        !slab_keys(*old(s)).contains(key),
        slab_keys(*final(s)) == slab_keys(*old(s)).insert(key),
{
    s.insert(())
}

/// `Slab::len`: the number of occupied entries.
#[verifier::external_body]
pub(crate) fn slab_len(s: &Slab<()>) -> (n: usize)
    ensures
        n == slab_keys(*s).len(),
{
    s.len()
}

} // verus!
