//! The UDP sessions of a connection, keyed by their 16-bit id and spread
//! over shards.
//!
//! Looking an id up may have to wait until another task inserts it. The
//! waiting belongs to the caller: `begin_get_or_create` says whether to
//! wait, the caller waits for the signal that `insert` asks for, and
//! `finish_get_or_create` answers once the wait is over.

use crate::error::SError;
use crate::msgs::socks5::SocksAddr;
use crate::msgs::WireModel;
use vstd::prelude::*;

verus! {

pub const SHARD_COUNT: usize = 64;

pub const MAX_UDP_SESSIONS: usize = 65536;

/// The slots of one shard.
pub const SLOTS_PER_SHARD: usize = MAX_UDP_SESSIONS / SHARD_COUNT;

pub const SLOT_EMPTY: u32 = 0;

pub const SLOT_PENDING: u32 = 1;

pub const SLOT_READY: u32 = 2;

pub const SLOT_CLOSING: u32 = 3;

/// What the store knows of one id.
pub struct IdSlot<T> {
    /// `SLOT_EMPTY`, `SLOT_PENDING`, `SLOT_READY` or `SLOT_CLOSING`.
    pub state: u32,
    /// The socket and the destination of the session, once inserted.
    pub data: Option<(T, SocksAddr)>,
    /// A task waits for the id to be inserted.
    pub waiting: bool,
}

impl<T> IdSlot<T> {
    pub fn new() -> (s: Self)
        ensures
            s == empty_slot::<T>(),
    {
        IdSlot { state: SLOT_EMPTY, data: None, waiting: false }
    }
}

/// A slot that nothing has touched.
pub open spec fn empty_slot<T>() -> IdSlot<T> {
    IdSlot { state: SLOT_EMPTY, data: None, waiting: false }
}

/// The shard of an id.
pub open spec fn shard_of(id: u16) -> int {
    id as int % SHARD_COUNT as int
}

/// The place of an id in its shard.
pub open spec fn slot_index(id: u16) -> int {
    id as int / SHARD_COUNT as int
}

/// A lookup finds the session: it is ready and its data is there.
pub open spec fn found<T>(s: IdSlot<T>) -> bool {
    s.state == SLOT_READY && s.data is Some
}

/// `r` is what a lookup hands out of `d`: a clone of the socket and the same
/// destination.
pub open spec fn handed_out<T: Clone>(r: (T, SocksAddr), d: (T, SocksAddr)) -> bool {
    cloned(d.0, r.0) && r.1.model() == d.1.model()
}

/// The slot after `insert`: ready, holding the session, with nobody waiting.
pub open spec fn inserted<T>(udp: T, addr: SocksAddr) -> IdSlot<T> {
    IdSlot { state: SLOT_READY, data: Some((udp, addr)), waiting: false }
}

/// The slot after `remove`: empty, and any waiter still waits.
pub open spec fn removed<T>(s: IdSlot<T>) -> IdSlot<T> {
    IdSlot { state: SLOT_EMPTY, data: None, ..s }
}

/// The slot after a lookup claimed an empty id: pending, with a waiter.
pub open spec fn claimed<T>() -> IdSlot<T> {
    IdSlot { state: SLOT_PENDING, data: None, waiting: true }
}

struct UdpIdShard<T> {
    slots: Vec<IdSlot<T>>,
    version: u64,
}

/// The UDP sessions of a connection.
pub struct UdpIdStore<T> {
    shards: Vec<UdpIdShard<T>>,
}

/// What `begin_get_or_create` found.
pub enum GetOrCreateStart<T> {
    /// The session: a clone of its socket and its destination.
    Found(T, SocksAddr),
    /// The id was free and is now pending: the caller sets up a new signal
    /// for it (dropping any earlier one) and fails with this error.
    Armed(SError),
    /// The id is pending: wait for its signal, then call
    /// `finish_get_or_create`.
    Wait,
    /// No session: fail with this error.
    Missing(SError),
}

impl<T> UdpIdStore<T> {
    /// The shards have their number of slots.
    pub closed spec fn wf(self) -> bool {
        &&& self.shards@.len() == SHARD_COUNT
        &&& forall|i: int| 0 <= i < SHARD_COUNT ==> #[trigger] self.shards@[i].slots@.len() == SLOTS_PER_SHARD
    }

    /// The slot of `id`.
    pub closed spec fn slot(self, id: u16) -> IdSlot<T> {
        self.shards@[shard_of(id)].slots@[slot_index(id)]
    }

    /// The change counter of shard `i`.
    pub closed spec fn version(self, i: int) -> u64 {
        self.shards@[i].version
    }

    /// Every id empty, every change counter 0.
    pub fn new() -> (s: Self)
        ensures
            s.wf(),
            forall|id: u16| #[trigger] s.slot(id) == empty_slot::<T>(),
            forall|i: int| 0 <= i < SHARD_COUNT ==> #[trigger] s.version(i) == 0,
    {
        let mut shards: Vec<UdpIdShard<T>> = Vec::new();
        let mut i: usize = 0;
        while i < SHARD_COUNT
            invariant
                i <= SHARD_COUNT,
                shards@.len() == i,
                forall|k: int| 0 <= k < i ==> #[trigger] shards@[k].slots@.len() == SLOTS_PER_SHARD,
                forall|k: int| 0 <= k < i ==> #[trigger] shards@[k].version == 0,
                forall|k: int, j: int|
                    0 <= k < i && 0 <= j < SLOTS_PER_SHARD ==> #[trigger] shards@[k].slots@[j]
                        == empty_slot::<T>(),
            decreases SHARD_COUNT - i,
        {
            let mut slots: Vec<IdSlot<T>> = Vec::new();
            let mut j: usize = 0;
            while j < SLOTS_PER_SHARD
                invariant
                    j <= SLOTS_PER_SHARD,
                    slots@.len() == j,
                    forall|k: int| 0 <= k < j ==> #[trigger] slots@[k] == empty_slot::<T>(),
                decreases SLOTS_PER_SHARD - j,
            {
                slots.push(IdSlot::new());
                j = j + 1;
            }
            shards.push(UdpIdShard { slots, version: 0 });
            i = i + 1;
        }
        let s = UdpIdStore { shards };
        proof {
            assert forall|id: u16| #[trigger] s.slot(id) == empty_slot::<T>() by {
                lemma_slot_in_range(id);
            }
        }
        s
    }
}

/// The shard of `id`.
fn shard_index(id: u16) -> (i: usize)
    ensures
        i == shard_of(id),
{
    (id as usize) % SHARD_COUNT
}

/// The place of `id` in its shard.
fn slot_position(id: u16) -> (i: usize)
    ensures
        i == slot_index(id),
{
    (id as usize) / SHARD_COUNT
}

impl<T: Clone> UdpIdStore<T> {
    /// Looks `id` up. A ready session is handed out; a free id is claimed
    /// (it becomes pending, with a waiter) and the lookup fails; a pending id
    /// with a waiter is waited for; anything else fails.
    pub fn begin_get_or_create(&mut self, id: u16) -> (r: GetOrCreateStart<T>)
        requires
            old(self).wf(),
        ensures
            final(self).wf(),
            forall|j: u16| j != id ==> #[trigger] final(self).slot(j) == old(self).slot(j),
            forall|i: int| 0 <= i < SHARD_COUNT ==> #[trigger] final(self).version(i) == old(self).version(i),
            ({
                let s = old(self).slot(id);
                &&& found(s) ==> (r matches GetOrCreateStart::Found(u, a) && handed_out((u, a), s.data->0)
                    && final(self).slot(id) == s)
                &&& s.state == SLOT_EMPTY ==> (r matches GetOrCreateStart::Armed(SError::UDPSessionClosed(m))
                    && m@ == "id not found"@ && final(self).slot(id) == claimed::<T>())
                &&& s.state == SLOT_PENDING && s.waiting ==> (r is Wait && final(self).slot(id) == s)
                &&& !found(s) && s.state != SLOT_EMPTY && !(s.state == SLOT_PENDING && s.waiting) ==> (r matches GetOrCreateStart::Missing(
                    SError::UDPSessionClosed(m),
                ) && m@ == "not found"@ && final(self).slot(id) == s)
            }),
    {
        let si = shard_index(id);
        let pi = slot_position(id);
        proof {
            lemma_slot_in_range(id);
        }
        let state = self.shards[si].slots[pi].state;
        if state == SLOT_READY {
            match &self.shards[si].slots[pi].data {
                Some(d) => {
                    let udp = d.0.clone();
                    let addr = d.1.duplicate();
                    return GetOrCreateStart::Found(udp, addr);
                },
                None => {},
            }
        } else if state == SLOT_EMPTY {
            let ghost before = *self;
            let mut slot = IdSlot { state: SLOT_PENDING, data: None, waiting: true };
            std::mem::swap(&mut self.shards[si].slots[pi], &mut slot);
            proof {
                assert forall|j: u16| j != id implies #[trigger] self.slot(j) == before.slot(j) by {
                    lemma_distinct_ids_distinct_slots(j, id);
                    lemma_slot_in_range(j);
                }
            }
            return GetOrCreateStart::Armed(SError::UDPSessionClosed("id not found".to_owned()));
        } else if state == SLOT_PENDING {
            if self.shards[si].slots[pi].waiting {
                return GetOrCreateStart::Wait;
            }
        }
        GetOrCreateStart::Missing(SError::UDPSessionClosed("not found".to_owned()))
    }

    /// The answer to a lookup that waited for `id`: when the signal came,
    /// the session if it is there; when the signal was dropped, an error.
    pub fn finish_get_or_create(&self, id: u16, signalled: bool) -> (r: Result<(T, SocksAddr), SError>)
        requires
            self.wf(),
        ensures
            !signalled ==> (r matches Err(SError::UDPSessionClosed(m)) && m@ == "closed"@),
            signalled && self.slot(id).data is Some ==> (r matches Ok(v) && handed_out(v, self.slot(id).data->0)),
            signalled && self.slot(id).data is None ==> (r matches Err(SError::UDPSessionClosed(m)) && m@
                == "not found"@),
    {
        if !signalled {
            return Err(SError::UDPSessionClosed("closed".to_owned()));
        }
        let si = shard_index(id);
        let pi = slot_position(id);
        proof {
            lemma_slot_in_range(id);
        }
        match &self.shards[si].slots[pi].data {
            Some(d) => Ok((d.0.clone(), d.1.duplicate())),
            None => Err(SError::UDPSessionClosed("not found".to_owned())),
        }
    }

    /// Stores the session of `id` and makes it ready; the change counter of
    /// its shard goes up by one. The result says whether a waiter is to be
    /// signalled.
    pub fn insert(&mut self, id: u16, udp: T, addr: SocksAddr) -> (notify: bool)
        requires
            old(self).wf(),
        ensures
            final(self).wf(),
            notify == old(self).slot(id).waiting,
            final(self).slot(id) == inserted(udp, addr),
            forall|j: u16| j != id ==> #[trigger] final(self).slot(j) == old(self).slot(j),
            final(self).version(shard_of(id)) == old(self).version(shard_of(id)).wrapping_add(1),
            forall|i: int|
                0 <= i < SHARD_COUNT && i != shard_of(id) ==> #[trigger] final(self).version(i) == old(self).version(i),
    {
        let si = shard_index(id);
        let pi = slot_position(id);
        proof {
            lemma_slot_in_range(id);
        }
        let ghost before = *self;
        let notify = self.shards[si].slots[pi].waiting;
        let mut slot = IdSlot { state: SLOT_READY, data: Some((udp, addr)), waiting: false };
        std::mem::swap(&mut self.shards[si].slots[pi], &mut slot);
        let v = self.shards[si].version;
        self.shards[si].version = v.wrapping_add(1);
        proof {
            assert forall|j: u16| j != id implies #[trigger] self.slot(j) == before.slot(j) by {
                lemma_distinct_ids_distinct_slots(j, id);
                lemma_slot_in_range(j);
            }
        }
        notify
    }

    /// The session of `id` when it is ready.
    pub fn try_get(&self, id: u16) -> (r: Option<(T, SocksAddr)>)
        requires
            self.wf(),
        ensures
            r is Some <==> found(self.slot(id)),
            r matches Some(v) ==> handed_out(v, self.slot(id).data->0),
    {
        let si = shard_index(id);
        let pi = slot_position(id);
        proof {
            lemma_slot_in_range(id);
        }
        if self.shards[si].slots[pi].state == SLOT_READY {
            if let Some(d) = &self.shards[si].slots[pi].data {
                return Some((d.0.clone(), d.1.duplicate()));
            }
        }
        None
    }

    /// Forgets the session of `id`; the change counter of its shard goes up
    /// by one.
    pub fn remove(&mut self, id: u16)
        requires
            old(self).wf(),
        ensures
            final(self).wf(),
            final(self).slot(id) == removed(old(self).slot(id)),
            forall|j: u16| j != id ==> #[trigger] final(self).slot(j) == old(self).slot(j),
            final(self).version(shard_of(id)) == old(self).version(shard_of(id)).wrapping_add(1),
            forall|i: int|
                0 <= i < SHARD_COUNT && i != shard_of(id) ==> #[trigger] final(self).version(i) == old(self).version(i),
    {
        let si = shard_index(id);
        let pi = slot_position(id);
        proof {
            lemma_slot_in_range(id);
        }
        let ghost before = *self;
        let waiting = self.shards[si].slots[pi].waiting;
        let mut slot = IdSlot { state: SLOT_EMPTY, data: None, waiting };
        std::mem::swap(&mut self.shards[si].slots[pi], &mut slot);
        let v = self.shards[si].version;
        self.shards[si].version = v.wrapping_add(1);
        proof {
            assert forall|j: u16| j != id implies #[trigger] self.slot(j) == before.slot(j) by {
                lemma_distinct_ids_distinct_slots(j, id);
                lemma_slot_in_range(j);
            }
        }
    }
}

impl<T> Default for UdpIdStore<T> {
    fn default() -> (s: Self)
        ensures
            s.wf(),
            forall|id: u16| #[trigger] s.slot(id) == empty_slot::<T>(),
    {
        UdpIdStore::new()
    }
}

/// Every id has its slot, and no two ids share one.
pub proof fn lemma_slot_in_range(id: u16)
    ensures
        0 <= shard_of(id) < SHARD_COUNT,
        0 <= slot_index(id) < SLOTS_PER_SHARD,
        id == slot_index(id) * SHARD_COUNT + shard_of(id),
{
}

/// Two different ids never share a slot.
pub proof fn lemma_distinct_ids_distinct_slots(a: u16, b: u16)
    requires
        a != b,
    ensures
        shard_of(a) != shard_of(b) || slot_index(a) != slot_index(b),
{
    lemma_slot_in_range(a);
    lemma_slot_in_range(b);
}

/// An inserted session is found, with what was inserted, and nobody waits
/// on it any more; a removed one is not found; a claimed id is pending with
/// a waiter, so the next lookup waits and the insert that follows signals.
pub proof fn lemma_session_lifecycle<T>(udp: T, addr: SocksAddr, s: IdSlot<T>)
    ensures
        found(inserted(udp, addr)),
        inserted(udp, addr).data == Some((udp, addr)),
        !inserted(udp, addr).waiting,
        !found(removed(s)),
        claimed::<T>().state == SLOT_PENDING,
        claimed::<T>().waiting,
        !found(claimed::<T>()),
{
}

} // verus!
