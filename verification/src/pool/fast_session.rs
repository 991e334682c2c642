//! A session table that keeps per-session state beside the session data,
//! and a set of such tables chosen by a hash of the peer's address.
//!
//! Times are whole seconds of the monotonic clock, read by
//! `clock::elapsed_secs_stamp`.

use crate::clock::elapsed_secs_stamp;
use crate::math::{is_next_power_of_two, lemma_mask_below, next_power_of_two};
use crate::msgs::socks5::SocksAddr;
use crate::msgs::WireModel;
use crate::pool::table::held_ids;
use std::collections::HashMap;
use vstd::prelude::*;

verus! {

broadcast use vstd::std_specs::hash::group_hash_axioms;

pub const DEFAULT_SHARD_CAPACITY: usize = 64;

/// Seconds a released session may stay idle before a cleanup closes it.
pub const FAST_SESSION_EXPIRE_SECS: u64 = 60;

#[derive(Clone, Copy, Debug, PartialEq, Eq, Structural)]
pub enum FastSessionType {
    Tcp,
    UdpDatagram,
    UdpStream,
}

impl Default for FastSessionType {
    fn default() -> (t: Self)
        ensures
            t == FastSessionType::Tcp,
    {
        FastSessionType::Tcp
    }
}

/// What a session is for: its id, the peer, the bound address and its kind.
#[derive(Clone, Debug)]
pub struct FastSessionData {
    pub id: u32,
    pub remote_addr: SocksAddr,
    pub bind_addr: SocksAddr,
    pub session_type: FastSessionType,
    pub created_at: u64,
    pub bytes_sent: u32,
    pub bytes_received: u32,
}

/// `a` and `b` describe the same session.
pub open spec fn same_data(a: FastSessionData, b: FastSessionData) -> bool {
    &&& a.id == b.id
    &&& a.remote_addr.model() == b.remote_addr.model()
    &&& a.bind_addr.model() == b.bind_addr.model()
    &&& a.session_type == b.session_type
    &&& a.created_at == b.created_at
    &&& a.bytes_sent == b.bytes_sent
    &&& a.bytes_received == b.bytes_received
}

impl FastSessionData {
    /// A session with no traffic, stamped with the current time.
    pub fn new(id: u32, remote_addr: SocksAddr, bind_addr: SocksAddr, session_type: FastSessionType) -> (d: Self)
        ensures
            d.id == id,
            d.remote_addr == remote_addr,
            d.bind_addr == bind_addr,
            d.session_type == session_type,
            d.bytes_sent == 0,
            d.bytes_received == 0,
    {
        FastSessionData {
            id,
            remote_addr,
            bind_addr,
            session_type,
            created_at: elapsed_secs_stamp(),
            bytes_sent: 0,
            bytes_received: 0,
        }
    }

    /// A copy that describes the same session.
    pub fn duplicate(&self) -> (r: Self)
        ensures
            same_data(r, *self),
    {
        FastSessionData {
            id: self.id,
            remote_addr: self.remote_addr.duplicate(),
            bind_addr: self.bind_addr.duplicate(),
            session_type: self.session_type,
            created_at: self.created_at,
            bytes_sent: self.bytes_sent,
            bytes_received: self.bytes_received,
        }
    }
}

/// Whether a session is in use, when it was last released, and its traffic.
pub struct FastSessionState {
    pub last_active: u64,
    pub in_use: bool,
    pub bytes_sent: usize,
    pub bytes_received: usize,
}

impl FastSessionState {
    /// A state in use, with no traffic, stamped with the current time.
    pub fn new() -> (s: Self)
        ensures
            s.in_use,
            s.bytes_sent == 0,
            s.bytes_received == 0,
    {
        FastSessionState { last_active: elapsed_secs_stamp(), in_use: true, bytes_sent: 0, bytes_received: 0 }
    }

    pub fn is_available(&self) -> (r: bool)
        ensures
            r == !self.in_use,
    {
        !self.in_use
    }

    /// Takes the session when it is free; `true` when it was taken.
    pub fn try_acquire(&mut self) -> (r: bool)
        ensures
            r == !old(self).in_use,
            final(self).in_use,
            final(self).last_active == old(self).last_active,
            final(self).bytes_sent == old(self).bytes_sent,
            final(self).bytes_received == old(self).bytes_received,
    {
        if !self.in_use {
            self.in_use = true;
            true
        } else {
            false
        }
    }

    /// Frees the session, stamped with the time the clock shows.
    pub fn release(&mut self)
        ensures
            fast_released(*old(self), *final(self)),
    {
        let now = elapsed_secs_stamp();
        self.release_at(now);
    }

    /// Frees the session, stamped with `now`.
    pub fn release_at(&mut self, now: u64)
        ensures
            *final(self) == (FastSessionState { last_active: now, in_use: false, ..*old(self) }),
    {
        self.last_active = now;
        self.in_use = false;
    }

    pub fn last_active(&self) -> (t: u64)
        ensures
            t == self.last_active,
    {
        self.last_active
    }
}

/// `after` is `before` freed and stamped with some time: only the stamp and
/// the in-use flag change.
pub open spec fn fast_released(before: FastSessionState, after: FastSessionState) -> bool {
    exists|now: u64| after == (FastSessionState { last_active: now, in_use: false, ..before })
}

/// Whether a session in state `s` is due for closing at time `now`: it is
/// free and more than `FAST_SESSION_EXPIRE_SECS` seconds passed since its
/// release (none when `now` is earlier).
pub open spec fn fast_expired(s: FastSessionState, now: u64) -> bool {
    !s.in_use && now >= s.last_active && now - s.last_active > FAST_SESSION_EXPIRE_SECS
}

pub fn is_expired_at(s: &FastSessionState, now: u64) -> (r: bool)
    ensures
        r == fast_expired(*s, now),
{
    !s.in_use && now >= s.last_active && now - s.last_active > FAST_SESSION_EXPIRE_SECS
}

/// Counters of a session table; each wraps around at `usize::MAX`.
#[derive(Clone, Copy, Debug)]
pub struct FastSessionStats {
    pub total: usize,
    pub active: usize,
    pub tcp: usize,
    pub udp: usize,
    pub created: usize,
    pub closed: usize,
}

pub open spec fn zero_fast_stats() -> FastSessionStats {
    FastSessionStats { total: 0, active: 0, tcp: 0, udp: 0, created: 0, closed: 0 }
}

impl Default for FastSessionStats {
    fn default() -> (s: Self)
        ensures
            s == zero_fast_stats(),
    {
        FastSessionStats { total: 0, active: 0, tcp: 0, udp: 0, created: 0, closed: 0 }
    }
}

/// The counters after a session of type `t` was created.
pub open spec fn fast_stats_after_create(s: FastSessionStats, t: FastSessionType) -> FastSessionStats {
    FastSessionStats {
        total: s.total.wrapping_add(1),
        active: s.active.wrapping_add(1),
        created: s.created.wrapping_add(1),
        tcp: if t == FastSessionType::Tcp { s.tcp.wrapping_add(1) } else { s.tcp },
        udp: if t == FastSessionType::Tcp { s.udp } else { s.udp.wrapping_add(1) },
        ..s
    }
}

/// The counters after a session of type `t` was closed.
pub open spec fn fast_stats_after_close(s: FastSessionStats, t: FastSessionType) -> FastSessionStats {
    FastSessionStats {
        total: s.total.wrapping_sub(1),
        closed: s.closed.wrapping_add(1),
        tcp: if t == FastSessionType::Tcp { s.tcp.wrapping_sub(1) } else { s.tcp },
        udp: if t == FastSessionType::Tcp { s.udp } else { s.udp.wrapping_sub(1) },
        ..s
    }
}

/// The counters after closing, one after the other, the sessions `ids` of
/// `sessions`: `fast_stats_after_close` once for each, with its type.
pub open spec fn fast_stats_after_closing(
    s: FastSessionStats,
    sessions: Map<u32, (FastSessionData, FastSessionState)>,
    ids: Seq<u32>,
) -> FastSessionStats
    decreases ids.len(),
{
    if ids.len() == 0 {
        s
    } else {
        fast_stats_after_close(
            fast_stats_after_closing(s, sessions, ids.drop_last()),
            sessions[ids.last()].0.session_type,
        )
    }
}

/// The counters of a `FastSessionManager`, read at one moment.
#[derive(Debug, Default)]
pub struct FastSessionStatsSnapshot {
    pub total: usize,
    pub active: usize,
    pub tcp: usize,
    pub udp: usize,
    pub created: usize,
    pub closed: usize,
}

pub struct FastSessionManager {
    sessions: HashMap<u32, (FastSessionData, FastSessionState)>,
    id_gen: u32,
    stats: FastSessionStats,
}

impl FastSessionManager {
    /// The sessions held, by id, each with its state.
    pub closed spec fn sessions(self) -> Map<u32, (FastSessionData, FastSessionState)> {
        self.sessions@
    }

    /// The id the next session gets.
    pub closed spec fn next_id(self) -> u32 {
        self.id_gen
    }

    pub closed spec fn counters(self) -> FastSessionStats {
        self.stats
    }

    /// An empty table whose first session gets id 1.
    pub fn new() -> (m: Self)
        ensures
            m.sessions() == Map::<u32, (FastSessionData, FastSessionState)>::empty(),
            m.next_id() == 1,
            m.counters() == zero_fast_stats(),
    {
        FastSessionManager {
            sessions: HashMap::with_capacity(DEFAULT_SHARD_CAPACITY),
            id_gen: 1,
            stats: FastSessionStats::default(),
        }
    }

    /// Makes a session in use under the next id, counts it, and returns its data.
    pub fn create_session(&mut self, remote_addr: SocksAddr, bind_addr: SocksAddr, session_type: FastSessionType) -> (d: FastSessionData)
        ensures
            d.id == old(self).next_id(),
            d.remote_addr == remote_addr,
            d.bind_addr == bind_addr,
            d.session_type == session_type,
            d.bytes_sent == 0,
            d.bytes_received == 0,
            final(self).next_id() == old(self).next_id().wrapping_add(1),
            final(self).sessions().contains_key(d.id),
            final(self).sessions() == old(self).sessions().insert(d.id, final(self).sessions()[d.id]),
            same_data(final(self).sessions()[d.id].0, d),
            final(self).sessions()[d.id].1.in_use,
            final(self).sessions()[d.id].1.bytes_sent == 0,
            final(self).sessions()[d.id].1.bytes_received == 0,
            final(self).counters() == fast_stats_after_create(old(self).counters(), session_type),
    {
        let id = self.id_gen;
        self.id_gen = self.id_gen.wrapping_add(1);
        let data = FastSessionData::new(id, remote_addr, bind_addr, session_type);
        let state = FastSessionState::new();
        self.sessions.insert(id, (data.duplicate(), state));
        self.stats.total = self.stats.total.wrapping_add(1);
        self.stats.active = self.stats.active.wrapping_add(1);
        self.stats.created = self.stats.created.wrapping_add(1);
        match session_type {
            FastSessionType::Tcp => {
                self.stats.tcp = self.stats.tcp.wrapping_add(1);
            },
            _ => {
                self.stats.udp = self.stats.udp.wrapping_add(1);
            },
        }
        data
    }

    /// A copy of the data of session `id`, or `None` when none is held.
    pub fn get_session(&self, id: u32) -> (r: Option<FastSessionData>)
        ensures
            r is Some <==> self.sessions().contains_key(id),
            r matches Some(d) ==> same_data(d, self.sessions()[id].0),
    {
        match self.sessions.get(&id) {
            Some(entry) => Some(entry.0.duplicate()),
            None => None,
        }
    }

    /// The same as `get_session`.
    pub fn try_get_session(&self, id: u32) -> (r: Option<FastSessionData>)
        ensures
            r is Some <==> self.sessions().contains_key(id),
            r matches Some(d) ==> same_data(d, self.sessions()[id].0),
    {
        self.get_session(id)
    }

    /// Frees session `id`, stamped with the time the clock shows, and counts
    /// one active session fewer; nothing happens when none is held.
    pub fn release_session(&mut self, id: u32)
        ensures
            final(self).next_id() == old(self).next_id(),
            old(self).sessions().contains_key(id) ==> {
                let (d, s) = old(self).sessions()[id];
                let (d2, s2) = final(self).sessions()[id];
                &&& final(self).sessions().contains_key(id)
                &&& final(self).sessions() == old(self).sessions().insert(id, (d2, s2))
                &&& d2 == d
                &&& fast_released(s, s2)
                &&& final(self).counters() == (FastSessionStats {
                    active: old(self).counters().active.wrapping_sub(1),
                    ..old(self).counters()
                })
            },
            !old(self).sessions().contains_key(id) ==> final(self).sessions() == old(self).sessions()
                && final(self).counters() == old(self).counters(),
    {
        let now = elapsed_secs_stamp();
        self.release_session_at(id, now);
    }

    /// Frees session `id`, stamped with `now`, and counts one active session
    /// fewer; nothing happens when none is held.
    pub fn release_session_at(&mut self, id: u32, now: u64)
        ensures
            final(self).next_id() == old(self).next_id(),
            old(self).sessions().contains_key(id) ==> {
                let (d, s) = old(self).sessions()[id];
                &&& final(self).sessions() == old(self).sessions().insert(
                    id,
                    (d, FastSessionState { last_active: now, in_use: false, ..s }),
                )
                &&& final(self).counters() == (FastSessionStats {
                    active: old(self).counters().active.wrapping_sub(1),
                    ..old(self).counters()
                })
            },
            !old(self).sessions().contains_key(id) ==> final(self).sessions() == old(self).sessions()
                && final(self).counters() == old(self).counters(),
    {
        if let Some(entry) = self.sessions.remove(&id) {
            let (data, mut state) = entry;
            state.release_at(now);
            self.sessions.insert(id, (data, state));
            self.stats.active = self.stats.active.wrapping_sub(1);
            proof {
                assert(self.sessions@ =~= old(self).sessions@.insert(id, self.sessions@[id]));
            }
        }
    }

    /// Removes session `id` and counts it closed; nothing happens when none is held.
    pub fn close_session(&mut self, id: u32)
        ensures
            final(self).next_id() == old(self).next_id(),
            old(self).sessions().contains_key(id) ==> final(self).sessions() == old(self).sessions().remove(id)
                && final(self).counters() == fast_stats_after_close(
                old(self).counters(),
                old(self).sessions()[id].0.session_type,
            ),
            !old(self).sessions().contains_key(id) ==> final(self).sessions() == old(self).sessions()
                && final(self).counters() == old(self).counters(),
    {
        if let Some(entry) = self.sessions.remove(&id) {
            let (data, mut state) = entry;
            state.release();
            self.stats.total = self.stats.total.wrapping_sub(1);
            self.stats.closed = self.stats.closed.wrapping_add(1);
            match data.session_type {
                FastSessionType::Tcp => {
                    self.stats.tcp = self.stats.tcp.wrapping_sub(1);
                },
                _ => {
                    self.stats.udp = self.stats.udp.wrapping_sub(1);
                },
            }
        } else {
            proof {
                assert(self.sessions@ =~= old(self).sessions@);
            }
        }
    }

    /// The counters, read together.
    pub fn stats(&self) -> (s: FastSessionStatsSnapshot)
        ensures
            s.total == self.counters().total,
            s.active == self.counters().active,
            s.tcp == self.counters().tcp,
            s.udp == self.counters().udp,
            s.created == self.counters().created,
            s.closed == self.counters().closed,
    {
        FastSessionStatsSnapshot {
            total: self.stats.total,
            active: self.stats.active,
            tcp: self.stats.tcp,
            udp: self.stats.udp,
            created: self.stats.created,
            closed: self.stats.closed,
        }
    }

    /// Closes every session due for closing at the current time: exactly
    /// those due at the moment that the clock shows.
    pub fn cleanup_expired(&mut self)
        ensures
            fast_cleaned(*old(self), *final(self)),
            final(self).next_id() == old(self).next_id(),
            final(self).sessions().dom().subset_of(old(self).sessions().dom()),
            forall|k: u32| #[trigger]
                final(self).sessions().contains_key(k) ==> final(self).sessions()[k] == old(self).sessions()[k],
            forall|k: u32|
                old(self).sessions().contains_key(k) && !final(self).sessions().contains_key(k)
                    ==> !(#[trigger] old(self).sessions()[k]).1.in_use,
    {
        let now = elapsed_secs_stamp();
        self.cleanup_expired_at(now);
        assert(fast_cleaned_at(*old(self), *self, now));
    }

    /// Closes exactly the sessions due for closing at time `now`.
    pub fn cleanup_expired_at(&mut self, now: u64)
        ensures
            fast_cleaned_at(*old(self), *final(self), now),
            final(self).next_id() == old(self).next_id(),
            final(self).sessions() == old(self).sessions().restrict(
                old(self).sessions().dom().filter(|k: u32| !fast_expired(old(self).sessions()[k].1, now)),
            ),
    {
        let ids = held_ids(&self.sessions);
        let mut to_remove: Vec<u32> = Vec::new();
        let mut i: usize = 0;
        while i < ids.len()
            invariant
                i <= ids@.len(),
                ids@.to_set() == self.sessions@.dom(),
                ids@.no_duplicates(),
                self.sessions@ == old(self).sessions@,
                self.stats == old(self).stats,
                self.id_gen == old(self).id_gen,
                to_remove@.no_duplicates(),
                to_remove@.to_set() == ids@.take(i as int).to_set().filter(
                    |k: u32| fast_expired(old(self).sessions@[k].1, now),
                ),
            decreases ids@.len() - i,
        {
            let id = ids[i];
            proof {
                assert(ids@.to_set().contains(id));
            }
            let expired = match self.sessions.get(&id) {
                Some(entry) => is_expired_at(&entry.1, now),
                None => false,
            };
            let ghost prev = to_remove@;
            proof {
                assert(!ids@.take(i as int).contains(id)) by {
                    if ids@.take(i as int).contains(id) {
                        let q = choose|q: int| 0 <= q < i && ids@.take(i as int)[q] == id;
                        assert(ids@[q] == ids@[i as int]);
                    }
                }
                assert(!prev.contains(id)) by {
                    if prev.contains(id) {
                        assert(prev.to_set().contains(id));
                        assert(ids@.take(i as int).to_set().contains(id));
                    }
                }
            }
            if expired {
                to_remove.push(id);
            }
            proof {
                assert(expired == fast_expired(old(self).sessions@[id].1, now));
                assert(ids@.take(i as int + 1) =~= ids@.take(i as int).push(id));
                ids@.take(i as int).lemma_push_to_set_commute(id);
                prev.lemma_push_to_set_commute(id);
                assert(to_remove@.to_set() =~= ids@.take(i as int + 1).to_set().filter(
                    |k: u32| fast_expired(old(self).sessions@[k].1, now),
                ));
            }
            i = i + 1;
        }
        proof {
            assert(ids@.take(i as int) =~= ids@);
        }
        let ghost gone: Set<u32> = to_remove@.to_set();
        assert(gone =~= old(self).sessions@.dom().filter(|k: u32| fast_expired(old(self).sessions@[k].1, now)));
        let mut j: usize = 0;
        while j < to_remove.len()
            invariant
                j <= to_remove@.len(),
                gone == to_remove@.to_set(),
                self.id_gen == old(self).id_gen,
                self.sessions@ == old(self).sessions@.remove_keys(to_remove@.take(j as int).to_set()),
                to_remove@.no_duplicates(),
                gone.subset_of(old(self).sessions@.dom()),
                gone == old(self).sessions@.dom().filter(|k: u32| fast_expired(old(self).sessions@[k].1, now)),
                self.stats == fast_stats_after_closing(old(self).stats, old(self).sessions@, to_remove@.take(j as int)),
            decreases to_remove@.len() - j,
        {
            let id = to_remove[j];
            proof {
                assert(gone.contains(id));
                assert(!to_remove@.take(j as int).to_set().contains(id)) by {
                    if to_remove@.take(j as int).contains(id) {
                        let q = choose|q: int| 0 <= q < j && to_remove@.take(j as int)[q] == id;
                        assert(to_remove@[q] == to_remove@[j as int]);
                    }
                }
                assert(self.sessions@.contains_key(id));
                assert(self.sessions@[id] == old(self).sessions@[id]);
                assert(to_remove@.take(j as int + 1).drop_last() =~= to_remove@.take(j as int));
            }
            self.close_session(id);
            proof {
                assert(to_remove@.take(j as int + 1) =~= to_remove@.take(j as int).push(id));
                to_remove@.take(j as int).lemma_push_to_set_commute(id);
                assert(self.sessions@ =~= old(self).sessions@.remove_keys(to_remove@.take(j as int + 1).to_set()));
            }
            j = j + 1;
        }
        proof {
            assert(to_remove@.take(j as int) =~= to_remove@);
            assert(self.stats == fast_stats_after_closing(old(self).stats, old(self).sessions@, to_remove@));
            assert(to_remove@.to_set() =~= old(self).sessions().dom().filter(
                |k: u32| fast_expired(old(self).sessions()[k].1, now),
            ));
            assert(self.counters() == fast_stats_after_closing(old(self).counters(), old(self).sessions(), to_remove@));
            assert(self.sessions@ =~= old(self).sessions@.restrict(
                old(self).sessions@.dom().filter(|k: u32| !fast_expired(old(self).sessions@[k].1, now)),
            ));
        }
    }
}

/// `after` is `before` with exactly the sessions due at `now` closed, each
/// counted closed once.
pub open spec fn fast_cleaned_at(before: FastSessionManager, after: FastSessionManager, now: u64) -> bool {
    &&& after.next_id() == before.next_id()
    &&& after.sessions() == before.sessions().restrict(
        before.sessions().dom().filter(|k: u32| !fast_expired(before.sessions()[k].1, now)),
    )
    &&& exists|order: Seq<u32>|
        #![trigger fast_stats_after_closing(before.counters(), before.sessions(), order)]
        order.no_duplicates() && order.to_set() == before.sessions().dom().filter(
            |k: u32| fast_expired(before.sessions()[k].1, now),
        ) && after.counters() == fast_stats_after_closing(before.counters(), before.sessions(), order)
}

/// `after` is `before` with exactly the sessions due at some moment closed.
pub open spec fn fast_cleaned(before: FastSessionManager, after: FastSessionManager) -> bool {
    exists|now: u64| fast_cleaned_at(before, after, now)
}

impl Default for FastSessionManager {
    fn default() -> (m: Self)
        ensures
            m.sessions() == Map::<u32, (FastSessionData, FastSessionState)>::empty(),
            m.next_id() == 1,
            m.counters() == zero_fast_stats(),
    {
        Self::new()
    }
}

/// Session tables by shard. A new session goes to the shard picked by the
/// hash of its peer's address; a session is looked up in the shard picked by
/// its id. Both picks keep the low bits.
pub struct FastShardedSessionManager {
    shards: Vec<FastSessionManager>,
    shard_mask: usize,
}

impl FastShardedSessionManager {
    #[verifier::type_invariant]
    spec fn shards_cover_mask(self) -> bool {
        self.shards@.len() == self.shard_mask + 1
    }

    pub closed spec fn shard_tables(self) -> Seq<FastSessionManager> {
        self.shards@
    }

    pub closed spec fn mask(self) -> usize {
        self.shard_mask
    }

    /// The shard that a session id is looked up in.
    pub open spec fn shard_of_id(self, id: u32) -> int {
        ((id as usize) & self.mask()) as int
    }

    /// The shard that a peer whose address hashes to `addr_hash` goes to.
    pub open spec fn shard_of_hash(self, addr_hash: u64) -> int {
        ((addr_hash as usize) & self.mask()) as int
    }

    /// `num_shards` rounded up to a power of two empty tables.
    pub fn new(num_shards: usize) -> (m: Self)
        requires
            num_shards <= usize::MAX / 2 + 1,
        ensures
            m.shard_tables().len() == m.mask() + 1,
            is_next_power_of_two(num_shards as nat, m.shard_tables().len()),
            forall|i: int|
                0 <= i < m.shard_tables().len() ==> (#[trigger] m.shard_tables()[i]).sessions()
                    == Map::<u32, (FastSessionData, FastSessionState)>::empty()
                    && m.shard_tables()[i].next_id() == 1 && m.shard_tables()[i].counters() == zero_fast_stats(),
    {
        let num = next_power_of_two(num_shards);
        let mut shards: Vec<FastSessionManager> = Vec::new();
        let mut i: usize = 0;
        while i < num
            invariant
                i <= num,
                shards@.len() == i,
                forall|j: int|
                    0 <= j < i ==> (#[trigger] shards@[j]).sessions() == Map::<
                        u32,
                        (FastSessionData, FastSessionState),
                    >::empty() && shards@[j].next_id() == 1 && shards@[j].counters() == zero_fast_stats(),
            decreases num - i,
        {
            shards.push(FastSessionManager::new());
            i = i + 1;
        }
        FastShardedSessionManager { shards, shard_mask: num - 1 }
    }

    /// Creates a session in the shard of `addr_hash`, the hash of the peer's
    /// socket address; the other shards are unchanged.
    pub fn create_session(&mut self, addr_hash: u64, remote_addr: SocksAddr, bind_addr: SocksAddr, session_type: FastSessionType) -> (d: FastSessionData)
        ensures
            final(self).mask() == old(self).mask(),
            ({
                let i = old(self).shard_of_hash(addr_hash);
                let before = old(self).shard_tables()[i];
                let after = final(self).shard_tables()[i];
                &&& 0 <= i < old(self).shard_tables().len()
                &&& final(self).shard_tables() == old(self).shard_tables().update(i, after)
                &&& d.id == before.next_id()
                &&& d.remote_addr == remote_addr
                &&& d.bind_addr == bind_addr
                &&& d.session_type == session_type
                &&& after.next_id() == before.next_id().wrapping_add(1)
                &&& after.sessions().contains_key(d.id)
                &&& after.sessions() == before.sessions().insert(d.id, after.sessions()[d.id])
                &&& same_data(after.sessions()[d.id].0, d)
                &&& after.sessions()[d.id].1.in_use
                &&& after.counters() == fast_stats_after_create(before.counters(), session_type)
            }),
    {
        proof {
            use_type_invariant(&*self);
            lemma_mask_below(addr_hash as usize, self.shard_mask);
        }
        let idx = (addr_hash as usize) & self.shard_mask;
        let ghost before = self.shards@;
        let d = self.shards[idx].create_session(remote_addr, bind_addr, session_type);
        proof {
            assert(self.shards@ =~= before.update(idx as int, self.shards@[idx as int]));
        }
        d
    }

    /// The data of session `id` from the shard of `id`.
    pub fn get_session(&self, id: u32) -> (r: Option<FastSessionData>)
        ensures
            0 <= self.shard_of_id(id) < self.shard_tables().len(),
            r is Some <==> self.shard_tables()[self.shard_of_id(id)].sessions().contains_key(id),
            r matches Some(d) ==> same_data(d, self.shard_tables()[self.shard_of_id(id)].sessions()[id].0),
    {
        proof {
            use_type_invariant(self);
            lemma_mask_below(id as usize, self.shard_mask);
        }
        self.shards[(id as usize) & self.shard_mask].get_session(id)
    }

    /// The same as `get_session`.
    pub fn try_get_session(&self, id: u32) -> (r: Option<FastSessionData>)
        ensures
            0 <= self.shard_of_id(id) < self.shard_tables().len(),
            r is Some <==> self.shard_tables()[self.shard_of_id(id)].sessions().contains_key(id),
            r matches Some(d) ==> same_data(d, self.shard_tables()[self.shard_of_id(id)].sessions()[id].0),
    {
        self.get_session(id)
    }

    /// Releases session `id` in the shard of `id`; the other shards are unchanged.
    pub fn release_session(&mut self, id: u32)
        ensures
            final(self).mask() == old(self).mask(),
            ({
                let i = old(self).shard_of_id(id);
                let before = old(self).shard_tables()[i];
                let after = final(self).shard_tables()[i];
                &&& 0 <= i < old(self).shard_tables().len()
                &&& final(self).shard_tables() == old(self).shard_tables().update(i, after)
                &&& after.next_id() == before.next_id()
                &&& before.sessions().contains_key(id) ==> after.sessions().contains_key(id)
                    && after.sessions() == before.sessions().insert(id, after.sessions()[id])
                    && after.sessions()[id].0 == before.sessions()[id].0
                    && fast_released(before.sessions()[id].1, after.sessions()[id].1)
                    && after.counters() == (FastSessionStats {
                    active: before.counters().active.wrapping_sub(1),
                    ..before.counters()
                })
                &&& !before.sessions().contains_key(id) ==> after.sessions() == before.sessions()
                    && after.counters() == before.counters()
            }),
    {
        proof {
            use_type_invariant(&*self);
            lemma_mask_below(id as usize, self.shard_mask);
        }
        let idx = (id as usize) & self.shard_mask;
        let ghost before = self.shards@;
        self.shards[idx].release_session(id);
        proof {
            assert(self.shards@ =~= before.update(idx as int, self.shards@[idx as int]));
        }
    }

    /// Closes session `id` in the shard of `id`; the other shards are unchanged.
    pub fn close_session(&mut self, id: u32)
        ensures
            final(self).mask() == old(self).mask(),
            ({
                let i = old(self).shard_of_id(id);
                let before = old(self).shard_tables()[i];
                let after = final(self).shard_tables()[i];
                &&& 0 <= i < old(self).shard_tables().len()
                &&& final(self).shard_tables() == old(self).shard_tables().update(i, after)
                &&& after.next_id() == before.next_id()
                &&& before.sessions().contains_key(id) ==> after.sessions() == before.sessions().remove(id)
                    && after.counters() == fast_stats_after_close(
                    before.counters(),
                    before.sessions()[id].0.session_type,
                )
                &&& !before.sessions().contains_key(id) ==> after.sessions() == before.sessions()
                    && after.counters() == before.counters()
            }),
    {
        proof {
            use_type_invariant(&*self);
            lemma_mask_below(id as usize, self.shard_mask);
        }
        let idx = (id as usize) & self.shard_mask;
        let ghost before = self.shards@;
        self.shards[idx].close_session(id);
        proof {
            assert(self.shards@ =~= before.update(idx as int, self.shards@[idx as int]));
        }
    }

    /// Runs a cleanup in every shard, each at the moment the clock shows.
    pub fn cleanup_expired(&mut self)
        ensures
            final(self).mask() == old(self).mask(),
            final(self).shard_tables().len() == old(self).shard_tables().len(),
            forall|i: int|
                0 <= i < final(self).shard_tables().len() ==> fast_cleaned(
                    #[trigger] old(self).shard_tables()[i],
                    final(self).shard_tables()[i],
                ),
            forall|i: int|
                0 <= i < final(self).shard_tables().len() ==> {
                    let before = #[trigger] old(self).shard_tables()[i];
                    let after = final(self).shard_tables()[i];
                    &&& after.next_id() == before.next_id()
                    &&& after.sessions().dom().subset_of(before.sessions().dom())
                    &&& forall|k: u32| #[trigger]
                        after.sessions().contains_key(k) ==> after.sessions()[k] == before.sessions()[k]
                },
    {
        proof {
            use_type_invariant(&*self);
        }
        let mut i: usize = 0;
        while i < self.shards.len()
            invariant
                i <= self.shards@.len(),
                self.shards@.len() == old(self).shards@.len(),
                self.shard_mask == old(self).shard_mask,
                self.shards@.len() == self.shard_mask + 1,
                forall|j: int|
                    i <= j < self.shards@.len() ==> #[trigger] self.shards@[j] == old(self).shards@[j],
                forall|j: int|
                    0 <= j < i ==> fast_cleaned(#[trigger] old(self).shards@[j], self.shards@[j]),
                forall|j: int|
                    0 <= j < i ==> {
                        let before = #[trigger] old(self).shards@[j];
                        let after = self.shards@[j];
                        &&& after.next_id() == before.next_id()
                        &&& after.sessions().dom().subset_of(before.sessions().dom())
                        &&& forall|k: u32| #[trigger]
                            after.sessions().contains_key(k) ==> after.sessions()[k] == before.sessions()[k]
                    },
            decreases self.shards@.len() - i,
        {
            self.shards[i].cleanup_expired();
            i = i + 1;
        }
    }

    /// The counters of every shard, in shard order.
    pub fn stats(&self) -> (r: Vec<FastSessionStatsSnapshot>)
        ensures
            r@.len() == self.shard_tables().len(),
            forall|i: int|
                0 <= i < r@.len() ==> (#[trigger] r@[i]).total == self.shard_tables()[i].counters().total
                    && r@[i].active == self.shard_tables()[i].counters().active && r@[i].tcp
                    == self.shard_tables()[i].counters().tcp && r@[i].udp
                    == self.shard_tables()[i].counters().udp && r@[i].created
                    == self.shard_tables()[i].counters().created && r@[i].closed
                    == self.shard_tables()[i].counters().closed,
    {
        let mut r: Vec<FastSessionStatsSnapshot> = Vec::new();
        let mut i: usize = 0;
        while i < self.shards.len()
            invariant
                i <= self.shards@.len(),
                r@.len() == i,
                forall|j: int|
                    0 <= j < i ==> (#[trigger] r@[j]).total == self.shards@[j].counters().total
                        && r@[j].active == self.shards@[j].counters().active && r@[j].tcp
                        == self.shards@[j].counters().tcp && r@[j].udp == self.shards@[j].counters().udp
                        && r@[j].created == self.shards@[j].counters().created && r@[j].closed
                        == self.shards@[j].counters().closed,
            decreases self.shards@.len() - i,
        {
            r.push(self.shards[i].stats());
            i = i + 1;
        }
        r
    }
}

impl Default for FastShardedSessionManager {
    fn default() -> (m: Self)
        ensures
            m.shard_tables().len() == m.mask() + 1,
            is_next_power_of_two(16, m.shard_tables().len()),
    {
        Self::new(16)
    }
}

/// Creates a session in the process-wide table `sessions` (made with 16 shards).
pub fn fast_create_session(sessions: &mut FastShardedSessionManager, addr_hash: u64, remote_addr: SocksAddr, bind_addr: SocksAddr, session_type: FastSessionType) -> (d: FastSessionData)
    ensures
        final(sessions).mask() == old(sessions).mask(),
        ({
            let i = old(sessions).shard_of_hash(addr_hash);
            let before = old(sessions).shard_tables()[i];
            let after = final(sessions).shard_tables()[i];
            &&& 0 <= i < old(sessions).shard_tables().len()
            &&& final(sessions).shard_tables() == old(sessions).shard_tables().update(i, after)
            &&& d.id == before.next_id()
            &&& after.sessions().contains_key(d.id)
            &&& same_data(after.sessions()[d.id].0, d)
        }),
{
    sessions.create_session(addr_hash, remote_addr, bind_addr, session_type)
}

/// Looks up session `id` in the process-wide table `sessions`.
pub fn fast_get_session(sessions: &FastShardedSessionManager, id: u32) -> (r: Option<FastSessionData>)
    ensures
        0 <= sessions.shard_of_id(id) < sessions.shard_tables().len(),
        r is Some <==> sessions.shard_tables()[sessions.shard_of_id(id)].sessions().contains_key(id),
        r matches Some(d) ==> same_data(d, sessions.shard_tables()[sessions.shard_of_id(id)].sessions()[id].0),
{
    sessions.get_session(id)
}

/// Releases session `id` in the process-wide table `sessions`.
pub fn fast_release_session(sessions: &mut FastShardedSessionManager, id: u32)
    ensures
        final(sessions).mask() == old(sessions).mask(),
        ({
            let i = old(sessions).shard_of_id(id);
            let before = old(sessions).shard_tables()[i];
            let after = final(sessions).shard_tables()[i];
            &&& 0 <= i < old(sessions).shard_tables().len()
            &&& final(sessions).shard_tables() == old(sessions).shard_tables().update(i, after)
            &&& after.next_id() == before.next_id()
            &&& before.sessions().contains_key(id) ==> after.sessions().contains_key(id)
                && after.sessions() == before.sessions().insert(id, after.sessions()[id])
                && after.sessions()[id].0 == before.sessions()[id].0
                && fast_released(before.sessions()[id].1, after.sessions()[id].1)
                && after.counters() == (FastSessionStats {
                active: before.counters().active.wrapping_sub(1),
                ..before.counters()
            })
            &&& !before.sessions().contains_key(id) ==> after.sessions() == before.sessions()
                && after.counters() == before.counters()
        }),
{
    sessions.release_session(id)
}

/// Closes session `id` in the process-wide table `sessions`.
pub fn fast_close_session(sessions: &mut FastShardedSessionManager, id: u32)
    ensures
        final(sessions).mask() == old(sessions).mask(),
        ({
            let i = old(sessions).shard_of_id(id);
            let before = old(sessions).shard_tables()[i];
            let after = final(sessions).shard_tables()[i];
            &&& 0 <= i < old(sessions).shard_tables().len()
            &&& final(sessions).shard_tables() == old(sessions).shard_tables().update(i, after)
            &&& before.sessions().contains_key(id) ==> after.sessions() == before.sessions().remove(id)
                && after.counters() == fast_stats_after_close(
                before.counters(),
                before.sessions()[id].0.session_type,
            )
            &&& !before.sessions().contains_key(id) ==> after.sessions() == before.sessions()
                && after.counters() == before.counters()
        }),
{
    sessions.close_session(id)
}

} // verus!
