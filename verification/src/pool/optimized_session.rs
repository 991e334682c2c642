//! Session tables spread over a fixed number of shards. A new session goes
//! to the shard picked by the hash of its peer's address; a session is
//! looked up in the shard picked by its id.

use crate::clock::elapsed_secs_stamp;
use crate::math::lemma_mask_below;
use crate::msgs::socks5::SocksAddr;
use crate::msgs::WireModel;
use crate::pool::id_allocator::SessionIdGenerator;
use crate::pool::table::held_ids;
use std::collections::HashMap;
use vstd::prelude::*;

verus! {

broadcast use vstd::std_specs::hash::group_hash_axioms;

/// Seconds a released session may stay idle before a cleanup closes it.
pub const SESSION_EXPIRE_SECS: u32 = 60;

pub const SHARD_COUNT: usize = 16;

#[derive(Clone, Copy, Debug, PartialEq, Eq, Structural)]
pub enum OptimizedSessionType {
    Tcp,
    UdpDatagram,
    UdpStream,
}

impl Default for OptimizedSessionType {
    fn default() -> (t: Self)
        ensures
            t == OptimizedSessionType::Tcp,
    {
        OptimizedSessionType::Tcp
    }
}

/// A session: its id, peer, bound address and kind, when it was made and
/// last active (whole seconds), whether it is in use, and its traffic.
pub struct OptimizedSessionData {
    id: u32,
    remote_addr: SocksAddr,
    bind_addr: SocksAddr,
    session_type: OptimizedSessionType,
    created_at: u64,
    last_active: u64,
    in_use: bool,
    bytes_sent: usize,
    bytes_received: usize,
}

/// A session as a value.
pub struct SessionView {
    pub id: u32,
    pub remote_addr: SocksAddr,
    pub bind_addr: SocksAddr,
    pub session_type: OptimizedSessionType,
    pub created_at: u64,
    pub last_active: u64,
    pub in_use: bool,
    pub bytes_sent: usize,
    pub bytes_received: usize,
}

/// `a` and `b` describe the same session in the same state.
pub open spec fn same_session(a: SessionView, b: SessionView) -> bool {
    &&& a.id == b.id
    &&& a.remote_addr.model() == b.remote_addr.model()
    &&& a.bind_addr.model() == b.bind_addr.model()
    &&& a.session_type == b.session_type
    &&& a.created_at == b.created_at
    &&& a.last_active == b.last_active
    &&& a.in_use == b.in_use
    &&& a.bytes_sent == b.bytes_sent
    &&& a.bytes_received == b.bytes_received
}

/// Whether a session is due for closing at time `now`: it is free and more
/// than `SESSION_EXPIRE_SECS` seconds passed since it was last active (none
/// when `now` is earlier).
pub open spec fn session_expired(d: SessionView, now: u64) -> bool {
    !d.in_use && now >= d.last_active && now - d.last_active > SESSION_EXPIRE_SECS
}

/// `after` is `before` cleaned up at some moment.
pub open spec fn cleaned(before: OptimizedSessionShard, after: OptimizedSessionShard) -> bool {
    &&& after.next_id() == before.next_id()
    &&& exists|now: u64| after.sessions() == #[trigger] kept_at(before.sessions(), now)
}

/// The sessions of `m` that are not due for closing at time `now`.
pub open spec fn kept_at(m: Map<u32, SessionView>, now: u64) -> Map<u32, SessionView> {
    m.restrict(m.dom().filter(|k: u32| !session_expired(m[k], now)))
}

impl View for OptimizedSessionData {
    type V = SessionView;

    closed spec fn view(&self) -> SessionView {
        SessionView {
            id: self.id,
            remote_addr: self.remote_addr,
            bind_addr: self.bind_addr,
            session_type: self.session_type,
            created_at: self.created_at,
            last_active: self.last_active,
            in_use: self.in_use,
            bytes_sent: self.bytes_sent,
            bytes_received: self.bytes_received,
        }
    }
}

impl OptimizedSessionData {
    /// A session in use with no traffic, stamped with the current time.
    pub fn new(id: u32, remote_addr: SocksAddr, bind_addr: SocksAddr, session_type: OptimizedSessionType) -> (d: Self)
        ensures
            d@.id == id,
            d@.remote_addr == remote_addr,
            d@.bind_addr == bind_addr,
            d@.session_type == session_type,
            d@.in_use,
            d@.bytes_sent == 0,
            d@.bytes_received == 0,
    {
        let created_at = elapsed_secs_stamp();
        let last_active = elapsed_secs_stamp();
        OptimizedSessionData {
            id,
            remote_addr,
            bind_addr,
            session_type,
            created_at,
            last_active,
            in_use: true,
            bytes_sent: 0,
            bytes_received: 0,
        }
    }

    pub fn id(&self) -> (r: u32)
        ensures
            r == self@.id,
    {
        self.id
    }

    pub fn remote_addr(&self) -> (r: SocksAddr)
        ensures
            r.model() == self@.remote_addr.model(),
    {
        self.remote_addr.duplicate()
    }

    pub fn bind_addr(&self) -> (r: &SocksAddr)
        ensures
            *r == self@.bind_addr,
    {
        &self.bind_addr
    }

    pub fn session_type(&self) -> (r: OptimizedSessionType)
        ensures
            r == self@.session_type,
    {
        self.session_type
    }

    pub fn is_in_use(&self) -> (r: bool)
        ensures
            r == self@.in_use,
    {
        self.in_use
    }

    pub fn mark_used(&mut self)
        ensures
            final(self)@ == (SessionView { in_use: true, ..old(self)@ }),
    {
        self.in_use = true;
    }

    pub fn mark_idle(&mut self)
        ensures
            final(self)@ == (SessionView { in_use: false, ..old(self)@ }),
    {
        self.in_use = false;
    }

    /// Stamps the session active at the current time.
    pub fn update_activity(&mut self)
        ensures
            final(self)@ == (SessionView { last_active: final(self)@.last_active, ..old(self)@ }),
    {
        let now = elapsed_secs_stamp();
        self.update_activity_at(now);
    }

    /// Stamps the session active at `now`.
    pub fn update_activity_at(&mut self, now: u64)
        ensures
            final(self)@ == (SessionView { last_active: now, ..old(self)@ }),
    {
        self.last_active = now;
    }

    /// Whether the session is due for closing at the current time: what
    /// `is_expired_at` says at the moment the clock shows.
    pub fn is_expired(&self) -> (r: bool)
        ensures
            r ==> !self@.in_use,
            exists|now: u64| r == session_expired(self@, now),
    {
        let now = elapsed_secs_stamp();
        let r = self.is_expired_at(now);
        assert(r == session_expired(self@, now));
        r
    }

    /// Whether the session is due for closing at `now`.
    pub fn is_expired_at(&self, now: u64) -> (r: bool)
        ensures
            r == session_expired(self@, now),
    {
        !self.in_use && now >= self.last_active && now - self.last_active > SESSION_EXPIRE_SECS as u64
    }

    /// A copy of the session in its present state.
    pub fn duplicate(&self) -> (r: Self)
        ensures
            same_session(r@, self@),
    {
        OptimizedSessionData {
            id: self.id,
            remote_addr: self.remote_addr.duplicate(),
            bind_addr: self.bind_addr.duplicate(),
            session_type: self.session_type,
            created_at: self.created_at,
            last_active: self.last_active,
            in_use: self.in_use,
            bytes_sent: self.bytes_sent,
            bytes_received: self.bytes_received,
        }
    }
}

/// Counters of one shard; each wraps around at `usize::MAX`.
#[derive(Clone, Copy, Debug)]
pub struct OptimizedShardStats {
    pub active: usize,
    pub total: usize,
    pub created: usize,
    pub closed: usize,
    pub tcp: usize,
    pub udp: usize,
}

pub open spec fn zero_shard_stats() -> OptimizedShardStats {
    OptimizedShardStats { active: 0, total: 0, created: 0, closed: 0, tcp: 0, udp: 0 }
}

impl Default for OptimizedShardStats {
    fn default() -> (s: Self)
        ensures
            s == zero_shard_stats(),
    {
        OptimizedShardStats { active: 0, total: 0, created: 0, closed: 0, tcp: 0, udp: 0 }
    }
}

/// The counters after a session of type `t` was created.
pub open spec fn shard_stats_after_create(s: OptimizedShardStats, t: OptimizedSessionType) -> OptimizedShardStats {
    OptimizedShardStats {
        created: s.created.wrapping_add(1),
        active: s.active.wrapping_add(1),
        total: s.total.wrapping_add(1),
        tcp: if t == OptimizedSessionType::Tcp { s.tcp.wrapping_add(1) } else { s.tcp },
        udp: if t == OptimizedSessionType::Tcp { s.udp } else { s.udp.wrapping_add(1) },
        ..s
    }
}

/// The counters after a session was closed by request: the kind counters
/// are left as they were.
pub open spec fn shard_stats_after_close(s: OptimizedShardStats) -> OptimizedShardStats {
    OptimizedShardStats { closed: s.closed.wrapping_add(1), total: s.total.wrapping_sub(1), ..s }
}

/// The counters after a session of type `t` expired and was removed.
pub open spec fn shard_stats_after_expiry(s: OptimizedShardStats, t: OptimizedSessionType) -> OptimizedShardStats {
    OptimizedShardStats {
        closed: s.closed.wrapping_add(1),
        total: s.total.wrapping_sub(1),
        tcp: if t == OptimizedSessionType::Tcp { s.tcp.wrapping_sub(1) } else { s.tcp },
        udp: if t == OptimizedSessionType::Tcp { s.udp } else { s.udp.wrapping_sub(1) },
        ..s
    }
}

/// One shard: its sessions by id, its id source and its counters.
pub struct OptimizedSessionShard {
    sessions: HashMap<u32, OptimizedSessionData>,
    id_gen: SessionIdGenerator,
    stats: OptimizedShardStats,
}

impl OptimizedSessionShard {
    /// The sessions held, by id.
    pub closed spec fn sessions(self) -> Map<u32, SessionView> {
        self.sessions@.map_values(|d: OptimizedSessionData| d@)
    }

    pub closed spec fn next_id(self) -> u32 {
        self.id_gen@
    }

    pub closed spec fn counters(self) -> OptimizedShardStats {
        self.stats
    }

    pub fn new() -> (s: Self)
        ensures
            s.sessions() == Map::<u32, SessionView>::empty(),
            s.next_id() == 0,
            s.counters() == zero_shard_stats(),
    {
        let s = OptimizedSessionShard {
            sessions: HashMap::with_capacity(2048),
            id_gen: SessionIdGenerator::new(),
            stats: OptimizedShardStats::default(),
        };
        assert(s.sessions() =~= Map::<u32, SessionView>::empty());
        s
    }

    /// Makes a session in use under the next id and counts it.
    pub fn create_session(&mut self, remote_addr: SocksAddr, bind_addr: SocksAddr, session_type: OptimizedSessionType) -> (id: u32)
        ensures
            id == old(self).next_id(),
            final(self).next_id() == old(self).next_id().wrapping_add(1),
            final(self).sessions().contains_key(id),
            final(self).sessions() == old(self).sessions().insert(id, final(self).sessions()[id]),
            ({
                let d = final(self).sessions()[id];
                &&& d.id == id
                &&& d.remote_addr == remote_addr
                &&& d.bind_addr == bind_addr
                &&& d.session_type == session_type
                &&& d.in_use
                &&& d.bytes_sent == 0
                &&& d.bytes_received == 0
            }),
            final(self).counters() == shard_stats_after_create(old(self).counters(), session_type),
    {
        let id = self.id_gen.next();
        let session = OptimizedSessionData::new(id, remote_addr, bind_addr, session_type);
        self.sessions.insert(id, session);
        self.stats.created = self.stats.created.wrapping_add(1);
        self.stats.active = self.stats.active.wrapping_add(1);
        self.stats.total = self.stats.total.wrapping_add(1);
        match session_type {
            OptimizedSessionType::Tcp => {
                self.stats.tcp = self.stats.tcp.wrapping_add(1);
            },
            _ => {
                self.stats.udp = self.stats.udp.wrapping_add(1);
            },
        }
        proof {
            assert(self.sessions() =~= old(self).sessions().insert(id, self.sessions()[id]));
        }
        id
    }

    /// A copy of session `id`, or `None` when none is held.
    pub fn get_session(&self, id: u32) -> (r: Option<OptimizedSessionData>)
        ensures
            r is Some <==> self.sessions().contains_key(id),
            r matches Some(d) ==> same_session(d@, self.sessions()[id]),
    {
        match self.sessions.get(&id) {
            Some(d) => Some(d.duplicate()),
            None => None,
        }
    }

    /// Stamps session `id` active now, frees it and counts one active
    /// session fewer; nothing happens when none is held.
    pub fn release_session(&mut self, id: u32)
        ensures
            final(self).next_id() == old(self).next_id(),
            old(self).sessions().contains_key(id) ==> {
                let d = old(self).sessions()[id];
                let e = final(self).sessions()[id];
                &&& final(self).sessions().contains_key(id)
                &&& final(self).sessions() == old(self).sessions().insert(id, e)
                &&& e == (SessionView { last_active: e.last_active, in_use: false, ..d })
                &&& final(self).counters() == (OptimizedShardStats {
                    active: old(self).counters().active.wrapping_sub(1),
                    ..old(self).counters()
                })
            },
            !old(self).sessions().contains_key(id) ==> final(self).sessions() == old(self).sessions()
                && final(self).counters() == old(self).counters(),
    {
        if let Some(mut session) = self.sessions.remove(&id) {
            session.update_activity();
            session.mark_idle();
            self.sessions.insert(id, session);
            self.stats.active = self.stats.active.wrapping_sub(1);
            proof {
                assert(self.sessions() =~= old(self).sessions().insert(id, self.sessions()[id]));
            }
        } else {
            proof {
                assert(self.sessions() =~= old(self).sessions());
            }
        }
    }

    /// Removes session `id` and counts it closed; nothing happens when none is held.
    pub fn close_session(&mut self, id: u32)
        ensures
            final(self).next_id() == old(self).next_id(),
            old(self).sessions().contains_key(id) ==> final(self).sessions() == old(self).sessions().remove(id)
                && final(self).counters() == shard_stats_after_close(old(self).counters()),
            !old(self).sessions().contains_key(id) ==> final(self).sessions() == old(self).sessions()
                && final(self).counters() == old(self).counters(),
    {
        if let Some(_session) = self.sessions.remove(&id) {
            self.stats.closed = self.stats.closed.wrapping_add(1);
            self.stats.total = self.stats.total.wrapping_sub(1);
            proof {
                assert(self.sessions() =~= old(self).sessions().remove(id));
            }
        } else {
            proof {
                assert(self.sessions() =~= old(self).sessions());
            }
        }
    }

    /// Removes a held session that expired, and counts it by its kind.
    fn remove_expired(&mut self, id: u32)
        ensures
            final(self).next_id() == old(self).next_id(),
            old(self).sessions().contains_key(id) ==> final(self).sessions() == old(self).sessions().remove(id)
                && final(self).counters() == shard_stats_after_expiry(
                old(self).counters(),
                old(self).sessions()[id].session_type,
            ),
            !old(self).sessions().contains_key(id) ==> final(self).sessions() == old(self).sessions()
                && final(self).counters() == old(self).counters(),
    {
        if let Some(session) = self.sessions.remove(&id) {
            match session.session_type() {
                OptimizedSessionType::Tcp => {
                    self.stats.tcp = self.stats.tcp.wrapping_sub(1);
                },
                _ => {
                    self.stats.udp = self.stats.udp.wrapping_sub(1);
                },
            }
            self.stats.closed = self.stats.closed.wrapping_add(1);
            self.stats.total = self.stats.total.wrapping_sub(1);
            proof {
                assert(self.sessions() =~= old(self).sessions().remove(id));
            }
        } else {
            proof {
                assert(self.sessions() =~= old(self).sessions());
            }
        }
    }

    /// Removes every session due for closing at the current time.
    pub fn cleanup_expired(&mut self)
        ensures
            cleaned(*old(self), *final(self)),
    {
        let now = elapsed_secs_stamp();
        self.cleanup_expired_at(now);
    }

    /// Removes exactly the sessions due for closing at time `now`.
    pub fn cleanup_expired_at(&mut self, now: u64)
        ensures
            final(self).next_id() == old(self).next_id(),
            final(self).sessions() == kept_at(old(self).sessions(), now),
    {
        let ids = held_ids(&self.sessions);
        let mut to_remove: Vec<u32> = Vec::new();
        let mut i: usize = 0;
        while i < ids.len()
            invariant
                i <= ids@.len(),
                ids@.to_set() == self.sessions@.dom(),
                self.sessions@ == old(self).sessions@,
                to_remove@.to_set() == ids@.take(i as int).to_set().filter(
                    |k: u32| session_expired(old(self).sessions()[k], now),
                ),
            decreases ids@.len() - i,
        {
            let id = ids[i];
            proof {
                assert(ids@.to_set().contains(id));
            }
            let expired = match self.sessions.get(&id) {
                Some(d) => d.is_expired_at(now),
                None => false,
            };
            let ghost prev = to_remove@;
            if expired {
                to_remove.push(id);
            }
            proof {
                assert(expired == session_expired(old(self).sessions()[id], now));
                assert(ids@.take(i as int + 1) =~= ids@.take(i as int).push(id));
                ids@.take(i as int).lemma_push_to_set_commute(id);
                prev.lemma_push_to_set_commute(id);
                assert(to_remove@.to_set() =~= ids@.take(i as int + 1).to_set().filter(
                    |k: u32| session_expired(old(self).sessions()[k], now),
                ));
            }
            i = i + 1;
        }
        proof {
            assert(ids@.take(i as int) =~= ids@);
        }
        let mut j: usize = 0;
        while j < to_remove.len()
            invariant
                j <= to_remove@.len(),
                self.next_id() == old(self).next_id(),
                self.sessions() == old(self).sessions().remove_keys(to_remove@.take(j as int).to_set()),
            decreases to_remove@.len() - j,
        {
            let id = to_remove[j];
            self.remove_expired(id);
            proof {
                assert(to_remove@.take(j as int + 1) =~= to_remove@.take(j as int).push(id));
                to_remove@.take(j as int).lemma_push_to_set_commute(id);
                assert(self.sessions() =~= old(self).sessions().remove_keys(to_remove@.take(j as int + 1).to_set()));
            }
            j = j + 1;
        }
        proof {
            assert(to_remove@.take(j as int) =~= to_remove@);
            assert(self.sessions() =~= kept_at(old(self).sessions(), now));
        }
    }
}

/// One counter of `c`: 0 total, 1 active, 2 created, 3 closed, 4 TCP, 5 UDP.
pub open spec fn stat_field(c: OptimizedShardStats, which: int) -> usize {
    if which == 0 {
        c.total
    } else if which == 1 {
        c.active
    } else if which == 2 {
        c.created
    } else if which == 3 {
        c.closed
    } else if which == 4 {
        c.tcp
    } else {
        c.udp
    }
}

/// The sum of one counter over the shards, picked as in `stat_field`.
pub open spec fn shard_sum(s: Seq<OptimizedShardStats>, which: int) -> int
    decreases s.len(),
{
    if s.len() == 0 {
        0
    } else {
        shard_sum(s.drop_last(), which) + stat_field(s.last(), which)
    }
}

/// The counters summed over the shards fit in `usize`.
pub open spec fn sums_fit(s: Seq<OptimizedShardStats>) -> bool {
    forall|which: int| 0 <= which < 6 ==> #[trigger] shard_sum(s, which) <= usize::MAX
}

/// A prefix of the shards sums to no more than all of them.
pub proof fn lemma_shard_sum_prefix(s: Seq<OptimizedShardStats>, which: int, k: int)
    requires
        0 <= k <= s.len(),
    ensures
        0 <= shard_sum(s.take(k), which) <= shard_sum(s, which),
    decreases s.len(),
{
    if s.len() > 0 {
        if k < s.len() {
            assert(s.drop_last().take(k) =~= s.take(k));
            lemma_shard_sum_prefix(s.drop_last(), which, k);
        } else {
            assert(s.take(k) =~= s);
            lemma_shard_sum_prefix(s.drop_last(), which, s.len() - 1);
            assert(s.drop_last().take(s.len() - 1) =~= s.drop_last());
        }
    } else {
        assert(s.take(k) =~= s);
    }
}

/// The counters of all shards, summed.
#[derive(Debug, Default)]
pub struct OptimizedStatsSnapshot {
    pub total: usize,
    pub active: usize,
    pub created: usize,
    pub closed: usize,
    pub tcp: usize,
    pub udp: usize,
}

pub struct PerCoreSessionManager {
    shards: Vec<OptimizedSessionShard>,
    shard_mask: usize,
}

impl PerCoreSessionManager {
    #[verifier::type_invariant]
    spec fn shards_cover_mask(self) -> bool {
        self.shards@.len() == self.shard_mask + 1
    }

    pub closed spec fn shard_tables(self) -> Seq<OptimizedSessionShard> {
        self.shards@
    }

    pub closed spec fn mask(self) -> usize {
        self.shard_mask
    }

    /// The counters of every shard.
    pub open spec fn shard_counters(self) -> Seq<OptimizedShardStats> {
        self.shard_tables().map_values(|s: OptimizedSessionShard| s.counters())
    }

    /// The shard that a session id is looked up in.
    pub open spec fn shard_of_id(self, id: u32) -> int {
        ((id as usize) & self.mask()) as int
    }

    /// The shard that a peer whose address hashes to `addr_hash` goes to.
    pub open spec fn shard_of_hash(self, addr_hash: u64) -> int {
        ((addr_hash as usize) & self.mask()) as int
    }

    /// `SHARD_COUNT` empty shards.
    pub fn new() -> (m: Self)
        ensures
            m.shard_tables().len() == SHARD_COUNT,
            m.mask() == SHARD_COUNT - 1,
            forall|i: int|
                0 <= i < SHARD_COUNT ==> (#[trigger] m.shard_tables()[i]).sessions() == Map::<
                    u32,
                    SessionView,
                >::empty() && m.shard_tables()[i].next_id() == 0 && m.shard_tables()[i].counters()
                    == zero_shard_stats(),
    {
        let mut shards: Vec<OptimizedSessionShard> = Vec::new();
        let mut i: usize = 0;
        while i < SHARD_COUNT
            invariant
                i <= SHARD_COUNT,
                shards@.len() == i,
                forall|j: int|
                    0 <= j < i ==> (#[trigger] shards@[j]).sessions() == Map::<u32, SessionView>::empty()
                        && shards@[j].next_id() == 0 && shards@[j].counters() == zero_shard_stats(),
            decreases SHARD_COUNT - i,
        {
            shards.push(OptimizedSessionShard::new());
            i = i + 1;
        }
        PerCoreSessionManager { shards, shard_mask: SHARD_COUNT - 1 }
    }

    /// Creates a session in the shard of `addr_hash`, the hash of the peer's
    /// socket address; the other shards are unchanged.
    pub fn create_session(&mut self, addr_hash: u64, remote_addr: SocksAddr, bind_addr: SocksAddr, session_type: OptimizedSessionType) -> (id: u32)
        ensures
            final(self).mask() == old(self).mask(),
            ({
                let i = old(self).shard_of_hash(addr_hash);
                let before = old(self).shard_tables()[i];
                let after = final(self).shard_tables()[i];
                &&& 0 <= i < old(self).shard_tables().len()
                &&& final(self).shard_tables() == old(self).shard_tables().update(i, after)
                &&& id == before.next_id()
                &&& after.next_id() == before.next_id().wrapping_add(1)
                &&& after.sessions().contains_key(id)
                &&& after.sessions() == before.sessions().insert(id, after.sessions()[id])
                &&& after.sessions()[id].session_type == session_type
                &&& after.sessions()[id].in_use
                &&& after.counters() == shard_stats_after_create(before.counters(), session_type)
            }),
    {
        proof {
            use_type_invariant(&*self);
            lemma_mask_below(addr_hash as usize, self.shard_mask);
        }
        let idx = (addr_hash as usize) & self.shard_mask;
        let ghost before = self.shards@;
        let id = self.shards[idx].create_session(remote_addr, bind_addr, session_type);
        proof {
            assert(self.shards@ =~= before.update(idx as int, self.shards@[idx as int]));
        }
        id
    }

    /// A copy of session `id` from the shard of `id`.
    pub fn get_session(&self, id: u32) -> (r: Option<OptimizedSessionData>)
        ensures
            0 <= self.shard_of_id(id) < self.shard_tables().len(),
            r is Some <==> self.shard_tables()[self.shard_of_id(id)].sessions().contains_key(id),
            r matches Some(d) ==> same_session(d@, self.shard_tables()[self.shard_of_id(id)].sessions()[id]),
    {
        proof {
            use_type_invariant(self);
            lemma_mask_below(id as usize, self.shard_mask);
        }
        self.shards[(id as usize) & self.shard_mask].get_session(id)
    }

    /// Releases session `id` in the shard of `id`; the other shards are unchanged.
    pub fn release_session(&mut self, id: u32)
        ensures
            final(self).mask() == old(self).mask(),
            ({
                let i = old(self).shard_of_id(id);
                let before = old(self).shard_tables()[i];
                let after = final(self).shard_tables()[i];
                &&& 0 <= i < old(self).shard_tables().len()
                &&& final(self).shard_tables() == old(self).shard_tables().update(i, after)
                &&& after.next_id() == before.next_id()
                &&& before.sessions().contains_key(id) ==> after.sessions().contains_key(id)
                    && after.sessions() == before.sessions().insert(id, after.sessions()[id])
                    && !after.sessions()[id].in_use && after.counters() == (OptimizedShardStats {
                    active: before.counters().active.wrapping_sub(1),
                    ..before.counters()
                })
                &&& !before.sessions().contains_key(id) ==> after.sessions() == before.sessions()
                    && after.counters() == before.counters()
            }),
    {
        proof {
            use_type_invariant(&*self);
            lemma_mask_below(id as usize, self.shard_mask);
        }
        let idx = (id as usize) & self.shard_mask;
        let ghost before = self.shards@;
        self.shards[idx].release_session(id);
        proof {
            assert(self.shards@ =~= before.update(idx as int, self.shards@[idx as int]));
        }
    }

    /// Closes session `id` in the shard of `id`; the other shards are unchanged.
    pub fn close_session(&mut self, id: u32)
        ensures
            final(self).mask() == old(self).mask(),
            ({
                let i = old(self).shard_of_id(id);
                let before = old(self).shard_tables()[i];
                let after = final(self).shard_tables()[i];
                &&& 0 <= i < old(self).shard_tables().len()
                &&& final(self).shard_tables() == old(self).shard_tables().update(i, after)
                &&& after.next_id() == before.next_id()
                &&& before.sessions().contains_key(id) ==> after.sessions() == before.sessions().remove(id)
                    && after.counters() == shard_stats_after_close(before.counters())
                &&& !before.sessions().contains_key(id) ==> after.sessions() == before.sessions()
                    && after.counters() == before.counters()
            }),
    {
        proof {
            use_type_invariant(&*self);
            lemma_mask_below(id as usize, self.shard_mask);
        }
        let idx = (id as usize) & self.shard_mask;
        let ghost before = self.shards@;
        self.shards[idx].close_session(id);
        proof {
            assert(self.shards@ =~= before.update(idx as int, self.shards@[idx as int]));
        }
    }

    /// Runs a cleanup in every shard.
    pub fn cleanup_expired(&mut self)
        ensures
            final(self).mask() == old(self).mask(),
            final(self).shard_tables().len() == old(self).shard_tables().len(),
            forall|i: int|
                0 <= i < final(self).shard_tables().len() ==> cleaned(
                    #[trigger] old(self).shard_tables()[i],
                    final(self).shard_tables()[i],
                ),
    {
        proof {
            use_type_invariant(&*self);
        }
        let mut i: usize = 0;
        while i < self.shards.len()
            invariant
                i <= self.shards@.len(),
                self.shards@.len() == old(self).shards@.len(),
                self.shard_mask == old(self).shard_mask,
                self.shards@.len() == self.shard_mask + 1,
                forall|j: int|
                    i <= j < self.shards@.len() ==> #[trigger] self.shards@[j] == old(self).shards@[j],
                forall|j: int| 0 <= j < i ==> cleaned(#[trigger] old(self).shards@[j], self.shards@[j]),
            decreases self.shards@.len() - i,
        {
            self.shards[i].cleanup_expired();
            i = i + 1;
        }
    }

    /// The counters summed over the shards; the sums must fit in `usize`.
    pub fn stats(&self) -> (r: OptimizedStatsSnapshot)
        requires
            sums_fit(self.shard_counters()),
        ensures
            r.total == shard_sum(self.shard_counters(), 0),
            r.active == shard_sum(self.shard_counters(), 1),
            r.created == shard_sum(self.shard_counters(), 2),
            r.closed == shard_sum(self.shard_counters(), 3),
            r.tcp == shard_sum(self.shard_counters(), 4),
            r.udp == shard_sum(self.shard_counters(), 5),
    {
        let ghost cs = self.shard_counters();
        let mut total: usize = 0;
        let mut active: usize = 0;
        let mut created: usize = 0;
        let mut closed: usize = 0;
        let mut tcp: usize = 0;
        let mut udp: usize = 0;
        let mut i: usize = 0;
        while i < self.shards.len()
            invariant
                i <= self.shards@.len(),
                cs == self.shard_counters(),
                cs.len() == self.shards@.len(),
                sums_fit(cs),
                shard_sum(cs, 0) <= usize::MAX,
                shard_sum(cs, 1) <= usize::MAX,
                shard_sum(cs, 2) <= usize::MAX,
                shard_sum(cs, 3) <= usize::MAX,
                shard_sum(cs, 4) <= usize::MAX,
                shard_sum(cs, 5) <= usize::MAX,
                total == shard_sum(cs.take(i as int), 0),
                active == shard_sum(cs.take(i as int), 1),
                created == shard_sum(cs.take(i as int), 2),
                closed == shard_sum(cs.take(i as int), 3),
                tcp == shard_sum(cs.take(i as int), 4),
                udp == shard_sum(cs.take(i as int), 5),
            decreases self.shards@.len() - i,
        {
            proof {
                let k = i as int + 1;
                assert(cs.take(k).drop_last() =~= cs.take(i as int));
                assert(cs.take(k).last() == cs[i as int]);
                lemma_shard_sum_prefix(cs, 0, k);
                lemma_shard_sum_prefix(cs, 1, k);
                lemma_shard_sum_prefix(cs, 2, k);
                lemma_shard_sum_prefix(cs, 3, k);
                lemma_shard_sum_prefix(cs, 4, k);
                lemma_shard_sum_prefix(cs, 5, k);
                assert(shard_sum(cs.take(k), 0) == shard_sum(cs.take(i as int), 0) + cs[i as int].total);
                assert(shard_sum(cs.take(k), 1) == shard_sum(cs.take(i as int), 1) + cs[i as int].active);
                assert(shard_sum(cs.take(k), 2) == shard_sum(cs.take(i as int), 2) + cs[i as int].created);
                assert(shard_sum(cs.take(k), 3) == shard_sum(cs.take(i as int), 3) + cs[i as int].closed);
                assert(shard_sum(cs.take(k), 4) == shard_sum(cs.take(i as int), 4) + cs[i as int].tcp);
                assert(shard_sum(cs.take(k), 5) == shard_sum(cs.take(i as int), 5) + cs[i as int].udp);
            }
            let c = self.shards[i].stats;
            total = total + c.total;
            active = active + c.active;
            created = created + c.created;
            closed = closed + c.closed;
            tcp = tcp + c.tcp;
            udp = udp + c.udp;
            i = i + 1;
        }
        proof {
            assert(cs.take(i as int) =~= cs);
        }
        OptimizedStatsSnapshot { total, active, created, closed, tcp, udp }
    }
}

impl Default for PerCoreSessionManager {
    fn default() -> (m: Self)
        ensures
            m.shard_tables().len() == SHARD_COUNT,
            m.mask() == SHARD_COUNT - 1,
    {
        Self::new()
    }
}

pub type OptimizedSessionManager = PerCoreSessionManager;

pub type SessionManager = PerCoreSessionManager;

pub type SessionStats = OptimizedStatsSnapshot;

pub type SessionStatsSnapshot = OptimizedStatsSnapshot;

pub type SessionType = OptimizedSessionType;

/// What a session is for, without its state.
#[derive(Clone)]
pub struct SessionData {
    pub id: u32,
    pub remote_addr: SocksAddr,
    pub bind_addr: SocksAddr,
    pub session_type: OptimizedSessionType,
}

impl From<OptimizedSessionData> for SessionData {
    fn from(opt: OptimizedSessionData) -> (r: SessionData) {
        SessionData {
            id: opt.id,
            remote_addr: opt.remote_addr,
            bind_addr: opt.bind_addr,
            session_type: opt.session_type,
        }
    }
}

impl vstd::std_specs::convert::FromSpecImpl<OptimizedSessionData> for SessionData {
    open spec fn obeys_from_spec() -> bool {
        true
    }

    open spec fn from_spec(opt: OptimizedSessionData) -> SessionData {
        SessionData {
            id: opt@.id,
            remote_addr: opt@.remote_addr,
            bind_addr: opt@.bind_addr,
            session_type: opt@.session_type,
        }
    }
}

} // verus!
