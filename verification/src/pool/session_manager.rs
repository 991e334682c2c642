//! A table of proxy sessions by id, with counters of what it holds and did.

use crate::clock::{duration_as_secs, instant_duration_since, instant_now};
use crate::msgs::socks5::SocksAddr;
use crate::pool::buffer_pool::BufferPool;
use crate::pool::id_allocator::SessionIdGenerator;
use crate::pool::table::held_ids;
use std::collections::HashMap;
use std::sync::Arc;
use std::time::Instant;
use vstd::prelude::*;

verus! {

broadcast use vstd::std_specs::hash::group_hash_axioms;

pub const DEFAULT_SESSION_CAPACITY: usize = 16384;

/// Seconds a released session may stay idle before a cleanup closes it.
pub const SESSION_EXPIRE_SECS: u32 = 60;

#[derive(Clone, Copy, Debug, PartialEq, Eq, Structural)]
pub enum SessionType {
    Tcp,
    UdpDatagram,
    UdpStream,
}

/// One session: who it is for, what it carries, and whether it is in use.
pub struct SessionData {
    pub id: u32,
    pub remote_addr: SocksAddr,
    pub bind_addr: SocksAddr,
    pub session_type: SessionType,
    pub created_at: Instant,
    pub last_active: Instant,
    pub in_use: bool,
    pub bytes_sent: u32,
    pub bytes_received: u32,
}

/// Counters of a session table; each wraps around at the top of its type.
#[derive(Clone, Copy, Debug)]
pub struct SessionStats {
    pub total_sessions: usize,
    pub active_sessions: usize,
    pub tcp_sessions: usize,
    pub udp_sessions: usize,
    pub sessions_created: usize,
    pub sessions_closed: usize,
    pub bytes_sent: u32,
    pub bytes_received: u32,
}

impl Default for SessionStats {
    fn default() -> (s: Self)
        ensures
            s == zero_stats(),
    {
        SessionStats {
            total_sessions: 0,
            active_sessions: 0,
            tcp_sessions: 0,
            udp_sessions: 0,
            sessions_created: 0,
            sessions_closed: 0,
            bytes_sent: 0,
            bytes_received: 0,
        }
    }
}

/// The counters of a table that did nothing yet.
pub open spec fn zero_stats() -> SessionStats {
    SessionStats {
        total_sessions: 0,
        active_sessions: 0,
        tcp_sessions: 0,
        udp_sessions: 0,
        sessions_created: 0,
        sessions_closed: 0,
        bytes_sent: 0,
        bytes_received: 0,
    }
}

/// The counters after a session of type `t` was created.
pub open spec fn stats_after_create(s: SessionStats, t: SessionType) -> SessionStats {
    SessionStats {
        sessions_created: s.sessions_created.wrapping_add(1),
        total_sessions: s.total_sessions.wrapping_add(1),
        active_sessions: s.active_sessions.wrapping_add(1),
        tcp_sessions: if t == SessionType::Tcp {
            s.tcp_sessions.wrapping_add(1)
        } else {
            s.tcp_sessions
        },
        udp_sessions: if t == SessionType::Tcp {
            s.udp_sessions
        } else {
            s.udp_sessions.wrapping_add(1)
        },
        ..s
    }
}

/// The counters after session `d` was closed: its traffic joins the totals.
pub open spec fn stats_after_close(s: SessionStats, d: SessionData) -> SessionStats {
    SessionStats {
        sessions_closed: s.sessions_closed.wrapping_add(1),
        total_sessions: s.total_sessions.wrapping_sub(1),
        tcp_sessions: if d.session_type == SessionType::Tcp {
            s.tcp_sessions.wrapping_sub(1)
        } else {
            s.tcp_sessions
        },
        udp_sessions: if d.session_type == SessionType::Tcp {
            s.udp_sessions
        } else {
            s.udp_sessions.wrapping_sub(1)
        },
        bytes_sent: s.bytes_sent.wrapping_add(d.bytes_sent),
        bytes_received: s.bytes_received.wrapping_add(d.bytes_received),
        ..s
    }
}

/// `d` is a session just made for `id`: in use, with no traffic yet.
pub open spec fn fresh_session(d: SessionData, id: u32, remote: SocksAddr, bind: SocksAddr, t: SessionType) -> bool {
    &&& d.id == id
    &&& d.remote_addr == remote
    &&& d.bind_addr == bind
    &&& d.session_type == t
    &&& d.in_use
    &&& d.bytes_sent == 0
    &&& d.bytes_received == 0
}

/// `e` is `d` released: no longer in use, with only its activity time renewed.
pub open spec fn released_session(d: SessionData, e: SessionData) -> bool {
    e == SessionData { last_active: e.last_active, in_use: false, ..d }
}

/// A session idle for `idle_secs` whole seconds is due for closing: it is
/// not in use, and those seconds, taken modulo `2^32`, exceed
/// `SESSION_EXPIRE_SECS`.
pub open spec fn session_idle_expired(d: SessionData, idle_secs: u64) -> bool {
    !d.in_use && (idle_secs as u32) > SESSION_EXPIRE_SECS
}

/// `after` is `before` without the sessions due for closing when each
/// session `k` has been idle for `idle[k]` seconds.
pub open spec fn cleaned_with(before: Map<u32, SessionData>, after: Map<u32, SessionData>, idle: Map<u32, u64>) -> bool {
    after == before.restrict(before.dom().filter(|k: u32| !session_idle_expired(before[k], idle[k])))
}

/// The number of sessions in `m` whose type is TCP (`tcp`) or not (`!tcp`).
pub open spec fn sessions_of_kind(m: Map<u32, SessionData>, tcp: bool) -> nat {
    m.dom().filter(|k: u32| (m[k].session_type == SessionType::Tcp) == tcp).len()
}

/// The counters of sessions held agree with the sessions held.
pub open spec fn counts_match(m: Map<u32, SessionData>, s: SessionStats) -> bool {
    &&& m.dom().finite()
    &&& s.total_sessions == m.dom().len()
    &&& s.tcp_sessions == sessions_of_kind(m, true)
    &&& s.udp_sessions == sessions_of_kind(m, false)
}

pub struct SessionManager {
    sessions: HashMap<u32, SessionData>,
    id_gen: SessionIdGenerator,
    buffer_pool: BufferPool,
    stats: SessionStats,
}

impl SessionManager {
    /// The sessions held, by id.
    pub closed spec fn sessions(self) -> Map<u32, SessionData> {
        self.sessions@
    }

    /// The id the next session gets.
    pub closed spec fn next_id(self) -> u32 {
        self.id_gen@
    }

    pub closed spec fn counters(self) -> SessionStats {
        self.stats
    }

    pub closed spec fn pool(self) -> BufferPool {
        self.buffer_pool
    }

    /// An empty table whose first session gets id 0.
    pub fn new(buffer_pool: BufferPool) -> (m: Self)
        ensures
            m.sessions() == Map::<u32, SessionData>::empty(),
            m.next_id() == 0,
            m.counters() == zero_stats(),
            m.pool() == buffer_pool,
    {
        SessionManager {
            sessions: HashMap::with_capacity(DEFAULT_SESSION_CAPACITY),
            id_gen: SessionIdGenerator::new(),
            buffer_pool,
            stats: SessionStats::default(),
        }
    }

    /// Makes a session, in use, under the next id, and counts it.
    pub fn create_session(&mut self, remote_addr: SocksAddr, bind_addr: SocksAddr, session_type: SessionType) -> (id: u32)
        ensures
            id == old(self).next_id(),
            final(self).next_id() == old(self).next_id().wrapping_add(1),
            final(self).sessions().contains_key(id),
            final(self).sessions() == old(self).sessions().insert(id, final(self).sessions()[id]),
            fresh_session(final(self).sessions()[id], id, remote_addr, bind_addr, session_type),
            final(self).counters() == stats_after_create(old(self).counters(), session_type),
            final(self).pool() == old(self).pool(),
    {
        let id = self.id_gen.next();
        let now = instant_now();
        let session = SessionData {
            id,
            remote_addr,
            bind_addr,
            session_type,
            created_at: now,
            last_active: instant_now(),
            in_use: true,
            bytes_sent: 0,
            bytes_received: 0,
        };
        self.sessions.insert(id, session);
        self.stats.sessions_created = self.stats.sessions_created.wrapping_add(1);
        self.stats.total_sessions = self.stats.total_sessions.wrapping_add(1);
        self.stats.active_sessions = self.stats.active_sessions.wrapping_add(1);
        match session_type {
            SessionType::Tcp => {
                self.stats.tcp_sessions = self.stats.tcp_sessions.wrapping_add(1);
            },
            _ => {
                self.stats.udp_sessions = self.stats.udp_sessions.wrapping_add(1);
            },
        }
        id
    }

    /// A copy of session `id`, or `None` when the table holds no such session.
    pub fn get_session(&self, id: u32) -> (r: Option<Arc<SessionData>>)
        ensures
            r is Some <==> self.sessions().contains_key(id),
            r matches Some(d) ==> {
                let s = self.sessions()[id];
                &&& d.id == s.id
                &&& d.session_type == s.session_type
                &&& d.created_at == s.created_at
                &&& d.last_active == s.last_active
                &&& d.in_use == s.in_use
                &&& d.bytes_sent == s.bytes_sent
                &&& d.bytes_received == s.bytes_received
            },
    {
        match self.sessions.get(&id) {
            Some(s) => Some(
                Arc::new(
                    SessionData {
                        id: s.id,
                        remote_addr: s.remote_addr.clone(),
                        bind_addr: s.bind_addr.clone(),
                        session_type: s.session_type,
                        created_at: s.created_at,
                        last_active: s.last_active,
                        in_use: s.in_use,
                        bytes_sent: s.bytes_sent,
                        bytes_received: s.bytes_received,
                    },
                ),
            ),
            None => None,
        }
    }

    /// Marks session `id` idle and counts one active session fewer; nothing
    /// happens when the table holds no such session.
    pub fn release_session(&mut self, id: u32)
        ensures
            final(self).next_id() == old(self).next_id(),
            final(self).pool() == old(self).pool(),
            old(self).sessions().contains_key(id) ==> {
                &&& final(self).sessions().contains_key(id)
                &&& final(self).sessions() == old(self).sessions().insert(id, final(self).sessions()[id])
                &&& released_session(old(self).sessions()[id], final(self).sessions()[id])
                &&& final(self).counters() == (SessionStats {
                    active_sessions: old(self).counters().active_sessions.wrapping_sub(1),
                    ..old(self).counters()
                })
            },
            !old(self).sessions().contains_key(id) ==> final(self).sessions() == old(self).sessions()
                && final(self).counters() == old(self).counters(),
    {
        if let Some(session) = self.sessions.remove(&id) {
            let session = SessionData { last_active: instant_now(), in_use: false, ..session };
            self.sessions.insert(id, session);
            self.stats.active_sessions = self.stats.active_sessions.wrapping_sub(1);
            proof {
                assert(self.sessions@ =~= old(self).sessions@.insert(id, self.sessions@[id]));
            }
        }
    }

    /// Removes session `id` and counts it closed; nothing happens when the
    /// table holds no such session.
    pub fn close_session(&mut self, id: u32)
        ensures
            final(self).next_id() == old(self).next_id(),
            final(self).pool() == old(self).pool(),
            old(self).sessions().contains_key(id) ==> final(self).sessions() == old(self).sessions().remove(id)
                && final(self).counters() == stats_after_close(old(self).counters(), old(self).sessions()[id]),
            !old(self).sessions().contains_key(id) ==> final(self).sessions() == old(self).sessions()
                && final(self).counters() == old(self).counters(),
    {
        if let Some(session) = self.sessions.remove(&id) {
            self.stats.sessions_closed = self.stats.sessions_closed.wrapping_add(1);
            self.stats.total_sessions = self.stats.total_sessions.wrapping_sub(1);
            match session.session_type {
                SessionType::Tcp => {
                    self.stats.tcp_sessions = self.stats.tcp_sessions.wrapping_sub(1);
                },
                _ => {
                    self.stats.udp_sessions = self.stats.udp_sessions.wrapping_sub(1);
                },
            }
            self.stats.bytes_sent = self.stats.bytes_sent.wrapping_add(session.bytes_sent);
            self.stats.bytes_received = self.stats.bytes_received.wrapping_add(session.bytes_received);
        } else {
            proof {
                assert(self.sessions@ =~= old(self).sessions@);
            }
        }
    }

    /// Whether session `d`, idle for `idle_secs` whole seconds, is due for
    /// closing: it is not in use, and the idle seconds, taken modulo `2^32`,
    /// exceed `SESSION_EXPIRE_SECS`.
    fn is_expired_at(d: &SessionData, idle_secs: u64) -> (r: bool)
        ensures
            r == session_idle_expired(*d, idle_secs),
    {
        !d.in_use && idle_secs as u32 > SESSION_EXPIRE_SECS
    }

    /// Closes every session that is not in use and has been idle past
    /// `SESSION_EXPIRE_SECS`, each session's idle time read off the clock.
    /// Sessions in use stay as they are.
    pub fn cleanup_expired(&mut self)
        ensures
            final(self).next_id() == old(self).next_id(),
            final(self).pool() == old(self).pool(),
            exists|idle: Map<u32, u64>| #[trigger] cleaned_with(old(self).sessions(), final(self).sessions(), idle),
            final(self).sessions().dom().subset_of(old(self).sessions().dom()),
            forall|k: u32| #[trigger]
                final(self).sessions().contains_key(k) ==> final(self).sessions()[k] == old(self).sessions()[k],
            forall|k: u32|
                old(self).sessions().contains_key(k) && !final(self).sessions().contains_key(k)
                    ==> !(#[trigger] old(self).sessions()[k]).in_use,
            counts_match(old(self).sessions(), old(self).counters()) ==> counts_match(
                final(self).sessions(),
                final(self).counters(),
            ),
    {
        let now = instant_now();
        let ids = held_ids(&self.sessions);
        let mut to_remove: Vec<u32> = Vec::new();
        let ghost mut idle: Map<u32, u64> = Map::empty();
        let mut i: usize = 0;
        while i < ids.len()
            invariant
                i <= ids@.len(),
                ids@.to_set() == self.sessions@.dom(),
                ids@.no_duplicates(),
                self.sessions@ == old(self).sessions@,
                to_remove@.to_set() == ids@.take(i as int).to_set().filter(
                    |k: u32| session_idle_expired(old(self).sessions@[k], idle[k]),
                ),
                forall|j: int| 0 <= j < to_remove@.len() ==> self.sessions@.contains_key(#[trigger] to_remove@[j])
                    && !self.sessions@[to_remove@[j]].in_use,
            decreases ids@.len() - i,
        {
            let id = ids[i];
            proof {
                assert(ids@.to_set().contains(id));
            }
            let (expired, secs) = match self.sessions.get(&id) {
                Some(d) => {
                    if d.in_use {
                        (Self::is_expired_at(d, 0), 0u64)
                    } else {
                        let secs = duration_as_secs(&instant_duration_since(&now, &d.last_active));
                        (Self::is_expired_at(d, secs), secs)
                    }
                },
                None => (false, 0u64),
            };
            let ghost prev = to_remove@;
            let ghost old_idle = idle;
            proof {
                idle = idle.insert(id, secs);
                assert(!ids@.take(i as int).contains(id)) by {
                    if ids@.take(i as int).contains(id) {
                        let q = choose|q: int| 0 <= q < i && ids@.take(i as int)[q] == id;
                        assert(ids@[q] == ids@[i as int]);
                    }
                }
                assert(ids@.take(i as int).to_set().filter(|k: u32| session_idle_expired(old(self).sessions@[k], old_idle[k]))
                    =~= ids@.take(i as int).to_set().filter(|k: u32| session_idle_expired(old(self).sessions@[k], idle[k])));
            }
            if expired {
                to_remove.push(id);
            }
            proof {
                assert(expired == session_idle_expired(old(self).sessions@[id], idle[id]));
                assert(ids@.take(i as int + 1) =~= ids@.take(i as int).push(id));
                ids@.take(i as int).lemma_push_to_set_commute(id);
                prev.lemma_push_to_set_commute(id);
                assert(to_remove@.to_set() =~= ids@.take(i as int + 1).to_set().filter(
                    |k: u32| session_idle_expired(old(self).sessions@[k], idle[k]),
                ));
            }
            i = i + 1;
        }
        proof {
            assert(ids@.take(i as int) =~= ids@);
        }
        let ghost gone: Set<u32> = to_remove@.to_set();
        let mut j: usize = 0;
        while j < to_remove.len()
            invariant
                j <= to_remove@.len(),
                gone == to_remove@.to_set(),
                self.next_id() == old(self).next_id(),
                self.pool() == old(self).pool(),
                self.sessions@ == old(self).sessions@.remove_keys(to_remove@.take(j as int).to_set()),
                self.sessions().dom().subset_of(old(self).sessions().dom()),
                forall|k: u32| #[trigger]
                    self.sessions().contains_key(k) ==> self.sessions()[k] == old(self).sessions()[k],
                forall|k: u32|
                    old(self).sessions().contains_key(k) && !self.sessions().contains_key(k)
                        ==> !(#[trigger] old(self).sessions()[k]).in_use,
                forall|q: int| 0 <= q < to_remove@.len() ==> old(self).sessions().contains_key(#[trigger] to_remove@[q])
                    && !old(self).sessions()[to_remove@[q]].in_use,
                counts_match(old(self).sessions(), old(self).counters()) ==> counts_match(
                    self.sessions(),
                    self.counters(),
                ),
            decreases to_remove@.len() - j,
        {
            let id = to_remove[j];
            let ghost before = *self;
            self.close_session(id);
            proof {
                if before.sessions().contains_key(id) {
                    if counts_match(before.sessions(), before.counters()) {
                        lemma_close_keeps_counts(before.sessions(), before.counters(), id);
                    }
                } else {
                    assert(before.sessions@ =~= before.sessions@.remove(id));
                }
                assert(to_remove@.take(j as int + 1) =~= to_remove@.take(j as int).push(id));
                to_remove@.take(j as int).lemma_push_to_set_commute(id);
                assert(self.sessions@ =~= old(self).sessions@.remove_keys(to_remove@.take(j as int + 1).to_set()));
            }
            j = j + 1;
        }
        proof {
            assert(to_remove@.take(j as int) =~= to_remove@);
            assert(self.sessions@ =~= old(self).sessions@.restrict(
                old(self).sessions@.dom().filter(|k: u32| !session_idle_expired(old(self).sessions@[k], idle[k])),
            ));
            assert(cleaned_with(old(self).sessions(), self.sessions(), idle));
        }
    }

    /// The counters, read together.
    pub fn stats(&self) -> (s: SessionStatsSnapshot)
        ensures
            s.total == self.counters().total_sessions,
            s.active == self.counters().active_sessions,
            s.tcp == self.counters().tcp_sessions,
            s.udp == self.counters().udp_sessions,
            s.created == self.counters().sessions_created,
            s.closed == self.counters().sessions_closed,
            s.bytes_sent == self.counters().bytes_sent,
            s.bytes_received == self.counters().bytes_received,
    {
        SessionStatsSnapshot {
            total: self.stats.total_sessions,
            active: self.stats.active_sessions,
            tcp: self.stats.tcp_sessions,
            udp: self.stats.udp_sessions,
            created: self.stats.sessions_created,
            closed: self.stats.sessions_closed,
            bytes_sent: self.stats.bytes_sent,
            bytes_received: self.stats.bytes_received,
        }
    }

    pub fn buffer_pool(&self) -> (p: &BufferPool)
        ensures
            *p == self.pool(),
    {
        &self.buffer_pool
    }
}

/// The counters of a `SessionManager`, read at one moment.
#[derive(Debug, Default)]
pub struct SessionStatsSnapshot {
    pub total: usize,
    pub active: usize,
    pub tcp: usize,
    pub udp: usize,
    pub created: usize,
    pub closed: usize,
    pub bytes_sent: u32,
    pub bytes_received: u32,
}

/// Adding a session under a fresh id adds one to the number of its kind and
/// leaves the other kind as it was.
pub proof fn lemma_kind_insert(m: Map<u32, SessionData>, id: u32, d: SessionData, tcp: bool)
    requires
        m.dom().finite(),
        !m.contains_key(id),
    ensures
        sessions_of_kind(m.insert(id, d), tcp) == sessions_of_kind(m, tcp) + if (d.session_type
            == SessionType::Tcp) == tcp {
            1int
        } else {
            0int
        },
{
    let n = m.insert(id, d);
    let f = |k: u32| (m[k].session_type == SessionType::Tcp) == tcp;
    let g = |k: u32| (n[k].session_type == SessionType::Tcp) == tcp;
    m.dom().lemma_len_filter(f);
    if (d.session_type == SessionType::Tcp) == tcp {
        assert(n.dom().filter(g) =~= m.dom().filter(f).insert(id));
    } else {
        assert(n.dom().filter(g) =~= m.dom().filter(f));
    }
}

/// Removing a held session takes one from the number of its kind and leaves
/// the other kind as it was.
pub proof fn lemma_kind_remove(m: Map<u32, SessionData>, id: u32, tcp: bool)
    requires
        m.dom().finite(),
        m.contains_key(id),
    ensures
        sessions_of_kind(m.remove(id), tcp) == sessions_of_kind(m, tcp) - if (m[id].session_type
            == SessionType::Tcp) == tcp {
            1int
        } else {
            0int
        },
{
    let n = m.remove(id);
    let f = |k: u32| (m[k].session_type == SessionType::Tcp) == tcp;
    let g = |k: u32| (n[k].session_type == SessionType::Tcp) == tcp;
    m.dom().lemma_len_filter(f);
    if (m[id].session_type == SessionType::Tcp) == tcp {
        assert(n.dom().filter(g) =~= m.dom().filter(f).remove(id));
    } else {
        assert(n.dom().filter(g) =~= m.dom().filter(f));
    }
}

/// Closing a held session keeps the counters of held sessions in agreement
/// with the table.
pub proof fn lemma_close_keeps_counts(m: Map<u32, SessionData>, s: SessionStats, id: u32)
    requires
        counts_match(m, s),
        m.contains_key(id),
    ensures
        counts_match(m.remove(id), stats_after_close(s, m[id])),
{
    lemma_kind_remove(m, id, true);
    lemma_kind_remove(m, id, false);
    m.dom().lemma_len_filter(|k: u32| (m[k].session_type == SessionType::Tcp) == true);
    m.dom().lemma_len_filter(|k: u32| (m[k].session_type == SessionType::Tcp) == false);
    let ft = |k: u32| (m[k].session_type == SessionType::Tcp) == true;
    let fu = |k: u32| (m[k].session_type == SessionType::Tcp) == false;
    assert(m.dom().filter(ft).contains(id) || m.dom().filter(fu).contains(id));
}

/// Creating a session under an id the table does not hold keeps the
/// counters of held sessions in agreement with the table, while the table
/// has room to count one more.
pub proof fn lemma_create_keeps_counts(m: Map<u32, SessionData>, s: SessionStats, id: u32, d: SessionData)
    requires
        counts_match(m, s),
        !m.contains_key(id),
        m.dom().len() < usize::MAX,
    ensures
        counts_match(m.insert(id, d), stats_after_create(s, d.session_type)),
{
    lemma_kind_insert(m, id, d, true);
    lemma_kind_insert(m, id, d, false);
    vstd::set_lib::lemma_len_subset(
        m.dom().filter(|k: u32| (m[k].session_type == SessionType::Tcp) == true),
        m.dom(),
    );
    vstd::set_lib::lemma_len_subset(
        m.dom().filter(|k: u32| (m[k].session_type == SessionType::Tcp) == false),
        m.dom(),
    );
}

} // verus!
