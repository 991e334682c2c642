//! A pool of outbound connections by peer address, spread over shards.
//!
//! Getting a connection is split in two: `begin_get` reuses a free pooled
//! connection or says that a new one must be made; the caller then connects
//! (with the configured timeout) and hands the outcome to `finish_get`.

use crate::clock::{duration_from_secs, instant_elapsed, instant_now};
use crate::error::SError;
use crate::math::{is_next_power_of_two, lemma_mask_below, next_power_of_two};
use crate::msgs::socks5::{SocksAddr, SpecSocksAddr};
use crate::msgs::WireModel;
use crate::quic::QuicErrorRepr;
use std::time::{Duration, Instant};
use vstd::prelude::*;

verus! {

pub const DEFAULT_SHARD_COUNT: usize = 8;

pub const DEFAULT_SHARD_CAPACITY: usize = 64;

/// How a pool is run.
#[derive(Clone, Copy)]
pub struct PoolConfig {
    pub max_connections_per_shard: usize,
    pub connection_timeout: Duration,
    pub idle_timeout: Duration,
    pub max_idle_per_host: usize,
}

impl Default for PoolConfig {
    /// 64 connections per shard, connecting within 10 s, idle for up to 60 s,
    /// two idle connections per host.
    fn default() -> (c: Self)
        ensures
            c.max_connections_per_shard == DEFAULT_SHARD_CAPACITY,
            c.max_idle_per_host == 2,
    {
        PoolConfig {
            max_connections_per_shard: DEFAULT_SHARD_CAPACITY,
            connection_timeout: duration_from_secs(10),
            idle_timeout: duration_from_secs(60),
            max_idle_per_host: 2,
        }
    }
}

/// Counters of a shard; each wraps around at `usize::MAX`.
#[derive(Clone, Copy, Debug, Default)]
pub struct PoolStats {
    pub total_connections: usize,
    pub active_connections: usize,
    pub connection_acquires: usize,
    pub connection_releases: usize,
    pub connection_errors: usize,
    pub connection_timeouts: usize,
}

pub open spec fn zero_pool_stats() -> PoolStats {
    PoolStats {
        total_connections: 0,
        active_connections: 0,
        connection_acquires: 0,
        connection_releases: 0,
        connection_errors: 0,
        connection_timeouts: 0,
    }
}

/// `Duration` comparison: whether `a` is longer than `b`. Nothing is stated
/// of the result: durations are opaque here.
#[verifier::external_body]
fn duration_longer(a: &Duration, b: &Duration) -> (r: bool) {
    *a > *b
}

/// A pooled connection: the connection (until it is taken), whether it is
/// in use, when it was last used and made, and its peer.
pub struct ConnectionState<C> {
    conn: Option<C>,
    in_use: bool,
    last_used: Instant,
    created_at: Instant,
    remote_addr: SocksAddr,
}

impl<C> ConnectionState<C> {
    pub closed spec fn busy(self) -> bool {
        self.in_use
    }

    pub closed spec fn held(self) -> Option<C> {
        self.conn
    }

    pub closed spec fn peer(self) -> SpecSocksAddr {
        self.remote_addr.model()
    }

    /// A free state holding `conn`, made now.
    fn new(conn: C, remote_addr: SocksAddr) -> (s: Self)
        ensures
            !s.busy(),
            s.held() == Some(conn),
            s.peer() == remote_addr.model(),
    {
        ConnectionState { conn: Some(conn), in_use: false, last_used: instant_now(), created_at: instant_now(), remote_addr }
    }

    pub fn is_available(&self) -> (r: bool)
        ensures
            r == !self.busy(),
    {
        !self.in_use
    }

    /// Takes the connection when it is free; `true` when it was taken.
    pub fn try_acquire(&mut self) -> (r: bool)
        ensures
            r == !old(self).busy(),
            final(self).busy(),
            final(self).held() == old(self).held(),
            final(self).peer() == old(self).peer(),
    {
        if !self.in_use {
            self.in_use = true;
            true
        } else {
            false
        }
    }

    /// Frees the connection, stamped now.
    pub fn release(&mut self)
        ensures
            !final(self).busy(),
            final(self).held() == old(self).held(),
            final(self).peer() == old(self).peer(),
    {
        self.last_used = instant_now();
        self.in_use = false;
    }

    /// Whether the connection is free and idle past `config.idle_timeout`.
    /// How long it has been idle is read off the clock, so only that a
    /// connection in use never expires is stated.
    pub fn is_expired(&self, config: &PoolConfig) -> (r: bool)
        ensures
            r ==> !self.busy(),
    {
        if self.in_use {
            return false;
        }
        let idle = instant_elapsed(&self.last_used);
        let idle_longer = duration_longer(&idle, &config.idle_timeout);
        self.expired_given(idle_longer)
    }

    /// Whether the connection counts as expired when it has (`idle_longer`)
    /// or has not been idle past the idle timeout: when it is free and has.
    pub fn expired_given(&self, idle_longer: bool) -> (r: bool)
        ensures
            r == (!self.busy() && idle_longer),
    {
        !self.in_use && idle_longer
    }

    /// Takes the connection out, leaving none.
    pub fn take_connection(&mut self) -> (r: Option<C>)
        ensures
            r == old(self).held(),
            final(self).held() is None,
            final(self).busy() == old(self).busy(),
            final(self).peer() == old(self).peer(),
    {
        self.conn.take()
    }

    /// The connection, while it is held.
    pub fn connection(&self) -> (r: Option<&C>)
        ensures
            r is Some <==> self.held() is Some,
            r matches Some(c) ==> *c == self.held()->0,
    {
        match &self.conn {
            Some(c) => Some(c),
            None => None,
        }
    }
}

/// What `begin_get` found.
pub enum GetStart {
    /// A free pooled connection to the peer was taken.
    Reused,
    /// No connection could be reused: the caller connects and calls `finish_get`.
    Connect,
    /// The shard is full even after dropping expired connections.
    Unavailable(SError),
}

/// How a connection attempt ended.
pub enum ConnectOutcome<C> {
    Connected(C),
    TimedOut,
    Failed(String),
}

/// The pooled connections of one shard, one per peer.
pub struct ConnectionShard<C> {
    connections: Vec<(SocksAddr, ConnectionState<C>)>,
    config: PoolConfig,
    stats: PoolStats,
}

/// The position of the entry for peer `a`, if any.
pub open spec fn entry_of<C>(entries: Seq<(SocksAddr, ConnectionState<C>)>, a: SpecSocksAddr) -> Option<int> {
    if exists|i: int| 0 <= i < entries.len() && (#[trigger] entries[i]).0.model() == a {
        Some(choose|i: int| 0 <= i < entries.len() && (#[trigger] entries[i]).0.model() == a)
    } else {
        None
    }
}

/// The elements of `s` whose flag in `keep` is set, in order.
pub open spec fn select<T>(s: Seq<T>, keep: Seq<bool>) -> Seq<T>
    decreases s.len(),
{
    if s.len() == 0 || keep.len() == 0 {
        Seq::empty()
    } else {
        let r = select(s.drop_last(), keep.drop_last());
        if keep.last() {
            r.push(s.last())
        } else {
            r
        }
    }
}

/// Keeping every element keeps the sequence.
pub proof fn lemma_select_all<T>(s: Seq<T>)
    ensures
        select(s, Seq::new(s.len(), |i: int| true)) == s,
    decreases s.len(),
{
    if s.len() > 0 {
        let all = Seq::new(s.len(), |i: int| true);
        assert(all.drop_last() =~= Seq::new(s.drop_last().len(), |i: int| true));
        lemma_select_all(s.drop_last());
        assert(s.drop_last().push(s.last()) =~= s);
    }
}

/// `after` holds the entries of `before` that `keep` marks, unchanged and in
/// order, and every entry in use is marked.
pub open spec fn kept_entries<C>(
    before: Seq<(SocksAddr, ConnectionState<C>)>,
    after: Seq<(SocksAddr, ConnectionState<C>)>,
    keep: Seq<bool>,
) -> bool {
    &&& keep.len() == before.len()
    &&& forall|q: int| 0 <= q < before.len() && (#[trigger] before[q]).1.busy() ==> keep[q]
    &&& after == select(before, keep)
}

/// `after` is `before` with the connection to `addr` freed: its entry keeps
/// its peer and connection and is no longer in use, every other entry stays
/// as it was; without an entry for `addr` nothing changes.
pub open spec fn shard_released<C>(before: ConnectionShard<C>, after: ConnectionShard<C>, addr: SpecSocksAddr) -> bool {
    &&& after.settings() == before.settings()
    &&& after.counters() == before.counters()
    &&& after.entries().len() == before.entries().len()
    &&& match entry_of(before.entries(), addr) {
        Some(i) => {
            &&& after.entries()[i].0 == before.entries()[i].0
            &&& !after.entries()[i].1.busy()
            &&& after.entries()[i].1.held() == before.entries()[i].1.held()
            &&& after.entries()[i].1.peer() == before.entries()[i].1.peer()
            &&& forall|j: int| 0 <= j < before.entries().len() && j != i ==> #[trigger] after.entries()[j] == before.entries()[j]
        },
        None => after.entries() == before.entries(),
    }
}

/// What `begin_get` for `addr` does to a shard, with its answer `r`.
pub open spec fn began_get<C>(before: ConnectionShard<C>, after: ConnectionShard<C>, addr: SpecSocksAddr, r: GetStart) -> bool {
    &&& after.settings() == before.settings()
    &&& r is Reused ==> ({
        let i = entry_of(before.entries(), addr)->0;
        &&& entry_of(before.entries(), addr) is Some
        &&& !before.entries()[i].1.busy()
        &&& after.entries().len() == before.entries().len()
        &&& after.entries()[i].1.busy()
        &&& after.entries()[i].0 == before.entries()[i].0
        &&& after.entries()[i].1.held() == before.entries()[i].1.held()
        &&& after.entries()[i].1.peer() == before.entries()[i].1.peer()
        &&& forall|j: int|
            0 <= j < before.entries().len() && j != i ==> #[trigger] after.entries()[j]
                == before.entries()[j]
        &&& after.counters() == (PoolStats {
            connection_acquires: before.counters().connection_acquires.wrapping_add(1),
            ..before.counters()
        })
    })
    &&& !(r is Reused) ==> exists|keep: Seq<bool>|
        #[trigger] kept_entries(before.entries(), after.entries(), keep)
    &&& !(r is Reused) && before.entries().len() < before.settings().max_connections_per_shard
        ==> after.entries() == before.entries()
    &&& !(r is Reused) ==> after.counters() == before.counters()
    &&& r is Connect ==> after.entries().len() < before.settings().max_connections_per_shard
    &&& r is Unavailable ==> (r matches GetStart::Unavailable(SError::OutboundUnavailable))
        && after.entries().len() >= before.settings().max_connections_per_shard
    &&& match entry_of(before.entries(), addr) {
        Some(i) => !before.entries()[i].1.busy() ==> r is Reused,
        None => true,
    }
}

/// What `finish_get` for `addr` does to a shard with the outcome of the
/// connection attempt, with its answer `r`.
pub open spec fn finished_get<C>(
    before: ConnectionShard<C>,
    after: ConnectionShard<C>,
    addr: SpecSocksAddr,
    outcome: ConnectOutcome<C>,
    r: Result<(), SError>,
) -> bool {
    &&& after.settings() == before.settings()
    &&& outcome is TimedOut ==> (r matches Err(SError::OutboundUnavailable)) && after.entries()
        == before.entries() && after.counters() == (PoolStats {
        connection_timeouts: before.counters().connection_timeouts.wrapping_add(1),
        ..before.counters()
    })
    &&& outcome matches ConnectOutcome::Failed(m) ==> r == Err::<(), SError>(
        SError::QuicError(QuicErrorRepr::QuicConnect(m)),
    ) && after.entries() == before.entries() && after.counters() == (PoolStats {
        connection_errors: before.counters().connection_errors.wrapping_add(1),
        ..before.counters()
    })
    &&& outcome matches ConnectOutcome::Connected(c) ==> ({
        let i = entry_of(after.entries(), addr)->0;
        &&& r is Ok
        &&& entry_of(after.entries(), addr) is Some
        &&& after.entries()[i].1.busy()
        &&& after.entries()[i].1.held() == Some(c)
        &&& after.entries()[i].1.peer() == addr
        &&& match entry_of(before.entries(), addr) {
            Some(k) => after.entries() == before.entries().update(k, after.entries()[k]),
            None => after.entries() == before.entries().push(after.entries().last()),
        }
        &&& after.counters() == (PoolStats {
            total_connections: before.counters().total_connections.wrapping_add(1),
            active_connections: before.counters().active_connections.wrapping_add(1),
            connection_acquires: before.counters().connection_acquires.wrapping_add(1),
            ..before.counters()
        })
    })
}

impl<C> ConnectionShard<C> {
    pub closed spec fn entries(self) -> Seq<(SocksAddr, ConnectionState<C>)> {
        self.connections@
    }

    pub closed spec fn counters(self) -> PoolStats {
        self.stats
    }

    pub closed spec fn settings(self) -> PoolConfig {
        self.config
    }

    /// No peer has two entries.
    pub closed spec fn wf(self) -> bool {
        forall|i: int, j: int|
            0 <= i < j < self.connections@.len() ==> (#[trigger] self.connections@[i]).0.model()
                != (#[trigger] self.connections@[j]).0.model()
    }

    pub fn new(config: PoolConfig) -> (s: Self)
        ensures
            s.wf(),
            s.entries().len() == 0,
            s.counters() == zero_pool_stats(),
            s.settings() == config,
    {
        ConnectionShard {
            connections: Vec::new(),
            config,
            stats: PoolStats {
                total_connections: 0,
                active_connections: 0,
                connection_acquires: 0,
                connection_releases: 0,
                connection_errors: 0,
                connection_timeouts: 0,
            },
        }
    }

    /// The position of the entry for `addr`.
    fn find(&self, addr: &SocksAddr) -> (r: Option<usize>)
        requires
            self.wf(),
        ensures
            r matches Some(i) ==> i < self.entries().len() && self.entries()[i as int].0.model() == addr.model(),
            r is None ==> entry_of(self.entries(), addr.model()) is None,
    {
        let mut i: usize = 0;
        while i < self.connections.len()
            invariant
                i <= self.connections@.len(),
                forall|j: int| 0 <= j < i ==> (#[trigger] self.connections@[j]).0.model() != addr.model(),
            decreases self.connections@.len() - i,
        {
            if self.connections[i].0.same_addr(addr) {
                return Some(i);
            }
            i = i + 1;
        }
        None
    }

    /// Reuses the free pooled connection to `addr`, or says what to do
    /// instead: connect, unless the shard holds its maximum of connections
    /// even after dropping the expired ones.
    pub fn begin_get(&mut self, addr: &SocksAddr) -> (r: GetStart)
        requires
            old(self).wf(),
        ensures
            final(self).wf(),
            began_get(*old(self), *final(self), addr.model(), r),
    {
        let found = self.find(addr);
        if let Some(i) = found {
            proof {
                assert(self.connections@[i as int].0.model() == addr.model());
                let k = entry_of(self.entries(), addr.model())->0;
                assert(self.connections@[k].0.model() == addr.model());
                if k != i {
                    if k < i {
                        assert(self.connections@[k].0.model() != self.connections@[i as int].0.model());
                    } else {
                        assert(self.connections@[i as int].0.model() != self.connections@[k].0.model());
                    }
                }
            }
            if self.connections[i].1.is_available() {
                let ghost before = self.connections@;
                let (a, mut state) = self.connections.remove(i);
                state.try_acquire();
                state.last_used = instant_now();
                self.connections.insert(i, (a, state));
                self.stats.connection_acquires = self.stats.connection_acquires.wrapping_add(1);
                proof {
                    assert forall|p: int, q: int|
                        0 <= p < q < self.connections@.len() implies (#[trigger] self.connections@[p]).0.model()
                        != (#[trigger] self.connections@[q]).0.model() by {
                        assert(self.connections@[p].0 == before[p].0);
                        assert(self.connections@[q].0 == before[q].0);
                    }
                }
                return GetStart::Reused;
            }
        }
        if self.connections.len() >= self.config.max_connections_per_shard {
            self.cleanup_expired();
            if self.connections.len() >= self.config.max_connections_per_shard {
                return GetStart::Unavailable(SError::OutboundUnavailable);
            }
        } else {
            proof {
                let all = Seq::new(self.entries().len(), |i: int| true);
                lemma_select_all(self.entries());
                assert(kept_entries(old(self).entries(), self.entries(), all));
            }
        }
        GetStart::Connect
    }

    /// Takes the outcome of a connection attempt to `addr`: a new connection
    /// is pooled, taken for use and counted; a timeout or a failure is
    /// counted and answered with an error.
    pub fn finish_get(&mut self, addr: SocksAddr, outcome: ConnectOutcome<C>) -> (r: Result<(), SError>)
        requires
            old(self).wf(),
        ensures
            final(self).wf(),
            finished_get(*old(self), *final(self), addr.model(), outcome, r),
    {
        match outcome {
            ConnectOutcome::TimedOut => {
                self.stats.connection_timeouts = self.stats.connection_timeouts.wrapping_add(1);
                Err(SError::OutboundUnavailable)
            },
            ConnectOutcome::Failed(msg) => {
                self.stats.connection_errors = self.stats.connection_errors.wrapping_add(1);
                Err(SError::QuicError(QuicErrorRepr::QuicConnect(msg)))
            },
            ConnectOutcome::Connected(conn) => {
                let key = addr.duplicate();
                let mut state = ConnectionState::new(conn, addr);
                state.try_acquire();
                let found = self.find(&key);
                let ghost before = self.connections@;
                let ghost idx: int;
                match found {
                    Some(i) => {
                        proof {
                            let k = entry_of(before, addr.model())->0;
                            assert(before[i as int].0.model() == addr.model());
                            if k != i {
                                if k < i {
                                    assert(before[k].0.model() != before[i as int].0.model());
                                } else {
                                    assert(before[i as int].0.model() != before[k].0.model());
                                }
                            }
                        }
                        self.connections.set(i, (key, state));
                        proof {
                            idx = i as int;
                            assert(self.connections@ =~= before.update(i as int, self.connections@[i as int]));
                            assert forall|p: int, q: int|
                                0 <= p < q < self.connections@.len() implies (#[trigger] self.connections@[p]).0.model()
                                != (#[trigger] self.connections@[q]).0.model() by {
                                if p != i && q != i {
                                    assert(self.connections@[p] == before[p]);
                                    assert(self.connections@[q] == before[q]);
                                } else if p == i {
                                    assert(self.connections@[q] == before[q]);
                                    assert(before[i as int].0.model() != before[q].0.model());
                                } else {
                                    assert(self.connections@[p] == before[p]);
                                    assert(before[p].0.model() != before[i as int].0.model());
                                }
                            }
                        }
                    },
                    None => {
                        self.connections.push((key, state));
                        proof {
                            idx = before.len() as int;
                            assert(self.connections@ =~= before.push(self.connections@.last()));
                            assert forall|p: int, q: int|
                                0 <= p < q < self.connections@.len() implies (#[trigger] self.connections@[p]).0.model()
                                != (#[trigger] self.connections@[q]).0.model() by {
                                assert(self.connections@[p] == before[p]);
                                if q < before.len() {
                                    assert(self.connections@[q] == before[q]);
                                } else {
                                    assert(before[p].0.model() != addr.model());
                                }
                            }
                        }
                    },
                }
                proof {
                    assert(self.connections@[idx].0.model() == addr.model());
                    let k = entry_of(self.entries(), addr.model())->0;
                    if k != idx {
                        if k < idx {
                            assert(self.connections@[k].0.model() != self.connections@[idx].0.model());
                        } else {
                            assert(self.connections@[idx].0.model() != self.connections@[k].0.model());
                        }
                    }
                }
                self.stats.total_connections = self.stats.total_connections.wrapping_add(1);
                self.stats.active_connections = self.stats.active_connections.wrapping_add(1);
                self.stats.connection_acquires = self.stats.connection_acquires.wrapping_add(1);
                Ok(())
            },
        }
    }

    /// Frees the pooled connection to `addr`, if any.
    pub fn release(&mut self, addr: &SocksAddr)
        requires
            old(self).wf(),
        ensures
            final(self).wf(),
            final(self).settings() == old(self).settings(),
            final(self).counters() == old(self).counters(),
            shard_released(*old(self), *final(self), addr.model()),
    {
        if let Some(i) = self.find(addr) {
            proof {
                let k = entry_of(self.entries(), addr.model())->0;
                if k != i {
                    if k < i {
                        assert(self.connections@[k].0.model() != self.connections@[i as int].0.model());
                    } else {
                        assert(self.connections@[i as int].0.model() != self.connections@[k].0.model());
                    }
                }
            }
            let ghost before = self.connections@;
            let (a, mut state) = self.connections.remove(i);
            state.release();
            self.connections.insert(i, (a, state));
            proof {
                assert forall|j: int| 0 <= j < before.len() && j != i implies self.connections@[j] == before[j] by {}
                assert forall|p: int, q: int|
                    0 <= p < q < self.connections@.len() implies (#[trigger] self.connections@[p]).0.model()
                    != (#[trigger] self.connections@[q]).0.model() by {
                    assert(self.connections@[p].0 == before[p].0);
                    assert(self.connections@[q].0 == before[q].0);
                }
            }
        }
    }

    /// Drops every free connection idle past the idle timeout, taking its
    /// connection out first. Connections in use stay.
    pub fn cleanup_expired(&mut self)
        requires
            old(self).wf(),
        ensures
            final(self).wf(),
            exists|keep: Seq<bool>| #[trigger] kept_entries(old(self).entries(), final(self).entries(), keep),
            final(self).settings() == old(self).settings(),
            final(self).counters() == old(self).counters(),
            final(self).entries().len() <= old(self).entries().len(),
            forall|i: int|
                0 <= i < old(self).entries().len() && (#[trigger] old(self).entries()[i]).1.busy() ==> entry_of(
                    final(self).entries(),
                    old(self).entries()[i].0.model(),
                ) is Some,
    {
        let mut kept: Vec<(SocksAddr, ConnectionState<C>)> = Vec::new();
        let mut rest = Vec::new();
        std::mem::swap(&mut rest, &mut self.connections);
        let ghost all = rest@;
        let total = rest.len();
        assert(all.len() == total);
        let mut i: usize = 0;
        let ghost mut keep: Seq<bool> = Seq::empty();
        while rest.len() > 0
            invariant
                rest@ == all.skip(i as int),
                keep.len() == i,
                kept@ == select(all.take(i as int), keep),
                forall|q: int| 0 <= q < i && (#[trigger] all[q]).1.busy() ==> keep[q],
                i <= all.len(),
                all.len() <= usize::MAX,
                kept@.len() <= i,
                forall|p: int, q: int|
                    0 <= p < q < all.len() ==> (#[trigger] all[p]).0.model() != (#[trigger] all[q]).0.model(),
                forall|p: int|
                    0 <= p < kept@.len() ==> exists|q: int|
                        0 <= q < i && (#[trigger] kept@[p]).0.model() == (#[trigger] all[q]).0.model(),
                forall|p: int, q: int|
                    0 <= p < q < kept@.len() ==> (#[trigger] kept@[p]).0.model() != (#[trigger] kept@[q]).0.model(),
                forall|q: int|
                    0 <= q < i && (#[trigger] all[q]).1.busy() ==> exists|p: int|
                        0 <= p < kept@.len() && (#[trigger] kept@[p]).0.model() == all[q].0.model(),
            decreases rest@.len(),
        {
            let ghost k = kept@;
            let entry = rest.remove(0);
            proof {
                assert(all.skip(i as int)[0] == all[i as int]);
                assert(entry == all[i as int]);
                assert(rest@ =~= all.skip(i as int + 1));
            }
            let (a, mut state) = entry;
            let ghost k_before = keep;
            proof {
                assert(all.take(i as int + 1).drop_last() =~= all.take(i as int));
                assert(all.take(i as int + 1).last() == all[i as int]);
            }
            if state.is_expired(&self.config) {
                let _ = state.take_connection();
                proof {
                    keep = keep.push(false);
                    assert(keep.drop_last() =~= k_before);
                    assert(kept@ == select(all.take(i as int + 1), keep));
                    assert forall|q: int| 0 <= q < i + 1 && (#[trigger] all[q]).1.busy() implies keep[q] by {
                        assert(q < i);
                        assert(keep[q] == k_before[q]);
                    }
                    assert(!all[i as int].1.busy());
                    assert forall|q: int|
                        0 <= q < i + 1 && (#[trigger] all[q]).1.busy() implies exists|p: int|
                        0 <= p < kept@.len() && (#[trigger] kept@[p]).0.model() == all[q].0.model() by {
                        assert(q < i);
                    }
                }
            } else {
                proof {
                    assert forall|p: int| 0 <= p < k.len() implies k[p].0.model() != a.model() by {
                        let q = choose|q: int| 0 <= q < i && k[p].0.model() == all[q].0.model();
                        assert(all[q].0.model() != all[i as int].0.model());
                    }
                }
                kept.push((a, state));
                proof {
                    keep = keep.push(true);
                    assert(keep.drop_last() =~= k_before);
                    assert((a, state) == all[i as int]);
                    assert(kept@ =~= select(all.take(i as int), k_before).push(all[i as int]));
                    assert(kept@ == select(all.take(i as int + 1), keep));
                    assert forall|q: int| 0 <= q < i + 1 && (#[trigger] all[q]).1.busy() implies keep[q] by {
                        if q < i {
                            assert(keep[q] == k_before[q]);
                        }
                    }
                    assert(kept@[k.len() as int].0.model() == all[i as int].0.model());
                    assert forall|q: int|
                        0 <= q < i + 1 && (#[trigger] all[q]).1.busy() implies exists|p: int|
                        0 <= p < kept@.len() && (#[trigger] kept@[p]).0.model() == all[q].0.model() by {
                        if q < i {
                            let p = choose|p: int| 0 <= p < k.len() && (#[trigger] k[p]).0.model() == all[q].0.model();
                            assert(kept@[p] == k[p]);
                        } else {
                            assert(kept@[k.len() as int].0.model() == all[q].0.model());
                        }
                    }
                    assert forall|p: int|
                        0 <= p < kept@.len() implies exists|q: int|
                        0 <= q < i + 1 && (#[trigger] kept@[p]).0.model() == (#[trigger] all[q]).0.model() by {
                        if p < k.len() {
                            assert(kept@[p] == k[p]);
                        } else {
                            assert(kept@[p].0.model() == all[i as int].0.model());
                        }
                    }
                }
            }
            i = i + 1;
        }
        self.connections = kept;
        proof {
            assert(all.take(i as int) =~= all);
            assert(kept_entries(all, self.entries(), keep));
            assert forall|q: int|
                0 <= q < all.len() && (#[trigger] all[q]).1.busy() implies entry_of(
                self.entries(),
                all[q].0.model(),
            ) is Some by {
                let p = choose|p: int| 0 <= p < self.connections@.len() && (#[trigger] self.connections@[p]).0.model() == all[q].0.model();
                assert(self.connections@[p].0.model() == all[q].0.model());
            }
        }
    }

    /// The counters.
    pub fn stats(&self) -> (s: PoolStats)
        ensures
            s == self.counters(),
    {
        self.stats
    }
}

/// The counters of all shards of a pool, summed.
#[derive(Debug, Default)]
pub struct PooledConnectionStats {
    pub total: usize,
    pub active: usize,
    pub acquires: usize,
    pub releases: usize,
    pub errors: usize,
    pub timeouts: usize,
}

/// Connection shards; a peer goes to the shard picked by the low bits of
/// the hash of its socket address.
pub struct ShardedConnectionPool<C> {
    shards: Vec<ConnectionShard<C>>,
    shard_mask: usize,
}

impl<C> ShardedConnectionPool<C> {
    pub closed spec fn shard_tables(self) -> Seq<ConnectionShard<C>> {
        self.shards@
    }

    pub closed spec fn mask(self) -> usize {
        self.shard_mask
    }

    pub closed spec fn wf(self) -> bool {
        &&& self.shards@.len() == self.shard_mask + 1
        &&& forall|i: int| 0 <= i < self.shards@.len() ==> (#[trigger] self.shards@[i]).wf()
    }

    /// The shard a peer whose address hashes to `addr_hash` goes to.
    pub open spec fn shard_of_hash(self, addr_hash: u64) -> int {
        ((addr_hash as usize) & self.mask()) as int
    }

    /// `num_shards` rounded up to a power of two empty shards.
    pub fn new(num_shards: usize, config: PoolConfig) -> (p: Self)
        requires
            num_shards <= usize::MAX / 2 + 1,
        ensures
            p.wf(),
            is_next_power_of_two(num_shards as nat, p.shard_tables().len()),
            forall|i: int|
                0 <= i < p.shard_tables().len() ==> (#[trigger] p.shard_tables()[i]).entries().len() == 0
                    && p.shard_tables()[i].counters() == zero_pool_stats() && p.shard_tables()[i].settings()
                    == config,
    {
        let num = next_power_of_two(num_shards);
        let mut shards: Vec<ConnectionShard<C>> = Vec::new();
        let mut i: usize = 0;
        while i < num
            invariant
                i <= num,
                shards@.len() == i,
                forall|j: int|
                    0 <= j < i ==> (#[trigger] shards@[j]).wf() && shards@[j].entries().len() == 0
                        && shards@[j].counters() == zero_pool_stats() && shards@[j].settings() == config,
            decreases num - i,
        {
            shards.push(ConnectionShard::new(config));
            i = i + 1;
        }
        ShardedConnectionPool { shards, shard_mask: num - 1 }
    }

    /// `begin_get` in the shard of `addr_hash`; the other shards are unchanged.
    pub fn begin_get(&mut self, addr_hash: u64, addr: &SocksAddr) -> (r: GetStart)
        requires
            old(self).wf(),
        ensures
            final(self).wf(),
            final(self).mask() == old(self).mask(),
            0 <= old(self).shard_of_hash(addr_hash) < old(self).shard_tables().len(),
            final(self).shard_tables() == old(self).shard_tables().update(
                old(self).shard_of_hash(addr_hash),
                final(self).shard_tables()[old(self).shard_of_hash(addr_hash)],
            ),
            began_get(
                old(self).shard_tables()[old(self).shard_of_hash(addr_hash)],
                final(self).shard_tables()[old(self).shard_of_hash(addr_hash)],
                addr.model(),
                r,
            ),
    {
        proof {
            lemma_mask_below(addr_hash as usize, self.shard_mask);
        }
        let idx = (addr_hash as usize) & self.shard_mask;
        let ghost before = self.shards@;
        let mut shard = self.shards.remove(idx);
        let r = shard.begin_get(addr);
        self.shards.insert(idx, shard);
        proof {
            assert(self.shards@ =~= before.update(idx as int, self.shards@[idx as int]));
        }
        r
    }

    /// `finish_get` in the shard of `addr_hash`; the other shards are unchanged.
    pub fn finish_get(&mut self, addr_hash: u64, addr: SocksAddr, outcome: ConnectOutcome<C>) -> (r: Result<(), SError>)
        requires
            old(self).wf(),
        ensures
            final(self).wf(),
            final(self).mask() == old(self).mask(),
            0 <= old(self).shard_of_hash(addr_hash) < old(self).shard_tables().len(),
            final(self).shard_tables() == old(self).shard_tables().update(
                old(self).shard_of_hash(addr_hash),
                final(self).shard_tables()[old(self).shard_of_hash(addr_hash)],
            ),
            finished_get(
                old(self).shard_tables()[old(self).shard_of_hash(addr_hash)],
                final(self).shard_tables()[old(self).shard_of_hash(addr_hash)],
                addr.model(),
                outcome,
                r,
            ),
    {
        proof {
            lemma_mask_below(addr_hash as usize, self.shard_mask);
        }
        let idx = (addr_hash as usize) & self.shard_mask;
        let ghost before = self.shards@;
        let mut shard = self.shards.remove(idx);
        let r = shard.finish_get(addr, outcome);
        self.shards.insert(idx, shard);
        proof {
            assert(self.shards@ =~= before.update(idx as int, self.shards@[idx as int]));
        }
        r
    }

    /// Frees the pooled connection to `addr` in the shard of `addr_hash`.
    pub fn release(&mut self, addr_hash: u64, addr: &SocksAddr)
        requires
            old(self).wf(),
        ensures
            final(self).wf(),
            final(self).mask() == old(self).mask(),
            0 <= old(self).shard_of_hash(addr_hash) < old(self).shard_tables().len(),
            final(self).shard_tables() == old(self).shard_tables().update(
                old(self).shard_of_hash(addr_hash),
                final(self).shard_tables()[old(self).shard_of_hash(addr_hash)],
            ),
            shard_released(
                old(self).shard_tables()[old(self).shard_of_hash(addr_hash)],
                final(self).shard_tables()[old(self).shard_of_hash(addr_hash)],
                addr.model(),
            ),
    {
        proof {
            lemma_mask_below(addr_hash as usize, self.shard_mask);
        }
        let idx = (addr_hash as usize) & self.shard_mask;
        let ghost before = self.shards@;
        let mut shard = self.shards.remove(idx);
        shard.release(addr);
        self.shards.insert(idx, shard);
        proof {
            assert(self.shards@ =~= before.update(idx as int, self.shards@[idx as int]));
        }
    }

    /// The counters of all shards, summed; the sums must fit in `usize`.
    pub fn stats(&self) -> (s: PooledConnectionStats)
        requires
            pool_sums_fit(self.shard_tables()),
        ensures
            s.total == pool_sum(self.shard_tables(), 0),
            s.active == pool_sum(self.shard_tables(), 1),
            s.acquires == pool_sum(self.shard_tables(), 2),
            s.releases == pool_sum(self.shard_tables(), 3),
            s.errors == pool_sum(self.shard_tables(), 4),
            s.timeouts == pool_sum(self.shard_tables(), 5),
    {
        let ghost shards = self.shards@;
        let mut s = PooledConnectionStats { total: 0, active: 0, acquires: 0, releases: 0, errors: 0, timeouts: 0 };
        let mut i: usize = 0;
        while i < self.shards.len()
            invariant
                i <= self.shards@.len(),
                shards == self.shards@,
                pool_sums_fit(shards),
                s.total == pool_sum(shards.take(i as int), 0),
                s.active == pool_sum(shards.take(i as int), 1),
                s.acquires == pool_sum(shards.take(i as int), 2),
                s.releases == pool_sum(shards.take(i as int), 3),
                s.errors == pool_sum(shards.take(i as int), 4),
                s.timeouts == pool_sum(shards.take(i as int), 5),
            decreases self.shards@.len() - i,
        {
            proof {
                let k = i as int + 1;
                assert(shards.take(k).drop_last() =~= shards.take(i as int));
                lemma_pool_sum_prefix(shards, 0, k);
                lemma_pool_sum_prefix(shards, 1, k);
                lemma_pool_sum_prefix(shards, 2, k);
                lemma_pool_sum_prefix(shards, 3, k);
                lemma_pool_sum_prefix(shards, 4, k);
                lemma_pool_sum_prefix(shards, 5, k);
            }
            let c = self.shards[i].stats();
            s.total = s.total + c.total_connections;
            s.active = s.active + c.active_connections;
            s.acquires = s.acquires + c.connection_acquires;
            s.releases = s.releases + c.connection_releases;
            s.errors = s.errors + c.connection_errors;
            s.timeouts = s.timeouts + c.connection_timeouts;
            i = i + 1;
        }
        proof {
            assert(shards.take(i as int) =~= shards);
        }
        s
    }
}

/// One counter of `c`: 0 total, 1 active, 2 acquires, 3 releases, 4 errors, 5 timeouts.
pub open spec fn pool_field(c: PoolStats, which: int) -> usize {
    if which == 0 {
        c.total_connections
    } else if which == 1 {
        c.active_connections
    } else if which == 2 {
        c.connection_acquires
    } else if which == 3 {
        c.connection_releases
    } else if which == 4 {
        c.connection_errors
    } else {
        c.connection_timeouts
    }
}

/// The sum of one counter over the shards.
pub open spec fn pool_sum<C>(shards: Seq<ConnectionShard<C>>, which: int) -> int
    decreases shards.len(),
{
    if shards.len() == 0 {
        0
    } else {
        pool_sum(shards.drop_last(), which) + pool_field(shards.last().counters(), which)
    }
}

/// Every counter summed over the shards fits in `usize`.
pub open spec fn pool_sums_fit<C>(shards: Seq<ConnectionShard<C>>) -> bool {
    &&& pool_sum(shards, 0) <= usize::MAX
    &&& pool_sum(shards, 1) <= usize::MAX
    &&& pool_sum(shards, 2) <= usize::MAX
    &&& pool_sum(shards, 3) <= usize::MAX
    &&& pool_sum(shards, 4) <= usize::MAX
    &&& pool_sum(shards, 5) <= usize::MAX
}

proof fn lemma_pool_sum_prefix<C>(shards: Seq<ConnectionShard<C>>, which: int, k: int)
    requires
        0 <= k <= shards.len(),
    ensures
        0 <= pool_sum(shards.take(k), which) <= pool_sum(shards, which),
        k > 0 ==> pool_sum(shards.take(k), which) == pool_sum(shards.take(k - 1), which) + pool_field(
            shards[k - 1].counters(),
            which,
        ),
    decreases shards.len(),
{
    if k > 0 {
        assert(shards.take(k).drop_last() =~= shards.take(k - 1));
    }
    if shards.len() > 0 {
        if k < shards.len() {
            assert(shards.drop_last().take(k) =~= shards.take(k));
            lemma_pool_sum_prefix(shards.drop_last(), which, k);
        } else {
            assert(shards.take(k) =~= shards);
            lemma_pool_sum_prefix(shards.drop_last(), which, shards.len() - 1);
            assert(shards.drop_last().take(shards.len() - 1) =~= shards.drop_last());
        }
    } else {
        assert(shards.take(k) =~= shards);
    }
}

} // verus!
