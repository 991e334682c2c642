//! Process-wide traffic counters.
//!
//! Every counter wraps around at the top of its type, as the atomic counters
//! it stands for do. The counters are changed through `&mut self`; callers
//! that share one set of counters between tasks keep it behind a lock.

use vstd::prelude::*;

verus! {

/// Counters of packets, bytes, connections, errors and sessions.
pub struct Metrics {
    pub packets_received: u64,
    pub packets_sent: u64,
    pub bytes_received: u64,
    pub bytes_sent: u64,
    pub connections_active: usize,
    pub connections_total: usize,
    pub errors: usize,
    pub udp_sessions: usize,
    pub tcp_sessions: usize,
}

/// The counters of a `Metrics`, read at one moment.
#[derive(Debug, Clone, Default)]
pub struct MetricsSnapshot {
    pub packets_received: u64,
    pub packets_sent: u64,
    pub bytes_received: u64,
    pub bytes_sent: u64,
    pub connections_active: usize,
    pub connections_total: usize,
    pub errors: usize,
    pub udp_sessions: usize,
    pub tcp_sessions: usize,
}

/// All counters of `m` are zero.
pub open spec fn metrics_zero(m: Metrics) -> bool {
    &&& m.packets_received == 0
    &&& m.packets_sent == 0
    &&& m.bytes_received == 0
    &&& m.bytes_sent == 0
    &&& m.connections_active == 0
    &&& m.connections_total == 0
    &&& m.errors == 0
    &&& m.udp_sessions == 0
    &&& m.tcp_sessions == 0
}

/// `m` and `n` agree on every counter but those that `changed` names:
/// 0 packets and bytes received, 1 packets and bytes sent, 2 the two
/// connection counters, 3 errors, 4 UDP sessions, 5 TCP sessions.
pub open spec fn metrics_same_except(m: Metrics, n: Metrics, changed: int) -> bool {
    &&& changed != 0 ==> m.packets_received == n.packets_received && m.bytes_received == n.bytes_received
    &&& changed != 1 ==> m.packets_sent == n.packets_sent && m.bytes_sent == n.bytes_sent
    &&& changed != 2 ==> m.connections_active == n.connections_active && m.connections_total
        == n.connections_total
    &&& changed != 3 ==> m.errors == n.errors
    &&& changed != 4 ==> m.udp_sessions == n.udp_sessions
    &&& changed != 5 ==> m.tcp_sessions == n.tcp_sessions
}

impl Default for Metrics {
    fn default() -> (m: Self)
        ensures
            metrics_zero(m),
    {
        Metrics {
            packets_received: 0,
            packets_sent: 0,
            bytes_received: 0,
            bytes_sent: 0,
            connections_active: 0,
            connections_total: 0,
            errors: 0,
            udp_sessions: 0,
            tcp_sessions: 0,
        }
    }
}

impl Metrics {
    /// Counts one received packet of `size` bytes.
    pub fn record_packet_received(&mut self, size: usize)
        ensures
            final(self).packets_received == old(self).packets_received.wrapping_add(1),
            final(self).bytes_received == old(self).bytes_received.wrapping_add(size as u64),
            metrics_same_except(*final(self), *old(self), 0),
    {
        self.packets_received = self.packets_received.wrapping_add(1);
        self.bytes_received = self.bytes_received.wrapping_add(size as u64);
    }

    /// Counts one sent packet of `size` bytes.
    pub fn record_packet_sent(&mut self, size: usize)
        ensures
            final(self).packets_sent == old(self).packets_sent.wrapping_add(1),
            final(self).bytes_sent == old(self).bytes_sent.wrapping_add(size as u64),
            metrics_same_except(*final(self), *old(self), 1),
    {
        self.packets_sent = self.packets_sent.wrapping_add(1);
        self.bytes_sent = self.bytes_sent.wrapping_add(size as u64);
    }

    /// Counts a new connection, which is active from now on.
    pub fn record_connection(&mut self)
        ensures
            final(self).connections_total == old(self).connections_total.wrapping_add(1),
            final(self).connections_active == old(self).connections_active.wrapping_add(1),
            metrics_same_except(*final(self), *old(self), 2),
    {
        self.connections_total = self.connections_total.wrapping_add(1);
        self.connections_active = self.connections_active.wrapping_add(1);
    }

    /// Counts a connection that closed: one active connection fewer.
    pub fn close_connection(&mut self)
        ensures
            final(self).connections_active == old(self).connections_active.wrapping_sub(1),
            final(self).connections_total == old(self).connections_total,
            metrics_same_except(*final(self), *old(self), 2),
    {
        self.connections_active = self.connections_active.wrapping_sub(1);
    }

    pub fn record_error(&mut self)
        ensures
            final(self).errors == old(self).errors.wrapping_add(1),
            metrics_same_except(*final(self), *old(self), 3),
    {
        self.errors = self.errors.wrapping_add(1);
    }

    pub fn record_udp_session(&mut self)
        ensures
            final(self).udp_sessions == old(self).udp_sessions.wrapping_add(1),
            metrics_same_except(*final(self), *old(self), 4),
    {
        self.udp_sessions = self.udp_sessions.wrapping_add(1);
    }

    pub fn record_tcp_session(&mut self)
        ensures
            final(self).tcp_sessions == old(self).tcp_sessions.wrapping_add(1),
            metrics_same_except(*final(self), *old(self), 5),
    {
        self.tcp_sessions = self.tcp_sessions.wrapping_add(1);
    }

    /// The counters, read together.
    pub fn snapshot(&self) -> (s: MetricsSnapshot)
        ensures
            s.packets_received == self.packets_received,
            s.packets_sent == self.packets_sent,
            s.bytes_received == self.bytes_received,
            s.bytes_sent == self.bytes_sent,
            s.connections_active == self.connections_active,
            s.connections_total == self.connections_total,
            s.errors == self.errors,
            s.udp_sessions == self.udp_sessions,
            s.tcp_sessions == self.tcp_sessions,
    {
        MetricsSnapshot {
            packets_received: self.packets_received,
            packets_sent: self.packets_sent,
            bytes_received: self.bytes_received,
            bytes_sent: self.bytes_sent,
            connections_active: self.connections_active,
            connections_total: self.connections_total,
            errors: self.errors,
            udp_sessions: self.udp_sessions,
            tcp_sessions: self.tcp_sessions,
        }
    }
}

/// Opening a connection and closing it again leaves the number of active
/// connections where it was, and the total one higher.
pub proof fn lemma_open_close_connection(m0: Metrics, m1: Metrics, m2: Metrics)
    requires
        m1.connections_total == m0.connections_total.wrapping_add(1),
        m1.connections_active == m0.connections_active.wrapping_add(1),
        metrics_same_except(m1, m0, 2),
        m2.connections_active == m1.connections_active.wrapping_sub(1),
        m2.connections_total == m1.connections_total,
        metrics_same_except(m2, m1, 2),
    ensures
        m2.connections_active == m0.connections_active,
        m2.connections_total == m0.connections_total.wrapping_add(1),
        metrics_same_except(m2, m0, 2),
{
}

} // verus!
