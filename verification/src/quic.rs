//! Transport limits and connection statistics of the QUIC layer.

use vstd::prelude::*;

verus! {

/// The flow-control window for 100 ms of round trip at 500 Mbit/s.
pub const MAX_WINDOW_BASE: u64 = 4 * 12_500_000 * 100 / 1000;

pub const MAX_STREAM_WINDOW: u64 = MAX_WINDOW_BASE;

pub const MAX_SEND_WINDOW: u64 = MAX_WINDOW_BASE * 8;

pub const MAX_DATAGRAM_WINDOW: u64 = MAX_WINDOW_BASE * 2;

pub const MAX_CONCURRENT_BIDI_STREAMS: u32 = 1000;

pub const MAX_CONCURRENT_UNI_STREAMS: u32 = 1000;

/// Connection and traffic counters; each wraps around at `usize::MAX`.
pub struct Stats {
    pub total_connections: usize,
    pub active_connections: usize,
    pub total_packets_sent: usize,
    pub total_packets_received: usize,
    pub total_bytes_sent: usize,
    pub total_bytes_received: usize,
}

/// The counters of `s`, in declaration order.
pub open spec fn stats_counters(s: Stats) -> (usize, usize, usize, usize, usize, usize) {
    (
        s.total_connections,
        s.active_connections,
        s.total_packets_sent,
        s.total_packets_received,
        s.total_bytes_sent,
        s.total_bytes_received,
    )
}

impl Stats {
    /// All counters at zero.
    pub fn new() -> (s: Self)
        ensures
            stats_counters(s) == (0usize, 0usize, 0usize, 0usize, 0usize, 0usize),
    {
        Stats {
            total_connections: 0,
            active_connections: 0,
            total_packets_sent: 0,
            total_packets_received: 0,
            total_bytes_sent: 0,
            total_bytes_received: 0,
        }
    }

    pub fn connection_opened(&mut self)
        ensures
            stats_counters(*final(self)) == (
                old(self).total_connections.wrapping_add(1),
                old(self).active_connections.wrapping_add(1),
                old(self).total_packets_sent,
                old(self).total_packets_received,
                old(self).total_bytes_sent,
                old(self).total_bytes_received,
            ),
    {
        self.total_connections = self.total_connections.wrapping_add(1);
        self.active_connections = self.active_connections.wrapping_add(1);
    }

    pub fn connection_closed(&mut self)
        ensures
            stats_counters(*final(self)) == (
                old(self).total_connections,
                old(self).active_connections.wrapping_sub(1),
                old(self).total_packets_sent,
                old(self).total_packets_received,
                old(self).total_bytes_sent,
                old(self).total_bytes_received,
            ),
    {
        self.active_connections = self.active_connections.wrapping_sub(1);
    }

    /// Counts a sent packet of `size` bytes.
    pub fn packet_sent(&mut self, size: usize)
        ensures
            stats_counters(*final(self)) == (
                old(self).total_connections,
                old(self).active_connections,
                old(self).total_packets_sent.wrapping_add(1),
                old(self).total_packets_received,
                old(self).total_bytes_sent.wrapping_add(size),
                old(self).total_bytes_received,
            ),
    {
        self.total_packets_sent = self.total_packets_sent.wrapping_add(1);
        self.total_bytes_sent = self.total_bytes_sent.wrapping_add(size);
    }

    /// Counts a received packet of `size` bytes.
    pub fn packet_received(&mut self, size: usize)
        ensures
            stats_counters(*final(self)) == (
                old(self).total_connections,
                old(self).active_connections,
                old(self).total_packets_sent,
                old(self).total_packets_received.wrapping_add(1),
                old(self).total_bytes_sent,
                old(self).total_bytes_received.wrapping_add(size),
            ),
    {
        self.total_packets_received = self.total_packets_received.wrapping_add(1);
        self.total_bytes_received = self.total_bytes_received.wrapping_add(size);
    }
}

impl Default for Stats {
    fn default() -> (s: Self)
        ensures
            stats_counters(s) == (0usize, 0usize, 0usize, 0usize, 0usize, 0usize),
    {
        Self::new()
    }
}

/// Opening a connection and closing it leaves the active count unchanged.
pub proof fn lemma_stats_open_close(s: Stats, t: Stats, u: Stats)
    requires
        t.active_connections == s.active_connections.wrapping_add(1),
        u.active_connections == t.active_connections.wrapping_sub(1),
    ensures
        u.active_connections == s.active_connections,
{
}

/// Why a QUIC operation failed; the text is the transport's own message.
#[derive(Debug)]
pub enum QuicErrorRepr {
    QuicIoError(String),
    QuicBaseError(String),
    QuicListenerBuilderError(String),
    QuicConnect(String),
    QuicConnection(String),
    QuicWrite(String),
    QuicReadExactError(String),
    QuicSendDatagramError(String),
    JlsAuthFailed,
}

} // verus!
