//! A FIFO queue of packets for the UDP paths, with its counters.

use crate::msgs::socks5::SocksAddr;
use crate::seg_queue::{
    packet_model, packet_queue_is_empty, packet_queue_len, packet_queue_new, packet_queue_pop,
    packet_queue_push, seg_queue_packets,
};
use crate::msgs::socks5::SpecSocksAddr;
use bytes::Bytes;
use crossbeam::queue::SegQueue;
use vstd::prelude::*;

verus! {

/// Counters of a packet queue; each wraps around at `usize::MAX`.
#[derive(Clone, Copy, Debug, Default)]
pub struct QueueStats {
    pub packets_sent: usize,
    pub packets_received: usize,
    pub bytes_sent: usize,
    pub bytes_received: usize,
    pub drops: usize,
}

/// Packets waiting to be handled, oldest first: each with its source and
/// destination.
pub struct PacketQueue {
    queue: SegQueue<(Bytes, SocksAddr, SocksAddr)>,
    stats: QueueStats,
}

impl PacketQueue {
    /// The packets waiting, each by its bytes and addresses.
    pub closed spec fn waiting(self) -> Seq<(Seq<u8>, SpecSocksAddr, SpecSocksAddr)> {
        seg_queue_packets(self.queue)
    }

    /// An empty queue; it is unbounded, so `capacity` is not used.
    pub fn new(capacity: usize) -> (q: Self)
        ensures
            q.waiting() == Seq::<(Seq<u8>, SpecSocksAddr, SpecSocksAddr)>::empty(),
    {
        PacketQueue {
            queue: packet_queue_new(),
            stats: QueueStats { packets_sent: 0, packets_received: 0, bytes_sent: 0, bytes_received: 0, drops: 0 },
        }
    }

    pub fn push(&mut self, packet: (Bytes, SocksAddr, SocksAddr))
        ensures
            final(self).waiting() == old(self).waiting().push(packet_model(packet)),
    {
        packet_queue_push(&mut self.queue, packet);
    }

    /// The oldest packet, taken out, or `None` when none waits.
    pub fn pop(&mut self) -> (r: Option<(Bytes, SocksAddr, SocksAddr)>)
        ensures
            old(self).waiting().len() == 0 ==> r is None && final(self).waiting() == old(self).waiting(),
            old(self).waiting().len() > 0 ==> r is Some && packet_model(r->0) == old(self).waiting()[0]
                && final(self).waiting() == old(self).waiting().skip(1),
    {
        packet_queue_pop(&mut self.queue)
    }

    pub fn is_empty(&self) -> (r: bool)
        ensures
            r == (self.waiting().len() == 0),
    {
        packet_queue_is_empty(&self.queue)
    }

    pub fn len(&self) -> (n: usize)
        ensures
            n == self.waiting().len(),
    {
        packet_queue_len(&self.queue)
    }
}

/// Socket options for the UDP and TCP paths. The options are set on live
/// sockets, which the application layer holds; this type names the set.
pub struct SocketOptimizer;

} // verus!
