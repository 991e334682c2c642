//! The unbounded FIFO queue of `crossbeam`, as the id generators use it.
//!
//! Its contents are named by `seg_queue_items` (a queue of ids) and
//! `seg_queue_buffers` (a queue of byte buffers, each by its bytes), oldest first. The queue is
//! reached through `&mut` here: a generator that is shared between threads
//! sits behind a lock, so no other thread pushes or pops during a call.

use crate::bytes_io::{bytes_mut_view, bytes_view};
use crate::msgs::socks5::{SocksAddr, SpecSocksAddr};
use crate::msgs::WireModel;
use bytes::{Bytes, BytesMut};
use crossbeam::queue::SegQueue;
use vstd::prelude::*;

verus! {

#[verifier::external_type_specification]
#[verifier::external_body]
#[verifier::reject_recursive_types(T)]
pub struct ExSegQueue<T>(SegQueue<T>);

/// The ids waiting in a queue, from the one pushed first to the one pushed last.
pub uninterp spec fn seg_queue_items(q: SegQueue<u32>) -> Seq<u32>;

/// `SegQueue::new`: a queue that holds nothing.
#[verifier::external_body]
pub(crate) fn seg_queue_new() -> (q: SegQueue<u32>)
    ensures
        seg_queue_items(q) == Seq::<u32>::empty(),
{
    SegQueue::new()
}

/// `SegQueue::push`: `value` joins the back of the queue.
#[verifier::external_body]
pub(crate) fn seg_queue_push(q: &mut SegQueue<u32>, value: u32)
    ensures
        seg_queue_items(*final(q)) == seg_queue_items(*old(q)).push(value),
{
    q.push(value)
}

/// `SegQueue::pop`: the front of the queue, taken out, or `None` when it is empty.
#[verifier::external_body]
pub(crate) fn seg_queue_pop(q: &mut SegQueue<u32>) -> (r: Option<u32>)
    ensures
        seg_queue_items(*old(q)).len() == 0 ==> r is None && seg_queue_items(*final(q))
            == seg_queue_items(*old(q)),
        seg_queue_items(*old(q)).len() > 0 ==> r == Some(seg_queue_items(*old(q))[0])
            && seg_queue_items(*final(q)) == seg_queue_items(*old(q)).skip(1),
{
    q.pop()
}

/// The buffers waiting in a queue, each by the bytes it holds, oldest first.
pub uninterp spec fn seg_queue_buffers(q: SegQueue<BytesMut>) -> Seq<Seq<u8>>;

/// `SegQueue::new`, for buffers: a queue that holds nothing.
#[verifier::external_body]
pub(crate) fn buffer_queue_new() -> (q: SegQueue<BytesMut>)
    ensures
        seg_queue_buffers(q) == Seq::<Seq<u8>>::empty(),
{
    SegQueue::new()
}

/// `SegQueue::push`, for buffers: `buf` joins the back of the queue.
#[verifier::external_body]
pub(crate) fn buffer_queue_push(q: &mut SegQueue<BytesMut>, buf: BytesMut)
    ensures
        seg_queue_buffers(*final(q)) == seg_queue_buffers(*old(q)).push(bytes_mut_view(buf)),
{
    q.push(buf)
}

/// `SegQueue::pop`, for buffers: the front buffer, taken out, or `None` when empty.
#[verifier::external_body]
pub(crate) fn buffer_queue_pop(q: &mut SegQueue<BytesMut>) -> (r: Option<BytesMut>)
    ensures
        seg_queue_buffers(*old(q)).len() == 0 ==> r is None && seg_queue_buffers(*final(q))
            == seg_queue_buffers(*old(q)),
        seg_queue_buffers(*old(q)).len() > 0 ==> r is Some && bytes_mut_view(r->0)
            == seg_queue_buffers(*old(q))[0] && seg_queue_buffers(*final(q))
            == seg_queue_buffers(*old(q)).skip(1),
{
    q.pop()
}

/// A packet as values: its bytes, its source and its destination.
pub open spec fn packet_model(p: (Bytes, SocksAddr, SocksAddr)) -> (Seq<u8>, SpecSocksAddr, SpecSocksAddr) {
    (bytes_view(p.0), p.1.model(), p.2.model())
}

/// The packets waiting in a queue, each by its bytes and addresses, oldest first.
pub uninterp spec fn seg_queue_packets(q: SegQueue<(Bytes, SocksAddr, SocksAddr)>) -> Seq<(Seq<u8>, SpecSocksAddr, SpecSocksAddr)>;

/// `SegQueue::new`, for packets: a queue that holds nothing.
#[verifier::external_body]
pub(crate) fn packet_queue_new() -> (q: SegQueue<(Bytes, SocksAddr, SocksAddr)>)
    ensures
        seg_queue_packets(q) == Seq::<(Seq<u8>, SpecSocksAddr, SpecSocksAddr)>::empty(),
{
    SegQueue::new()
}

/// `SegQueue::push`, for packets: `p` joins the back of the queue.
#[verifier::external_body]
pub(crate) fn packet_queue_push(q: &mut SegQueue<(Bytes, SocksAddr, SocksAddr)>, p: (Bytes, SocksAddr, SocksAddr))
    ensures
        seg_queue_packets(*final(q)) == seg_queue_packets(*old(q)).push(packet_model(p)),
{
    q.push(p)
}

/// `SegQueue::pop`, for packets: the front packet, taken out, or `None` when empty.
#[verifier::external_body]
pub(crate) fn packet_queue_pop(q: &mut SegQueue<(Bytes, SocksAddr, SocksAddr)>) -> (r: Option<(Bytes, SocksAddr, SocksAddr)>)
    ensures
        seg_queue_packets(*old(q)).len() == 0 ==> r is None && seg_queue_packets(*final(q))
            == seg_queue_packets(*old(q)),
        seg_queue_packets(*old(q)).len() > 0 ==> r is Some && packet_model(r->0) == seg_queue_packets(*old(q))[0]
            && seg_queue_packets(*final(q)) == seg_queue_packets(*old(q)).skip(1),
{
    q.pop()
}

/// `SegQueue::len`, for packets: the number of packets waiting.
#[verifier::external_body]
pub(crate) fn packet_queue_len(q: &SegQueue<(Bytes, SocksAddr, SocksAddr)>) -> (n: usize)
    ensures
        n == seg_queue_packets(*q).len(),
{
    q.len()
}

/// `SegQueue::is_empty`, for packets: whether no packet waits.
#[verifier::external_body]
pub(crate) fn packet_queue_is_empty(q: &SegQueue<(Bytes, SocksAddr, SocksAddr)>) -> (r: bool)
    ensures
        r == (seg_queue_packets(*q).len() == 0),
{
    q.is_empty()
}

} // verus!
