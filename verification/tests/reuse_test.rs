use shadowquic::msgs::socks5::{AddrOrDomain, SocksAddr, VarVec};
use shadowquic::squic::hash_dst;
use std::hash::{Hash, Hasher};
use shadowquic::arena::{huge_page_buf, packet_buf, packet_buf_large, HugePageAllocator, PacketArena};
use shadowquic::id::AtomicIdGenerator;
use shadowquic::pool::id_allocator::IdAllocator;
use shadowquic::utils::memory_pool::{fast_alloc, fast_alloc_large, fast_alloc_medium, fast_alloc_small, BytesPool, HighPerfMemoryPool};
use shadowquic::msgs::frame::Frame;
use shadowquic::msgs::SEncodeSync;
use bytes::{Bytes, BytesMut};
use shadowquic::utils::numa_allocator::NumaAwareAllocator;

#[test]
fn numa_allocator_reports_its_node_count() {
    let a = NumaAwareAllocator::new(2, 16 * 1024 * 1024, 4);
    assert_eq!(a.node_count(), 2);
    let b = NumaAwareAllocator::new(0, 0, 0);
    assert_eq!(b.node_count(), 1);
}

#[test]
fn arena_reuse_is_not_counted_as_allocation() {
    // One queued tiny buffer: the first get reuses it, the second allocates.
    let mut a = PacketArena::new(4, 0, 0, 0, 0);
    let first = packet_buf(&mut a);
    assert!(first.is_empty());
    assert_eq!(a.stats(), (0, 0, 0, 0, 0, 0));
    let second = a.get();
    assert!(second.is_empty());
    assert_eq!(a.stats(), (1, 0, 0, 0, 0, 0));
    a.put(first);
    assert_eq!(a.stats(), (1, 1, 0, 0, 0, 0));
    let _third = a.get();
    assert_eq!(a.stats(), (1, 1, 0, 0, 0, 0));
}

#[test]
fn arena_large_class_counts_separately() {
    let mut a = PacketArena::new(0, 0, 0, 4, 0);
    let _reused = packet_buf_large(&mut a);
    assert_eq!(a.stats(), (0, 0, 0, 0, 0, 0));
    let _fresh = a.get_large();
    assert_eq!(a.stats(), (0, 0, 1, 0, 0, 0));
    let _huge = a.get_huge();
    assert_eq!(a.stats(), (0, 0, 1, 0, 1, 0));
}

#[test]
fn huge_page_allocator_hands_out_empty_buffers() {
    let mut pages = HugePageAllocator::new(4096);
    let buf = huge_page_buf(&mut pages);
    assert!(buf.is_empty());
    assert!(buf.capacity() >= 8192);
}

#[test]
fn generator_never_hands_out_a_live_id() {
    let mut g = AtomicIdGenerator::new();
    let a = g.next();
    let b = g.next();
    assert_eq!((a, b), (4096, 4097));
    g.free(a);
    let c = g.next();
    assert_eq!(c, a);
    let d = g.next();
    assert_ne!(d, b);
    assert_ne!(d, c);
    assert_eq!(d, 4098);
}

#[test]
fn allocator_never_hands_out_a_live_id() {
    let mut ids: IdAllocator<()> = IdAllocator::new();
    let a = ids.allocate();
    let b = ids.allocate();
    ids.free(b);
    let c = ids.allocate();
    assert_eq!(c, b);
    let d = ids.allocate();
    assert!(d != a && d != c);
}

#[test]
fn memory_pool_counts_calls_in_any_order() {
    let mut p = HighPerfMemoryPool::new();
    let x = p.allocate(16);
    p.free(x);
    let y = p.allocate(0);
    let z = p.allocate(100_000);
    p.free(z);
    assert_eq!(p.stats(), (3, 2, 0));
    assert_eq!(p.stats(), (3, 2, 0));
    drop(y);
}

#[test]
fn fast_alloc_hands_out_empty_buffers_from_each_ring() {
    let mut pool = BytesPool::new();
    for size in [0usize, 256, 257, 2048, 2049, 100_000] {
        let b = fast_alloc(&mut pool, size);
        assert!(b.is_empty());
        assert!(b.capacity() >= size);
    }
    assert!(fast_alloc_small(&mut pool).is_empty());
    assert!(fast_alloc_medium(&mut pool).is_empty());
    assert!(fast_alloc_large(&mut pool).is_empty());
}

#[test]
fn numa_set_node_keeps_node_count() {
    let mut a = NumaAwareAllocator::new(3, 0, 0);
    a.set_node(2);
    assert_eq!(a.node_count(), 3);
}

#[test]
fn frame_encoding_layout() {
    let payload = vec![7u8; 100];
    let mut buf = BytesMut::new();
    buf.extend_from_slice(b"pre");
    Frame::Data(Bytes::from(payload.clone())).encode_sync(&mut buf);
    assert_eq!(&buf[..3], b"pre");
    let e = &buf[3..];
    assert_eq!(e.len(), 14 + 2 + 100);
    assert_eq!(e[0], 0x40);
    assert_eq!(e[9], 0x00);
    assert_eq!(&e[10..14], &[0, 0, 0, 0]);
    assert_eq!(&e[14..16], &[0x40, 100]);
    assert_eq!(&e[16..], &payload[..]);

    let mut fin = BytesMut::new();
    Frame::Fin.encode_sync(&mut fin);
    assert_eq!(fin.len(), 15);
    assert_eq!(fin[9], 0x08);
    assert_eq!(fin[14], 0);
}

fn derived_id(dst: &SocksAddr) -> u16 {
    let mut h = rustc_hash::FxHasher::default();
    dst.hash(&mut h);
    (h.finish() & 0xFFFF) as u16
}

#[test]
fn destination_id_matches_the_derived_hash() {
    let v4 = SocksAddr { addr: AddrOrDomain::V4([10, 0, 0, 1]), port: 443 };
    let v6 = SocksAddr { addr: AddrOrDomain::V6([1; 16]), port: 53 };
    let name = SocksAddr {
        addr: AddrOrDomain::Domain(VarVec { len: 11, contents: b"example.com".to_vec() }),
        port: 80,
    };
    for d in [&v4, &v6, &name] {
        assert_eq!(hash_dst(d), derived_id(d));
    }
}
