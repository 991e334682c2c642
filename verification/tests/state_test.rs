use bytes::{Bytes, BytesMut};
use shadowquic::id::optimized::{LockFreeIdGenerator, ShardedIdGeneratorOptimized};
use shadowquic::id::per_cpu::PerCpuCounter;
use shadowquic::id::{free_udp_id, next_udp_id, AtomicIdGenerator, IdGenerator, ShardedIdGenerator};
use shadowquic::metrics::Metrics;
use shadowquic::msgs::socks5::{AddrOrDomain, SocksAddr};
use shadowquic::pool::buffer_pool::BufferPool;
use shadowquic::pool::id_allocator::{IdAllocator, SessionIdGenerator};
use shadowquic::quic::Stats;
use shadowquic::squic::id_store_optimized::{GetOrCreateStart, UdpIdStore};
use shadowquic::utils::batch_ops::AtomicBatch;
use shadowquic::utils::lock_free_ring::{LockFreeRingBuffer, RingEntry, unspecified_addr};
use shadowquic::utils::numa_allocator::numa_node_count;
use shadowquic::utils::optimized_addr::CompactSocksAddr;
use shadowquic::utils::per_core_worker::{worker_cpus, WorkerConfig};

fn v4(a: u8, port: u16) -> SocksAddr {
    SocksAddr { addr: AddrOrDomain::V4([10, 0, 0, a]), port }
}

#[test]
fn freed_ids_come_back_oldest_first() {
    let mut g = AtomicIdGenerator::new();
    let a = g.next();
    let b = g.next();
    let c = g.next();
    assert_eq!(b, a + 1);
    assert_eq!(c, b + 1);
    g.free(c);
    g.free(a);
    assert_eq!(g.next(), c);
    assert_eq!(g.next(), a);
    assert_eq!(g.next(), c + 1);
}

#[test]
fn udp_ids_through_the_shared_generator() {
    let mut g = AtomicIdGenerator::new();
    let a = next_udp_id(&mut g);
    free_udp_id(&mut g, a);
    assert_eq!(next_udp_id(&mut g), a);
}

#[test]
fn lock_free_generator_reuses_ids() {
    let mut g = LockFreeIdGenerator::new();
    let a = g.next();
    let b = g.next();
    assert_ne!(a, b);
    g.free(a);
    assert_eq!(g.next(), a);
    let mut s = ShardedIdGeneratorOptimized::new(3);
    let x = s.next(5);
    s.free(5, x);
    assert_eq!(s.next(5), x);
}

#[test]
fn allocator_hands_out_distinct_fresh_ids() {
    let mut a: IdAllocator<()> = IdAllocator::new();
    let ids: Vec<u32> = (0..10).map(|_| a.allocate()).collect();
    for i in 0..ids.len() {
        for j in (i + 1)..ids.len() {
            assert_ne!(ids[i], ids[j]);
        }
    }
    assert_eq!(ids[0], 4096);
    assert_eq!(a.len(), 8192);
    let mut g = SessionIdGenerator::new();
    let first = g.next();
    assert_eq!(g.next(), first + 1);
}

#[test]
fn recycled_buffer_is_handed_out_empty() {
    let mut pool = BufferPool::new(2);
    let (total, fresh, reused) = pool.stats();
    assert_eq!((total, fresh, reused), (0, 0, 0));
    let mut b = pool.allocate();
    b.extend_from_slice(b"data");
    pool.free(b);
    let again = pool.try_alloc().unwrap();
    assert!(again.is_empty());
    assert_eq!(pool.stats().2, 1);
    let small = BytesMut::with_capacity(8);
    pool.recycle(small, 8);
}

#[test]
fn metrics_open_then_close_leaves_active_unchanged() {
    let mut m = Metrics::default();
    m.record_connection();
    let before = m.snapshot();
    m.record_connection();
    m.close_connection();
    let after = m.snapshot();
    assert_eq!(before.connections_active, after.connections_active);
    assert_eq!(after.connections_total, 2);
    m.record_packet_received(100);
    m.record_packet_sent(40);
    let s = m.snapshot();
    assert_eq!(s.bytes_received, 100);
    assert_eq!(s.bytes_sent, 40);

    let mut q = Stats::new();
    q.connection_opened();
    q.packet_sent(10);
    q.connection_closed();
    assert_eq!(q.active_connections, 0);
    assert_eq!(q.total_connections, 1);
    assert_eq!(q.total_bytes_sent, 10);
}

#[test]
fn per_cpu_counters_sum() {
    let mut c = PerCpuCounter::new(3);
    c.increment(0);
    c.increment(1);
    c.increment(1);
    c.increment(5);
    assert_eq!(c.sum(), 4);
    assert_eq!(c.get(1), 3);
    c.reset(1);
    assert_eq!(c.sum(), 1);
    c.reset_all();
    assert_eq!(c.sum(), 0);
}

#[test]
fn ring_buffer_is_fifo_and_reports_overflow() {
    let mut r = LockFreeRingBuffer::new(4);
    assert_eq!(r.capacity(), 4);
    for i in 0..3u8 {
        let e = RingEntry { data: Bytes::from(vec![i]), src_addr: v4(i, 1), dst_addr: unspecified_addr() };
        assert!(r.push(e));
    }
    let extra = RingEntry { data: Bytes::new(), src_addr: v4(9, 1), dst_addr: unspecified_addr() };
    assert!(!r.push(extra));
    assert_eq!(r.len(), 3);
    for i in 0..3u8 {
        let e = r.pop().unwrap();
        assert_eq!(&e.data[..], &[i]);
        assert_eq!(e.src_addr, v4(i, 1));
    }
    assert!(r.pop().is_none());
    let s = r.stats();
    assert_eq!((s.pushed, s.popped, s.overflows, s.underflows), (3, 3, 1, 1));
}

#[test]
fn atomic_batch_is_fifo() {
    let mut q: AtomicBatch<u32> = AtomicBatch::new(3);
    assert!(q.is_empty());
    assert!(q.push(1));
    assert!(q.push(2));
    assert!(q.push(3));
    assert!(q.push(4));
    assert!(!q.push(5));
    assert_eq!(q.len(), 4);
    assert_eq!(q.pop(), Some(1));
    assert!(q.push(5));
    assert_eq!(q.pop(), Some(2));
    assert_eq!(q.pop(), Some(3));
    assert_eq!(q.pop(), Some(4));
    assert_eq!(q.pop(), Some(5));
    assert_eq!(q.pop(), None);
}

#[test]
fn compact_address_roundtrip() {
    let a = CompactSocksAddr::from_ipv4([1, 2, 3, 4], 80);
    let mut buf = BytesMut::new();
    a.encode(&mut buf);
    assert_eq!(&buf[..], &[1u8, 1, 2, 3, 4, 0, 80]);
    let mut b = buf.freeze();
    let d = CompactSocksAddr::decode(&mut b).unwrap();
    assert_eq!(d.addr_type(), 1);
    assert_eq!(d.port(), 80);
    assert_eq!(&d.as_bytes()[..], &[1u8, 2, 3, 4]);

    let n = CompactSocksAddr::from_domain("ab", 7);
    let mut buf = BytesMut::new();
    n.encode(&mut buf);
    assert_eq!(&buf[..], &[3u8, 2, b'a', b'b', 0, 7]);
    let mut b = buf.freeze();
    let d = CompactSocksAddr::decode(&mut b).unwrap();
    assert_eq!(&d.as_bytes()[..], &[b'a', b'b']);
    assert_eq!(d.port(), 7);

    let mut bad = Bytes::from(vec![2u8, 0, 0]);
    assert!(CompactSocksAddr::decode(&mut bad).is_none());
}

#[test]
fn workers_are_pinned_in_turn() {
    let cfg = WorkerConfig { worker_threads: 5, cpu_affinity: Some(vec![2, 3]), ..WorkerConfig::default_for(8) };
    assert_eq!(worker_cpus(&cfg, 8), vec![2, 3, 2, 3, 2]);
    let cfg = WorkerConfig { worker_threads: 6, cpu_affinity: None, ..WorkerConfig::default_for(4) };
    assert_eq!(worker_cpus(&cfg, 4), vec![0, 1, 2, 3]);
}

#[test]
fn udp_id_store_insert_lookup_remove() {
    let mut store: UdpIdStore<u32> = UdpIdStore::new();
    assert!(store.try_get(70).is_none());
    match store.begin_get_or_create(70) {
        GetOrCreateStart::Armed(_) => {}
        _ => panic!("a free id is claimed"),
    }
    assert!(matches!(store.begin_get_or_create(70), GetOrCreateStart::Wait));
    assert!(store.insert(70, 9, v4(1, 53)));
    let (udp, addr) = store.try_get(70).unwrap();
    assert_eq!(udp, 9);
    assert_eq!(addr, v4(1, 53));
    match store.begin_get_or_create(70) {
        GetOrCreateStart::Found(u, a) => {
            assert_eq!(u, 9);
            assert_eq!(a, v4(1, 53));
        }
        _ => panic!("an inserted id is found"),
    }
    assert!(store.finish_get_or_create(70, true).is_ok());
    assert!(store.finish_get_or_create(70, false).is_err());
    assert!(store.try_get(6).is_none());
    assert!(!store.insert(6, 1, v4(2, 1)));
    store.remove(70);
    assert!(store.try_get(70).is_none());
    assert!(store.try_get(6).is_some());
}

#[test]
fn numa_node_count_from_status_text() {
    assert_eq!(numa_node_count(""), 1);
    assert_eq!(numa_node_count("Name:\tproxy\nNode(s):\t3\n"), 4);
    assert_eq!(numa_node_count("Node(s):5\n"), 1);
    assert_eq!(numa_node_count("Mems:\t1\nNode(s): 0 1 x\nNode(s): 7\n"), 8);
    assert_eq!(numa_node_count("Node(s): +2"), 3);
    assert_eq!(numa_node_count("Node(s): 99999999999999999999999"), 1);
    assert_eq!(numa_node_count(" Node(s): 4"), 1);
    assert_eq!(numa_node_count("Node(s):\u{a0}6\r\n"), 7);
}

#[test]
fn block_copies_copy_the_prefix() {
    use_copies();
}

fn use_copies() {
    let src: Vec<u8> = (0..40u8).collect();
    for len in [0usize, 5, 16, 20, 33] {
        let mut a = vec![0xAAu8; 40];
        shadowquic::utils::batch_ops::batch_copy_neon(&src, &mut a, len);
        assert_eq!(&a[..len], &src[..len]);
        assert!(a[len..].iter().all(|b| *b == 0xAA));
        let mut b = vec![0xAAu8; 40];
        shadowquic::utils::batch_ops::batch_copy_fallback(&src, &mut b, len);
        assert_eq!(a, b);
        let mut c = vec![0xAAu8; 40];
        shadowquic::utils::batch_ops::batch_copy_sse(&src, &mut c, len);
        if len < 16 {
            assert!(c.iter().all(|x| *x == 0xAA));
        } else {
            assert_eq!(a, c);
        }
    }
}

#[test]
fn encoding_buffers_start_empty() {
    let pool = shadowquic::msgs::BytesPool::default();
    let b = pool.allocate();
    assert!(b.is_empty());
    assert!(b.capacity() >= 4096);
    assert!(pool.alloc_with_capacity(10).is_empty());
}

#[test]
fn id_generator_trait_uses_the_first_shard() {
    let mut g = ShardedIdGenerator::new(2);
    let a = IdGenerator::next(&mut g);
    IdGenerator::free(&mut g, a);
    assert_eq!(g.next(0), a);
    let mut h = AtomicIdGenerator::new();
    let b = IdGenerator::next(&mut h);
    IdGenerator::free(&mut h, b);
    assert_eq!(IdGenerator::next(&mut h), b);
}
