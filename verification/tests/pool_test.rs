use shadowquic::pool::slot_pool::BufferPool as SlotBufferPool;
use shadowquic::msgs::socks5::{AddrOrDomain, SocksAddr};
use shadowquic::pool::buffer_pool::{BufferPool, BUFFER_SIZE};
use shadowquic::pool::id_allocator::{IdAllocator, ShardedIdAllocator};
use shadowquic::pool::session_manager::{SessionManager, SessionType};

#[test]
fn buffer_pool_test_buffer_pool() {
    let mut pool = BufferPool::new(64);

    let buf1 = pool.allocate();
    assert!(buf1.is_empty());
    assert!(buf1.capacity() >= BUFFER_SIZE);

    pool.free(buf1);

    let buf2 = pool.allocate();
    assert!(buf2.is_empty());
}

#[test]
fn test_id_allocator() {
    let mut allocator: IdAllocator<()> = IdAllocator::new();

    let id1 = allocator.allocate();
    let id2 = allocator.allocate();

    assert_ne!(id1, id2);

    allocator.free(id1);

    let id3 = allocator.allocate();
    assert_eq!(id1, id3);
}

#[test]
fn test_sharded_allocator() {
    let mut allocator = ShardedIdAllocator::new(4);

    let _id1 = allocator.allocate(0);
    let _id2 = allocator.allocate(0);
    let _id3 = allocator.allocate(1);

    allocator.free(_id1, 0);
}

#[test]
fn test_session_creation() {
    let buffer_pool = BufferPool::new(64);
    let mut manager = SessionManager::new(buffer_pool);

    let remote = SocksAddr { addr: AddrOrDomain::V4([127, 0, 0, 1]), port: 8080 };
    let bind = SocksAddr::from_domain("example.com".to_string(), 443);

    let id = manager.create_session(remote, bind, SessionType::Tcp);

    assert!(manager.get_session(id).is_some());

    manager.release_session(id);

    let stats = manager.stats();
    assert_eq!(stats.total, 1);
    assert_eq!(stats.active, 0);
}

#[test]
fn pool_test_buffer_pool() {
    let mut pool = SlotBufferPool::new();
    let mut buf1 = pool.allocate();
    buf1.extend_from_slice(b"test");

    let (total, allocated, reused) = pool.stats();
    assert_eq!(total, 1);
    assert_eq!(allocated, 1);
    assert_eq!(reused, 0);

    pool.free(&mut buf1);

    let buf2 = pool.allocate();
    let (total, allocated, reused) = pool.stats();
    assert_eq!(total, 2);
    assert_eq!(allocated, 1);
    assert_eq!(reused, 1);
    assert!(buf2.is_empty());
}

#[test]
fn slot_pool_ignores_foreign_buffers() {
    let mut pool = SlotBufferPool::default();
    let mut small = bytes::BytesMut::with_capacity(16);
    small.extend_from_slice(b"ab");
    pool.free(&mut small);
    assert_eq!(&small[..], b"ab");
    let _b = pool.allocate();
    assert_eq!(pool.stats(), (1, 1, 0));
}
