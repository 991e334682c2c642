use shadowquic::id::{AtomicIdGenerator, ShardedIdGenerator};

#[test]
fn test_id_generator() {
    let mut generator = AtomicIdGenerator::new();

    let id1 = generator.next();
    let id2 = generator.next();

    assert_ne!(id1, id2);

    generator.free(id1);

    let id3 = generator.next();
    assert_eq!(id1, id3);
}

#[test]
fn test_sharded() {
    let mut generator = ShardedIdGenerator::new(4);

    let id1 = generator.next(0);
    generator.free(0, id1);
    let id1_reused = generator.next(0);
    assert_eq!(id1, id1_reused);

    let id2 = generator.next(1);
    generator.free(1, id2);
    let id2_reused = generator.next(1);
    assert_eq!(id2, id2_reused);
}
