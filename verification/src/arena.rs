//! Queues of reusable packet buffers by size class.

use crate::bytes_io::{bytes_mut_capacity, bytes_mut_clear, bytes_mut_view, bytes_mut_with_capacity};
use crate::seg_queue::{buffer_queue_new, buffer_queue_pop, buffer_queue_push, seg_queue_buffers};
use bytes::BytesMut;
use crossbeam::queue::SegQueue;
use vstd::prelude::*;

verus! {

pub const DEFAULT_BUFFER_SIZE: usize = 2048;

pub const LARGE_BUFFER_SIZE: usize = 65535;

pub const HUGE_BUFFER_SIZE: usize = 1048576;

pub const TINY_BUFFER_SIZE: usize = 256;

pub const SMALL_BUFFER_SIZE: usize = 512;

pub const MEDIUM_BUFFER_SIZE: usize = 4096;

pub const TINY_POOL_SIZE: usize = 8192;

pub const SMALL_POOL_SIZE: usize = 4096;

pub const MEDIUM_POOL_SIZE: usize = 1024;

pub const LARGE_POOL_SIZE: usize = 256;

/// Counters of an arena; each wraps around at `usize::MAX`.
#[derive(Clone, Copy, Debug, Default)]
pub struct ArenaStats {
    pub allocated: usize,
    pub reused: usize,
    pub allocated_large: usize,
    pub reused_large: usize,
    pub huge_allocated: usize,
    pub huge_reused: usize,
}

pub open spec fn zero_arena_stats() -> ArenaStats {
    ArenaStats { allocated: 0, reused: 0, allocated_large: 0, reused_large: 0, huge_allocated: 0, huge_reused: 0 }
}

/// The size classes of an arena, from the smallest.
pub open spec fn class_size(class: int) -> usize {
    if class == 0 {
        TINY_BUFFER_SIZE
    } else if class == 1 {
        SMALL_BUFFER_SIZE
    } else if class == 2 {
        MEDIUM_BUFFER_SIZE
    } else if class == 3 {
        LARGE_BUFFER_SIZE
    } else {
        HUGE_BUFFER_SIZE
    }
}

/// The class a request for `size` bytes is served from.
pub open spec fn class_for_size(size: usize) -> int {
    if size <= TINY_BUFFER_SIZE {
        0
    } else if size <= SMALL_BUFFER_SIZE {
        1
    } else if size <= MEDIUM_BUFFER_SIZE {
        2
    } else if size <= LARGE_BUFFER_SIZE {
        3
    } else {
        4
    }
}

/// The class a buffer of `capacity` bytes is taken back into; none above
/// `HUGE_BUFFER_SIZE`.
pub open spec fn class_for_capacity(capacity: usize) -> Option<int> {
    if capacity <= HUGE_BUFFER_SIZE {
        Some(class_for_size(capacity))
    } else {
        None
    }
}

/// `n` empty buffers.
pub open spec fn empty_bufs(n: nat) -> Seq<Seq<u8>> {
    Seq::new(n, |i: int| Seq::<u8>::empty())
}

/// The counters after a class had to allocate a fresh buffer.
pub open spec fn stats_after_fresh(s: ArenaStats, class: int) -> ArenaStats {
    if class <= 2 {
        ArenaStats { allocated: s.allocated.wrapping_add(1), ..s }
    } else if class == 3 {
        ArenaStats { allocated_large: s.allocated_large.wrapping_add(1), ..s }
    } else {
        ArenaStats { huge_allocated: s.huge_allocated.wrapping_add(1), ..s }
    }
}

/// The counters after a buffer was taken back into a class.
pub open spec fn stats_after_reuse(s: ArenaStats, class: int) -> ArenaStats {
    if class <= 2 {
        ArenaStats { reused: s.reused.wrapping_add(1), ..s }
    } else if class == 3 {
        ArenaStats { reused_large: s.reused_large.wrapping_add(1), ..s }
    } else {
        ArenaStats { huge_reused: s.huge_reused.wrapping_add(1), ..s }
    }
}

/// What taking a buffer of class `c` from `before` does: the oldest queued
/// buffer of that class comes out, uncounted; with none queued, a fresh empty
/// buffer comes out and is counted.
pub open spec fn arena_took(before: PacketArena, after: PacketArena, c: int, buf: Seq<u8>) -> bool {
    if before.queued()[c].len() > 0 {
        &&& buf == before.queued()[c][0]
        &&& after.queued() == before.queued().update(c, before.queued()[c].skip(1))
        &&& after.counters() == before.counters()
    } else {
        &&& buf == Seq::<u8>::empty()
        &&& after.queued() == before.queued()
        &&& after.counters() == stats_after_fresh(before.counters(), c)
    }
}

/// What taking a buffer from `before` does to a huge-page allocator: the
/// oldest queued buffer comes out, else a fresh empty one; the page size stays.
pub open spec fn pages_took(before: HugePageAllocator, after: HugePageAllocator, buf: Seq<u8>) -> bool {
    &&& after.page() == before.page()
    &&& before.queued().len() > 0 ==> buf == before.queued()[0] && after.queued() == before.queued().skip(1)
    &&& before.queued().len() == 0 ==> buf == Seq::<u8>::empty() && after.queued() == before.queued()
}

pub struct PacketArena {
    tiny: SegQueue<BytesMut>,
    small: SegQueue<BytesMut>,
    medium: SegQueue<BytesMut>,
    large: SegQueue<BytesMut>,
    huge: SegQueue<BytesMut>,
    stats: ArenaStats,
}

/// Queues `n` fresh buffers of `capacity` bytes of room.
fn warm(q: &mut SegQueue<BytesMut>, n: usize, capacity: usize)
    requires
        capacity <= isize::MAX,
    ensures
        seg_queue_buffers(*final(q)) == seg_queue_buffers(*old(q)) + empty_bufs(n as nat),
{
    let mut i: usize = 0;
    while i < n
        invariant
            i <= n,
            capacity <= isize::MAX,
            seg_queue_buffers(*q) == seg_queue_buffers(*old(q)) + empty_bufs(i as nat),
        decreases n - i,
    {
        let ghost before = seg_queue_buffers(*q);
        buffer_queue_push(q, bytes_mut_with_capacity(capacity));
        proof {
            assert(seg_queue_buffers(*old(q)) + empty_bufs((i + 1) as nat) =~= before.push(Seq::<u8>::empty()));
        }
        i = i + 1;
    }
}

/// A queued buffer, else a fresh one of `capacity` bytes of room.
fn take_or_fresh(q: &mut SegQueue<BytesMut>, capacity: usize) -> (r: (BytesMut, bool))
    requires
        capacity <= isize::MAX,
    ensures
        seg_queue_buffers(*old(q)).len() > 0 ==> !r.1 && bytes_mut_view(r.0) == seg_queue_buffers(*old(q))[0]
            && seg_queue_buffers(*final(q)) == seg_queue_buffers(*old(q)).skip(1),
        seg_queue_buffers(*old(q)).len() == 0 ==> r.1 && bytes_mut_view(r.0) == Seq::<u8>::empty()
            && seg_queue_buffers(*final(q)) == seg_queue_buffers(*old(q)),
{
    match buffer_queue_pop(q) {
        Some(buf) => (buf, false),
        None => (bytes_mut_with_capacity(capacity), true),
    }
}

impl PacketArena {
    /// The buffers queued in each class, from the smallest.
    pub closed spec fn queued(self) -> Seq<Seq<Seq<u8>>> {
        seq![
            seg_queue_buffers(self.tiny),
            seg_queue_buffers(self.small),
            seg_queue_buffers(self.medium),
            seg_queue_buffers(self.large),
            seg_queue_buffers(self.huge),
        ]
    }

    pub closed spec fn counters(self) -> ArenaStats {
        self.stats
    }

    /// An arena warmed up with a quarter of each count of empty buffers.
    pub fn new(tiny_count: usize, small_count: usize, medium_count: usize, large_count: usize, huge_count: usize) -> (a: Self)
        ensures
            a.queued() == seq![
                empty_bufs((tiny_count / 4) as nat),
                empty_bufs((small_count / 4) as nat),
                empty_bufs((medium_count / 4) as nat),
                empty_bufs((large_count / 4) as nat),
                empty_bufs((huge_count / 4) as nat),
            ],
            a.counters() == zero_arena_stats(),
    {
        let mut tiny = buffer_queue_new();
        let mut small = buffer_queue_new();
        let mut medium = buffer_queue_new();
        let mut large = buffer_queue_new();
        let mut huge = buffer_queue_new();
        warm(&mut tiny, tiny_count / 4, TINY_BUFFER_SIZE);
        warm(&mut small, small_count / 4, SMALL_BUFFER_SIZE);
        warm(&mut medium, medium_count / 4, MEDIUM_BUFFER_SIZE);
        warm(&mut large, large_count / 4, LARGE_BUFFER_SIZE);
        warm(&mut huge, huge_count / 4, HUGE_BUFFER_SIZE);
        let a = PacketArena {
            tiny,
            small,
            medium,
            large,
            huge,
            stats: ArenaStats {
                allocated: 0,
                reused: 0,
                allocated_large: 0,
                reused_large: 0,
                huge_allocated: 0,
                huge_reused: 0,
            },
        };
        assert(a.queued()[0] =~= empty_bufs((tiny_count / 4) as nat));
        assert(a.queued()[1] =~= empty_bufs((small_count / 4) as nat));
        assert(a.queued()[2] =~= empty_bufs((medium_count / 4) as nat));
        assert(a.queued()[3] =~= empty_bufs((large_count / 4) as nat));
        assert(a.queued()[4] =~= empty_bufs((huge_count / 4) as nat));
        a
    }

    /// A buffer of class `class`: the oldest queued one, else a fresh one,
    /// which is counted.
    pub fn get_class(&mut self, class: usize) -> (buf: BytesMut)
        requires
            class < 5,
        ensures
            old(self).queued()[class as int].len() > 0 ==> bytes_mut_view(buf) == old(self).queued()[class as int][0]
                && final(self).queued() == old(self).queued().update(class as int, old(self).queued()[class as int].skip(1))
                && final(self).counters() == old(self).counters(),
            old(self).queued()[class as int].len() == 0 ==> bytes_mut_view(buf) == Seq::<u8>::empty()
                && final(self).queued() == old(self).queued() && final(self).counters() == stats_after_fresh(
                old(self).counters(),
                class as int,
            ),
    {
        let (buf, fresh) = if class == 0 {
            take_or_fresh(&mut self.tiny, TINY_BUFFER_SIZE)
        } else if class == 1 {
            take_or_fresh(&mut self.small, SMALL_BUFFER_SIZE)
        } else if class == 2 {
            take_or_fresh(&mut self.medium, MEDIUM_BUFFER_SIZE)
        } else if class == 3 {
            take_or_fresh(&mut self.large, LARGE_BUFFER_SIZE)
        } else {
            take_or_fresh(&mut self.huge, HUGE_BUFFER_SIZE)
        };
        if fresh {
            if class <= 2 {
                self.stats.allocated = self.stats.allocated.wrapping_add(1);
            } else if class == 3 {
                self.stats.allocated_large = self.stats.allocated_large.wrapping_add(1);
            } else {
                self.stats.huge_allocated = self.stats.huge_allocated.wrapping_add(1);
            }
        }
        proof {
            if !fresh {
                assert(self.queued() =~= old(self).queued().update(class as int, old(self).queued()[class as int].skip(1)));
            } else {
                assert(self.queued() =~= old(self).queued());
            }
        }
        buf
    }

    /// A tiny buffer.
    pub fn get(&mut self) -> (buf: BytesMut)
        ensures
            arena_took(*old(self), *final(self), 0, bytes_mut_view(buf)),
    {
        self.get_class(0)
    }

    /// A buffer of the class that serves `size` bytes.
    pub fn get_sized(&mut self, size: usize) -> (buf: BytesMut)
        ensures
            arena_took(*old(self), *final(self), class_for_size(size), bytes_mut_view(buf)),
    {
        if size <= TINY_BUFFER_SIZE {
            self.get_class(0)
        } else if size <= SMALL_BUFFER_SIZE {
            self.get_class(1)
        } else if size <= MEDIUM_BUFFER_SIZE {
            self.get_class(2)
        } else if size <= LARGE_BUFFER_SIZE {
            self.get_class(3)
        } else {
            self.get_class(4)
        }
    }

    pub fn get_small(&mut self) -> (buf: BytesMut)
        ensures
            arena_took(*old(self), *final(self), 1, bytes_mut_view(buf)),
    {
        self.get_class(1)
    }

    pub fn get_medium(&mut self) -> (buf: BytesMut)
        ensures
            arena_took(*old(self), *final(self), 2, bytes_mut_view(buf)),
    {
        self.get_class(2)
    }

    pub fn get_large(&mut self) -> (buf: BytesMut)
        ensures
            arena_took(*old(self), *final(self), 3, bytes_mut_view(buf)),
    {
        self.get_class(3)
    }

    pub fn get_huge(&mut self) -> (buf: BytesMut)
        ensures
            arena_took(*old(self), *final(self), 4, bytes_mut_view(buf)),
    {
        self.get_class(4)
    }

    /// Takes `buf` back, emptied, into the class of its capacity, and counts
    /// it; a buffer above `HUGE_BUFFER_SIZE` is dropped.
    pub fn put(&mut self, buf: BytesMut)
        ensures
            (final(self).queued() == old(self).queued() && final(self).counters() == old(self).counters()) || (
            exists|c: int|
                0 <= c < 5 && final(self).queued() == old(self).queued().update(
                    c,
                    old(self).queued()[c].push(Seq::<u8>::empty()),
                ) && final(self).counters() == stats_after_reuse(old(self).counters(), c)),
    {
        let capacity = bytes_mut_capacity(&buf);
        self.put_with_capacity(buf, capacity);
    }

    /// What `put` does once the capacity of `buf` is known.
    pub fn put_with_capacity(&mut self, buf: BytesMut, capacity: usize)
        ensures
            class_for_capacity(capacity) matches Some(c) ==> final(self).queued() == old(self).queued().update(
                c,
                old(self).queued()[c].push(Seq::<u8>::empty()),
            ) && final(self).counters() == stats_after_reuse(old(self).counters(), c),
            class_for_capacity(capacity) is None ==> final(self).queued() == old(self).queued()
                && final(self).counters() == old(self).counters(),
    {
        let mut buf = buf;
        bytes_mut_clear(&mut buf);
        if capacity <= TINY_BUFFER_SIZE {
            buffer_queue_push(&mut self.tiny, buf);
            self.stats.reused = self.stats.reused.wrapping_add(1);
        } else if capacity <= SMALL_BUFFER_SIZE {
            buffer_queue_push(&mut self.small, buf);
            self.stats.reused = self.stats.reused.wrapping_add(1);
        } else if capacity <= MEDIUM_BUFFER_SIZE {
            buffer_queue_push(&mut self.medium, buf);
            self.stats.reused = self.stats.reused.wrapping_add(1);
        } else if capacity <= LARGE_BUFFER_SIZE {
            buffer_queue_push(&mut self.large, buf);
            self.stats.reused_large = self.stats.reused_large.wrapping_add(1);
        } else if capacity <= HUGE_BUFFER_SIZE {
            buffer_queue_push(&mut self.huge, buf);
            self.stats.huge_reused = self.stats.huge_reused.wrapping_add(1);
        }
        proof {
            if let Some(c) = class_for_capacity(capacity) {
                assert(self.queued() =~= old(self).queued().update(c, old(self).queued()[c].push(Seq::<u8>::empty())));
            } else {
                assert(self.queued() =~= old(self).queued());
            }
        }
    }

    /// `(allocated, reused, allocated large, reused large, huge allocated, huge reused)`.
    pub fn stats(&self) -> (r: (usize, usize, usize, usize, usize, usize))
        ensures
            r == (
                self.counters().allocated,
                self.counters().reused,
                self.counters().allocated_large,
                self.counters().reused_large,
                self.counters().huge_allocated,
                self.counters().huge_reused,
            ),
    {
        (
            self.stats.allocated,
            self.stats.reused,
            self.stats.allocated_large,
            self.stats.reused_large,
            self.stats.huge_allocated,
            self.stats.huge_reused,
        )
    }
}

pub type PacketArenaOptimized = PacketArena;

/// The process-wide arena: made with the default pool sizes and 64 huge buffers.
pub fn default_packet_arena() -> (a: PacketArena)
    ensures
        a.queued() == seq![
            empty_bufs((TINY_POOL_SIZE / 4) as nat),
            empty_bufs((SMALL_POOL_SIZE / 4) as nat),
            empty_bufs((MEDIUM_POOL_SIZE / 4) as nat),
            empty_bufs((LARGE_POOL_SIZE / 4) as nat),
            empty_bufs(16),
        ],
        a.counters() == zero_arena_stats(),
{
    PacketArena::new(TINY_POOL_SIZE, SMALL_POOL_SIZE, MEDIUM_POOL_SIZE, LARGE_POOL_SIZE, 64)
}

/// A tiny buffer from `arena`.
pub fn packet_buf(arena: &mut PacketArena) -> (buf: BytesMut)
    ensures
        arena_took(*old(arena), *final(arena), 0, bytes_mut_view(buf)),
{
    arena.get()
}

/// A large buffer from `arena`.
pub fn packet_buf_large(arena: &mut PacketArena) -> (buf: BytesMut)
    ensures
        arena_took(*old(arena), *final(arena), 3, bytes_mut_view(buf)),
{
    arena.get_large()
}

/// A buffer for `size` bytes from `arena`.
pub fn packet_buf_sized(arena: &mut PacketArena, size: usize) -> (buf: BytesMut)
    ensures
        arena_took(*old(arena), *final(arena), class_for_size(size), bytes_mut_view(buf)),
{
    arena.get_sized(size)
}

/// Gives `buf` back to `arena`.
pub fn packet_buf_put(arena: &mut PacketArena, buf: BytesMut)
    ensures
        (final(arena).queued() == old(arena).queued() && final(arena).counters() == old(arena).counters()) || (
        exists|c: int|
            0 <= c < 5 && final(arena).queued() == old(arena).queued().update(
                c,
                old(arena).queued()[c].push(Seq::<u8>::empty()),
            ) && final(arena).counters() == stats_after_reuse(old(arena).counters(), c)),
{
    arena.put(buf)
}

/// Buffers of twice a page, kept for reuse.
pub struct HugePageAllocator {
    large_buffer: SegQueue<BytesMut>,
    page_size: usize,
}

impl HugePageAllocator {
    pub closed spec fn queued(self) -> Seq<Seq<u8>> {
        seg_queue_buffers(self.large_buffer)
    }

    pub closed spec fn page(self) -> usize {
        self.page_size
    }

    /// An allocator warmed up with 64 empty buffers of two pages each.
    pub fn new(page_size: usize) -> (a: Self)
        requires
            page_size * 2 <= isize::MAX,
        ensures
            a.queued() == empty_bufs(64),
            a.page() == page_size,
    {
        let mut large_buffer = buffer_queue_new();
        warm(&mut large_buffer, 64, page_size * 2);
        assert(seg_queue_buffers(large_buffer) =~= empty_bufs(64));
        HugePageAllocator { large_buffer, page_size }
    }

    /// The oldest queued buffer, else a fresh one of two pages.
    pub fn allocate(&mut self) -> (buf: BytesMut)
        requires
            old(self).page() * 2 <= isize::MAX,
        ensures
            final(self).page() == old(self).page(),
            old(self).queued().len() > 0 ==> bytes_mut_view(buf) == old(self).queued()[0] && final(self).queued()
                == old(self).queued().skip(1),
            old(self).queued().len() == 0 ==> bytes_mut_view(buf) == Seq::<u8>::empty() && final(self).queued()
                == old(self).queued(),
    {
        let (buf, _) = take_or_fresh(&mut self.large_buffer, self.page_size * 2);
        buf
    }

    /// Takes `buf` back, emptied, when it holds at least a page; else drops it.
    pub fn free(&mut self, buf: BytesMut)
        ensures
            final(self).page() == old(self).page(),
            final(self).queued() == old(self).queued() || final(self).queued() == old(self).queued().push(
                Seq::<u8>::empty(),
            ),
    {
        let capacity = bytes_mut_capacity(&buf);
        self.free_with_capacity(buf, capacity);
    }

    /// What `free` does once the capacity of `buf` is known.
    pub fn free_with_capacity(&mut self, buf: BytesMut, capacity: usize)
        ensures
            final(self).page() == old(self).page(),
            capacity >= old(self).page() ==> final(self).queued() == old(self).queued().push(Seq::<u8>::empty()),
            capacity < old(self).page() ==> final(self).queued() == old(self).queued(),
    {
        let mut buf = buf;
        bytes_mut_clear(&mut buf);
        if capacity >= self.page_size {
            buffer_queue_push(&mut self.large_buffer, buf);
        }
    }
}

/// The page size of the process-wide huge-page allocator: 2 MiB.
pub const HUGE_PAGE_SIZE: usize = 2097152;

/// A buffer from the huge-page allocator `pages`.
pub fn huge_page_buf(pages: &mut HugePageAllocator) -> (buf: BytesMut)
    requires
        old(pages).page() * 2 <= isize::MAX,
    ensures
        pages_took(*old(pages), *final(pages), bytes_mut_view(buf)),
{
    pages.allocate()
}

/// Gives `buf` back to the huge-page allocator `pages`.
pub fn huge_page_buf_put(pages: &mut HugePageAllocator, buf: BytesMut)
    ensures
        final(pages).page() == old(pages).page(),
        final(pages).queued() == old(pages).queued() || final(pages).queued() == old(pages).queued().push(
            Seq::<u8>::empty(),
        ),
{
    pages.free(buf)
}

} // verus!
