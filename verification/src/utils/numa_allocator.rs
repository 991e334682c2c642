//! Buffer allocation that is aware of NUMA nodes. Buffers are kept for
//! each node; those handed out come from node 0.

use crate::bytes_io::{bytes_mut_clear, bytes_mut_view, bytes_mut_with_capacity};
use bytes::BytesMut;
use std::io::Error;
use vstd::prelude::*;
use vstd::std_specs::iter::IteratorSpec;

verus! {

/// The NUMA node the calling thread runs on.
pub fn get_current_numa_node() -> (n: usize)
    ensures
        n == 0,
{
    0
}

/// Binds the calling thread to `node`; binding is not done, so this
/// always succeeds.
pub fn bind_thread_to_numa_node(node: usize) -> (r: Result<(), Error>)
    ensures
        r is Ok,
{
    Ok(())
}

/// Counters of a NUMA-aware allocator; each wraps around at `usize::MAX`.
#[derive(Clone, Copy, Debug, Default)]
pub struct NumaAllocatorStats {
    pub total_allocated: usize,
    pub total_freed: usize,
    pub cache_hits: usize,
    pub cache_misses: usize,
}

pub struct NumaAwareAllocator {
    buffer_pool: PacketBufferPool,
    stats: NumaAllocatorStats,
}

impl NumaAwareAllocator {
    pub closed spec fn counters(self) -> NumaAllocatorStats {
        self.stats
    }

    /// The buffers kept per node.
    pub closed spec fn buffers(self) -> PacketBufferPool {
        self.buffer_pool
    }

    /// An allocator on `nodes` nodes (one when it is 0), with buffers kept
    /// for each; the slab sizes asked for are not used.
    pub fn new(nodes: usize, slab_size: usize, slabs_per_node: usize) -> (a: Self)
        ensures
            a.buffers().nodes() == if nodes > 0 { nodes as nat } else { 1 },
            a.buffers().node() == 0,
            forall|i: int| 0 <= i < a.buffers().nodes() ==> #[trigger] a.buffers().kept()[i] == 192,
            a.counters().total_allocated == 0,
            a.counters().total_freed == 0,
            a.counters().cache_hits == 0,
            a.counters().cache_misses == 0,
    {
        NumaAwareAllocator {
            buffer_pool: PacketBufferPool::new(nodes),
            stats: NumaAllocatorStats { total_allocated: 0, total_freed: 0, cache_hits: 0, cache_misses: 0 },
        }
    }

    /// An empty buffer with room for `size` bytes, counted as a cache hit
    /// and `size` bytes handed out.
    pub fn allocate(&mut self, size: usize) -> (r: Option<BytesMut>)
        requires
            size <= isize::MAX,
        ensures
            r is Some,
            bytes_mut_view(r->0) == Seq::<u8>::empty(),
            final(self).counters() == (NumaAllocatorStats {
                cache_hits: old(self).counters().cache_hits.wrapping_add(1),
                total_allocated: old(self).counters().total_allocated.wrapping_add(size),
                ..old(self).counters()
            }),
    {
        self.stats.cache_hits = self.stats.cache_hits.wrapping_add(1);
        self.stats.total_allocated = self.stats.total_allocated.wrapping_add(size);
        Some(bytes_mut_with_capacity(size))
    }

    /// An empty buffer with room for `size` bytes, not counted.
    pub fn alloc_exact(&self, size: usize) -> (b: BytesMut)
        requires
            size <= isize::MAX,
        ensures
            bytes_mut_view(b) == Seq::<u8>::empty(),
    {
        bytes_mut_with_capacity(size)
    }

    pub fn stats(&self) -> (s: NumaAllocatorStats)
        ensures
            s == self.counters(),
    {
        self.stats
    }

    /// The number of nodes the allocator was made for.
    pub fn node_count(&self) -> (n: usize)
        ensures
            n == self.buffers().nodes(),
    {
        self.buffer_pool.pools.len()
    }

    /// Choosing a node has no effect: buffers are handed out as before.
    pub fn set_node(&mut self, node: usize)
        ensures
            final(self).counters() == old(self).counters(),
            final(self).buffers() == old(self).buffers(),
    {
    }
}

/// Buffers kept per node: for each node, 64 buffers of each of 4 KiB,
/// 16 KiB and 64 KiB.
pub struct PacketBufferPool {
    pools: Vec<Vec<BytesMut>>,
    current_node: usize,
}

impl PacketBufferPool {
    /// The number of nodes with a pool.
    pub closed spec fn nodes(self) -> nat {
        self.pools@.len()
    }

    /// The node buffers come from.
    pub closed spec fn node(self) -> usize {
        self.current_node
    }

    /// The number of buffers kept for each node.
    pub closed spec fn kept(self) -> Seq<nat> {
        self.pools@.map_values(|p: Vec<BytesMut>| p@.len())
    }

    /// Pools for `node_count` nodes (one when it is 0), each warmed up.
    pub fn new(node_count: usize) -> (p: Self)
        ensures
            p.nodes() == if node_count > 0 { node_count as nat } else { 1 },
            p.node() == 0,
            forall|i: int| 0 <= i < p.nodes() ==> #[trigger] p.kept()[i] == 192,
    {
        let node_count = if node_count > 0 { node_count } else { 1 };
        let mut pools: Vec<Vec<BytesMut>> = Vec::new();
        let mut n: usize = 0;
        while n < node_count
            invariant
                n <= node_count,
                pools@.len() == n,
                forall|i: int| 0 <= i < n ==> (#[trigger] pools@[i])@.len() == 192,
            decreases node_count - n,
        {
            let mut pool: Vec<BytesMut> = Vec::new();
            let mut k: usize = 0;
            while k < 64
                invariant
                    k <= 64,
                    pool@.len() == 3 * k,
                decreases 64 - k,
            {
                pool.push(bytes_mut_with_capacity(4096));
                pool.push(bytes_mut_with_capacity(16384));
                pool.push(bytes_mut_with_capacity(65536));
                k = k + 1;
            }
            pools.push(pool);
            n = n + 1;
        }
        PacketBufferPool { pools, current_node: 0 }
    }

    /// An empty buffer with room for `size` bytes.
    pub fn allocate(&self, size: usize) -> (b: BytesMut)
        requires
            size <= isize::MAX,
        ensures
            bytes_mut_view(b) == Seq::<u8>::empty(),
    {
        bytes_mut_with_capacity(size)
    }

    /// Takes a buffer back: it is emptied and dropped.
    pub fn free(&self, buf: BytesMut) {
        let mut buf = buf;
        bytes_mut_clear(&mut buf);
    }

    /// Takes buffers from `node`, reduced modulo the number of nodes.
    pub fn set_node(&mut self, node: usize)
        requires
            old(self).nodes() > 0,
        ensures
            final(self).node() == (node as nat) % old(self).nodes(),
            final(self).nodes() == old(self).nodes(),
            final(self).kept() == old(self).kept(),
    {
        self.current_node = node % self.pools.len();
    }
}

// ---------------------------------------------------------------------------
// The number of NUMA nodes, read off `/proc/self/status`
// ---------------------------------------------------------------------------

/// `char::is_whitespace`: the characters with the Unicode White_Space property.
pub open spec fn is_white_space(c: char) -> bool {
    ||| ('\t' <= c && c <= '\r')
    ||| c == ' '
    ||| c == '\u{85}'
    ||| c == '\u{a0}'
    ||| c == '\u{1680}'
    ||| ('\u{2000}' <= c && c <= '\u{200a}')
    ||| c == '\u{2028}'
    ||| c == '\u{2029}'
    ||| c == '\u{202f}'
    ||| c == '\u{205f}'
    ||| c == '\u{3000}'
}

fn white_space(c: char) -> (b: bool)
    ensures
        b == is_white_space(c),
{
    ('\t' <= c && c <= '\r') || c == ' ' || c == '\u{85}' || c == '\u{a0}' || c == '\u{1680}' || ('\u{2000}' <= c
        && c <= '\u{200a}') || c == '\u{2028}' || c == '\u{2029}' || c == '\u{202f}' || c == '\u{205f}' || c
        == '\u{3000}'
}

/// `s` without its trailing white space.
pub open spec fn trim_end(s: Seq<char>) -> Seq<char>
    decreases s.len(),
{
    if s.len() > 0 && is_white_space(s.last()) {
        trim_end(s.drop_last())
    } else {
        s
    }
}

/// Where the trailing run of non-white-space characters of `s` starts.
pub open spec fn last_run_start(s: Seq<char>) -> nat
    decreases s.len(),
{
    if s.len() > 0 && !is_white_space(s.last()) {
        last_run_start(s.drop_last())
    } else {
        s.len()
    }
}

/// The last of the white-space separated words of `line`, when it has two
/// or more: what `split_whitespace().skip(1).last()` gives.
pub open spec fn last_word_after_first(line: Seq<char>) -> Option<Seq<char>> {
    let t = trim_end(line);
    let b = last_run_start(t);
    if exists|i: int| 0 <= i < b && !is_white_space(#[trigger] t[i]) {
        Some(t.skip(b as int))
    } else {
        None
    }
}

/// The value of a sequence of decimal digits.
pub open spec fn digits_value(d: Seq<char>) -> nat
    decreases d.len(),
{
    if d.len() == 0 {
        0
    } else {
        10 * digits_value(d.drop_last()) + ((d.last() as nat) - ('0' as nat)) as nat
    }
}

pub open spec fn all_digits(d: Seq<char>) -> bool {
    forall|i: int| 0 <= i < d.len() ==> '0' <= #[trigger] d[i] && d[i] <= '9'
}

/// What `usize::from_str` makes of `t`: an optional `+`, then one or more
/// decimal digits whose value fits in a `usize`.
pub open spec fn parse_usize(t: Seq<char>) -> Option<nat> {
    let d = if t.len() > 0 && t[0] == '+' {
        t.drop_first()
    } else {
        t
    };
    if d.len() > 0 && all_digits(d) && digits_value(d) <= usize::MAX {
        Some(digits_value(d))
    } else {
        None
    }
}

/// `line` starts with `Node(s):`.
pub open spec fn is_node_line(line: Seq<char>) -> bool {
    line.len() >= 8 && line.take(8) == seq!['N', 'o', 'd', 'e', '(', 's', ')', ':']
}

/// The highest node number a line tells of: the last word of a `Node(s):`
/// line, after the first word, read as a number.
pub open spec fn line_max_node(line: Seq<char>) -> Option<nat> {
    if is_node_line(line) {
        match last_word_after_first(line) {
            Some(w) => parse_usize(w),
            None => None,
        }
    } else {
        None
    }
}

/// Where the first line of `s` ends: at its first `\n`, or at its end.
pub open spec fn line_end(s: Seq<char>) -> nat
    decreases s.len(),
{
    if s.len() == 0 || s[0] == '\n' {
        0
    } else {
        1 + line_end(s.drop_first())
    }
}

/// The highest node number of the first line of `s` that tells of one.
pub open spec fn status_max_node(s: Seq<char>) -> Option<nat>
    decreases s.len(),
{
    let e = line_end(s);
    match line_max_node(s.take(e as int)) {
        Some(v) => Some(v),
        None => if e < s.len() {
            status_max_node(s.skip(e as int + 1))
        } else {
            None
        },
    }
}

/// The characters of `s`.
fn chars_of(s: &str) -> (v: Vec<char>)
    ensures
        v@ == s@,
{
    broadcast use vstd::string::group_string_axioms;

    let mut v: Vec<char> = Vec::new();
    let mut it = s.chars();
    loop
        invariant
            it.remaining() == s@.skip(v@.len() as int),
            v@ == s@.take(v@.len() as int),
            v@.len() <= s@.len(),
        ensures
            v@ == s@,
        decreases s@.len() - v@.len(),
    {
        match it.next() {
            Some(c) => {
                proof {
                    assert(s@.take(v@.len() as int + 1) =~= s@.take(v@.len() as int).push(c));
                    assert(s@.skip(v@.len() as int).drop_first() =~= s@.skip(v@.len() as int + 1));
                }
                v.push(c);
            },
            None => {
                proof {
                    assert(v@ =~= s@);
                }
                break;
            },
        }
    }
    v
}

/// A prefix of decimal digits has no larger a value than the whole.
proof fn lemma_digits_prefix(d: Seq<char>, k: int)
    requires
        all_digits(d),
        0 <= k <= d.len(),
    ensures
        digits_value(d.take(k)) <= digits_value(d),
    decreases d.len(),
{
    if k < d.len() {
        assert(d.drop_last().take(k) =~= d.take(k));
        lemma_digits_prefix(d.drop_last(), k);
    } else {
        assert(d.take(k) =~= d);
    }
}

/// What `usize::from_str` makes of `v[b..e]`.
fn parse_digits(v: &Vec<char>, b: usize, e: usize) -> (r: Option<usize>)
    requires
        b <= e <= v@.len(),
    ensures
        match parse_usize(v@.subrange(b as int, e as int)) {
            Some(x) => r == Some(x as usize),
            None => r is None,
        },
{
    let ghost t = v@.subrange(b as int, e as int);
    let mut i = b;
    if i < e && v[i] == '+' {
        i = i + 1;
        proof {
            assert(t.drop_first() =~= v@.subrange(i as int, e as int));
        }
    } else {
        proof {
            assert(t =~= v@.subrange(i as int, e as int));
        }
    }
    let ghost d = v@.subrange(i as int, e as int);
    if i == e {
        return None;
    }
    let mut val: usize = 0;
    let mut k = i;
    while k < e
        invariant
            b <= i < e <= v@.len(),
            i <= k <= e,
            t == v@.subrange(b as int, e as int),
            d == v@.subrange(i as int, e as int),
            d == (if t.len() > 0 && t[0] == '+' {
                t.drop_first()
            } else {
                t
            }),
            all_digits(v@.subrange(i as int, k as int)),
            val == digits_value(v@.subrange(i as int, k as int)),
        decreases e - k,
    {
        let c = v[k];
        if !('0' <= c && c <= '9') {
            proof {
                assert(d[k - i] == c);
            }
            return None;
        }
        let dig = (c as u32 - '0' as u32) as usize;
        let ghost next = v@.subrange(i as int, k as int + 1);
        proof {
            assert(next.drop_last() =~= v@.subrange(i as int, k as int));
            assert(next.last() == c);
            assert(digits_value(next) == 10 * val + dig);
            assert(all_digits(next));
        }
        if val > (usize::MAX - dig) / 10 {
            proof {
                assert(10 * val + dig > usize::MAX) by (nonlinear_arith)
                    requires
                        val > (usize::MAX - dig) / 10,
                        dig < 10,
                ;
                if all_digits(d) {
                    assert(d.take(k - i + 1) =~= next);
                    lemma_digits_prefix(d, k - i + 1);
                }
            }
            return None;
        }
        proof {
            assert(10 * val + dig <= usize::MAX) by (nonlinear_arith)
                requires
                    val <= (usize::MAX - dig) / 10,
                    dig < 10,
            ;
        }
        val = val * 10 + dig;
        k = k + 1;
    }
    proof {
        assert(v@.subrange(i as int, k as int) =~= d);
    }
    Some(val)
}

/// `line_max_node` of `v[start..end]`.
fn line_max_node_of(v: &Vec<char>, start: usize, end: usize) -> (r: Option<usize>)
    requires
        start <= end <= v@.len(),
    ensures
        match line_max_node(v@.subrange(start as int, end as int)) {
            Some(x) => r == Some(x as usize),
            None => r is None,
        },
{
    let ghost line = v@.subrange(start as int, end as int);
    let ghost head = seq!['N', 'o', 'd', 'e', '(', 's', ')', ':'];
    if end - start < 8 {
        return None;
    }
    if !(v[start] == 'N' && v[start + 1] == 'o' && v[start + 2] == 'd' && v[start + 3] == 'e' && v[start + 4]
        == '(' && v[start + 5] == 's' && v[start + 6] == ')' && v[start + 7] == ':') {
        proof {
            if line.take(8) == head {
                assert(line.take(8)[0] == head[0] && line.take(8)[1] == head[1] && line.take(8)[2] == head[2]);
                assert(line.take(8)[3] == head[3] && line.take(8)[4] == head[4] && line.take(8)[5] == head[5]);
                assert(line.take(8)[6] == head[6] && line.take(8)[7] == head[7]);
            }
        }
        return None;
    }
    proof {
        assert(line.take(8) =~= head);
    }
    let mut e = end;
    while e > start && white_space(v[e - 1])
        invariant
            start <= e <= end <= v@.len(),
            line == v@.subrange(start as int, end as int),
            trim_end(line) == trim_end(v@.subrange(start as int, e as int)),
        decreases e,
    {
        proof {
            assert(v@.subrange(start as int, e as int).drop_last() =~= v@.subrange(start as int, e as int - 1));
        }
        e = e - 1;
    }
    let ghost t = v@.subrange(start as int, e as int);
    proof {
        assert(trim_end(t) == t);
    }
    let mut b = e;
    while b > start && !white_space(v[b - 1])
        invariant
            start <= b <= e <= v@.len(),
            t == v@.subrange(start as int, e as int),
            last_run_start(t) == last_run_start(v@.subrange(start as int, b as int)),
        decreases b,
    {
        proof {
            assert(v@.subrange(start as int, b as int).drop_last() =~= v@.subrange(start as int, b as int - 1));
        }
        b = b - 1;
    }
    proof {
        assert(last_run_start(v@.subrange(start as int, b as int)) == b - start);
    }
    let mut i = start;
    while i < b && white_space(v[i])
        invariant
            start <= i <= b <= e <= v@.len(),
            t == v@.subrange(start as int, e as int),
            forall|j: int| 0 <= j < i - start ==> is_white_space(#[trigger] t[j]),
        decreases b - i,
    {
        i = i + 1;
    }
    if i == b {
        return None;
    }
    proof {
        assert(!is_white_space(t[i - start]));
        assert(t.skip(b - start) =~= v@.subrange(b as int, e as int));
    }
    parse_digits(v, b, e)
}

/// The number of NUMA nodes that the text of `/proc/self/status` tells of:
/// one more than the highest node of its first `Node(s):` line that names
/// one, else one. That highest node must not be `usize::MAX`.
pub fn numa_node_count(content: &str) -> (n: usize)
    requires
        status_max_node(content@) != Some(usize::MAX as nat),
    ensures
        n == match status_max_node(content@) {
            Some(v) => v + 1,
            None => 1,
        },
{
    let v = chars_of(content);
    let n = v.len();
    let mut p: usize = 0;
    assert(v@.skip(0) =~= v@);
    loop
        invariant
            p <= n == v@.len(),
            v@ == content@,
            status_max_node(v@) == status_max_node(v@.skip(p as int)),
            status_max_node(v@) != Some(usize::MAX as nat),
        decreases n - p,
    {
        let mut j = p;
        while j < n && v[j] != '\n'
            invariant
                p <= j <= n == v@.len(),
                line_end(v@.skip(p as int)) == (j - p) + line_end(v@.skip(j as int)),
            decreases n - j,
        {
            proof {
                assert(v@.skip(j as int).drop_first() =~= v@.skip(j as int + 1));
            }
            j = j + 1;
        }
        proof {
            assert(line_end(v@.skip(j as int)) == 0);
            assert(v@.skip(p as int).take(j - p) =~= v@.subrange(p as int, j as int));
        }
        match line_max_node_of(&v, p, j) {
            Some(m) => {
                return m + 1;
            },
            None => {},
        }
        if j == n {
            return 1;
        }
        proof {
            assert(v@.skip(p as int).skip(j - p + 1) =~= v@.skip(j as int + 1));
        }
        p = j + 1;
    }
}

} // verus!
