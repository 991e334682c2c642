//! Powers of two, for the shard counts and ring sizes rounded up to them.

use vstd::arithmetic::div_mod::{lemma_fundamental_div_mod, lemma_mod_multiples_basic, lemma_mod_multiples_vanish};
use vstd::arithmetic::power2::{
    lemma2_to64, lemma_pow2_adds, lemma_pow2_pos, lemma_pow2_strictly_increases, lemma_pow2_unfold, pow2,
};
use vstd::bits::{lemma_usize_low_bits_mask_is_mod, low_bits_mask};
use vstd::prelude::*;

verus! {

/// `x` is a power of two.
pub open spec fn is_power_of_two(x: nat) -> bool {
    exists|k: nat| pow2(k) == x
}

/// `r` is the smallest power of two that is at least `n` (1 for 0).
pub open spec fn is_next_power_of_two(n: nat, r: nat) -> bool {
    &&& is_power_of_two(r)
    &&& r >= n
    &&& r >= 1
    &&& (r == 1 || r / 2 < n)
}

/// The smallest power of two that is at least `n` (1 for 0), as
/// `usize::next_power_of_two` gives it. The result must fit, so `n` is bounded.
pub(crate) fn next_power_of_two(n: usize) -> (r: usize)
    requires
        n <= usize::MAX / 2 + 1,
    ensures
        r >= n,
        r >= 1,
        is_power_of_two(r as nat),
        r == 1 || r / 2 < n,
{
    let mut r: usize = 1;
    proof {
        lemma2_to64();
        assert(pow2(0) == 1);
    }
    while r < n
        invariant
            n <= usize::MAX / 2 + 1,
            r >= 1,
            is_power_of_two(r as nat),
            r == 1 || r / 2 < n,
        decreases usize::MAX - r,
    {
        proof {
            let k = choose|k: nat| pow2(k) == r as nat;
            lemma_pow2_unfold(k + 1);
            assert(pow2(k + 1) == 2 * r);
        }
        r = r * 2;
    }
    r
}

/// Masking with `p - 1` gives an index below `p`.
pub proof fn lemma_mask_below(key: usize, mask: usize)
    ensures
        key & mask <= mask,
{
    assert(key & mask <= mask) by (bit_vector);
}


/// The only power of two from 4 to 7 is 4.
pub proof fn lemma_power_of_two_four(x: nat)
    requires
        is_power_of_two(x),
        4 <= x < 8,
    ensures
        x == 4,
{
    let k = choose|k: nat| pow2(k) == x;
    lemma2_to64();
    if k < 2 {
        if k == 0 {
        } else {
        }
    } else if k > 2 {
        lemma_pow2_strictly_increases(2, k);
        if k == 3 {
        } else {
            lemma_pow2_strictly_increases(3, k);
        }
    }
}

/// Key zero selects the first shard, whatever the mask.
pub proof fn lemma_zero_key_first_shard(mask: usize)
    ensures
        0usize & mask == 0usize,
{
    assert(0usize & mask == 0usize) by (bit_vector);
}

/// The number of `usize` values.
pub open spec fn usize_count() -> int {
    usize::MAX as int + 1
}

/// A power of two that fits in a `usize` is `2^k` for some `k` below the
/// width, and divides the number of `usize` values.
pub proof fn lemma_pow2_divides_usize_count(c: usize) -> (k: nat)
    requires
        is_power_of_two(c as nat),
    ensures
        pow2(k) == c,
        k < usize::BITS,
        c > 0,
        usize_count() % (c as int) == 0,
{
    let k = choose|k: nat| pow2(k) == c as nat;
    vstd::layout::unsigned_int_max_values();
    if k > usize::BITS as nat {
        lemma_pow2_strictly_increases(usize::BITS as nat, k);
    }
    lemma_pow2_pos(k);
    lemma_pow2_adds(k, (usize::BITS - k) as nat);
    lemma_pow2_pos((usize::BITS - k) as nat);
    lemma_mod_multiples_basic(pow2((usize::BITS - k) as nat) as int, c as int);
    assert(pow2((usize::BITS - k) as nat) * c == pow2(usize::BITS as nat)) by (nonlinear_arith)
        requires
            pow2(k) * pow2((usize::BITS - k) as nat) == pow2((k + (usize::BITS - k)) as nat),
            pow2(k) == c,
            (k + (usize::BITS - k)) as nat == usize::BITS as nat,
    ;
    k
}

/// Masking with `c - 1` keeps the remainder modulo `c`, for a power of two `c`.
pub proof fn lemma_mask_is_mod(x: usize, c: usize)
    requires
        is_power_of_two(c as nat),
    ensures
        c > 0,
        x & ((c - 1) as usize) == x % c,
        x % c < c,
{
    let k = lemma_pow2_divides_usize_count(c);
    lemma_usize_low_bits_mask_is_mod(x, k);
    assert(low_bits_mask(k) == c - 1);
}

/// Numbers that differ by a multiple of `c` leave the same remainder.
pub proof fn lemma_same_remainder(a: int, b: int, c: int)
    requires
        c > 0,
        (a - b) % c == 0,
    ensures
        a % c == b % c,
{
    lemma_fundamental_div_mod(a - b, c);
    lemma_mod_multiples_vanish((a - b) / c, b, c);
    assert(c * ((a - b) / c) + b == a);
}

/// Two offsets below `c` from the same start fall in different slots.
pub proof fn lemma_distinct_slots(h: int, a: int, b: int, c: int)
    requires
        c > 0,
        0 <= a < b < c,
    ensures
        (h + a) % c != (h + b) % c,
{
    lemma_fundamental_div_mod(h + a, c);
    lemma_fundamental_div_mod(h + b, c);
    let q1 = (h + a) / c;
    let q2 = (h + b) / c;
    let r1 = (h + a) % c;
    let r2 = (h + b) % c;
    if r1 == r2 {
        assert(false) by (nonlinear_arith)
            requires
                h + a == c * q1 + r1,
                h + b == c * q2 + r2,
                r1 == r2,
                0 < b - a < c,
                c > 0,
        ;
    }
}

/// A counter and its wrapped successor fall in consecutive slots, and the
/// wrapped distance from `head` to `tail` leads from the slot of `head` to
/// the slot of `tail`.
pub proof fn lemma_ring_positions(head: usize, tail: usize, c: usize, j: int)
    requires
        is_power_of_two(c as nat),
    ensures
        ((head.wrapping_add(1) as int) + j) % (c as int) == (head as int + 1 + j) % (c as int),
        (head as int + tail.wrapping_sub(head) as int) % (c as int) == (tail as int) % (c as int),
{
    lemma_pow2_divides_usize_count(c);
    let n = usize_count();
    let cc = c as int;
    lemma_fundamental_div_mod(n, cc);
    assert(n == cc * (n / cc));
    lemma_mod_multiples_basic(-(n / cc), cc);
    lemma_mod_multiples_basic(n / cc, cc);
    assert(-n == (-(n / cc)) * cc) by (nonlinear_arith)
        requires
            n == cc * (n / cc),
    ;
    assert(n == (n / cc) * cc) by (nonlinear_arith)
        requires
            n == cc * (n / cc),
    ;
    let d1 = ((head.wrapping_add(1) as int) + j) - (head as int + 1 + j);
    assert(d1 == 0 || d1 == -n);
    if d1 != 0 {
        assert(d1 == (-(n / cc)) * cc);
    }
    assert(d1 % cc == 0);
    lemma_same_remainder((head.wrapping_add(1) as int) + j, head as int + 1 + j, cc);
    let d2 = (head as int + tail.wrapping_sub(head) as int) - (tail as int);
    assert(d2 == 0 || d2 == n);
    if d2 != 0 {
        assert(d2 == (n / cc) * cc);
    }
    assert(d2 % cc == 0);
    lemma_same_remainder(head as int + tail.wrapping_sub(head) as int, tail as int, cc);
}

} // verus!
