//! The byte buffers of the `bytes` crate, as the codecs of this crate see them.
//!
//! A `Bytes` is read from its front, a `BytesMut` is appended to at its back.
//! The functions below are thin wrappers of the `bytes` methods the codecs
//! call; their contracts are stated over the two names `bytes_view` and
//! `bytes_mut_view`, the sequence of bytes each buffer holds.

use bytes::{Buf, BufMut, Bytes, BytesMut};
use vstd::prelude::*;

verus! {

#[verifier::external_type_specification]
#[verifier::external_body]
pub struct ExBytes(Bytes);

#[verifier::external_type_specification]
#[verifier::external_body]
pub struct ExBytesMut(BytesMut);

/// The bytes that remain readable in a `Bytes`, in order.
pub uninterp spec fn bytes_view(b: Bytes) -> Seq<u8>;

/// The bytes written so far into a `BytesMut`, in order.
pub uninterp spec fn bytes_mut_view(b: BytesMut) -> Seq<u8>;

/// Largest size a single buffer may reach (allocations are bounded by `isize::MAX`).
pub open spec fn max_buf_len() -> int {
    isize::MAX as int
}

// ---------------------------------------------------------------------------
// Big-endian integers as byte sequences
// ---------------------------------------------------------------------------

pub open spec fn be_u16(v: u16) -> Seq<u8> {
    seq![(v >> 8u16) as u8, v as u8]
}

pub open spec fn be_u32(v: u32) -> Seq<u8> {
    seq![(v >> 24u32) as u8, (v >> 16u32) as u8, (v >> 8u32) as u8, v as u8]
}

pub open spec fn be_u64(v: u64) -> Seq<u8> {
    seq![
        (v >> 56u64) as u8,
        (v >> 48u64) as u8,
        (v >> 40u64) as u8,
        (v >> 32u64) as u8,
        (v >> 24u64) as u8,
        (v >> 16u64) as u8,
        (v >> 8u64) as u8,
        v as u8,
    ]
}

/// The big-endian `u16` held in the first two bytes of `s`.
pub open spec fn u16_of_be(s: Seq<u8>) -> u16 {
    ((s[0] as u16) << 8u16) | (s[1] as u16)
}

/// The big-endian `u32` held in the first four bytes of `s`.
pub open spec fn u32_of_be(s: Seq<u8>) -> u32 {
    ((s[0] as u32) << 24u32) | ((s[1] as u32) << 16u32) | ((s[2] as u32) << 8u32) | (s[3] as u32)
}

/// The big-endian `u64` held in the first eight bytes of `s`.
pub open spec fn u64_of_be(s: Seq<u8>) -> u64 {
    ((s[0] as u64) << 56u64) | ((s[1] as u64) << 48u64) | ((s[2] as u64) << 40u64) | ((s[3] as u64)
        << 32u64) | ((s[4] as u64) << 24u64) | ((s[5] as u64) << 16u64) | ((s[6] as u64) << 8u64)
        | (s[7] as u64)
}

pub proof fn lemma_be_u16_roundtrip(v: u16, rest: Seq<u8>)
    ensures
        be_u16(v).len() == 2,
        u16_of_be(be_u16(v) + rest) == v,
{
    let s = be_u16(v) + rest;
    assert(s[0] == (v >> 8u16) as u8 && s[1] == v as u8);
    assert((((((v >> 8u16) as u8) as u16) << 8u16) | ((v as u8) as u16)) == v) by (bit_vector);
}

pub proof fn lemma_be_u32_roundtrip(v: u32, rest: Seq<u8>)
    ensures
        be_u32(v).len() == 4,
        u32_of_be(be_u32(v) + rest) == v,
{
    let s = be_u32(v) + rest;
    assert(s[0] == (v >> 24u32) as u8 && s[1] == (v >> 16u32) as u8 && s[2] == (v >> 8u32) as u8
        && s[3] == v as u8);
    assert((((((v >> 24u32) as u8) as u32) << 24u32) | ((((v >> 16u32) as u8) as u32) << 16u32) | (((
    (v >> 8u32) as u8) as u32) << 8u32) | ((v as u8) as u32)) == v) by (bit_vector);
}

pub proof fn lemma_be_u64_roundtrip(v: u64, rest: Seq<u8>)
    ensures
        be_u64(v).len() == 8,
        u64_of_be(be_u64(v) + rest) == v,
{
    let s = be_u64(v) + rest;
    assert(s[0] == (v >> 56u64) as u8 && s[1] == (v >> 48u64) as u8 && s[2] == (v >> 40u64) as u8
        && s[3] == (v >> 32u64) as u8 && s[4] == (v >> 24u64) as u8 && s[5] == (v >> 16u64) as u8
        && s[6] == (v >> 8u64) as u8 && s[7] == v as u8);
    assert((((((v >> 56u64) as u8) as u64) << 56u64) | ((((v >> 48u64) as u8) as u64) << 48u64) | (((
    (v >> 40u64) as u8) as u64) << 40u64) | ((((v >> 32u64) as u8) as u64) << 32u64) | ((((v
        >> 24u64) as u8) as u64) << 24u64) | ((((v >> 16u64) as u8) as u64) << 16u64) | ((((v
        >> 8u64) as u8) as u64) << 8u64) | ((v as u8) as u64)) == v) by (bit_vector);
}

// ---------------------------------------------------------------------------
// Reading from `Bytes`
// ---------------------------------------------------------------------------

/// `Bytes::len`: the number of bytes left.
#[verifier::external_body]
pub(crate) fn bytes_len(b: &Bytes) -> (n: usize)
    ensures
        n == bytes_view(*b).len(),
{
    b.len()
}

/// `Buf::chunk` of a `Bytes`: the whole readable contents as one slice.
#[verifier::external_body]
pub(crate) fn chunk(b: &Bytes) -> (s: &[u8])
    ensures
        s@ == bytes_view(*b),
{
    b.chunk()
}

/// `Buf::get_u8`: takes the first byte off the front.
#[verifier::external_body]
pub(crate) fn get_u8(b: &mut Bytes) -> (v: u8)
    requires
        bytes_view(*old(b)).len() >= 1,
    ensures
        v == bytes_view(*old(b))[0],
        bytes_view(*final(b)) == bytes_view(*old(b)).skip(1),
{
    b.get_u8()
}

/// `Buf::get_u16`: takes a big-endian `u16` off the front.
#[verifier::external_body]
pub(crate) fn get_u16(b: &mut Bytes) -> (v: u16)
    requires
        bytes_view(*old(b)).len() >= 2,
    ensures
        v == u16_of_be(bytes_view(*old(b))),
        bytes_view(*final(b)) == bytes_view(*old(b)).skip(2),
{
    b.get_u16()
}

/// `Buf::get_u32`: takes a big-endian `u32` off the front.
#[verifier::external_body]
pub(crate) fn get_u32(b: &mut Bytes) -> (v: u32)
    requires
        bytes_view(*old(b)).len() >= 4,
    ensures
        v == u32_of_be(bytes_view(*old(b))),
        bytes_view(*final(b)) == bytes_view(*old(b)).skip(4),
{
    b.get_u32()
}

/// `Buf::get_u64`: takes a big-endian `u64` off the front.
#[verifier::external_body]
pub(crate) fn get_u64(b: &mut Bytes) -> (v: u64)
    requires
        bytes_view(*old(b)).len() >= 8,
    ensures
        v == u64_of_be(bytes_view(*old(b))),
        bytes_view(*final(b)) == bytes_view(*old(b)).skip(8),
{
    b.get_u64()
}

/// `Buf::advance` of a `Bytes`: drops `n` bytes off the front.
#[verifier::external_body]
pub(crate) fn advance(b: &mut Bytes, n: usize)
    requires
        n <= bytes_view(*old(b)).len(),
    ensures
        bytes_view(*final(b)) == bytes_view(*old(b)).skip(n as int),
{
    b.advance(n)
}

/// `Buf::copy_to_bytes` of a `Bytes`: splits the first `n` bytes off into a new `Bytes`.
#[verifier::external_body]
pub(crate) fn copy_to_bytes(b: &mut Bytes, n: usize) -> (head: Bytes)
    requires
        n <= bytes_view(*old(b)).len(),
    ensures
        bytes_view(head) == bytes_view(*old(b)).take(n as int),
        bytes_view(*final(b)) == bytes_view(*old(b)).skip(n as int),
{
    b.copy_to_bytes(n)
}

/// `Bytes::split_to`: splits the first `n` bytes off into a new `Bytes`.
#[verifier::external_body]
pub(crate) fn split_to(b: &mut Bytes, n: usize) -> (head: Bytes)
    requires
        n <= bytes_view(*old(b)).len(),
    ensures
        bytes_view(head) == bytes_view(*old(b)).take(n as int),
        bytes_view(*final(b)) == bytes_view(*old(b)).skip(n as int),
{
    b.split_to(n)
}

/// `BytesMut::split_to`: splits the first `n` bytes off into a new `BytesMut`.
#[verifier::external_body]
pub(crate) fn bytes_mut_split_to(b: &mut BytesMut, n: usize) -> (head: BytesMut)
    requires
        n <= bytes_mut_view(*old(b)).len(),
    ensures
        bytes_mut_view(head) == bytes_mut_view(*old(b)).take(n as int),
        bytes_mut_view(*final(b)) == bytes_mut_view(*old(b)).skip(n as int),
{
    b.split_to(n)
}

/// `Buf::copy_to_slice`: fills `dst` with the first `dst.len()` bytes, and drops them.
#[verifier::external_body]
pub(crate) fn copy_to_slice(b: &mut Bytes, dst: &mut [u8])
    requires
        old(dst)@.len() <= bytes_view(*old(b)).len(),
    ensures
        final(dst)@ == bytes_view(*old(b)).take(old(dst)@.len() as int),
        bytes_view(*final(b)) == bytes_view(*old(b)).skip(old(dst)@.len() as int),
{
    b.copy_to_slice(dst)
}

// ---------------------------------------------------------------------------
// Making `Bytes`
// ---------------------------------------------------------------------------

/// `Clone` of `Bytes`: another handle on the same bytes.
pub assume_specification[ <Bytes as Clone>::clone ](b: &Bytes) -> (r: Bytes)
    ensures
        bytes_view(r) == bytes_view(*b),
;

/// `Bytes::new`: no bytes.
#[verifier::external_body]
pub(crate) fn bytes_new() -> (b: Bytes)
    ensures
        bytes_view(b) == Seq::<u8>::empty(),
{
    Bytes::new()
}

/// `Bytes::copy_from_slice`: a copy of `s`.
#[verifier::external_body]
pub(crate) fn bytes_copy_from_slice(s: &[u8]) -> (b: Bytes)
    ensures
        bytes_view(b) == s@,
{
    Bytes::copy_from_slice(s)
}

/// `Bytes::from(Vec<u8>)`: takes over the vector's bytes.
#[verifier::external_body]
pub(crate) fn bytes_from_vec(v: Vec<u8>) -> (b: Bytes)
    ensures
        bytes_view(b) == v@,
{
    Bytes::from(v)
}

/// `Deref` of `Bytes`: its contents as a slice.
#[verifier::external_body]
pub(crate) fn bytes_as_slice(b: &Bytes) -> (s: &[u8])
    ensures
        s@ == bytes_view(*b),
{
    b.as_ref()
}

// ---------------------------------------------------------------------------
// Writing into `BytesMut`
// ---------------------------------------------------------------------------

/// `Deref` of `BytesMut`: the written bytes as a slice.
#[verifier::external_body]
pub(crate) fn bytes_mut_as_slice(b: &BytesMut) -> (s: &[u8])
    ensures
        s@ == bytes_mut_view(*b),
{
    b.as_ref()
}

/// `BytesMut::new`: an empty buffer.
#[verifier::external_body]
pub(crate) fn bytes_mut_new() -> (b: BytesMut)
    ensures
        bytes_mut_view(b) == Seq::<u8>::empty(),
{
    BytesMut::new()
}

/// `BytesMut::with_capacity`: an empty buffer (the capacity is left unsaid).
#[verifier::external_body]
pub(crate) fn bytes_mut_with_capacity(cap: usize) -> (b: BytesMut)
    requires
        cap <= max_buf_len(),
    ensures
        bytes_mut_view(b) == Seq::<u8>::empty(),
{
    BytesMut::with_capacity(cap)
}

/// `Bytes::slice`: the bytes from `start` up to `end`, sharing storage.
#[verifier::external_body]
pub(crate) fn bytes_slice(b: &Bytes, start: usize, end: usize) -> (r: Bytes)
    requires
        start <= end <= bytes_view(*b).len(),
    ensures
        bytes_view(r) == bytes_view(*b).subrange(start as int, end as int),
{
    b.slice(start..end)
}

/// `BytesMut::capacity`: how many bytes the buffer holds without growing.
/// What the allocator gave is not stated.
#[verifier::external_body]
pub(crate) fn bytes_mut_capacity(b: &BytesMut) -> (n: usize) {
    b.capacity()
}

/// `BytesMut::len`: the number of bytes written.
#[verifier::external_body]
pub(crate) fn bytes_mut_len(b: &BytesMut) -> (n: usize)
    ensures
        n == bytes_mut_view(*b).len(),
{
    b.len()
}

/// `BytesMut::clear`: forgets all bytes written.
#[verifier::external_body]
pub(crate) fn bytes_mut_clear(b: &mut BytesMut)
    ensures
        bytes_mut_view(*final(b)) == Seq::<u8>::empty(),
{
    b.clear()
}

/// `BytesMut::truncate`: keeps the first `n` bytes (no effect when there are fewer).
#[verifier::external_body]
pub(crate) fn bytes_mut_truncate(b: &mut BytesMut, n: usize)
    ensures
        bytes_mut_view(*final(b)) == if n < bytes_mut_view(*old(b)).len() {
            bytes_mut_view(*old(b)).take(n as int)
        } else {
            bytes_mut_view(*old(b))
        },
{
    b.truncate(n)
}

/// `BufMut::put_u8`: appends one byte.
#[verifier::external_body]
pub(crate) fn put_u8(b: &mut BytesMut, v: u8)
    requires
        bytes_mut_view(*old(b)).len() + 1 <= max_buf_len(),
    ensures
        bytes_mut_view(*final(b)) == bytes_mut_view(*old(b)).push(v),
{
    b.put_u8(v)
}

/// `BufMut::put_u16`: appends a `u16` in big-endian order.
#[verifier::external_body]
pub(crate) fn put_u16(b: &mut BytesMut, v: u16)
    requires
        bytes_mut_view(*old(b)).len() + 2 <= max_buf_len(),
    ensures
        bytes_mut_view(*final(b)) == bytes_mut_view(*old(b)) + be_u16(v),
{
    b.put_u16(v)
}

/// `BufMut::put_u32`: appends a `u32` in big-endian order.
#[verifier::external_body]
pub(crate) fn put_u32(b: &mut BytesMut, v: u32)
    requires
        bytes_mut_view(*old(b)).len() + 4 <= max_buf_len(),
    ensures
        bytes_mut_view(*final(b)) == bytes_mut_view(*old(b)) + be_u32(v),
{
    b.put_u32(v)
}

/// `BufMut::put_u64`: appends a `u64` in big-endian order.
#[verifier::external_body]
pub(crate) fn put_u64(b: &mut BytesMut, v: u64)
    requires
        bytes_mut_view(*old(b)).len() + 8 <= max_buf_len(),
    ensures
        bytes_mut_view(*final(b)) == bytes_mut_view(*old(b)) + be_u64(v),
{
    b.put_u64(v)
}

/// `BytesMut::extend_from_slice`: appends a copy of `s`.
#[verifier::external_body]
pub(crate) fn extend_from_slice(b: &mut BytesMut, s: &[u8])
    requires
        bytes_mut_view(*old(b)).len() + s@.len() <= max_buf_len(),
    ensures
        bytes_mut_view(*final(b)) == bytes_mut_view(*old(b)) + s@,
{
    b.extend_from_slice(s)
}

/// `BytesMut::freeze`: the written bytes as a readable `Bytes`.
#[verifier::external_body]
pub(crate) fn freeze(b: BytesMut) -> (r: Bytes)
    ensures
        bytes_view(r) == bytes_mut_view(b),
{
    b.freeze()
}

} // verus!
