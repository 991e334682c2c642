//! Message encoding: the codec traits, the 30-bit length varint and
//! length-prefixed framing, and the encodings of the primitive types.

pub mod addr_text;
pub mod frame;
pub mod framed;
pub mod socks5;
pub mod squic;

use crate::bytes_io::{
    be_u16, be_u32, bytes_as_slice, bytes_len, bytes_mut_as_slice, bytes_mut_view, bytes_view,
    copy_to_bytes, extend_from_slice, get_u16, get_u32, get_u8, max_buf_len, put_u16, put_u32,
    put_u8, u16_of_be, u32_of_be, bytes_mut_len, bytes_mut_with_capacity, bytes_mut_truncate, freeze,
};
use vstd::slice::slice_subrange;
use bytes::{Bytes, BytesMut};
use vstd::prelude::*;

verus! {

/// Largest value of a length varint.
pub const VARINT_MAX_VALUE: u32 = 0x3FFF_FFFF;

/// Largest number of bytes a length varint takes.
pub const VARINT_MAX_SIZE: usize = 4;

// ---------------------------------------------------------------------------
// Codec traits
// ---------------------------------------------------------------------------

/// The value a wire type carries, as a mathematical object.
pub trait WireModel {
    type Model;

    spec fn model(&self) -> Self::Model;
}

/// What a decoder makes of a byte sequence.
///
/// `Done(m, rest)`: a value with model `m` was read and `rest` is left;
/// `Reject(rest)`: the input is refused, and `rest` is what is left of it;
/// `Short`: the input ends inside a field that is read without a length check.
pub enum Parsed<M> {
    Done(M, Seq<u8>),
    Reject(Seq<u8>),
    Short,
}

/// The outcome of a decoder run on a buffer.
pub enum Decoded<T> {
    Value(T),
    Invalid,
    Short,
}

/// `r` is what a decoder returns whose input parses as `p`, leaving `after`.
pub open spec fn decoded_agrees<T: WireModel>(r: Decoded<T>, p: Parsed<T::Model>, after: Seq<u8>) -> bool {
    match p {
        Parsed::Done(m, rest) => r matches Decoded::Value(v) && v.model() == m && after == rest,
        Parsed::Reject(rest) => r is Invalid && after == rest,
        Parsed::Short => r is Short,
    }
}

/// Types that append their encoding to a `BytesMut`.
pub trait SEncodeSync: WireModel {
    /// The values that can be encoded without a panic.
    spec fn spec_encodable(m: Self::Model) -> bool;

    /// The bytes that encode a value.
    spec fn spec_encoding(m: Self::Model) -> Seq<u8>;

    fn encode_sync(&self, buf: &mut BytesMut)
        requires
            Self::spec_encodable(self.model()),
            bytes_mut_view(*old(buf)).len() + Self::spec_encoding(self.model()).len() <= max_buf_len(),
        ensures
            bytes_mut_view(*final(buf)) == bytes_mut_view(*old(buf)) + Self::spec_encoding(self.model()),
    ;
}

/// Types that are read off the front of a `Bytes`.
pub trait SDecodeSync: Sized + WireModel {
    /// What decoding makes of a byte sequence.
    spec fn spec_parse(s: Seq<u8>) -> Parsed<Self::Model>;

    /// Decodes, and reports `Short` where a fixed-width field runs past the end.
    fn try_decode_sync(buf: &mut Bytes) -> (r: Decoded<Self>)
        ensures
            decoded_agrees(r, Self::spec_parse(bytes_view(*old(buf))), bytes_view(*final(buf))),
    ;

    /// Decodes a value; `None` where the input is refused.
    fn decode_sync(buf: &mut Bytes) -> (r: Option<Self>)
        requires
            !(Self::spec_parse(bytes_view(*old(buf))) is Short),
        ensures
            match Self::spec_parse(bytes_view(*old(buf))) {
                Parsed::Done(m, rest) => r matches Some(v) && v.model() == m && bytes_view(*final(buf)) == rest,
                Parsed::Reject(rest) => r is None && bytes_view(*final(buf)) == rest,
                Parsed::Short => false,
            },
    {
        match Self::try_decode_sync(buf) {
            Decoded::Value(v) => Some(v),
            _ => None,
        }
    }
}

// ---------------------------------------------------------------------------
// Primitive encodings
// ---------------------------------------------------------------------------

impl WireModel for u8 {
    type Model = u8;

    open spec fn model(&self) -> u8 {
        *self
    }
}

impl WireModel for u16 {
    type Model = u16;

    open spec fn model(&self) -> u16 {
        *self
    }
}

impl WireModel for u32 {
    type Model = u32;

    open spec fn model(&self) -> u32 {
        *self
    }
}

impl WireModel for Bytes {
    type Model = Seq<u8>;

    open spec fn model(&self) -> Seq<u8> {
        bytes_view(*self)
    }
}

impl WireModel for BytesMut {
    type Model = Seq<u8>;

    open spec fn model(&self) -> Seq<u8> {
        bytes_mut_view(*self)
    }
}

impl SEncodeSync for u8 {
    open spec fn spec_encodable(m: u8) -> bool {
        true
    }

    open spec fn spec_encoding(m: u8) -> Seq<u8> {
        seq![m]
    }

    fn encode_sync(&self, buf: &mut BytesMut) {
        put_u8(buf, *self);
        proof {
            assert(bytes_mut_view(*buf) =~= bytes_mut_view(*old(buf)) + seq![*self]);
        }
    }
}

impl SDecodeSync for u8 {
    open spec fn spec_parse(s: Seq<u8>) -> Parsed<u8> {
        if s.len() < 1 {
            Parsed::Short
        } else {
            Parsed::Done(s[0], s.skip(1))
        }
    }

    fn try_decode_sync(buf: &mut Bytes) -> (r: Decoded<u8>) {
        if bytes_len(buf) < 1 {
            return Decoded::Short;
        }
        Decoded::Value(get_u8(buf))
    }
}

impl SEncodeSync for u16 {
    open spec fn spec_encodable(m: u16) -> bool {
        true
    }

    open spec fn spec_encoding(m: u16) -> Seq<u8> {
        be_u16(m)
    }

    fn encode_sync(&self, buf: &mut BytesMut) {
        put_u16(buf, *self);
    }
}

impl SDecodeSync for u16 {
    open spec fn spec_parse(s: Seq<u8>) -> Parsed<u16> {
        if s.len() < 2 {
            Parsed::Short
        } else {
            Parsed::Done(u16_of_be(s), s.skip(2))
        }
    }

    fn try_decode_sync(buf: &mut Bytes) -> (r: Decoded<u16>) {
        if bytes_len(buf) < 2 {
            return Decoded::Short;
        }
        Decoded::Value(get_u16(buf))
    }
}

impl SEncodeSync for u32 {
    open spec fn spec_encodable(m: u32) -> bool {
        true
    }

    open spec fn spec_encoding(m: u32) -> Seq<u8> {
        be_u32(m)
    }

    fn encode_sync(&self, buf: &mut BytesMut) {
        put_u32(buf, *self);
    }
}

impl SDecodeSync for u32 {
    open spec fn spec_parse(s: Seq<u8>) -> Parsed<u32> {
        if s.len() < 4 {
            Parsed::Short
        } else {
            Parsed::Done(u32_of_be(s), s.skip(4))
        }
    }

    fn try_decode_sync(buf: &mut Bytes) -> (r: Decoded<u32>) {
        if bytes_len(buf) < 4 {
            return Decoded::Short;
        }
        Decoded::Value(get_u32(buf))
    }
}

impl SEncodeSync for Bytes {
    open spec fn spec_encodable(m: Seq<u8>) -> bool {
        true
    }

    open spec fn spec_encoding(m: Seq<u8>) -> Seq<u8> {
        m
    }

    fn encode_sync(&self, buf: &mut BytesMut) {
        extend_from_slice(buf, bytes_as_slice(self));
    }
}

impl SEncodeSync for BytesMut {
    open spec fn spec_encodable(m: Seq<u8>) -> bool {
        true
    }

    open spec fn spec_encoding(m: Seq<u8>) -> Seq<u8> {
        m
    }

    fn encode_sync(&self, buf: &mut BytesMut) {
        extend_from_slice(buf, bytes_mut_as_slice(self));
    }
}

/// A `Bytes` decodes as everything that remains.
impl SDecodeSync for Bytes {
    open spec fn spec_parse(s: Seq<u8>) -> Parsed<Seq<u8>> {
        Parsed::Done(s, Seq::<u8>::empty())
    }

    fn try_decode_sync(buf: &mut Bytes) -> (r: Decoded<Bytes>) {
        let n = bytes_len(buf);
        let all = copy_to_bytes(buf, n);
        proof {
            assert(bytes_view(*buf) =~= Seq::<u8>::empty());
            assert(bytes_view(all) =~= bytes_view(*old(buf)));
        }
        Decoded::Value(all)
    }
}


// ---------------------------------------------------------------------------
// The 30-bit length varint
// ---------------------------------------------------------------------------

/// A length prefix: one, two or four bytes, told apart by the top bits of the first.
#[derive(Clone, Copy, PartialEq, Eq, Structural, Hash, Debug)]
pub struct VarInt(u32);

/// The bytes `encode_varint_to` writes for `v` (for `v <= VARINT_MAX_VALUE`).
pub open spec fn varint30_encoding(v: u32) -> Seq<u8> {
    if v < 64 {
        seq![v as u8]
    } else if v < 16384 {
        be_u16((v | 0x4000u32) as u16)
    } else {
        be_u32(v | 0x8000_0000u32)
    }
}

/// What `decode_varint` makes of a byte sequence.
///
/// A first byte below 64 is the value. From 64 to 127 the value is the low
/// 14 bits of the big-endian `u16` that follows the first byte; from 128 to
/// 191 it is the three bytes that follow the first byte, big-endian; from 192
/// on the input is refused.
pub open spec fn varint30_parse(s: Seq<u8>) -> Parsed<u32> {
    if s.len() < 1 {
        Parsed::Short
    } else {
        let first = s[0];
        let t = s.skip(1);
        if first < 64 {
            Parsed::Done(first as u32, t)
        } else if first < 128 {
            if t.len() < 2 {
                Parsed::Short
            } else {
                Parsed::Done((u16_of_be(t) & 0x3FFFu16) as u32, t.skip(2))
            }
        } else if first < 192 {
            if t.len() < 3 {
                Parsed::Reject(t)
            } else {
                Parsed::Done(
                    ((t[0] as u32) << 16u32) | ((t[1] as u32) << 8u32) | (t[2] as u32),
                    t.skip(3),
                )
            }
        } else {
            Parsed::Reject(t)
        }
    }
}

impl WireModel for VarInt {
    type Model = u32;

    closed spec fn model(&self) -> u32 {
        self.0
    }
}

impl VarInt {
    /// A varint for `v`, when `v` is at most `VARINT_MAX_VALUE`.
    pub fn new(v: u32) -> (r: Option<Self>)
        ensures
            r matches Some(x) ==> x.model() == v,
            r is Some <==> v <= VARINT_MAX_VALUE,
    {
        if v <= VARINT_MAX_VALUE {
            Some(VarInt(v))
        } else {
            None
        }
    }

    pub fn inner(self) -> (r: u32)
        ensures
            r == self.model(),
    {
        self.0
    }

    /// The encoding of the value in a new `Bytes`.
    pub fn encode_varint(self) -> (r: Bytes)
        requires
            self.model() <= VARINT_MAX_VALUE,
        ensures
            bytes_view(r) == varint30_encoding(self.model()),
    {
        let mut buf = bytes_mut_with_capacity(VARINT_MAX_SIZE);
        self.encode_varint_to(&mut buf);
        proof {
            assert(bytes_mut_view(buf) =~= varint30_encoding(self.model()));
        }
        freeze(buf)
    }

    /// Appends the encoding of the value.
    pub fn encode_varint_to(self, buf: &mut BytesMut)
        requires
            self.model() <= VARINT_MAX_VALUE,
            bytes_mut_view(*old(buf)).len() + 4 <= max_buf_len(),
        ensures
            bytes_mut_view(*final(buf)) == bytes_mut_view(*old(buf)) + varint30_encoding(self.model()),
    {
        let val = self.0;
        if val < 64 {
            put_u8(buf, val as u8);
            proof {
                assert(bytes_mut_view(*buf) =~= bytes_mut_view(*old(buf)) + varint30_encoding(val));
            }
        } else if val < 16384 {
            put_u16(buf, (val | 0x4000) as u16);
        } else {
            put_u32(buf, val | 0x8000_0000);
        }
    }

    /// Reads a varint, and reports `Short` where a read would run past the end.
    pub fn try_decode_varint(buf: &mut Bytes) -> (r: Decoded<VarInt>)
        ensures
            decoded_agrees(r, varint30_parse(bytes_view(*old(buf))), bytes_view(*final(buf))),
    {
        if bytes_len(buf) < 1 {
            return Decoded::Short;
        }
        let ghost s = bytes_view(*buf);
        let first = get_u8(buf);
        if first < 64 {
            Decoded::Value(VarInt(first as u32))
        } else if first < 128 {
            if bytes_len(buf) < 2 {
                return Decoded::Short;
            }
            let val = get_u16(buf);
            proof {
                assert(s.skip(1).skip(2) =~= s.skip(3));
            }
            Decoded::Value(VarInt((val & 0x3FFF) as u32))
        } else if first < 192 {
            if bytes_len(buf) < 3 {
                return Decoded::Invalid;
            }
            let b0 = get_u8(buf) as u32;
            let b1 = get_u8(buf) as u32;
            let b2 = get_u8(buf) as u32;
            proof {
                assert(s.skip(1).skip(1).skip(1).skip(1) =~= s.skip(1).skip(3));
            }
            let val = (b0 << 16) | (b1 << 8) | b2;
            Decoded::Value(VarInt(val))
        } else {
            Decoded::Invalid
        }
    }

    /// Reads a varint off the front of `buf`; `None` where it is refused.
    pub fn decode_varint(buf: &mut Bytes) -> (r: Option<Self>)
        requires
            !(varint30_parse(bytes_view(*old(buf))) is Short),
        ensures
            match varint30_parse(bytes_view(*old(buf))) {
                Parsed::Done(v, rest) => r matches Some(x) && x.model() == v && bytes_view(*final(buf)) == rest,
                Parsed::Reject(rest) => r is None && bytes_view(*final(buf)) == rest,
                Parsed::Short => false,
            },
    {
        match Self::try_decode_varint(buf) {
            Decoded::Value(v) => Some(v),
            _ => None,
        }
    }

    /// The number of bytes `encode_varint_to` writes for this value.
    pub fn encoded_len(self) -> (n: usize)
        ensures
            self.model() <= VARINT_MAX_VALUE ==> n == varint30_encoding(self.model()).len(),
            n == (if self.model() < 64 { 1usize } else if self.model() < 16384 { 2usize } else { 4usize }),
    {
        let val = self.0;
        if val < 64 {
            1
        } else if val < 16384 {
            2
        } else {
            4
        }
    }
}

/// Decoding gives back the encoded value, for one-byte values and for
/// values from `2^14` to `2^24 - 1`.
///
/// For two-byte values (64 to 16383) decoding reads the two bytes after the
/// first, not the second byte of the encoding; for values of `2^24` and more
/// the top six bits are dropped.
pub proof fn lemma_varint30_roundtrip(v: u32, rest: Seq<u8>)
    requires
        v < 64 || (16384 <= v && v < 0x100_0000),
    ensures
        varint30_parse(varint30_encoding(v) + rest) == Parsed::Done(v, rest),
{
    let s = varint30_encoding(v) + rest;
    if v < 64 {
        assert(s.skip(1) =~= rest);
        assert((v as u8) as u32 == v);
    } else {
        let w = v | 0x8000_0000u32;
        assert(s[0] == (w >> 24u32) as u8 && s[1] == (w >> 16u32) as u8 && s[2] == (w >> 8u32) as u8
            && s[3] == w as u8);
        assert(v < 0x100_0000 ==> 128 <= (((v | 0x8000_0000u32) >> 24u32) as u8) && (((v | 0x8000_0000u32) >> 24u32) as u8)
            < 192) by (bit_vector);
        let t = s.skip(1);
        assert(t[0] == s[1] && t[1] == s[2] && t[2] == s[3]);
        assert(t.skip(3) =~= rest);
        assert(16384 <= v < 0x100_0000 ==> (((((v | 0x8000_0000u32) >> 16u32) as u8) as u32) << 16u32)
            | (((((v | 0x8000_0000u32) >> 8u32) as u8) as u32) << 8u32) | (((v | 0x8000_0000u32) as u8) as u32)
            == v) by (bit_vector);
    }
}

/// A message preceded by the length of its encoding as a varint.
pub struct LengthPrefixed<T> {
    pub msg: T,
}

impl<T: WireModel> WireModel for LengthPrefixed<T> {
    type Model = T::Model;

    open spec fn model(&self) -> T::Model {
        self.msg.model()
    }
}

impl<T: SEncodeSync> SEncodeSync for LengthPrefixed<T> {
    /// The body's length, taken modulo `2^32`, must fit a varint.
    open spec fn spec_encodable(m: T::Model) -> bool {
        &&& T::spec_encodable(m)
        &&& (T::spec_encoding(m).len() as u32) <= VARINT_MAX_VALUE
    }

    open spec fn spec_encoding(m: T::Model) -> Seq<u8> {
        varint30_encoding(T::spec_encoding(m).len() as u32) + T::spec_encoding(m)
    }

    fn encode_sync(&self, buf: &mut BytesMut) {
        let ghost body = T::spec_encoding(self.msg.model());
        let body_start = bytes_mut_len(buf);
        self.msg.encode_sync(buf);
        let body_len = bytes_mut_len(buf) - body_start;
        let varint = VarInt::new(body_len as u32).expect("message too large");
        let encoded_len = varint.encoded_len();
        let mut result = bytes_mut_with_capacity(encoded_len + body_len);
        varint.encode_varint_to(&mut result);
        let written = bytes_mut_as_slice(buf);
        let body_slice = slice_subrange(written, body_start, written.len());
        proof {
            assert(body_slice@ =~= body);
        }
        extend_from_slice(&mut result, body_slice);
        bytes_mut_truncate(buf, body_start);
        proof {
            assert(bytes_mut_view(*buf) =~= bytes_mut_view(*old(buf)));
        }
        extend_from_slice(buf, bytes_mut_as_slice(&result));
        proof {
            assert(bytes_mut_view(*buf) =~= bytes_mut_view(*old(buf)) + (varint30_encoding(
                body.len() as u32,
            ) + body));
        }
    }
}

impl<T: SDecodeSync> SDecodeSync for LengthPrefixed<T> {
    open spec fn spec_parse(s: Seq<u8>) -> Parsed<T::Model> {
        match varint30_parse(s) {
            Parsed::Short => Parsed::Short,
            Parsed::Reject(r) => Parsed::Reject(r),
            Parsed::Done(n, r) => {
                if r.len() < n {
                    Parsed::Reject(r)
                } else {
                    match T::spec_parse(r.take(n as int)) {
                        Parsed::Done(m, _) => Parsed::Done(m, r.skip(n as int)),
                        Parsed::Reject(_) => Parsed::Reject(r.skip(n as int)),
                        Parsed::Short => Parsed::Short,
                    }
                }
            },
        }
    }

    fn try_decode_sync(buf: &mut Bytes) -> (r: Decoded<Self>) {
        let varint = match VarInt::try_decode_varint(buf) {
            Decoded::Value(v) => v,
            Decoded::Invalid => return Decoded::Invalid,
            Decoded::Short => return Decoded::Short,
        };
        let len = varint.inner() as usize;
        if bytes_len(buf) < len {
            return Decoded::Invalid;
        }
        let mut body = copy_to_bytes(buf, len);
        match T::try_decode_sync(&mut body) {
            Decoded::Value(msg) => Decoded::Value(LengthPrefixed { msg }),
            Decoded::Invalid => Decoded::Invalid,
            Decoded::Short => Decoded::Short,
        }
    }
}


// ---------------------------------------------------------------------------
// Buffers for encoding
// ---------------------------------------------------------------------------

/// Hands out empty buffers of a fixed capacity.
pub struct BytesPool {
    chunk_size: usize,
}

impl BytesPool {
    /// The capacity of the buffers handed out.
    pub closed spec fn chunk(self) -> usize {
        self.chunk_size
    }

    pub fn new(chunk_size: usize) -> (p: Self)
        ensures
            p.chunk() == chunk_size,
    {
        BytesPool { chunk_size }
    }

    /// An empty buffer of `chunk()` capacity.
    pub fn allocate(&self) -> (b: BytesMut)
        requires
            self.chunk() <= max_buf_len(),
        ensures
            bytes_mut_view(b) == Seq::<u8>::empty(),
    {
        bytes_mut_with_capacity(self.chunk_size)
    }

    /// An empty buffer of `capacity`.
    pub fn alloc_with_capacity(&self, capacity: usize) -> (b: BytesMut)
        requires
            capacity <= max_buf_len(),
        ensures
            bytes_mut_view(b) == Seq::<u8>::empty(),
    {
        bytes_mut_with_capacity(capacity)
    }
}

impl Default for BytesPool {
    /// Buffers of 4096 bytes.
    fn default() -> (p: Self)
        ensures
            p.chunk() == 4096,
    {
        BytesPool::new(4096)
    }
}

} // verus!
