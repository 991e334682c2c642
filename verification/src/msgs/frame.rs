//! The framed protocol spoken between client and server: QUIC-style
//! variable-length integers, a fixed frame header, and the frame payloads.

pub mod flags;

use crate::bytes_io::{
    advance, be_u16, be_u32, be_u64, bytes_as_slice, bytes_len, bytes_mut_view, bytes_view, chunk,
    copy_to_bytes, extend_from_slice, get_u32, get_u64, get_u8, max_buf_len, put_u16, put_u32,
    put_u64, put_u8, u32_of_be, u64_of_be, lemma_be_u64_roundtrip, lemma_be_u32_roundtrip,
    copy_to_slice, u16_of_be, lemma_be_u16_roundtrip, get_u16, bytes_mut_new, bytes_mut_len,
    bytes_mut_as_slice, split_to,
};
use crate::msgs::socks5::{
    socks_addr_encodable, socks_addr_encoding, socks_addr_parse, socks_addr_wf, SocksAddr,
    SpecSocksAddr, lemma_socks_addr_roundtrip, decode_socks_addr, encode_socks_addr,
};
use crate::msgs::{decoded_agrees, Decoded, Parsed, SDecodeSync, SEncodeSync, WireModel};
use bytes::{Bytes, BytesMut};
use vstd::prelude::*;

verus! {

// ---------------------------------------------------------------------------
// Variable-length integers (up to 2^62 - 1)
// ---------------------------------------------------------------------------

/// Largest value a `VarInt` holds.
pub const VARINT_MAX: u64 = 0x3FFF_FFFF_FFFF_FFFF;

pub const ERROR_OK: u32 = 0x0000;

pub const ERROR_AUTH_FAILED: u32 = 0x0001;

pub const ERROR_NETWORK_UNREACHABLE: u32 = 0x0002;

pub const ERROR_HOST_UNREACHABLE: u32 = 0x0003;

pub const ERROR_CONNECTION_REFUSED: u32 = 0x0004;

pub const ERROR_TTL_EXPIRED: u32 = 0x0005;

pub const ERROR_COMMAND_NOT_SUPPORTED: u32 = 0x0006;

pub const ERROR_ADDR_NOT_SUPPORTED: u32 = 0x0007;

pub const ERROR_PROTOCOL_VIOLATION: u32 = 0x0008;

pub const ERROR_INTERNAL: u32 = 0x0009;

pub const FEATURE_UDP: u64 = 0x01;

pub const FEATURE_TCP_FAST_OPEN: u64 = 0x02;

pub const FEATURE_MULTIPATH: u64 = 0x04;

pub const FEATURE_ZSTD_COMPRESSION: u64 = 0x08;

pub const FEATURE_METRICS: u64 = 0x10;

/// A QUIC variable-length integer: 1, 2, 4 or 8 bytes, the length given by
/// the top two bits of the first byte.
#[derive(Clone, Copy, PartialEq, Eq, Hash, Debug)]
pub struct VarInt(u64);

/// The bytes `VarInt::encode_to` writes for `v`.
pub open spec fn varint_encoding(v: u64) -> Seq<u8> {
    if v < 64 {
        seq![v as u8]
    } else if v < 16384 {
        be_u16(((v as u16) & 0x3FFFu16) | 0x4000u16)
    } else if v < 1073741824 {
        be_u32(((v as u32) & 0x3FFF_FFFFu32) | 0x8000_0000u32)
    } else {
        be_u64((v & 0x3FFF_FFFF_FFFF_FFFFu64) | 0xC000_0000_0000_0000u64)
    }
}

/// The number of bytes the encoding of `v` takes: 1 below 2^6, 2 below
/// 2^14, 4 below 2^30, else 8.
pub open spec fn varint_len(v: u64) -> nat {
    if v < 64 {
        1
    } else if v < 16384 {
        2
    } else if v < 1073741824 {
        4
    } else {
        8
    }
}

/// The length of an encoding, read off its first byte.
pub open spec fn varint_size(first: u8) -> nat {
    let tag = (first >> 6u8) & 3u8;
    if tag == 0 {
        1
    } else if tag == 1 {
        2
    } else if tag == 2 {
        4
    } else {
        8
    }
}

/// The value of an encoding of `len` bytes at the front of `s`: all but the
/// two tag bits, big-endian.
pub open spec fn varint_value(s: Seq<u8>, len: nat) -> u64 {
    if len == 1 {
        (s[0] & 0x3Fu8) as u64
    } else if len == 2 {
        (((s[0] & 0x3Fu8) as u64) << 8u64) | (s[1] as u64)
    } else if len == 4 {
        (((s[0] & 0x3Fu8) as u64) << 24u64) | ((s[1] as u64) << 16u64) | ((s[2] as u64) << 8u64)
            | (s[3] as u64)
    } else {
        (((s[0] & 0x3Fu8) as u64) << 56u64) | ((s[1] as u64) << 48u64) | ((s[2] as u64) << 40u64)
            | ((s[3] as u64) << 32u64) | ((s[4] as u64) << 24u64) | ((s[5] as u64) << 16u64) | ((
        s[6] as u64) << 8u64) | (s[7] as u64)
    }
}

/// What `VarInt::decode` makes of a byte sequence: the value and the number
/// of bytes it takes, or `None` when the input is empty or too short.
pub open spec fn varint_decode(s: Seq<u8>) -> Option<(u64, nat)> {
    if s.len() == 0 {
        None
    } else {
        let len = varint_size(s[0]);
        if s.len() < len {
            None
        } else {
            Some((varint_value(s, len), len))
        }
    }
}

impl VarInt {
    pub const MAX: u64 = 0x3FFF_FFFF_FFFF_FFFF;

    #[verifier::type_invariant]
    spec fn in_range(self) -> bool {
        self.0 <= VARINT_MAX
    }

    /// The integer held.
    pub closed spec fn value(self) -> u64 {
        self.0
    }

    /// The number of bytes the encoding takes.
    pub open spec fn encoded_len_spec(self) -> nat {
        varint_len(self.value())
    }

    /// A `VarInt` for `v`, when `v` is at most `VarInt::MAX`.
    pub fn new(v: u64) -> (r: Option<Self>)
        ensures
            r matches Some(x) ==> x.value() == v,
            r is Some <==> v <= VARINT_MAX,
    {
        if v <= Self::MAX {
            Some(VarInt(v))
        } else {
            None
        }
    }

    pub fn inner(self) -> (r: u64)
        ensures
            r == self.value(),
            r <= VARINT_MAX,
    {
        proof {
            use_type_invariant(self);
        }
        self.0
    }

    /// Appends the encoding and returns its length.
    pub fn encode_to(self, buf: &mut BytesMut) -> (n: usize)
        requires
            bytes_mut_view(*old(buf)).len() + varint_encoding(self.value()).len() <= max_buf_len(),
        ensures
            bytes_mut_view(*final(buf)) == bytes_mut_view(*old(buf)) + varint_encoding(self.value()),
            n == varint_encoding(self.value()).len(),
            n == varint_len(self.value()),
    {
        let val = self.0;
        if val < 64 {
            put_u8(buf, val as u8);
            proof {
                assert(bytes_mut_view(*buf) =~= bytes_mut_view(*old(buf)) + varint_encoding(val));
            }
            1
        } else if val < 16384 {
            put_u16(buf, ((val as u16) & 0x3FFF) | 0x4000);
            2
        } else if val < 1073741824 {
            put_u32(buf, ((val as u32) & 0x3FFF_FFFF) | 0x8000_0000);
            4
        } else {
            put_u64(buf, (val & 0x3FFF_FFFF_FFFF_FFFF) | 0xC000_0000_0000_0000);
            8
        }
    }

    /// Reads a `VarInt` at the front of `buf`, with the number of bytes it takes.
    pub fn decode(buf: &[u8]) -> (r: Option<(Self, usize)>)
        ensures
            match varint_decode(buf@) {
                Some((v, n)) => r matches Some((x, m)) && x.value() == v && m == n,
                None => r is None,
            },
    {
        if buf.len() == 0 {
            return None;
        }
        let first = buf[0];
        let tag = (first >> 6) & 0x03;
        let len: usize = if tag == 0 {
            1
        } else if tag == 1 {
            2
        } else if tag == 2 {
            4
        } else {
            8
        };
        if buf.len() < len {
            return None;
        }
        let val: u64 = if len == 1 {
            (first & 0x3F) as u64
        } else if len == 2 {
            let b1 = buf[1];
            let v = ((first & 0x3F) as u64) << 8 | b1 as u64;
            assert(v == (((first & 0x3Fu8) as u64) << 8u64) | (b1 as u64));
            assert((((first & 0x3Fu8) as u64) << 8u64) | (b1 as u64) <= 0x3FFF_FFFF_FFFF_FFFFu64)
                by (bit_vector);
            v
        } else if len == 4 {
            let (b1, b2, b3) = (buf[1], buf[2], buf[3]);
            let v = ((first & 0x3F) as u64) << 24 | (b1 as u64) << 16 | (b2 as u64) << 8 | b3 as u64;
            assert((((first & 0x3Fu8) as u64) << 24u64) | ((b1 as u64) << 16u64) | ((b2 as u64) << 8u64)
                | (b3 as u64) <= 0x3FFF_FFFF_FFFF_FFFFu64) by (bit_vector);
            v
        } else {
            let (b1, b2, b3, b4, b5, b6, b7) = (buf[1], buf[2], buf[3], buf[4], buf[5], buf[6], buf[7]);
            let v = ((first & 0x3F) as u64) << 56 | (b1 as u64) << 48 | (b2 as u64) << 40 | (b3 as u64)
                << 32 | (b4 as u64) << 24 | (b5 as u64) << 16 | (b6 as u64) << 8 | b7 as u64;
            assert((((first & 0x3Fu8) as u64) << 56u64) | ((b1 as u64) << 48u64) | ((b2 as u64)
                << 40u64) | ((b3 as u64) << 32u64) | ((b4 as u64) << 24u64) | ((b5 as u64) << 16u64) | ((
            b6 as u64) << 8u64) | (b7 as u64) <= 0x3FFF_FFFF_FFFF_FFFFu64) by (bit_vector);
            v
        };
        assert((first & 0x3Fu8) as u64 <= 0x3FFF_FFFF_FFFF_FFFFu64) by (bit_vector);
        Some((VarInt(val), len))
    }

    /// The number of bytes `encode_to` writes.
    pub fn encoded_len(self) -> (n: usize)
        ensures
            n == varint_encoding(self.value()).len(),
            n == varint_len(self.value()),
    {
        let val = self.0;
        if val < 64 {
            1
        } else if val < 16384 {
            2
        } else if val < 1073741824 {
            4
        } else {
            8
        }
    }
}

/// Decoding an encoded value gives it back, with the length of its encoding.
pub proof fn lemma_varint_roundtrip(v: u64, rest: Seq<u8>)
    requires
        v <= VARINT_MAX,
    ensures
        varint_decode(varint_encoding(v) + rest) == Some((v, varint_encoding(v).len())),
{
    let e = varint_encoding(v);
    let s = e + rest;
    if v < 64 {
        assert(s[0] == v as u8);
        assert(v < 64 ==> ((v as u8) >> 6u8) & 3u8 == 0 && (((v as u8) & 0x3Fu8) as u64) == v)
            by (bit_vector);
    } else if v < 16384 {
        let w = ((v as u16) & 0x3FFFu16) | 0x4000u16;
        assert(s[0] == (w >> 8u16) as u8 && s[1] == w as u8);
        assert(64 <= v < 16384 ==> ((((((v as u16) & 0x3FFFu16) | 0x4000u16) >> 8u16) as u8) >> 6u8)
            & 3u8 == 1) by (bit_vector);
        assert(64 <= v < 16384 ==> ((((((((v as u16) & 0x3FFFu16) | 0x4000u16) >> 8u16) as u8)
            & 0x3Fu8) as u64) << 8u64) | (((((v as u16) & 0x3FFFu16) | 0x4000u16) as u8) as u64) == v)
            by (bit_vector);
    } else if v < 1073741824 {
        let w = ((v as u32) & 0x3FFF_FFFFu32) | 0x8000_0000u32;
        assert(s[0] == (w >> 24u32) as u8 && s[1] == (w >> 16u32) as u8 && s[2] == (w >> 8u32) as u8
            && s[3] == w as u8);
        assert(16384 <= v < 1073741824 ==> ((((((v as u32) & 0x3FFF_FFFFu32) | 0x8000_0000u32)
            >> 24u32) as u8) >> 6u8) & 3u8 == 2) by (bit_vector);
        assert(16384 <= v < 1073741824 ==> ((((((((v as u32) & 0x3FFF_FFFFu32) | 0x8000_0000u32)
            >> 24u32) as u8) & 0x3Fu8) as u64) << 24u64) | (((((((v as u32) & 0x3FFF_FFFFu32)
            | 0x8000_0000u32) >> 16u32) as u8) as u64) << 16u64) | (((((((v as u32) & 0x3FFF_FFFFu32)
            | 0x8000_0000u32) >> 8u32) as u8) as u64) << 8u64) | (((((v as u32) & 0x3FFF_FFFFu32)
            | 0x8000_0000u32) as u8) as u64) == v) by (bit_vector);
    } else {
        let w = (v & 0x3FFF_FFFF_FFFF_FFFFu64) | 0xC000_0000_0000_0000u64;
        assert(s[0] == (w >> 56u64) as u8 && s[1] == (w >> 48u64) as u8 && s[2] == (w >> 40u64) as u8
            && s[3] == (w >> 32u64) as u8 && s[4] == (w >> 24u64) as u8 && s[5] == (w >> 16u64) as u8
            && s[6] == (w >> 8u64) as u8 && s[7] == w as u8);
        assert(((((w >> 56u64) as u8) >> 6u8) & 3u8) == 3) by (bit_vector)
            requires
                w == (v & 0x3FFF_FFFF_FFFF_FFFFu64) | 0xC000_0000_0000_0000u64,
        ;
        assert(v <= 0x3FFF_FFFF_FFFF_FFFFu64 ==> (((((w >> 56u64) as u8) & 0x3Fu8) as u64) << 56u64)
            | ((((w >> 48u64) as u8) as u64) << 48u64) | ((((w >> 40u64) as u8) as u64) << 40u64) | ((((w
            >> 32u64) as u8) as u64) << 32u64) | ((((w >> 24u64) as u8) as u64) << 24u64) | ((((w
            >> 16u64) as u8) as u64) << 16u64) | ((((w >> 8u64) as u8) as u64) << 8u64) | ((w as u8)
            as u64) == v) by (bit_vector)
            requires
                w == (v & 0x3FFF_FFFF_FFFF_FFFFu64) | 0xC000_0000_0000_0000u64,
        ;
    }
}


// ---------------------------------------------------------------------------
// Frame types and the frame header
// ---------------------------------------------------------------------------

/// The kind of a frame.
#[derive(Clone, Copy, PartialEq, Eq, Structural, Debug)]
pub enum FrameType {
    ClientHello,
    ServerHello,
    Ping,
    Pong,
    Error,
    Connect,
    ConnectAck,
    Data,
    Fin,
    Reset,
    UdpAssociate,
    UdpData,
}

/// The number each frame type is sent as.
pub open spec fn frame_type_code(t: FrameType) -> u64 {
    match t {
        FrameType::ClientHello => 0x00,
        FrameType::ServerHello => 0x01,
        FrameType::Ping => 0x02,
        FrameType::Pong => 0x03,
        FrameType::Error => 0x04,
        FrameType::Connect => 0x10,
        FrameType::ConnectAck => 0x11,
        FrameType::Data => 0x12,
        FrameType::Fin => 0x13,
        FrameType::Reset => 0x14,
        FrameType::UdpAssociate => 0x20,
        FrameType::UdpData => 0x21,
    }
}

/// The frame type a number stands for, if any.
pub open spec fn frame_type_of_code(v: u64) -> Option<FrameType> {
    if v == 0x00 {
        Some(FrameType::ClientHello)
    } else if v == 0x01 {
        Some(FrameType::ServerHello)
    } else if v == 0x02 {
        Some(FrameType::Ping)
    } else if v == 0x03 {
        Some(FrameType::Pong)
    } else if v == 0x04 {
        Some(FrameType::Error)
    } else if v == 0x10 {
        Some(FrameType::Connect)
    } else if v == 0x11 {
        Some(FrameType::ConnectAck)
    } else if v == 0x12 {
        Some(FrameType::Data)
    } else if v == 0x13 {
        Some(FrameType::Fin)
    } else if v == 0x14 {
        Some(FrameType::Reset)
    } else if v == 0x20 {
        Some(FrameType::UdpAssociate)
    } else if v == 0x21 {
        Some(FrameType::UdpData)
    } else {
        None
    }
}

impl FrameType {
    /// The number this frame type is sent as.
    pub fn code(self) -> (c: u64)
        ensures
            c == frame_type_code(self),
    {
        match self {
            FrameType::ClientHello => 0x00,
            FrameType::ServerHello => 0x01,
            FrameType::Ping => 0x02,
            FrameType::Pong => 0x03,
            FrameType::Error => 0x04,
            FrameType::Connect => 0x10,
            FrameType::ConnectAck => 0x11,
            FrameType::Data => 0x12,
            FrameType::Fin => 0x13,
            FrameType::Reset => 0x14,
            FrameType::UdpAssociate => 0x20,
            FrameType::UdpData => 0x21,
        }
    }
}

pub proof fn lemma_frame_type_code(t: FrameType)
    ensures
        frame_type_of_code(frame_type_code(t)) == Some(t),
        frame_type_code(t) <= 0x21,
{
}

/// The header in front of every frame.
#[derive(Debug, Clone)]
pub struct FrameHeader {
    /// Protocol version (1 today); two bits on the wire.
    pub version: u8,
    pub frame_type: FrameType,
    pub flags: u8,
    pub stream_id: u32,
    /// Length of the payload that follows.
    pub length: VarInt,
}

/// A frame header as a value.
pub struct SpecFrameHeader {
    pub version: u8,
    pub frame_type: FrameType,
    pub flags: u8,
    pub stream_id: u32,
    pub length: u64,
}

impl WireModel for FrameHeader {
    type Model = SpecFrameHeader;

    open spec fn model(&self) -> SpecFrameHeader {
        SpecFrameHeader {
            version: self.version,
            frame_type: self.frame_type,
            flags: self.flags,
            stream_id: self.stream_id,
            length: self.length.value(),
        }
    }
}

/// The bytes of a frame header: the version in the top two bits of the first
/// byte (whose low six bits carry the top of the type number, always zero),
/// the type number's low 56 bits as a big-endian `u64`, the flags, the stream
/// id, and the payload length as a `VarInt`.
pub open spec fn frame_header_encoding(h: SpecFrameHeader) -> Seq<u8> {
    seq![h.version << 6u8] + be_u64(frame_type_code(h.frame_type)) + seq![h.flags] + be_u32(
        h.stream_id,
    ) + varint_encoding(h.length)
}

/// What `FrameHeader::decode_sync` makes of a byte sequence. Fewer than 15
/// bytes are refused untouched; an unknown type is refused after 9 bytes,
/// a missing length after 14.
pub open spec fn frame_header_parse(s: Seq<u8>) -> Parsed<SpecFrameHeader> {
    if s.len() < 15 {
        Parsed::Reject(s)
    } else {
        let version_type = s[0];
        let type_high = (version_type & 0x3Fu8) as u64;
        let type_val = (type_high << 56u64) | u64_of_be(s.skip(1));
        match frame_type_of_code(type_val) {
            None => Parsed::Reject(s.skip(9)),
            Some(frame_type) => {
                let t = s.skip(14);
                match varint_decode(t) {
                    None => Parsed::Reject(t),
                    Some((length, n)) => Parsed::Done(
                        SpecFrameHeader {
                            version: (version_type >> 6u8) & 3u8,
                            frame_type,
                            flags: s[9],
                            stream_id: u32_of_be(s.skip(10)),
                            length,
                        },
                        t.skip(n as int),
                    ),
                }
            },
        }
    }
}

impl FrameHeader {
    /// The number of bytes the encoded header takes.
    pub fn encoded_len(&self) -> (n: usize)
        ensures
            n == frame_header_encoding(self.model()).len(),
            n == 14 + self.length.encoded_len_spec(),
    {
        1 + 8 + 1 + 4 + self.length.encoded_len()
    }
}

impl SEncodeSync for FrameHeader {
    open spec fn spec_encodable(m: SpecFrameHeader) -> bool {
        true
    }

    open spec fn spec_encoding(m: SpecFrameHeader) -> Seq<u8> {
        frame_header_encoding(m)
    }

    fn encode_sync(&self, buf: &mut BytesMut) {
        encode_frame_header(self, buf)
    }
}

/// Appends the encoding of `x`.
pub fn encode_frame_header(x: &FrameHeader, buf: &mut BytesMut)
    requires
        <FrameHeader as SEncodeSync>::spec_encodable(x.model()),
        bytes_mut_view(*old(buf)).len() + <FrameHeader as SEncodeSync>::spec_encoding(x.model()).len()
            <= max_buf_len(),
    ensures
        bytes_mut_view(*final(buf)) == bytes_mut_view(*old(buf)) + <FrameHeader as SEncodeSync>::spec_encoding(
            x.model(),
        ),
{
    let code = x.frame_type.code();
    proof {
        lemma_frame_type_code(x.frame_type);
        assert(code <= 0x21 ==> (((code >> 56u64) as u8) & 0x3Fu8) == 0 && (code
            & 0x00FF_FFFF_FFFF_FFFFu64) == code) by (bit_vector);
        assert(x.version << 6u8 | 0u8 == x.version << 6u8) by (bit_vector);
    }
    let version_type = (x.version << 6) | ((code >> 56) as u8 & 0x3F);
    put_u8(buf, version_type);
    put_u64(buf, code & 0x00FF_FFFF_FFFF_FFFF);
    put_u8(buf, x.flags);
    put_u32(buf, x.stream_id);
    x.length.encode_to(buf);
    proof {
        assert(bytes_mut_view(*buf) =~= bytes_mut_view(*old(buf)) + frame_header_encoding(
            x.model(),
        ));
    }
}

impl SDecodeSync for FrameHeader {
    open spec fn spec_parse(s: Seq<u8>) -> Parsed<SpecFrameHeader> {
        frame_header_parse(s)
    }

    fn try_decode_sync(buf: &mut Bytes) -> (r: Decoded<FrameHeader>) {
        decode_frame_header(buf)
    }
}

/// Reads a value off the front of `buf`.
pub fn decode_frame_header(buf: &mut Bytes) -> (r: Decoded<FrameHeader>)
    ensures
        decoded_agrees(r, <FrameHeader as SDecodeSync>::spec_parse(bytes_view(*old(buf))), bytes_view(*final(buf))),
{
    let ghost s = bytes_view(*buf);
    if bytes_len(buf) < 15 {
        return Decoded::Invalid;
    }
    let version_type = get_u8(buf);
    let version = (version_type >> 6) & 0x03;
    let type_high = (version_type & 0x3F) as u64;
    let type_low = get_u64(buf);
    let frame_type_val = (type_high << 56) | type_low;
    proof {
        assert(s.skip(1).skip(8) =~= s.skip(9));
    }
    let frame_type = if frame_type_val == 0x00 {
        FrameType::ClientHello
    } else if frame_type_val == 0x01 {
        FrameType::ServerHello
    } else if frame_type_val == 0x02 {
        FrameType::Ping
    } else if frame_type_val == 0x03 {
        FrameType::Pong
    } else if frame_type_val == 0x04 {
        FrameType::Error
    } else if frame_type_val == 0x10 {
        FrameType::Connect
    } else if frame_type_val == 0x11 {
        FrameType::ConnectAck
    } else if frame_type_val == 0x12 {
        FrameType::Data
    } else if frame_type_val == 0x13 {
        FrameType::Fin
    } else if frame_type_val == 0x14 {
        FrameType::Reset
    } else if frame_type_val == 0x20 {
        FrameType::UdpAssociate
    } else if frame_type_val == 0x21 {
        FrameType::UdpData
    } else {
        return Decoded::Invalid;
    };
    let flags = get_u8(buf);
    let stream_id = get_u32(buf);
    proof {
        assert(s.skip(9).skip(1) =~= s.skip(10));
        assert(s.skip(10).skip(4) =~= s.skip(14));
    }
    let (length, len_size) = match VarInt::decode(chunk(buf)) {
        Some(x) => x,
        None => return Decoded::Invalid,
    };
    advance(buf, len_size);
    Decoded::Value(FrameHeader { version, frame_type, flags, stream_id, length })
}

/// Decoding an encoded header, whatever its version, consumes exactly its
/// encoding and gives it back with the version cut to its low two bits,
/// which are all the wire carries.
pub proof fn lemma_frame_header_consumed(h: SpecFrameHeader, rest: Seq<u8>)
    requires
        h.length <= VARINT_MAX,
    ensures
        frame_header_parse(frame_header_encoding(h) + rest) == Parsed::Done(
            SpecFrameHeader { version: h.version & 3u8, ..h },
            rest,
        ),
{
    let code = frame_type_code(h.frame_type);
    lemma_frame_type_code(h.frame_type);
    let e = frame_header_encoding(h);
    let s = e + rest;
    let v = h.version;
    lemma_be_u64_roundtrip(code, s.skip(9));
    lemma_be_u32_roundtrip(h.stream_id, s.skip(14));
    assert(s.skip(1) =~= be_u64(code) + s.skip(9));
    assert(s.skip(10) =~= be_u32(h.stream_id) + s.skip(14));
    assert(s.skip(14) =~= varint_encoding(h.length) + rest);
    lemma_varint_roundtrip(h.length, rest);
    assert(s.skip(14).skip(varint_encoding(h.length).len() as int) =~= rest);
    assert(s[0] == v << 6u8);
    assert(((v << 6u8) >> 6u8) & 3u8 == v & 3u8) by (bit_vector);
    assert((((v << 6u8) & 0x3Fu8) as u64) == 0) by (bit_vector);
    assert(((0u64 << 56u64) | code) == code) by (bit_vector);
    assert(s[9] == h.flags);
}

/// Decoding an encoded header gives it back, for versions that fit in two bits.
pub proof fn lemma_frame_header_roundtrip(h: SpecFrameHeader, rest: Seq<u8>)
    requires
        h.version < 4,
        h.length <= VARINT_MAX,
    ensures
        frame_header_parse(frame_header_encoding(h) + rest) == Parsed::Done(h, rest),
{
    lemma_frame_header_consumed(h, rest);
    let v = h.version;
    assert(v < 4 ==> v & 3u8 == v) by (bit_vector);
}


// ---------------------------------------------------------------------------
// Extensions
// ---------------------------------------------------------------------------

/// A typed extension field: a `VarInt` type, then a length-prefixed value.
#[derive(Debug, Clone)]
pub struct Extension {
    pub typ: VarInt,
    pub value: Bytes,
}

pub struct SpecExtension {
    pub typ: u64,
    pub value: Seq<u8>,
}

impl WireModel for Extension {
    type Model = SpecExtension;

    open spec fn model(&self) -> SpecExtension {
        SpecExtension { typ: self.typ.value(), value: bytes_view(self.value) }
    }
}

/// A decoded length as the `usize` the decoders convert it to (`as usize`).
pub open spec fn len_as_usize(v: u64) -> nat {
    (v as usize) as nat
}

/// An extension's value must be short enough for its length to be a `VarInt`.
pub open spec fn extension_encodable(e: SpecExtension) -> bool {
    e.value.len() <= VARINT_MAX
}

pub open spec fn extension_encoding(e: SpecExtension) -> Seq<u8> {
    varint_encoding(e.typ) + varint_encoding(e.value.len() as u64) + e.value
}

/// What `Extension::decode_sync` makes of a byte sequence.
pub open spec fn extension_parse(s: Seq<u8>) -> Parsed<SpecExtension> {
    match varint_decode(s) {
        None => Parsed::Reject(s),
        Some((typ, n1)) => {
            let t = s.skip(n1 as int);
            match varint_decode(t) {
                None => Parsed::Reject(t),
                Some((len, n2)) => {
                    let u = t.skip(n2 as int);
                    let len = len_as_usize(len);
                    if u.len() < len {
                        Parsed::Reject(u)
                    } else {
                        Parsed::Done(
                            SpecExtension { typ, value: u.take(len as int) },
                            u.skip(len as int),
                        )
                    }
                },
            }
        },
    }
}

impl SEncodeSync for Extension {
    open spec fn spec_encodable(m: SpecExtension) -> bool {
        extension_encodable(m)
    }

    open spec fn spec_encoding(m: SpecExtension) -> Seq<u8> {
        extension_encoding(m)
    }

    fn encode_sync(&self, buf: &mut BytesMut) {
        encode_extension(self, buf)
    }
}

/// Appends the encoding of `x`.
pub fn encode_extension(x: &Extension, buf: &mut BytesMut)
    requires
        <Extension as SEncodeSync>::spec_encodable(x.model()),
        bytes_mut_view(*old(buf)).len() + <Extension as SEncodeSync>::spec_encoding(x.model()).len()
            <= max_buf_len(),
    ensures
        bytes_mut_view(*final(buf)) == bytes_mut_view(*old(buf)) + <Extension as SEncodeSync>::spec_encoding(
            x.model(),
        ),
{
    x.typ.encode_to(buf);
    let value_len = VarInt::new(bytes_len(&x.value) as u64).unwrap();
    value_len.encode_to(buf);
    extend_from_slice(buf, bytes_as_slice(&x.value));
    proof {
        assert(bytes_mut_view(*buf) =~= bytes_mut_view(*old(buf)) + extension_encoding(
            x.model(),
        ));
    }
}

impl SDecodeSync for Extension {
    open spec fn spec_parse(s: Seq<u8>) -> Parsed<SpecExtension> {
        extension_parse(s)
    }

    fn try_decode_sync(buf: &mut Bytes) -> (r: Decoded<Extension>) {
        decode_extension(buf)
    }
}

/// Reads a value off the front of `buf`.
pub fn decode_extension(buf: &mut Bytes) -> (r: Decoded<Extension>)
    ensures
        decoded_agrees(r, <Extension as SDecodeSync>::spec_parse(bytes_view(*old(buf))), bytes_view(*final(buf))),
{
    let (typ, typ_size) = match VarInt::decode(chunk(buf)) {
        Some(x) => x,
        None => return Decoded::Invalid,
    };
    advance(buf, typ_size);
    let (value_len, len_size) = match VarInt::decode(chunk(buf)) {
        Some(x) => x,
        None => return Decoded::Invalid,
    };
    advance(buf, len_size);
    let value_len = value_len.inner() as usize;
    if bytes_len(buf) < value_len {
        return Decoded::Invalid;
    }
    let value = copy_to_bytes(buf, value_len);
    Decoded::Value(Extension { typ, value })
}

pub proof fn lemma_extension_roundtrip(e: SpecExtension, rest: Seq<u8>)
    requires
        e.typ <= VARINT_MAX,
        extension_encodable(e),
        e.value.len() <= usize::MAX,
    ensures
        extension_parse(extension_encoding(e) + rest) == Parsed::Done(e, rest),
{
    let n = e.value.len() as u64;
    let s = extension_encoding(e) + rest;
    let t = varint_encoding(n) + e.value + rest;
    assert(s =~= varint_encoding(e.typ) + t);
    lemma_varint_roundtrip(e.typ, t);
    assert(s.skip(varint_encoding(e.typ).len() as int) =~= t);
    lemma_varint_roundtrip(n, e.value + rest);
    assert(t.skip(varint_encoding(n).len() as int) =~= e.value + rest);
    assert((e.value + rest).take(n as int) =~= e.value);
    assert((e.value + rest).skip(n as int) =~= rest);
}

/// The bytes of a list of extensions, one after the other.
pub open spec fn extensions_body(es: Seq<SpecExtension>) -> Seq<u8>
    decreases es.len(),
{
    if es.len() == 0 {
        Seq::empty()
    } else {
        extensions_body(es.drop_last()) + extension_encoding(es.last())
    }
}

/// The bytes of an extension list: the count as a `VarInt`, then each extension.
pub open spec fn extensions_encoding(es: Seq<SpecExtension>) -> Seq<u8> {
    varint_encoding(es.len() as u64) + extensions_body(es)
}

/// Reads `n` more extensions after those in `acc`.
pub open spec fn extensions_parse_from(n: nat, acc: Seq<SpecExtension>, s: Seq<u8>) -> Parsed<
    Seq<SpecExtension>,
>
    decreases n,
{
    if n == 0 {
        Parsed::Done(acc, s)
    } else {
        match extension_parse(s) {
            Parsed::Done(e, r) => extensions_parse_from((n - 1) as nat, acc.push(e), r),
            Parsed::Reject(r) => Parsed::Reject(r),
            Parsed::Short => Parsed::Short,
        }
    }
}

/// What decoding an extension list makes of a byte sequence.
pub open spec fn extensions_parse(s: Seq<u8>) -> Parsed<Seq<SpecExtension>> {
    match varint_decode(s) {
        None => Parsed::Reject(s),
        Some((n, k)) => extensions_parse_from(n as nat, Seq::empty(), s.skip(k as int)),
    }
}

impl WireModel for Vec<Extension> {
    type Model = Seq<SpecExtension>;

    open spec fn model(&self) -> Seq<SpecExtension> {
        Seq::new(self@.len(), |i: int| self@[i].model())
    }
}

impl SEncodeSync for Vec<Extension> {
    open spec fn spec_encodable(m: Seq<SpecExtension>) -> bool {
        &&& m.len() <= VARINT_MAX
        &&& forall|i: int| 0 <= i < m.len() ==> extension_encodable(#[trigger] m[i])
    }

    open spec fn spec_encoding(m: Seq<SpecExtension>) -> Seq<u8> {
        extensions_encoding(m)
    }

    fn encode_sync(&self, buf: &mut BytesMut) {
        encode_extensions(self, buf)
    }
}

/// Appends the encoding of `x`.
pub fn encode_extensions(x: &Vec<Extension>, buf: &mut BytesMut)
    requires
        <Vec<Extension> as SEncodeSync>::spec_encodable(x.model()),
        bytes_mut_view(*old(buf)).len() + <Vec<Extension> as SEncodeSync>::spec_encoding(x.model()).len()
            <= max_buf_len(),
    ensures
        bytes_mut_view(*final(buf)) == bytes_mut_view(*old(buf)) + <Vec<Extension> as SEncodeSync>::spec_encoding(
            x.model(),
        ),
{
    let ghost m = x.model();
    let len = VarInt::new(x.len() as u64).unwrap();
    len.encode_to(buf);
    let ghost start = bytes_mut_view(*buf);
    let mut i: usize = 0;
    while i < x.len()
        invariant
            i <= x.len(),
            m == x.model(),
            <Vec<Extension> as SEncodeSync>::spec_encodable(m),
            bytes_mut_view(*old(buf)).len() + extensions_encoding(m).len() <= max_buf_len(),
            start == bytes_mut_view(*old(buf)) + varint_encoding(m.len() as u64),
            bytes_mut_view(*buf) == start + extensions_body(m.take(i as int)),
        decreases x.len() - i,
    {
        proof {
            lemma_extensions_body_prefix(m, i as int + 1);
            assert(m.take(i as int + 1).drop_last() =~= m.take(i as int));
            assert(m.take(i as int + 1).last() == m[i as int]);
        }
        encode_extension(&x[i], buf);
        i = i + 1;
    }
    proof {
        assert(m.take(m.len() as int) =~= m);
        assert(bytes_mut_view(*buf) =~= bytes_mut_view(*old(buf)) + extensions_encoding(m));
    }
}

/// The bytes of a prefix of a list are a prefix of the list's bytes.
pub proof fn lemma_extensions_body_prefix(es: Seq<SpecExtension>, k: int)
    requires
        0 <= k <= es.len(),
    ensures
        extensions_body(es.take(k)).len() <= extensions_body(es).len(),
    decreases es.len(),
{
    if k < es.len() {
        assert(es.drop_last().take(k) =~= es.take(k));
        lemma_extensions_body_prefix(es.drop_last(), k);
    } else {
        assert(es.take(k) =~= es);
    }
}

impl SDecodeSync for Vec<Extension> {
    open spec fn spec_parse(s: Seq<u8>) -> Parsed<Seq<SpecExtension>> {
        extensions_parse(s)
    }

    fn try_decode_sync(buf: &mut Bytes) -> (r: Decoded<Vec<Extension>>) {
        decode_extensions(buf)
    }
}

/// Reads a value off the front of `buf`.
pub fn decode_extensions(buf: &mut Bytes) -> (r: Decoded<Vec<Extension>>)
    ensures
        decoded_agrees(r, <Vec<Extension> as SDecodeSync>::spec_parse(bytes_view(*old(buf))), bytes_view(*final(buf))),
{
    let (len, len_size) = match VarInt::decode(chunk(buf)) {
        Some(x) => x,
        None => return Decoded::Invalid,
    };
    advance(buf, len_size);
    let len = len.inner();
    let ghost s0 = bytes_view(*buf);
    assert(extensions_parse(bytes_view(*old(buf))) == extensions_parse_from(
        len as nat,
        Seq::empty(),
        s0,
    ));
    let mut exts: Vec<Extension> = Vec::new();
    proof {
        assert(exts.model() =~= Seq::<SpecExtension>::empty());
    }
    let mut i: u64 = 0;
    while i < len
        invariant
            i <= len,
            extensions_parse_from((len - i) as nat, exts.model(), bytes_view(*buf))
                == extensions_parse_from(len as nat, Seq::empty(), s0),
            extensions_parse(bytes_view(*old(buf))) == extensions_parse_from(
                len as nat,
                Seq::empty(),
                s0,
            ),
        decreases len - i,
    {
        let ghost before = bytes_view(*buf);
        match decode_extension(buf) {
            Decoded::Value(ext) => {
                let ghost m0 = exts.model();
                exts.push(ext);
                proof {
                    assert(exts.model() =~= m0.push(ext.model()));
                }
            },
            Decoded::Invalid => {
                proof {
                    assert(extension_parse(before) == Parsed::<SpecExtension>::Reject(
                        bytes_view(*buf),
                    ));
                    assert(extensions_parse_from((len - i) as nat, exts.model(), before)
                        == Parsed::<Seq<SpecExtension>>::Reject(bytes_view(*buf)));
                }
                return Decoded::Invalid;
            },
            Decoded::Short => return Decoded::Short,
        }
        i = i + 1;
    }
    Decoded::Value(exts)
}

/// Every extension of the list can be encoded, and decodes to itself.
pub open spec fn extensions_wf(es: Seq<SpecExtension>) -> bool {
    forall|i: int|
        0 <= i < es.len() ==> {
            &&& extension_encodable(#[trigger] es[i])
            &&& es[i].typ <= VARINT_MAX
            &&& es[i].value.len() <= usize::MAX
        }
}

/// Decoding the bytes of `acc`'s continuation `es` appends `es` to `acc`.
#[verifier::spinoff_prover]
#[verifier::rlimit(60)]
pub proof fn lemma_extensions_parse_from(es: Seq<SpecExtension>, acc: Seq<SpecExtension>, rest: Seq<u8>)
    requires
        extensions_wf(es),
    ensures
        extensions_parse_from(es.len(), acc, extensions_body(es) + rest) == Parsed::Done(acc + es, rest),
    decreases es.len(),
{
    if es.len() == 0 {
        assert(extensions_body(es) + rest =~= rest);
        assert(acc + es =~= acc);
    } else {
        let e = es[0];
        let tail = es.skip(1);
        let tail_bytes = extensions_body(tail) + rest;
        lemma_extensions_body_front(es);
        assert(extensions_body(es) + rest =~= extension_encoding(e) + tail_bytes);
        assert(extension_encodable(e) && e.typ <= VARINT_MAX && e.value.len() <= usize::MAX);
        lemma_extension_roundtrip(e, tail_bytes);
        assert(extensions_wf(tail)) by {
            assert forall|i: int| 0 <= i < tail.len() implies {
                &&& extension_encodable(#[trigger] tail[i])
                &&& tail[i].typ <= VARINT_MAX
                &&& tail[i].value.len() <= usize::MAX
            } by {
                assert(tail[i] == es[i + 1]);
            }
        }
        lemma_extensions_parse_from(tail, acc.push(e), rest);
        assert(extensions_parse_from(es.len(), acc, extension_encoding(e) + tail_bytes)
            == extensions_parse_from(tail.len(), acc.push(e), tail_bytes));
        assert(acc.push(e) + tail =~= acc + es);
    }
}

/// The bytes of a non-empty list start with those of its first extension.
pub proof fn lemma_extensions_body_front(es: Seq<SpecExtension>)
    requires
        es.len() > 0,
    ensures
        extensions_body(es) == extension_encoding(es[0]) + extensions_body(es.skip(1)),
    decreases es.len(),
{
    if es.len() == 1 {
        assert(es.drop_last() =~= Seq::<SpecExtension>::empty());
        assert(es.skip(1) =~= Seq::<SpecExtension>::empty());
        assert(extensions_body(es.skip(1)) =~= Seq::<u8>::empty());
        assert(extensions_body(es) =~= extension_encoding(es[0]));
    } else {
        let d = es.drop_last();
        lemma_extensions_body_front(d);
        assert(d.skip(1) =~= es.skip(1).drop_last());
        assert(es.skip(1).last() == es.last());
        assert(extensions_body(es.skip(1)) == extensions_body(es.skip(1).drop_last())
            + extension_encoding(es.skip(1).last()));
        assert(extensions_body(es) =~= extension_encoding(es[0]) + extensions_body(es.skip(1)));
    }
}

/// Decoding an encoded extension list gives it back.
pub proof fn lemma_extensions_roundtrip(es: Seq<SpecExtension>, rest: Seq<u8>)
    requires
        es.len() <= VARINT_MAX,
        extensions_wf(es),
    ensures
        extensions_parse(extensions_encoding(es) + rest) == Parsed::Done(es, rest),
{
    let body = extensions_body(es) + rest;
    let s = extensions_encoding(es) + rest;
    assert(s =~= varint_encoding(es.len() as u64) + body);
    lemma_varint_roundtrip(es.len() as u64, body);
    assert(s.skip(varint_encoding(es.len() as u64).len() as int) =~= body);
    lemma_extensions_parse_from(es, Seq::empty(), rest);
    assert(Seq::<SpecExtension>::empty() + es =~= es);
}


// ---------------------------------------------------------------------------
// Pieces shared by the payloads
// ---------------------------------------------------------------------------

/// A byte string behind its length as a `VarInt`.
pub open spec fn blob_encoding(b: Seq<u8>) -> Seq<u8> {
    varint_encoding(b.len() as u64) + b
}

/// What reading a `VarInt` length and that many bytes makes of a byte sequence.
pub open spec fn blob_parse(s: Seq<u8>) -> Parsed<Seq<u8>> {
    match varint_decode(s) {
        None => Parsed::Reject(s),
        Some((len, k)) => {
            let t = s.skip(k as int);
            let n = len_as_usize(len);
            if t.len() < n {
                Parsed::Reject(t)
            } else {
                Parsed::Done(t.take(n as int), t.skip(n as int))
            }
        },
    }
}

pub proof fn lemma_blob_roundtrip(b: Seq<u8>, rest: Seq<u8>)
    requires
        b.len() <= VARINT_MAX,
        b.len() <= usize::MAX,
    ensures
        blob_parse(blob_encoding(b) + rest) == Parsed::Done(b, rest),
{
    let s = blob_encoding(b) + rest;
    assert(s =~= varint_encoding(b.len() as u64) + (b + rest));
    lemma_varint_roundtrip(b.len() as u64, b + rest);
    assert(s.skip(varint_encoding(b.len() as u64).len() as int) =~= b + rest);
    assert((b + rest).take(b.len() as int) =~= b);
    assert((b + rest).skip(b.len() as int) =~= rest);
}

/// Appends `b` behind its length.
fn encode_blob(b: &Bytes, buf: &mut BytesMut)
    requires
        bytes_view(*b).len() <= VARINT_MAX,
        bytes_mut_view(*old(buf)).len() + blob_encoding(bytes_view(*b)).len() <= max_buf_len(),
    ensures
        bytes_mut_view(*final(buf)) == bytes_mut_view(*old(buf)) + blob_encoding(bytes_view(*b)),
{
    let len = VarInt::new(bytes_len(b) as u64).unwrap();
    len.encode_to(buf);
    extend_from_slice(buf, bytes_as_slice(b));
    proof {
        assert(bytes_mut_view(*buf) =~= bytes_mut_view(*old(buf)) + blob_encoding(bytes_view(*b)));
    }
}

/// Reads a length and that many bytes.
fn decode_blob(buf: &mut Bytes) -> (r: Decoded<Bytes>)
    ensures
        decoded_agrees(r, blob_parse(bytes_view(*old(buf))), bytes_view(*final(buf))),
{
    let (len, len_size) = match VarInt::decode(chunk(buf)) {
        Some(x) => x,
        None => return Decoded::Invalid,
    };
    advance(buf, len_size);
    let len = len.inner() as usize;
    if bytes_len(buf) < len {
        return Decoded::Invalid;
    }
    Decoded::Value(copy_to_bytes(buf, len))
}

impl WireModel for Option<SocksAddr> {
    type Model = Option<SpecSocksAddr>;

    open spec fn model(&self) -> Option<SpecSocksAddr> {
        match self {
            Some(a) => Some(a.model()),
            None => None,
        }
    }
}

/// A flag byte (1 for present, 0 for absent), then the address if present.
pub open spec fn opt_addr_encoding(o: Option<SpecSocksAddr>) -> Seq<u8> {
    match o {
        Some(a) => seq![1u8] + socks_addr_encoding(a),
        None => seq![0u8],
    }
}

/// What reading an optional address makes of a byte sequence: an empty input
/// is refused untouched; a flag other than 1 means no address.
pub open spec fn opt_addr_parse(s: Seq<u8>) -> Parsed<Option<SpecSocksAddr>> {
    if s.len() < 1 {
        Parsed::Reject(s)
    } else if s[0] == 1 {
        match socks_addr_parse(s.skip(1)) {
            Parsed::Done(a, r) => Parsed::Done(Some(a), r),
            Parsed::Reject(r) => Parsed::Reject(r),
            Parsed::Short => Parsed::Short,
        }
    } else {
        Parsed::Done(None, s.skip(1))
    }
}

pub open spec fn opt_addr_encodable(o: Option<SpecSocksAddr>) -> bool {
    match o {
        Some(a) => socks_addr_encodable(a),
        None => true,
    }
}

pub open spec fn opt_addr_wf(o: Option<SpecSocksAddr>) -> bool {
    match o {
        Some(a) => socks_addr_wf(a),
        None => true,
    }
}

pub proof fn lemma_opt_addr_roundtrip(o: Option<SpecSocksAddr>, rest: Seq<u8>)
    requires
        opt_addr_wf(o),
    ensures
        opt_addr_parse(opt_addr_encoding(o) + rest) == Parsed::Done(o, rest),
{
    let s = opt_addr_encoding(o) + rest;
    match o {
        Some(a) => {
            assert(s.skip(1) =~= socks_addr_encoding(a) + rest);
            lemma_socks_addr_roundtrip(a, rest);
        },
        None => {
            assert(s.skip(1) =~= rest);
        },
    }
}

fn encode_opt_addr(o: &Option<SocksAddr>, buf: &mut BytesMut)
    requires
        opt_addr_encodable(o.model()),
        bytes_mut_view(*old(buf)).len() + opt_addr_encoding(o.model()).len() <= max_buf_len(),
    ensures
        bytes_mut_view(*final(buf)) == bytes_mut_view(*old(buf)) + opt_addr_encoding(o.model()),
{
    match o {
        Some(dst) => {
            put_u8(buf, 1);
            encode_socks_addr(dst, buf);
        },
        None => {
            put_u8(buf, 0);
        },
    }
    proof {
        assert(bytes_mut_view(*buf) =~= bytes_mut_view(*old(buf)) + opt_addr_encoding(o.model()));
    }
}

fn decode_opt_addr(buf: &mut Bytes) -> (r: Decoded<Option<SocksAddr>>)
    ensures
        decoded_agrees(r, opt_addr_parse(bytes_view(*old(buf))), bytes_view(*final(buf))),
{
    if bytes_len(buf) < 1 {
        return Decoded::Invalid;
    }
    let has_dst = get_u8(buf);
    if has_dst == 1 {
        match decode_socks_addr(buf) {
            Decoded::Value(a) => Decoded::Value(Some(a)),
            Decoded::Invalid => Decoded::Invalid,
            Decoded::Short => Decoded::Short,
        }
    } else {
        Decoded::Value(None)
    }
}

/// An extension list that can be encoded and decodes to itself.
pub open spec fn extensions_sendable(es: Seq<SpecExtension>) -> bool {
    es.len() <= VARINT_MAX && extensions_wf(es)
}

// ---------------------------------------------------------------------------
// Payloads
// ---------------------------------------------------------------------------

/// The client's handshake: version, feature bits, a 64-byte token, extensions.
#[derive(Debug, Clone)]
pub struct ClientHello {
    pub version: u8,
    pub supported_features: u64,
    pub auth_token: [u8; 64],
    pub extensions: Vec<Extension>,
}

pub struct SpecClientHello {
    pub version: u8,
    pub supported_features: u64,
    pub auth_token: Seq<u8>,
    pub extensions: Seq<SpecExtension>,
}

impl WireModel for ClientHello {
    type Model = SpecClientHello;

    open spec fn model(&self) -> SpecClientHello {
        SpecClientHello {
            version: self.version,
            supported_features: self.supported_features,
            auth_token: self.auth_token@,
            extensions: self.extensions.model(),
        }
    }
}

pub open spec fn client_hello_encoding(m: SpecClientHello) -> Seq<u8> {
    seq![m.version] + be_u64(m.supported_features) + m.auth_token + extensions_encoding(m.extensions)
}

/// Fewer than 73 bytes are refused untouched.
pub open spec fn client_hello_parse(s: Seq<u8>) -> Parsed<SpecClientHello> {
    if s.len() < 73 {
        Parsed::Reject(s)
    } else {
        match extensions_parse(s.skip(73)) {
            Parsed::Done(extensions, r) => Parsed::Done(
                SpecClientHello {
                    version: s[0],
                    supported_features: u64_of_be(s.skip(1)),
                    auth_token: s.skip(9).take(64),
                    extensions,
                },
                r,
            ),
            Parsed::Reject(r) => Parsed::Reject(r),
            Parsed::Short => Parsed::Short,
        }
    }
}

impl SEncodeSync for ClientHello {
    open spec fn spec_encodable(m: SpecClientHello) -> bool {
        <Vec<Extension> as SEncodeSync>::spec_encodable(m.extensions)
    }

    open spec fn spec_encoding(m: SpecClientHello) -> Seq<u8> {
        client_hello_encoding(m)
    }

    fn encode_sync(&self, buf: &mut BytesMut) {
        encode_client_hello(self, buf)
    }
}

/// Appends the encoding of `x`.
pub fn encode_client_hello(x: &ClientHello, buf: &mut BytesMut)
    requires
        <ClientHello as SEncodeSync>::spec_encodable(x.model()),
        bytes_mut_view(*old(buf)).len() + <ClientHello as SEncodeSync>::spec_encoding(x.model()).len()
            <= max_buf_len(),
    ensures
        bytes_mut_view(*final(buf)) == bytes_mut_view(*old(buf)) + <ClientHello as SEncodeSync>::spec_encoding(
            x.model(),
        ),
{
    put_u8(buf, x.version);
    put_u64(buf, x.supported_features);
    extend_from_slice(buf, &x.auth_token);
    encode_extensions(&x.extensions, buf);
    proof {
        assert(bytes_mut_view(*buf) =~= bytes_mut_view(*old(buf)) + client_hello_encoding(
            x.model(),
        ));
    }
}

impl SDecodeSync for ClientHello {
    open spec fn spec_parse(s: Seq<u8>) -> Parsed<SpecClientHello> {
        client_hello_parse(s)
    }

    fn try_decode_sync(buf: &mut Bytes) -> (r: Decoded<ClientHello>) {
        decode_client_hello(buf)
    }
}

/// Reads a value off the front of `buf`.
pub fn decode_client_hello(buf: &mut Bytes) -> (r: Decoded<ClientHello>)
    ensures
        decoded_agrees(r, <ClientHello as SDecodeSync>::spec_parse(bytes_view(*old(buf))), bytes_view(*final(buf))),
{
    if bytes_len(buf) < 1 + 8 + 64 {
        return Decoded::Invalid;
    }
    let ghost s = bytes_view(*buf);
    let version = get_u8(buf);
    let supported_features = get_u64(buf);
    let mut auth_token = [0u8; 64];
    copy_to_slice(buf, &mut auth_token);
    proof {
        assert(s.skip(1).skip(8) =~= s.skip(9));
        assert(s.skip(9).skip(64) =~= s.skip(73));
    }
    match decode_extensions(buf) {
        Decoded::Value(extensions) => Decoded::Value(
            ClientHello { version, supported_features, auth_token, extensions },
        ),
        Decoded::Invalid => Decoded::Invalid,
        Decoded::Short => Decoded::Short,
    }
}

pub proof fn lemma_client_hello_roundtrip(m: SpecClientHello, rest: Seq<u8>)
    requires
        m.auth_token.len() == 64,
        extensions_sendable(m.extensions),
    ensures
        client_hello_parse(client_hello_encoding(m) + rest) == Parsed::Done(m, rest),
{
    let s = client_hello_encoding(m) + rest;
    lemma_be_u64_roundtrip(m.supported_features, s.skip(9));
    assert(s.skip(1) =~= be_u64(m.supported_features) + s.skip(9));
    assert(s.skip(9).take(64) =~= m.auth_token);
    assert(s.skip(73) =~= extensions_encoding(m.extensions) + rest);
    lemma_extensions_roundtrip(m.extensions, rest);
}

/// The server's handshake: version, selected features, connection id, extensions.
#[derive(Debug, Clone)]
pub struct ServerHello {
    pub version: u8,
    pub selected_features: u64,
    pub connection_id: u64,
    pub extensions: Vec<Extension>,
}

pub struct SpecServerHello {
    pub version: u8,
    pub selected_features: u64,
    pub connection_id: u64,
    pub extensions: Seq<SpecExtension>,
}

impl WireModel for ServerHello {
    type Model = SpecServerHello;

    open spec fn model(&self) -> SpecServerHello {
        SpecServerHello {
            version: self.version,
            selected_features: self.selected_features,
            connection_id: self.connection_id,
            extensions: self.extensions.model(),
        }
    }
}

pub open spec fn server_hello_encoding(m: SpecServerHello) -> Seq<u8> {
    seq![m.version] + be_u64(m.selected_features) + be_u64(m.connection_id) + extensions_encoding(
        m.extensions,
    )
}

/// Fewer than 17 bytes are refused untouched.
pub open spec fn server_hello_parse(s: Seq<u8>) -> Parsed<SpecServerHello> {
    if s.len() < 17 {
        Parsed::Reject(s)
    } else {
        match extensions_parse(s.skip(17)) {
            Parsed::Done(extensions, r) => Parsed::Done(
                SpecServerHello {
                    version: s[0],
                    selected_features: u64_of_be(s.skip(1)),
                    connection_id: u64_of_be(s.skip(9)),
                    extensions,
                },
                r,
            ),
            Parsed::Reject(r) => Parsed::Reject(r),
            Parsed::Short => Parsed::Short,
        }
    }
}

impl SEncodeSync for ServerHello {
    open spec fn spec_encodable(m: SpecServerHello) -> bool {
        <Vec<Extension> as SEncodeSync>::spec_encodable(m.extensions)
    }

    open spec fn spec_encoding(m: SpecServerHello) -> Seq<u8> {
        server_hello_encoding(m)
    }

    fn encode_sync(&self, buf: &mut BytesMut) {
        encode_server_hello(self, buf)
    }
}

/// Appends the encoding of `x`.
pub fn encode_server_hello(x: &ServerHello, buf: &mut BytesMut)
    requires
        <ServerHello as SEncodeSync>::spec_encodable(x.model()),
        bytes_mut_view(*old(buf)).len() + <ServerHello as SEncodeSync>::spec_encoding(x.model()).len()
            <= max_buf_len(),
    ensures
        bytes_mut_view(*final(buf)) == bytes_mut_view(*old(buf)) + <ServerHello as SEncodeSync>::spec_encoding(
            x.model(),
        ),
{
    put_u8(buf, x.version);
    put_u64(buf, x.selected_features);
    put_u64(buf, x.connection_id);
    encode_extensions(&x.extensions, buf);
    proof {
        assert(bytes_mut_view(*buf) =~= bytes_mut_view(*old(buf)) + server_hello_encoding(
            x.model(),
        ));
    }
}

impl SDecodeSync for ServerHello {
    open spec fn spec_parse(s: Seq<u8>) -> Parsed<SpecServerHello> {
        server_hello_parse(s)
    }

    fn try_decode_sync(buf: &mut Bytes) -> (r: Decoded<ServerHello>) {
        decode_server_hello(buf)
    }
}

/// Reads a value off the front of `buf`.
pub fn decode_server_hello(buf: &mut Bytes) -> (r: Decoded<ServerHello>)
    ensures
        decoded_agrees(r, <ServerHello as SDecodeSync>::spec_parse(bytes_view(*old(buf))), bytes_view(*final(buf))),
{
    if bytes_len(buf) < 1 + 8 + 8 {
        return Decoded::Invalid;
    }
    let ghost s = bytes_view(*buf);
    let version = get_u8(buf);
    let selected_features = get_u64(buf);
    let connection_id = get_u64(buf);
    proof {
        assert(s.skip(1).skip(8) =~= s.skip(9));
        assert(s.skip(9).skip(8) =~= s.skip(17));
    }
    match decode_extensions(buf) {
        Decoded::Value(extensions) => Decoded::Value(
            ServerHello { version, selected_features, connection_id, extensions },
        ),
        Decoded::Invalid => Decoded::Invalid,
        Decoded::Short => Decoded::Short,
    }
}

pub proof fn lemma_server_hello_roundtrip(m: SpecServerHello, rest: Seq<u8>)
    requires
        extensions_sendable(m.extensions),
    ensures
        server_hello_parse(server_hello_encoding(m) + rest) == Parsed::Done(m, rest),
{
    let s = server_hello_encoding(m) + rest;
    lemma_be_u64_roundtrip(m.selected_features, s.skip(9));
    lemma_be_u64_roundtrip(m.connection_id, s.skip(17));
    assert(s.skip(1) =~= be_u64(m.selected_features) + s.skip(9));
    assert(s.skip(9) =~= be_u64(m.connection_id) + s.skip(17));
    assert(s.skip(17) =~= extensions_encoding(m.extensions) + rest);
    lemma_extensions_roundtrip(m.extensions, rest);
}

/// Where each field of a server hello sits: the version in the first byte,
/// the selected features as a big-endian `u64` in bytes 1 to 8, the
/// connection id in bytes 9 to 16, then the extensions. Reading such bytes
/// back gives the features from bytes 1 to 8 and the id from bytes 9 to 16.
pub proof fn lemma_server_hello_layout(
    v: u8,
    features: u64,
    connection_id: u64,
    extensions: Seq<SpecExtension>,
    rest: Seq<u8>,
)
    requires
        extensions_sendable(extensions),
    ensures
        ({
            let m = SpecServerHello { version: v, selected_features: features, connection_id, extensions };
            let e = server_hello_encoding(m);
            &&& e.len() >= 17
            &&& e[0] == v
            &&& e.subrange(1, 9) == be_u64(features)
            &&& e.subrange(9, 17) == be_u64(connection_id)
            &&& e.skip(17) == extensions_encoding(extensions)
            &&& server_hello_parse(
                seq![v] + be_u64(features) + be_u64(connection_id) + extensions_encoding(extensions) + rest,
            ) == Parsed::Done(m, rest)
        }),
{
    let m = SpecServerHello { version: v, selected_features: features, connection_id, extensions };
    let e = server_hello_encoding(m);
    assert(e.subrange(1, 9) =~= be_u64(features));
    assert(e.subrange(9, 17) =~= be_u64(connection_id));
    assert(e.skip(17) =~= extensions_encoding(extensions));
    assert(seq![v] + be_u64(features) + be_u64(connection_id) + extensions_encoding(extensions) =~= e);
    lemma_server_hello_roundtrip(m, rest);
}

/// A request to open a TCP connection to `dst`.
#[derive(Debug, Clone)]
pub struct ConnectReq {
    pub dst: SocksAddr,
    pub extensions: Vec<Extension>,
}

pub struct SpecConnectReq {
    pub dst: SpecSocksAddr,
    pub extensions: Seq<SpecExtension>,
}

impl WireModel for ConnectReq {
    type Model = SpecConnectReq;

    open spec fn model(&self) -> SpecConnectReq {
        SpecConnectReq { dst: self.dst.model(), extensions: self.extensions.model() }
    }
}

pub open spec fn connect_req_encoding(m: SpecConnectReq) -> Seq<u8> {
    socks_addr_encoding(m.dst) + extensions_encoding(m.extensions)
}

pub open spec fn connect_req_parse(s: Seq<u8>) -> Parsed<SpecConnectReq> {
    match socks_addr_parse(s) {
        Parsed::Done(dst, r) => match extensions_parse(r) {
            Parsed::Done(extensions, r2) => Parsed::Done(SpecConnectReq { dst, extensions }, r2),
            Parsed::Reject(r2) => Parsed::Reject(r2),
            Parsed::Short => Parsed::Short,
        },
        Parsed::Reject(r) => Parsed::Reject(r),
        Parsed::Short => Parsed::Short,
    }
}

impl SEncodeSync for ConnectReq {
    open spec fn spec_encodable(m: SpecConnectReq) -> bool {
        socks_addr_encodable(m.dst) && <Vec<Extension> as SEncodeSync>::spec_encodable(m.extensions)
    }

    open spec fn spec_encoding(m: SpecConnectReq) -> Seq<u8> {
        connect_req_encoding(m)
    }

    fn encode_sync(&self, buf: &mut BytesMut) {
        encode_connect_req(self, buf)
    }
}

/// Appends the encoding of `x`.
pub fn encode_connect_req(x: &ConnectReq, buf: &mut BytesMut)
    requires
        <ConnectReq as SEncodeSync>::spec_encodable(x.model()),
        bytes_mut_view(*old(buf)).len() + <ConnectReq as SEncodeSync>::spec_encoding(x.model()).len()
            <= max_buf_len(),
    ensures
        bytes_mut_view(*final(buf)) == bytes_mut_view(*old(buf)) + <ConnectReq as SEncodeSync>::spec_encoding(
            x.model(),
        ),
{
    encode_socks_addr(&x.dst, buf);
    encode_extensions(&x.extensions, buf);
    proof {
        assert(bytes_mut_view(*buf) =~= bytes_mut_view(*old(buf)) + connect_req_encoding(
            x.model(),
        ));
    }
}

impl SDecodeSync for ConnectReq {
    open spec fn spec_parse(s: Seq<u8>) -> Parsed<SpecConnectReq> {
        connect_req_parse(s)
    }

    fn try_decode_sync(buf: &mut Bytes) -> (r: Decoded<ConnectReq>) {
        decode_connect_req(buf)
    }
}

/// Reads a value off the front of `buf`.
pub fn decode_connect_req(buf: &mut Bytes) -> (r: Decoded<ConnectReq>)
    ensures
        decoded_agrees(r, <ConnectReq as SDecodeSync>::spec_parse(bytes_view(*old(buf))), bytes_view(*final(buf))),
{
    let dst = match decode_socks_addr(buf) {
        Decoded::Value(a) => a,
        Decoded::Invalid => return Decoded::Invalid,
        Decoded::Short => return Decoded::Short,
    };
    match decode_extensions(buf) {
        Decoded::Value(extensions) => Decoded::Value(ConnectReq { dst, extensions }),
        Decoded::Invalid => Decoded::Invalid,
        Decoded::Short => Decoded::Short,
    }
}

pub proof fn lemma_connect_req_roundtrip(m: SpecConnectReq, rest: Seq<u8>)
    requires
        socks_addr_wf(m.dst),
        extensions_sendable(m.extensions),
    ensures
        connect_req_parse(connect_req_encoding(m) + rest) == Parsed::Done(m, rest),
{
    let r = extensions_encoding(m.extensions) + rest;
    assert(connect_req_encoding(m) + rest =~= socks_addr_encoding(m.dst) + r);
    lemma_socks_addr_roundtrip(m.dst, r);
    lemma_extensions_roundtrip(m.extensions, rest);
}

/// The answer to a connection request.
#[derive(Debug, Clone)]
pub struct ConnectAck {
    pub status: u16,
    pub bind_addr: SocksAddr,
    pub extensions: Vec<Extension>,
}

pub struct SpecConnectAck {
    pub status: u16,
    pub bind_addr: SpecSocksAddr,
    pub extensions: Seq<SpecExtension>,
}

impl WireModel for ConnectAck {
    type Model = SpecConnectAck;

    open spec fn model(&self) -> SpecConnectAck {
        SpecConnectAck {
            status: self.status,
            bind_addr: self.bind_addr.model(),
            extensions: self.extensions.model(),
        }
    }
}

pub open spec fn connect_ack_encoding(m: SpecConnectAck) -> Seq<u8> {
    be_u16(m.status) + socks_addr_encoding(m.bind_addr) + extensions_encoding(m.extensions)
}

/// Fewer than 2 bytes are refused untouched.
pub open spec fn connect_ack_parse(s: Seq<u8>) -> Parsed<SpecConnectAck> {
    if s.len() < 2 {
        Parsed::Reject(s)
    } else {
        match socks_addr_parse(s.skip(2)) {
            Parsed::Done(bind_addr, r) => match extensions_parse(r) {
                Parsed::Done(extensions, r2) => Parsed::Done(
                    SpecConnectAck { status: u16_of_be(s), bind_addr, extensions },
                    r2,
                ),
                Parsed::Reject(r2) => Parsed::Reject(r2),
                Parsed::Short => Parsed::Short,
            },
            Parsed::Reject(r) => Parsed::Reject(r),
            Parsed::Short => Parsed::Short,
        }
    }
}

impl SEncodeSync for ConnectAck {
    open spec fn spec_encodable(m: SpecConnectAck) -> bool {
        socks_addr_encodable(m.bind_addr) && <Vec<Extension> as SEncodeSync>::spec_encodable(
            m.extensions,
        )
    }

    open spec fn spec_encoding(m: SpecConnectAck) -> Seq<u8> {
        connect_ack_encoding(m)
    }

    fn encode_sync(&self, buf: &mut BytesMut) {
        encode_connect_ack(self, buf)
    }
}

/// Appends the encoding of `x`.
pub fn encode_connect_ack(x: &ConnectAck, buf: &mut BytesMut)
    requires
        <ConnectAck as SEncodeSync>::spec_encodable(x.model()),
        bytes_mut_view(*old(buf)).len() + <ConnectAck as SEncodeSync>::spec_encoding(x.model()).len()
            <= max_buf_len(),
    ensures
        bytes_mut_view(*final(buf)) == bytes_mut_view(*old(buf)) + <ConnectAck as SEncodeSync>::spec_encoding(
            x.model(),
        ),
{
    put_u16(buf, x.status);
    encode_socks_addr(&x.bind_addr, buf);
    encode_extensions(&x.extensions, buf);
    proof {
        assert(bytes_mut_view(*buf) =~= bytes_mut_view(*old(buf)) + connect_ack_encoding(
            x.model(),
        ));
    }
}

impl SDecodeSync for ConnectAck {
    open spec fn spec_parse(s: Seq<u8>) -> Parsed<SpecConnectAck> {
        connect_ack_parse(s)
    }

    fn try_decode_sync(buf: &mut Bytes) -> (r: Decoded<ConnectAck>) {
        decode_connect_ack(buf)
    }
}

/// Reads a value off the front of `buf`.
pub fn decode_connect_ack(buf: &mut Bytes) -> (r: Decoded<ConnectAck>)
    ensures
        decoded_agrees(r, <ConnectAck as SDecodeSync>::spec_parse(bytes_view(*old(buf))), bytes_view(*final(buf))),
{
    if bytes_len(buf) < 2 {
        return Decoded::Invalid;
    }
    let status = get_u16(buf);
    let bind_addr = match decode_socks_addr(buf) {
        Decoded::Value(a) => a,
        Decoded::Invalid => return Decoded::Invalid,
        Decoded::Short => return Decoded::Short,
    };
    match decode_extensions(buf) {
        Decoded::Value(extensions) => Decoded::Value(ConnectAck { status, bind_addr, extensions }),
        Decoded::Invalid => Decoded::Invalid,
        Decoded::Short => Decoded::Short,
    }
}

pub proof fn lemma_connect_ack_roundtrip(m: SpecConnectAck, rest: Seq<u8>)
    requires
        socks_addr_wf(m.bind_addr),
        extensions_sendable(m.extensions),
    ensures
        connect_ack_parse(connect_ack_encoding(m) + rest) == Parsed::Done(m, rest),
{
    let s = connect_ack_encoding(m) + rest;
    let r = extensions_encoding(m.extensions) + rest;
    lemma_be_u16_roundtrip(m.status, s.skip(2));
    assert(s =~= be_u16(m.status) + s.skip(2));
    assert(s.skip(2) =~= socks_addr_encoding(m.bind_addr) + r);
    lemma_socks_addr_roundtrip(m.bind_addr, r);
    lemma_extensions_roundtrip(m.extensions, rest);
}

/// A request to relay UDP, to `dst` when it is given.
#[derive(Debug, Clone)]
pub struct UdpAssociateReq {
    pub dst: Option<SocksAddr>,
    pub extensions: Vec<Extension>,
}

pub struct SpecUdpAssociateReq {
    pub dst: Option<SpecSocksAddr>,
    pub extensions: Seq<SpecExtension>,
}

impl WireModel for UdpAssociateReq {
    type Model = SpecUdpAssociateReq;

    open spec fn model(&self) -> SpecUdpAssociateReq {
        SpecUdpAssociateReq { dst: self.dst.model(), extensions: self.extensions.model() }
    }
}

pub open spec fn udp_associate_encoding(m: SpecUdpAssociateReq) -> Seq<u8> {
    opt_addr_encoding(m.dst) + extensions_encoding(m.extensions)
}

pub open spec fn udp_associate_parse(s: Seq<u8>) -> Parsed<SpecUdpAssociateReq> {
    match opt_addr_parse(s) {
        Parsed::Done(dst, r) => match extensions_parse(r) {
            Parsed::Done(extensions, r2) => Parsed::Done(SpecUdpAssociateReq { dst, extensions }, r2),
            Parsed::Reject(r2) => Parsed::Reject(r2),
            Parsed::Short => Parsed::Short,
        },
        Parsed::Reject(r) => Parsed::Reject(r),
        Parsed::Short => Parsed::Short,
    }
}

impl SEncodeSync for UdpAssociateReq {
    open spec fn spec_encodable(m: SpecUdpAssociateReq) -> bool {
        opt_addr_encodable(m.dst) && <Vec<Extension> as SEncodeSync>::spec_encodable(m.extensions)
    }

    open spec fn spec_encoding(m: SpecUdpAssociateReq) -> Seq<u8> {
        udp_associate_encoding(m)
    }

    fn encode_sync(&self, buf: &mut BytesMut) {
        encode_udp_associate_req(self, buf)
    }
}

/// Appends the encoding of `x`.
pub fn encode_udp_associate_req(x: &UdpAssociateReq, buf: &mut BytesMut)
    requires
        <UdpAssociateReq as SEncodeSync>::spec_encodable(x.model()),
        bytes_mut_view(*old(buf)).len() + <UdpAssociateReq as SEncodeSync>::spec_encoding(x.model()).len()
            <= max_buf_len(),
    ensures
        bytes_mut_view(*final(buf)) == bytes_mut_view(*old(buf)) + <UdpAssociateReq as SEncodeSync>::spec_encoding(
            x.model(),
        ),
{
    encode_opt_addr(&x.dst, buf);
    encode_extensions(&x.extensions, buf);
    proof {
        assert(bytes_mut_view(*buf) =~= bytes_mut_view(*old(buf)) + udp_associate_encoding(
            x.model(),
        ));
    }
}

impl SDecodeSync for UdpAssociateReq {
    open spec fn spec_parse(s: Seq<u8>) -> Parsed<SpecUdpAssociateReq> {
        udp_associate_parse(s)
    }

    fn try_decode_sync(buf: &mut Bytes) -> (r: Decoded<UdpAssociateReq>) {
        decode_udp_associate_req(buf)
    }
}

/// Reads a value off the front of `buf`.
pub fn decode_udp_associate_req(buf: &mut Bytes) -> (r: Decoded<UdpAssociateReq>)
    ensures
        decoded_agrees(r, <UdpAssociateReq as SDecodeSync>::spec_parse(bytes_view(*old(buf))), bytes_view(*final(buf))),
{
    let dst = match decode_opt_addr(buf) {
        Decoded::Value(a) => a,
        Decoded::Invalid => return Decoded::Invalid,
        Decoded::Short => return Decoded::Short,
    };
    match decode_extensions(buf) {
        Decoded::Value(extensions) => Decoded::Value(UdpAssociateReq { dst, extensions }),
        Decoded::Invalid => Decoded::Invalid,
        Decoded::Short => Decoded::Short,
    }
}

#[verifier::spinoff_prover]
#[verifier::rlimit(40)]
pub proof fn lemma_udp_associate_roundtrip(m: SpecUdpAssociateReq, rest: Seq<u8>)
    requires
        opt_addr_wf(m.dst),
        extensions_sendable(m.extensions),
    ensures
        udp_associate_parse(udp_associate_encoding(m) + rest) == Parsed::Done(m, rest),
{
    let r = extensions_encoding(m.extensions) + rest;
    assert(udp_associate_encoding(m) + rest =~= opt_addr_encoding(m.dst) + r);
    lemma_opt_addr_roundtrip(m.dst, r);
    lemma_extensions_roundtrip(m.extensions, rest);
}

/// A UDP datagram, with its destination unless the association fixes it.
#[derive(Debug, Clone)]
pub struct UdpData {
    pub dst: Option<SocksAddr>,
    pub payload: Bytes,
}

pub struct SpecUdpData {
    pub dst: Option<SpecSocksAddr>,
    pub payload: Seq<u8>,
}

impl WireModel for UdpData {
    type Model = SpecUdpData;

    open spec fn model(&self) -> SpecUdpData {
        SpecUdpData { dst: self.dst.model(), payload: bytes_view(self.payload) }
    }
}

pub open spec fn udp_data_encoding(m: SpecUdpData) -> Seq<u8> {
    opt_addr_encoding(m.dst) + blob_encoding(m.payload)
}

pub open spec fn udp_data_parse(s: Seq<u8>) -> Parsed<SpecUdpData> {
    match opt_addr_parse(s) {
        Parsed::Done(dst, r) => match blob_parse(r) {
            Parsed::Done(payload, r2) => Parsed::Done(SpecUdpData { dst, payload }, r2),
            Parsed::Reject(r2) => Parsed::Reject(r2),
            Parsed::Short => Parsed::Short,
        },
        Parsed::Reject(r) => Parsed::Reject(r),
        Parsed::Short => Parsed::Short,
    }
}

impl SEncodeSync for UdpData {
    open spec fn spec_encodable(m: SpecUdpData) -> bool {
        opt_addr_encodable(m.dst) && m.payload.len() <= VARINT_MAX
    }

    open spec fn spec_encoding(m: SpecUdpData) -> Seq<u8> {
        udp_data_encoding(m)
    }

    fn encode_sync(&self, buf: &mut BytesMut) {
        encode_udp_data(self, buf)
    }
}

/// Appends the encoding of `x`.
pub fn encode_udp_data(x: &UdpData, buf: &mut BytesMut)
    requires
        <UdpData as SEncodeSync>::spec_encodable(x.model()),
        bytes_mut_view(*old(buf)).len() + <UdpData as SEncodeSync>::spec_encoding(x.model()).len()
            <= max_buf_len(),
    ensures
        bytes_mut_view(*final(buf)) == bytes_mut_view(*old(buf)) + <UdpData as SEncodeSync>::spec_encoding(
            x.model(),
        ),
{
    encode_opt_addr(&x.dst, buf);
    encode_blob(&x.payload, buf);
    proof {
        assert(bytes_mut_view(*buf) =~= bytes_mut_view(*old(buf)) + udp_data_encoding(x.model()));
    }
}

impl SDecodeSync for UdpData {
    open spec fn spec_parse(s: Seq<u8>) -> Parsed<SpecUdpData> {
        udp_data_parse(s)
    }

    fn try_decode_sync(buf: &mut Bytes) -> (r: Decoded<UdpData>) {
        decode_udp_data(buf)
    }
}

/// Reads a value off the front of `buf`.
pub fn decode_udp_data(buf: &mut Bytes) -> (r: Decoded<UdpData>)
    ensures
        decoded_agrees(r, <UdpData as SDecodeSync>::spec_parse(bytes_view(*old(buf))), bytes_view(*final(buf))),
{
    let dst = match decode_opt_addr(buf) {
        Decoded::Value(a) => a,
        Decoded::Invalid => return Decoded::Invalid,
        Decoded::Short => return Decoded::Short,
    };
    match decode_blob(buf) {
        Decoded::Value(payload) => Decoded::Value(UdpData { dst, payload }),
        Decoded::Invalid => Decoded::Invalid,
        Decoded::Short => Decoded::Short,
    }
}

pub proof fn lemma_udp_data_roundtrip(m: SpecUdpData, rest: Seq<u8>)
    requires
        opt_addr_wf(m.dst),
        m.payload.len() <= VARINT_MAX,
        m.payload.len() <= usize::MAX,
    ensures
        udp_data_parse(udp_data_encoding(m) + rest) == Parsed::Done(m, rest),
{
    let r = blob_encoding(m.payload) + rest;
    assert(udp_data_encoding(m) + rest =~= opt_addr_encoding(m.dst) + r);
    lemma_opt_addr_roundtrip(m.dst, r);
    lemma_blob_roundtrip(m.payload, rest);
}

/// An error report: a code and a message.
#[derive(Debug, Clone)]
pub struct ErrorFrame {
    pub code: u32,
    pub message: Bytes,
}

pub struct SpecErrorFrame {
    pub code: u32,
    pub message: Seq<u8>,
}

impl WireModel for ErrorFrame {
    type Model = SpecErrorFrame;

    open spec fn model(&self) -> SpecErrorFrame {
        SpecErrorFrame { code: self.code, message: bytes_view(self.message) }
    }
}

pub open spec fn error_frame_encoding(m: SpecErrorFrame) -> Seq<u8> {
    be_u32(m.code) + blob_encoding(m.message)
}

/// Fewer than 4 bytes are refused untouched.
pub open spec fn error_frame_parse(s: Seq<u8>) -> Parsed<SpecErrorFrame> {
    if s.len() < 4 {
        Parsed::Reject(s)
    } else {
        match blob_parse(s.skip(4)) {
            Parsed::Done(message, r) => Parsed::Done(
                SpecErrorFrame { code: u32_of_be(s), message },
                r,
            ),
            Parsed::Reject(r) => Parsed::Reject(r),
            Parsed::Short => Parsed::Short,
        }
    }
}

impl SEncodeSync for ErrorFrame {
    open spec fn spec_encodable(m: SpecErrorFrame) -> bool {
        m.message.len() <= VARINT_MAX
    }

    open spec fn spec_encoding(m: SpecErrorFrame) -> Seq<u8> {
        error_frame_encoding(m)
    }

    fn encode_sync(&self, buf: &mut BytesMut) {
        encode_error_frame(self, buf)
    }
}

/// Appends the encoding of `x`.
pub fn encode_error_frame(x: &ErrorFrame, buf: &mut BytesMut)
    requires
        <ErrorFrame as SEncodeSync>::spec_encodable(x.model()),
        bytes_mut_view(*old(buf)).len() + <ErrorFrame as SEncodeSync>::spec_encoding(x.model()).len()
            <= max_buf_len(),
    ensures
        bytes_mut_view(*final(buf)) == bytes_mut_view(*old(buf)) + <ErrorFrame as SEncodeSync>::spec_encoding(
            x.model(),
        ),
{
    put_u32(buf, x.code);
    encode_blob(&x.message, buf);
    proof {
        assert(bytes_mut_view(*buf) =~= bytes_mut_view(*old(buf)) + error_frame_encoding(
            x.model(),
        ));
    }
}

impl SDecodeSync for ErrorFrame {
    open spec fn spec_parse(s: Seq<u8>) -> Parsed<SpecErrorFrame> {
        error_frame_parse(s)
    }

    fn try_decode_sync(buf: &mut Bytes) -> (r: Decoded<ErrorFrame>) {
        decode_error_frame(buf)
    }
}

/// Reads a value off the front of `buf`.
pub fn decode_error_frame(buf: &mut Bytes) -> (r: Decoded<ErrorFrame>)
    ensures
        decoded_agrees(r, <ErrorFrame as SDecodeSync>::spec_parse(bytes_view(*old(buf))), bytes_view(*final(buf))),
{
    if bytes_len(buf) < 4 {
        return Decoded::Invalid;
    }
    let code = get_u32(buf);
    match decode_blob(buf) {
        Decoded::Value(message) => Decoded::Value(ErrorFrame { code, message }),
        Decoded::Invalid => Decoded::Invalid,
        Decoded::Short => Decoded::Short,
    }
}

pub proof fn lemma_error_frame_roundtrip(m: SpecErrorFrame, rest: Seq<u8>)
    requires
        m.message.len() <= VARINT_MAX,
        m.message.len() <= usize::MAX,
    ensures
        error_frame_parse(error_frame_encoding(m) + rest) == Parsed::Done(m, rest),
{
    let s = error_frame_encoding(m) + rest;
    lemma_be_u32_roundtrip(m.code, s.skip(4));
    assert(s =~= be_u32(m.code) + s.skip(4));
    assert(s.skip(4) =~= blob_encoding(m.message) + rest);
    lemma_blob_roundtrip(m.message, rest);
}


// ---------------------------------------------------------------------------
// Frames
// ---------------------------------------------------------------------------

/// A frame: the header is implied by the variant, the payload carried by it.
#[derive(Debug, Clone)]
pub enum Frame {
    ClientHello(ClientHello),
    ServerHello(ServerHello),
    Ping(u64),
    Pong(u64),
    Error(ErrorFrame),
    Connect(ConnectReq),
    ConnectAck(ConnectAck),
    Data(Bytes),
    Fin,
    Reset(u32),
    UdpAssociate(UdpAssociateReq),
    UdpData(UdpData),
}

pub enum SpecFrame {
    ClientHello(SpecClientHello),
    ServerHello(SpecServerHello),
    Ping(u64),
    Pong(u64),
    Error(SpecErrorFrame),
    Connect(SpecConnectReq),
    ConnectAck(SpecConnectAck),
    Data(Seq<u8>),
    Fin,
    Reset(u32),
    UdpAssociate(SpecUdpAssociateReq),
    UdpData(SpecUdpData),
}

impl WireModel for Frame {
    type Model = SpecFrame;

    open spec fn model(&self) -> SpecFrame {
        match self {
            Frame::ClientHello(h) => SpecFrame::ClientHello(h.model()),
            Frame::ServerHello(h) => SpecFrame::ServerHello(h.model()),
            Frame::Ping(t) => SpecFrame::Ping(*t),
            Frame::Pong(t) => SpecFrame::Pong(*t),
            Frame::Error(e) => SpecFrame::Error(e.model()),
            Frame::Connect(c) => SpecFrame::Connect(c.model()),
            Frame::ConnectAck(a) => SpecFrame::ConnectAck(a.model()),
            Frame::Data(d) => SpecFrame::Data(bytes_view(*d)),
            Frame::Fin => SpecFrame::Fin,
            Frame::Reset(c) => SpecFrame::Reset(*c),
            Frame::UdpAssociate(u) => SpecFrame::UdpAssociate(u.model()),
            Frame::UdpData(u) => SpecFrame::UdpData(u.model()),
        }
    }
}

/// The frame type a frame is sent as.
pub open spec fn frame_kind(f: SpecFrame) -> FrameType {
    match f {
        SpecFrame::ClientHello(_) => FrameType::ClientHello,
        SpecFrame::ServerHello(_) => FrameType::ServerHello,
        SpecFrame::Ping(_) => FrameType::Ping,
        SpecFrame::Pong(_) => FrameType::Pong,
        SpecFrame::Error(_) => FrameType::Error,
        SpecFrame::Connect(_) => FrameType::Connect,
        SpecFrame::ConnectAck(_) => FrameType::ConnectAck,
        SpecFrame::Data(_) => FrameType::Data,
        SpecFrame::Fin => FrameType::Fin,
        SpecFrame::Reset(_) => FrameType::Reset,
        SpecFrame::UdpAssociate(_) => FrameType::UdpAssociate,
        SpecFrame::UdpData(_) => FrameType::UdpData,
    }
}

/// The payload bytes of a frame.
pub open spec fn frame_payload(f: SpecFrame) -> Seq<u8> {
    match f {
        SpecFrame::ClientHello(h) => client_hello_encoding(h),
        SpecFrame::ServerHello(h) => server_hello_encoding(h),
        SpecFrame::Ping(t) => be_u64(t),
        SpecFrame::Pong(t) => be_u64(t),
        SpecFrame::Error(e) => error_frame_encoding(e),
        SpecFrame::Connect(c) => connect_req_encoding(c),
        SpecFrame::ConnectAck(a) => connect_ack_encoding(a),
        SpecFrame::Data(d) => d,
        SpecFrame::Fin => Seq::empty(),
        SpecFrame::Reset(c) => be_u32(c),
        SpecFrame::UdpAssociate(u) => udp_associate_encoding(u),
        SpecFrame::UdpData(u) => udp_data_encoding(u),
    }
}

/// The header a frame is sent with: version 1, stream id 0 (set by the
/// caller, when at all), the `FIN` flag on `Fin` frames only.
pub open spec fn frame_header_of(f: SpecFrame) -> SpecFrameHeader {
    SpecFrameHeader {
        version: 1,
        frame_type: frame_kind(f),
        flags: if f is Fin {
            flags::FIN
        } else {
            flags::NONE
        },
        stream_id: 0,
        length: frame_payload(f).len() as u64,
    }
}

pub open spec fn frame_encoding(f: SpecFrame) -> Seq<u8> {
    frame_header_encoding(frame_header_of(f)) + frame_payload(f)
}

/// The parts of a frame can be encoded, and its payload length fits a `VarInt`.
pub open spec fn frame_encodable(f: SpecFrame) -> bool {
    &&& match f {
        SpecFrame::ClientHello(h) => ClientHello::spec_encodable(h),
        SpecFrame::ServerHello(h) => ServerHello::spec_encodable(h),
        SpecFrame::Error(e) => ErrorFrame::spec_encodable(e),
        SpecFrame::Connect(c) => ConnectReq::spec_encodable(c),
        SpecFrame::ConnectAck(a) => ConnectAck::spec_encodable(a),
        SpecFrame::UdpAssociate(u) => UdpAssociateReq::spec_encodable(u),
        SpecFrame::UdpData(u) => UdpData::spec_encodable(u),
        _ => true,
    }
    &&& frame_payload(f).len() <= VARINT_MAX
}

/// What decoding a payload of the given type makes of the payload bytes.
/// `Ping`, `Pong` and `Reset` read their number without a length check.
pub open spec fn frame_payload_parse(t: FrameType, p: Seq<u8>) -> Parsed<SpecFrame> {
    match t {
        FrameType::ClientHello => match client_hello_parse(p) {
            Parsed::Done(h, r) => Parsed::Done(SpecFrame::ClientHello(h), r),
            Parsed::Reject(r) => Parsed::Reject(r),
            Parsed::Short => Parsed::Short,
        },
        FrameType::ServerHello => match server_hello_parse(p) {
            Parsed::Done(h, r) => Parsed::Done(SpecFrame::ServerHello(h), r),
            Parsed::Reject(r) => Parsed::Reject(r),
            Parsed::Short => Parsed::Short,
        },
        FrameType::Ping => if p.len() < 8 {
            Parsed::Short
        } else {
            Parsed::Done(SpecFrame::Ping(u64_of_be(p)), p.skip(8))
        },
        FrameType::Pong => if p.len() < 8 {
            Parsed::Short
        } else {
            Parsed::Done(SpecFrame::Pong(u64_of_be(p)), p.skip(8))
        },
        FrameType::Error => match error_frame_parse(p) {
            Parsed::Done(e, r) => Parsed::Done(SpecFrame::Error(e), r),
            Parsed::Reject(r) => Parsed::Reject(r),
            Parsed::Short => Parsed::Short,
        },
        FrameType::Connect => match connect_req_parse(p) {
            Parsed::Done(c, r) => Parsed::Done(SpecFrame::Connect(c), r),
            Parsed::Reject(r) => Parsed::Reject(r),
            Parsed::Short => Parsed::Short,
        },
        FrameType::ConnectAck => match connect_ack_parse(p) {
            Parsed::Done(a, r) => Parsed::Done(SpecFrame::ConnectAck(a), r),
            Parsed::Reject(r) => Parsed::Reject(r),
            Parsed::Short => Parsed::Short,
        },
        FrameType::Data => Parsed::Done(SpecFrame::Data(p), Seq::empty()),
        FrameType::Fin => Parsed::Done(SpecFrame::Fin, p),
        FrameType::Reset => if p.len() < 4 {
            Parsed::Short
        } else {
            Parsed::Done(SpecFrame::Reset(u32_of_be(p)), p.skip(4))
        },
        FrameType::UdpAssociate => match udp_associate_parse(p) {
            Parsed::Done(u, r) => Parsed::Done(SpecFrame::UdpAssociate(u), r),
            Parsed::Reject(r) => Parsed::Reject(r),
            Parsed::Short => Parsed::Short,
        },
        FrameType::UdpData => match udp_data_parse(p) {
            Parsed::Done(u, r) => Parsed::Done(SpecFrame::UdpData(u), r),
            Parsed::Reject(r) => Parsed::Reject(r),
            Parsed::Short => Parsed::Short,
        },
    }
}

/// What `Frame::decode_sync` makes of a byte sequence: a header, then exactly
/// `length` payload bytes, decoded by type; bytes of the payload that the
/// type does not use are dropped.
pub open spec fn frame_parse(s: Seq<u8>) -> Parsed<SpecFrame> {
    match frame_header_parse(s) {
        Parsed::Reject(r) => Parsed::Reject(r),
        Parsed::Short => Parsed::Short,
        Parsed::Done(h, r) => {
            let n = len_as_usize(h.length);
            if r.len() < n {
                Parsed::Reject(r)
            } else {
                match frame_payload_parse(h.frame_type, r.take(n as int)) {
                    Parsed::Done(f, _) => Parsed::Done(f, r.skip(n as int)),
                    Parsed::Reject(_) => Parsed::Reject(r.skip(n as int)),
                    Parsed::Short => Parsed::Short,
                }
            }
        },
    }
}

impl Frame {
    /// The type this frame is sent as.
    pub fn frame_type(&self) -> (t: FrameType)
        ensures
            t == frame_kind(self.model()),
    {
        match self {
            Frame::ClientHello(_) => FrameType::ClientHello,
            Frame::ServerHello(_) => FrameType::ServerHello,
            Frame::Ping(_) => FrameType::Ping,
            Frame::Pong(_) => FrameType::Pong,
            Frame::Error(_) => FrameType::Error,
            Frame::Connect(_) => FrameType::Connect,
            Frame::ConnectAck(_) => FrameType::ConnectAck,
            Frame::Data(_) => FrameType::Data,
            Frame::Fin => FrameType::Fin,
            Frame::Reset(_) => FrameType::Reset,
            Frame::UdpAssociate(_) => FrameType::UdpAssociate,
            Frame::UdpData(_) => FrameType::UdpData,
        }
    }

    /// Appends the payload bytes.
    fn encode_payload(&self, buf: &mut BytesMut)
        requires
            frame_encodable(self.model()),
            bytes_mut_view(*old(buf)).len() + frame_payload(self.model()).len() <= max_buf_len(),
        ensures
            bytes_mut_view(*final(buf)) == bytes_mut_view(*old(buf)) + frame_payload(self.model()),
    {
        match self {
            Frame::ClientHello(hello) => encode_client_hello(hello, buf),
            Frame::ServerHello(hello) => encode_server_hello(hello, buf),
            Frame::Ping(timestamp) => put_u64(buf, *timestamp),
            Frame::Pong(timestamp) => put_u64(buf, *timestamp),
            Frame::Error(err) => encode_error_frame(err, buf),
            Frame::Connect(req) => encode_connect_req(req, buf),
            Frame::ConnectAck(ack) => encode_connect_ack(ack, buf),
            Frame::Data(data) => extend_from_slice(buf, bytes_as_slice(data)),
            Frame::Fin => {
                assert(bytes_mut_view(*buf) =~= bytes_mut_view(*old(buf)) + Seq::<u8>::empty());
            },
            Frame::Reset(code) => put_u32(buf, *code),
            Frame::UdpAssociate(req) => encode_udp_associate_req(req, buf),
            Frame::UdpData(data) => encode_udp_data(data, buf),
        }
    }
}

impl SEncodeSync for Frame {
    open spec fn spec_encodable(m: SpecFrame) -> bool {
        frame_encodable(m)
    }

    open spec fn spec_encoding(m: SpecFrame) -> Seq<u8> {
        frame_encoding(m)
    }

    /// The payload is encoded first, and the header, whose length field it
    /// determines, is written in front of it.
    fn encode_sync(&self, buf: &mut BytesMut) {
        encode_frame(self, buf)
    }
}

/// Appends the encoding of `x`.
pub fn encode_frame(x: &Frame, buf: &mut BytesMut)
    requires
        <Frame as SEncodeSync>::spec_encodable(x.model()),
        bytes_mut_view(*old(buf)).len() + <Frame as SEncodeSync>::spec_encoding(x.model()).len()
            <= max_buf_len(),
    ensures
        bytes_mut_view(*final(buf)) == bytes_mut_view(*old(buf)) + <Frame as SEncodeSync>::spec_encoding(
            x.model(),
        ),
{
    let mut payload = bytes_mut_new();
    x.encode_payload(&mut payload);
    let payload_len = bytes_mut_len(&payload);
    let length = VarInt::new(payload_len as u64).unwrap();
    let header = FrameHeader {
        version: 1,
        frame_type: x.frame_type(),
        flags: match x {
            Frame::Fin => flags::FIN,
            _ => flags::NONE,
        },
        stream_id: 0,
        length,
    };
    assert(header.model() == frame_header_of(x.model()));
    encode_frame_header(&header, buf);
    extend_from_slice(buf, bytes_mut_as_slice(&payload));
    proof {
        assert(bytes_mut_view(*buf) =~= bytes_mut_view(*old(buf)) + frame_encoding(x.model()));
    }
}

/// The layout of an encoded frame whose payload `p` has a length that fits a
/// `VarInt`: 14 header bytes and the length's `VarInt`, then `p`. The first
/// byte is `0x40` (version 1, type high bits zero), byte 9 holds the flags
/// (`FIN` on `Fin` frames only), bytes 10 to 13 the stream id 0, and the
/// `VarInt` from byte 14 decodes to the length of `p`.
pub proof fn lemma_frame_encoding_layout(f: SpecFrame)
    requires
        frame_payload(f).len() <= VARINT_MAX,
    ensures
        ({
            let e = frame_encoding(f);
            let p = frame_payload(f);
            let n = varint_len(p.len() as u64);
            &&& e.len() == 14 + n + p.len()
            &&& e[0] == 0x40u8
            &&& e[9] == if f is Fin {
                flags::FIN
            } else {
                flags::NONE
            }
            &&& e.subrange(10, 14) == seq![0u8, 0u8, 0u8, 0u8]
            &&& varint_decode(e.skip(14)) == Some((p.len() as u64, n))
            &&& e.skip(14 + n as int) == p
        }),
{
    let h = frame_header_of(f);
    let e = frame_encoding(f);
    let p = frame_payload(f);
    let len = p.len() as u64;
    lemma_varint_roundtrip(len, p);
    assert(varint_encoding(len).len() == varint_len(len));
    assert(e.skip(14) =~= varint_encoding(len) + p);
    assert(e.skip(14 + varint_len(len) as int) =~= p);
    assert(e.subrange(10, 14) =~= be_u32(0u32));
    assert(be_u32(0u32) =~= seq![0u8, 0u8, 0u8, 0u8]) by {
        assert((0u32 >> 24u32) as u8 == 0u8 && (0u32 >> 16u32) as u8 == 0u8 && (0u32 >> 8u32) as u8 == 0u8
            && 0u32 as u8 == 0u8) by (bit_vector);
    }
    assert(e[0] == 1u8 << 6u8);
    assert(1u8 << 6u8 == 0x40u8) by (bit_vector);
}

impl SDecodeSync for Frame {
    open spec fn spec_parse(s: Seq<u8>) -> Parsed<SpecFrame> {
        frame_parse(s)
    }

    fn try_decode_sync(buf: &mut Bytes) -> (r: Decoded<Frame>) {
        decode_frame(buf)
    }
}

/// Reads a value off the front of `buf`.
pub fn decode_frame(buf: &mut Bytes) -> (r: Decoded<Frame>)
    ensures
        decoded_agrees(r, <Frame as SDecodeSync>::spec_parse(bytes_view(*old(buf))), bytes_view(*final(buf))),
{
    let header = match decode_frame_header(buf) {
        Decoded::Value(h) => h,
        Decoded::Invalid => return Decoded::Invalid,
        Decoded::Short => return Decoded::Short,
    };
    let payload_len = header.length.inner() as usize;
    if bytes_len(buf) < payload_len {
        return Decoded::Invalid;
    }
    let mut payload = split_to(buf, payload_len);
    let frame = match header.frame_type {
        FrameType::ClientHello => match decode_client_hello(&mut payload) {
            Decoded::Value(hello) => Frame::ClientHello(hello),
            Decoded::Invalid => return Decoded::Invalid,
            Decoded::Short => return Decoded::Short,
        },
        FrameType::ServerHello => match decode_server_hello(&mut payload) {
            Decoded::Value(hello) => Frame::ServerHello(hello),
            Decoded::Invalid => return Decoded::Invalid,
            Decoded::Short => return Decoded::Short,
        },
        FrameType::Ping => {
            if bytes_len(&payload) < 8 {
                return Decoded::Short;
            }
            Frame::Ping(get_u64(&mut payload))
        },
        FrameType::Pong => {
            if bytes_len(&payload) < 8 {
                return Decoded::Short;
            }
            Frame::Pong(get_u64(&mut payload))
        },
        FrameType::Error => match decode_error_frame(&mut payload) {
            Decoded::Value(err) => Frame::Error(err),
            Decoded::Invalid => return Decoded::Invalid,
            Decoded::Short => return Decoded::Short,
        },
        FrameType::Connect => match decode_connect_req(&mut payload) {
            Decoded::Value(req) => Frame::Connect(req),
            Decoded::Invalid => return Decoded::Invalid,
            Decoded::Short => return Decoded::Short,
        },
        FrameType::ConnectAck => match decode_connect_ack(&mut payload) {
            Decoded::Value(ack) => Frame::ConnectAck(ack),
            Decoded::Invalid => return Decoded::Invalid,
            Decoded::Short => return Decoded::Short,
        },
        FrameType::Data => Frame::Data(payload),
        FrameType::Fin => Frame::Fin,
        FrameType::Reset => {
            if bytes_len(&payload) < 4 {
                return Decoded::Short;
            }
            Frame::Reset(get_u32(&mut payload))
        },
        FrameType::UdpAssociate => match decode_udp_associate_req(&mut payload) {
            Decoded::Value(req) => Frame::UdpAssociate(req),
            Decoded::Invalid => return Decoded::Invalid,
            Decoded::Short => return Decoded::Short,
        },
        FrameType::UdpData => match decode_udp_data(&mut payload) {
            Decoded::Value(data) => Frame::UdpData(data),
            Decoded::Invalid => return Decoded::Invalid,
            Decoded::Short => return Decoded::Short,
        },
    };
    Decoded::Value(frame)
}

/// A frame whose parts decode back to themselves.
pub open spec fn frame_wf(f: SpecFrame) -> bool {
    &&& match f {
        SpecFrame::ClientHello(h) => h.auth_token.len() == 64 && extensions_sendable(h.extensions),
        SpecFrame::ServerHello(h) => extensions_sendable(h.extensions),
        SpecFrame::Error(e) => e.message.len() <= VARINT_MAX && e.message.len() <= usize::MAX,
        SpecFrame::Connect(c) => socks_addr_wf(c.dst) && extensions_sendable(c.extensions),
        SpecFrame::ConnectAck(a) => socks_addr_wf(a.bind_addr) && extensions_sendable(a.extensions),
        SpecFrame::UdpAssociate(u) => opt_addr_wf(u.dst) && extensions_sendable(u.extensions),
        SpecFrame::UdpData(u) => opt_addr_wf(u.dst) && u.payload.len() <= VARINT_MAX
            && u.payload.len() <= usize::MAX,
        _ => true,
    }
    &&& frame_payload(f).len() <= VARINT_MAX
    &&& frame_payload(f).len() <= usize::MAX
}

/// The payload of a frame decodes, by the frame's type, to the frame.
#[verifier::spinoff_prover]
#[verifier::rlimit(80)]
pub proof fn lemma_frame_payload_roundtrip(f: SpecFrame)
    requires
        frame_wf(f),
    ensures
        frame_payload_parse(frame_kind(f), frame_payload(f)) matches Parsed::Done(g, _) && g == f,
{
    let e = Seq::<u8>::empty();
    let p = frame_payload(f);
    assert(p + e =~= p);
    match f {
        SpecFrame::ClientHello(h) => lemma_client_hello_roundtrip(h, e),
        SpecFrame::ServerHello(h) => lemma_server_hello_roundtrip(h, e),
        SpecFrame::Ping(t) => lemma_be_u64_roundtrip(t, e),
        SpecFrame::Pong(t) => lemma_be_u64_roundtrip(t, e),
        SpecFrame::Error(x) => lemma_error_frame_roundtrip(x, e),
        SpecFrame::Connect(c) => lemma_connect_req_roundtrip(c, e),
        SpecFrame::ConnectAck(a) => lemma_connect_ack_roundtrip(a, e),
        SpecFrame::Reset(c) => lemma_be_u32_roundtrip(c, e),
        SpecFrame::UdpAssociate(u) => lemma_udp_associate_roundtrip(u, e),
        SpecFrame::UdpData(u) => lemma_udp_data_roundtrip(u, e),
        _ => {},
    }
}

/// Decoding an encoded frame gives the frame back, and leaves what follows it.
#[verifier::spinoff_prover]
#[verifier::rlimit(60)]
pub proof fn lemma_frame_roundtrip(f: SpecFrame, rest: Seq<u8>)
    requires
        frame_wf(f),
    ensures
        frame_parse(frame_encoding(f) + rest) == Parsed::Done(f, rest),
{
    let h = frame_header_of(f);
    let p = frame_payload(f);
    let s = frame_encoding(f) + rest;
    assert(s =~= frame_header_encoding(h) + (p + rest));
    lemma_frame_header_roundtrip(h, p + rest);
    assert(len_as_usize(h.length) == p.len());
    assert((p + rest).take(p.len() as int) =~= p);
    assert((p + rest).skip(p.len() as int) =~= rest);
    lemma_frame_payload_roundtrip(f);
}

} // verus!
