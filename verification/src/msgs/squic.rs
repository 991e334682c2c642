//! Requests and UDP headers of the SunnyQUIC protocol.

use crate::bytes_io::{
    be_u16, bytes_len, bytes_mut_view, bytes_view, copy_to_slice, extend_from_slice, get_u16,
    get_u8, lemma_be_u16_roundtrip, max_buf_len, put_u16, put_u8, u16_of_be,
};
use crate::msgs::socks5::{
    decode_socks_addr, encode_socks_addr, lemma_socks_addr_roundtrip, socks_addr_encodable,
    socks_addr_encoding, socks_addr_parse, socks_addr_wf, SocksAddr, SpecSocksAddr,
};
use crate::msgs::{decoded_agrees, Decoded, Parsed, SDecodeSync, SEncodeSync, WireModel};
use bytes::{Bytes, BytesMut};
use std::sync::Arc;
use vstd::prelude::*;

verus! {

/// Length of a SunnyQUIC credential.
pub const SUNNY_QUIC_AUTH_LEN: usize = 64;

/// A SunnyQUIC credential.
pub type SunnyCredential = Arc<[u8; 64]>;

/// A request: a one-byte tag (1 to 5), then a destination or a credential.
#[derive(PartialEq)]
pub enum SQReq {
    SQConnect(SocksAddr),
    SQBind(SocksAddr),
    SQAssociatOverDatagram(SocksAddr),
    SQAssociatOverStream(SocksAddr),
    SQAuthenticate(SunnyCredential),
}

pub enum SpecSQReq {
    Connect(SpecSocksAddr),
    Bind(SpecSocksAddr),
    AssociateOverDatagram(SpecSocksAddr),
    AssociateOverStream(SpecSocksAddr),
    Authenticate(Seq<u8>),
}

impl WireModel for SQReq {
    type Model = SpecSQReq;

    open spec fn model(&self) -> SpecSQReq {
        match self {
            SQReq::SQConnect(a) => SpecSQReq::Connect(a.model()),
            SQReq::SQBind(a) => SpecSQReq::Bind(a.model()),
            SQReq::SQAssociatOverDatagram(a) => SpecSQReq::AssociateOverDatagram(a.model()),
            SQReq::SQAssociatOverStream(a) => SpecSQReq::AssociateOverStream(a.model()),
            SQReq::SQAuthenticate(c) => SpecSQReq::Authenticate(c@),
        }
    }
}

pub open spec fn sq_req_encodable(m: SpecSQReq) -> bool {
    match m {
        SpecSQReq::Connect(a) => socks_addr_encodable(a),
        SpecSQReq::Bind(a) => socks_addr_encodable(a),
        SpecSQReq::AssociateOverDatagram(a) => socks_addr_encodable(a),
        SpecSQReq::AssociateOverStream(a) => socks_addr_encodable(a),
        SpecSQReq::Authenticate(_) => true,
    }
}

pub open spec fn sq_req_encoding(m: SpecSQReq) -> Seq<u8> {
    match m {
        SpecSQReq::Connect(a) => seq![0x1u8] + socks_addr_encoding(a),
        SpecSQReq::Bind(a) => seq![0x2u8] + socks_addr_encoding(a),
        SpecSQReq::AssociateOverDatagram(a) => seq![0x3u8] + socks_addr_encoding(a),
        SpecSQReq::AssociateOverStream(a) => seq![0x4u8] + socks_addr_encoding(a),
        SpecSQReq::Authenticate(c) => seq![0x5u8] + c,
    }
}

/// What `SQReq::decode_sync` makes of a byte sequence. A credential needs
/// 64 bytes after the tag, else the input is refused; unknown tags are refused.
pub open spec fn sq_req_parse(s: Seq<u8>) -> Parsed<SpecSQReq> {
    if s.len() < 1 {
        Parsed::Short
    } else {
        let tag = s[0];
        let t = s.skip(1);
        if 1 <= tag <= 4 {
            match socks_addr_parse(t) {
                Parsed::Done(a, r) => Parsed::Done(
                    if tag == 1 {
                        SpecSQReq::Connect(a)
                    } else if tag == 2 {
                        SpecSQReq::Bind(a)
                    } else if tag == 3 {
                        SpecSQReq::AssociateOverDatagram(a)
                    } else {
                        SpecSQReq::AssociateOverStream(a)
                    },
                    r,
                ),
                Parsed::Reject(r) => Parsed::Reject(r),
                Parsed::Short => Parsed::Short,
            }
        } else if tag == 5 {
            if t.len() < 64 {
                Parsed::Reject(t)
            } else {
                Parsed::Done(SpecSQReq::Authenticate(t.take(64)), t.skip(64))
            }
        } else {
            Parsed::Reject(t)
        }
    }
}

pub open spec fn sq_req_wf(m: SpecSQReq) -> bool {
    match m {
        SpecSQReq::Connect(a) => socks_addr_wf(a),
        SpecSQReq::Bind(a) => socks_addr_wf(a),
        SpecSQReq::AssociateOverDatagram(a) => socks_addr_wf(a),
        SpecSQReq::AssociateOverStream(a) => socks_addr_wf(a),
        SpecSQReq::Authenticate(c) => c.len() == 64,
    }
}

impl SEncodeSync for SQReq {
    open spec fn spec_encodable(m: SpecSQReq) -> bool {
        sq_req_encodable(m)
    }

    open spec fn spec_encoding(m: SpecSQReq) -> Seq<u8> {
        sq_req_encoding(m)
    }

    fn encode_sync(&self, buf: &mut BytesMut) {
        encode_sq_req(self, buf)
    }
}

/// Appends the encoding of `x`.
pub fn encode_sq_req(x: &SQReq, buf: &mut BytesMut)
    requires
        sq_req_encodable(x.model()),
        bytes_mut_view(*old(buf)).len() + sq_req_encoding(x.model()).len() <= max_buf_len(),
    ensures
        bytes_mut_view(*final(buf)) == bytes_mut_view(*old(buf)) + sq_req_encoding(x.model()),
{
    match x {
        SQReq::SQConnect(addr) => {
            put_u8(buf, 0x1);
            encode_socks_addr(addr, buf);
        },
        SQReq::SQBind(addr) => {
            put_u8(buf, 0x2);
            encode_socks_addr(addr, buf);
        },
        SQReq::SQAssociatOverDatagram(addr) => {
            put_u8(buf, 0x3);
            encode_socks_addr(addr, buf);
        },
        SQReq::SQAssociatOverStream(addr) => {
            put_u8(buf, 0x4);
            encode_socks_addr(addr, buf);
        },
        SQReq::SQAuthenticate(cred) => {
            put_u8(buf, 0x5);
            extend_from_slice(buf, &**cred);
        },
    }
    proof {
        assert(bytes_mut_view(*buf) =~= bytes_mut_view(*old(buf)) + sq_req_encoding(x.model()));
    }
}

impl SDecodeSync for SQReq {
    open spec fn spec_parse(s: Seq<u8>) -> Parsed<SpecSQReq> {
        sq_req_parse(s)
    }

    fn try_decode_sync(buf: &mut Bytes) -> (r: Decoded<SQReq>) {
        decode_sq_req(buf)
    }
}

/// Reads a request off the front of `buf`.
pub fn decode_sq_req(buf: &mut Bytes) -> (r: Decoded<SQReq>)
    ensures
        decoded_agrees(r, sq_req_parse(bytes_view(*old(buf))), bytes_view(*final(buf))),
{
    if bytes_len(buf) < 1 {
        return Decoded::Short;
    }
    let tag = get_u8(buf);
    if 0x1 <= tag && tag <= 0x4 {
        let addr = match decode_socks_addr(buf) {
            Decoded::Value(a) => a,
            Decoded::Invalid => return Decoded::Invalid,
            Decoded::Short => return Decoded::Short,
        };
        Decoded::Value(
            if tag == 0x1 {
                SQReq::SQConnect(addr)
            } else if tag == 0x2 {
                SQReq::SQBind(addr)
            } else if tag == 0x3 {
                SQReq::SQAssociatOverDatagram(addr)
            } else {
                SQReq::SQAssociatOverStream(addr)
            },
        )
    } else if tag == 0x5 {
        if bytes_len(buf) < SUNNY_QUIC_AUTH_LEN {
            return Decoded::Invalid;
        }
        let mut cred = [0u8; 64];
        copy_to_slice(buf, &mut cred);
        Decoded::Value(SQReq::SQAuthenticate(Arc::new(cred)))
    } else {
        Decoded::Invalid
    }
}

pub proof fn lemma_sq_req_roundtrip(m: SpecSQReq, rest: Seq<u8>)
    requires
        sq_req_wf(m),
    ensures
        sq_req_parse(sq_req_encoding(m) + rest) == Parsed::Done(m, rest),
{
    let s = sq_req_encoding(m) + rest;
    match m {
        SpecSQReq::Authenticate(c) => {
            assert(s.skip(1) =~= c + rest);
            assert((c + rest).take(64) =~= c);
            assert((c + rest).skip(64) =~= rest);
        },
        SpecSQReq::Connect(a) => {
            assert(s.skip(1) =~= socks_addr_encoding(a) + rest);
            lemma_socks_addr_roundtrip(a, rest);
        },
        SpecSQReq::Bind(a) => {
            assert(s.skip(1) =~= socks_addr_encoding(a) + rest);
            lemma_socks_addr_roundtrip(a, rest);
        },
        SpecSQReq::AssociateOverDatagram(a) => {
            assert(s.skip(1) =~= socks_addr_encoding(a) + rest);
            lemma_socks_addr_roundtrip(a, rest);
        },
        SpecSQReq::AssociateOverStream(a) => {
            assert(s.skip(1) =~= socks_addr_encoding(a) + rest);
            lemma_socks_addr_roundtrip(a, rest);
        },
    }
}

/// The tag a request is sent with: 1 connect, 2 bind, 3 UDP associate over
/// datagrams, 4 UDP associate over a stream, 5 authenticate; and the request
/// that a tag in front of an address or a credential is read as.
pub proof fn lemma_sq_req_tags(a: SpecSocksAddr, c: Seq<u8>, rest: Seq<u8>)
    requires
        socks_addr_wf(a),
        c.len() == 64,
    ensures
        sq_req_encoding(SpecSQReq::Connect(a))[0] == 1,
        sq_req_encoding(SpecSQReq::Bind(a))[0] == 2,
        sq_req_encoding(SpecSQReq::AssociateOverDatagram(a))[0] == 3,
        sq_req_encoding(SpecSQReq::AssociateOverStream(a))[0] == 4,
        sq_req_encoding(SpecSQReq::Authenticate(c))[0] == 5,
        sq_req_parse(seq![1u8] + socks_addr_encoding(a) + rest) == Parsed::Done(SpecSQReq::Connect(a), rest),
        sq_req_parse(seq![2u8] + socks_addr_encoding(a) + rest) == Parsed::Done(SpecSQReq::Bind(a), rest),
        sq_req_parse(seq![3u8] + socks_addr_encoding(a) + rest) == Parsed::Done(
            SpecSQReq::AssociateOverDatagram(a),
            rest,
        ),
        sq_req_parse(seq![4u8] + socks_addr_encoding(a) + rest) == Parsed::Done(
            SpecSQReq::AssociateOverStream(a),
            rest,
        ),
        sq_req_parse(seq![5u8] + c + rest) == Parsed::Done(SpecSQReq::Authenticate(c), rest),
{
    let t = socks_addr_encoding(a) + rest;
    lemma_socks_addr_roundtrip(a, rest);
    assert((seq![1u8] + socks_addr_encoding(a) + rest).skip(1) =~= t);
    assert((seq![2u8] + socks_addr_encoding(a) + rest).skip(1) =~= t);
    assert((seq![3u8] + socks_addr_encoding(a) + rest).skip(1) =~= t);
    assert((seq![4u8] + socks_addr_encoding(a) + rest).skip(1) =~= t);
    let u = seq![5u8] + c + rest;
    assert(u.skip(1) =~= c + rest);
    assert((c + rest).take(64) =~= c);
    assert((c + rest).skip(64) =~= rest);
}

/// Binds a UDP destination to an id on the control stream.
pub struct SQUdpControlHeader {
    pub dst: SocksAddr,
    pub id: u16,
}

pub struct SpecSQUdpControlHeader {
    pub dst: SpecSocksAddr,
    pub id: u16,
}

impl WireModel for SQUdpControlHeader {
    type Model = SpecSQUdpControlHeader;

    open spec fn model(&self) -> SpecSQUdpControlHeader {
        SpecSQUdpControlHeader { dst: self.dst.model(), id: self.id }
    }
}

pub open spec fn sq_udp_control_encoding(m: SpecSQUdpControlHeader) -> Seq<u8> {
    socks_addr_encoding(m.dst) + be_u16(m.id)
}

pub open spec fn sq_udp_control_parse(s: Seq<u8>) -> Parsed<SpecSQUdpControlHeader> {
    match socks_addr_parse(s) {
        Parsed::Done(dst, r) => if r.len() < 2 {
            Parsed::Short
        } else {
            Parsed::Done(SpecSQUdpControlHeader { dst, id: u16_of_be(r) }, r.skip(2))
        },
        Parsed::Reject(r) => Parsed::Reject(r),
        Parsed::Short => Parsed::Short,
    }
}

impl SEncodeSync for SQUdpControlHeader {
    open spec fn spec_encodable(m: SpecSQUdpControlHeader) -> bool {
        socks_addr_encodable(m.dst)
    }

    open spec fn spec_encoding(m: SpecSQUdpControlHeader) -> Seq<u8> {
        sq_udp_control_encoding(m)
    }

    fn encode_sync(&self, buf: &mut BytesMut) {
        encode_socks_addr(&self.dst, buf);
        put_u16(buf, self.id);
        proof {
            assert(bytes_mut_view(*buf) =~= bytes_mut_view(*old(buf)) + sq_udp_control_encoding(
                self.model(),
            ));
        }
    }
}

impl SDecodeSync for SQUdpControlHeader {
    open spec fn spec_parse(s: Seq<u8>) -> Parsed<SpecSQUdpControlHeader> {
        sq_udp_control_parse(s)
    }

    fn try_decode_sync(buf: &mut Bytes) -> (r: Decoded<SQUdpControlHeader>) {
        let dst = match decode_socks_addr(buf) {
            Decoded::Value(a) => a,
            Decoded::Invalid => return Decoded::Invalid,
            Decoded::Short => return Decoded::Short,
        };
        if bytes_len(buf) < 2 {
            return Decoded::Short;
        }
        let id = get_u16(buf);
        Decoded::Value(SQUdpControlHeader { dst, id })
    }
}

pub proof fn lemma_sq_udp_control_roundtrip(m: SpecSQUdpControlHeader, rest: Seq<u8>)
    requires
        socks_addr_wf(m.dst),
    ensures
        sq_udp_control_parse(sq_udp_control_encoding(m) + rest) == Parsed::Done(m, rest),
{
    let r = be_u16(m.id) + rest;
    assert(sq_udp_control_encoding(m) + rest =~= socks_addr_encoding(m.dst) + r);
    lemma_socks_addr_roundtrip(m.dst, r);
    lemma_be_u16_roundtrip(m.id, rest);
    assert(r.skip(2) =~= rest);
}

/// The header of a UDP packet sent over a stream: the id and the length.
#[derive(Clone, Copy, PartialEq, Eq, Structural, Debug)]
pub struct SQPacketStreamHeader {
    pub id: u16,
    pub len: u16,
}

impl WireModel for SQPacketStreamHeader {
    type Model = SQPacketStreamHeader;

    open spec fn model(&self) -> SQPacketStreamHeader {
        *self
    }
}

impl SEncodeSync for SQPacketStreamHeader {
    open spec fn spec_encodable(m: SQPacketStreamHeader) -> bool {
        true
    }

    open spec fn spec_encoding(m: SQPacketStreamHeader) -> Seq<u8> {
        be_u16(m.id) + be_u16(m.len)
    }

    fn encode_sync(&self, buf: &mut BytesMut) {
        put_u16(buf, self.id);
        put_u16(buf, self.len);
        proof {
            assert(bytes_mut_view(*buf) =~= bytes_mut_view(*old(buf)) + (be_u16(self.id) + be_u16(
                self.len,
            )));
        }
    }
}

impl SDecodeSync for SQPacketStreamHeader {
    open spec fn spec_parse(s: Seq<u8>) -> Parsed<SQPacketStreamHeader> {
        if s.len() < 4 {
            Parsed::Short
        } else {
            Parsed::Done(SQPacketStreamHeader { id: u16_of_be(s), len: u16_of_be(s.skip(2)) }, s.skip(4))
        }
    }

    fn try_decode_sync(buf: &mut Bytes) -> (r: Decoded<SQPacketStreamHeader>) {
        if bytes_len(buf) < 4 {
            return Decoded::Short;
        }
        let ghost s = bytes_view(*buf);
        let id = get_u16(buf);
        let len = get_u16(buf);
        proof {
            assert(s.skip(2).skip(2) =~= s.skip(4));
        }
        Decoded::Value(SQPacketStreamHeader { id, len })
    }
}

pub proof fn lemma_sq_packet_stream_header_roundtrip(m: SQPacketStreamHeader, rest: Seq<u8>)
    ensures
        SQPacketStreamHeader::spec_parse(SQPacketStreamHeader::spec_encoding(m) + rest)
            == Parsed::Done(m, rest),
{
    let s = be_u16(m.id) + be_u16(m.len) + rest;
    lemma_be_u16_roundtrip(m.id, s.skip(2));
    lemma_be_u16_roundtrip(m.len, rest);
    assert(s =~= be_u16(m.id) + s.skip(2));
    assert(s.skip(2) =~= be_u16(m.len) + rest);
    assert(s.skip(4) =~= rest);
}

/// The header of a UDP packet sent as a datagram: the id.
#[derive(Clone, Copy, PartialEq, Eq, Structural, Debug)]
pub struct SQPacketDatagramHeader {
    pub id: u16,
}

impl WireModel for SQPacketDatagramHeader {
    type Model = SQPacketDatagramHeader;

    open spec fn model(&self) -> SQPacketDatagramHeader {
        *self
    }
}

impl SEncodeSync for SQPacketDatagramHeader {
    open spec fn spec_encodable(m: SQPacketDatagramHeader) -> bool {
        true
    }

    open spec fn spec_encoding(m: SQPacketDatagramHeader) -> Seq<u8> {
        be_u16(m.id)
    }

    fn encode_sync(&self, buf: &mut BytesMut) {
        put_u16(buf, self.id);
    }
}

impl SDecodeSync for SQPacketDatagramHeader {
    open spec fn spec_parse(s: Seq<u8>) -> Parsed<SQPacketDatagramHeader> {
        if s.len() < 2 {
            Parsed::Short
        } else {
            Parsed::Done(SQPacketDatagramHeader { id: u16_of_be(s) }, s.skip(2))
        }
    }

    fn try_decode_sync(buf: &mut Bytes) -> (r: Decoded<SQPacketDatagramHeader>) {
        if bytes_len(buf) < 2 {
            return Decoded::Short;
        }
        let id = get_u16(buf);
        Decoded::Value(SQPacketDatagramHeader { id })
    }
}

pub proof fn lemma_sq_packet_datagram_header_roundtrip(m: SQPacketDatagramHeader, rest: Seq<u8>)
    ensures
        SQPacketDatagramHeader::spec_parse(SQPacketDatagramHeader::spec_encoding(m) + rest)
            == Parsed::Done(m, rest),
{
    lemma_be_u16_roundtrip(m.id, rest);
    assert((be_u16(m.id) + rest).skip(2) =~= rest);
}

} // verus!
