//! A compact form of a SOCKS address: its type byte, its port, and the bytes
//! of the address (with a length byte in front for a domain name).

use crate::bytes_io::{
    be_u16, bytes_as_slice, bytes_copy_from_slice, bytes_len, bytes_mut_view, bytes_slice, bytes_view,
    extend_from_slice, freeze, lemma_be_u16_roundtrip, max_buf_len, put_u16, put_u8, u16_of_be,
    bytes_mut_with_capacity,
};
use bytes::{Bytes, BytesMut};
use rustc_hash::FxHasher;
use std::hash::{Hash, Hasher};
use vstd::prelude::*;
use vstd::string::StringSliceAdditionalSpecFns;

verus! {

#[derive(Clone, Debug, PartialEq, Eq, Hash)]
pub struct CompactSocksAddr {
    addr_type: u8,
    port: u16,
    data: Bytes,
}

/// A compact address as values: type byte, port, address bytes.
pub struct CompactModel {
    pub addr_type: u8,
    pub port: u16,
    pub data: Seq<u8>,
}

/// What `decode` makes of a byte sequence: after the type byte, four
/// address bytes and a port for type 1, sixteen and a port for type 4, and
/// for type 3 a length byte, that many bytes of name and a port. The length
/// byte of a name is not kept. Any other type, or too few bytes, is refused.
pub open spec fn compact_decode(s: Seq<u8>) -> Option<CompactModel> {
    if s.len() == 0 {
        None
    } else {
        let t = s[0];
        let d = s.skip(1);
        if t == 1 {
            if d.len() < 6 {
                None
            } else {
                Some(CompactModel { addr_type: t, port: u16_of_be(d.skip(4)), data: d.take(4) })
            }
        } else if t == 4 {
            if d.len() < 18 {
                None
            } else {
                Some(CompactModel { addr_type: t, port: u16_of_be(d.skip(16)), data: d.take(16) })
            }
        } else if t == 3 {
            if d.len() == 0 {
                None
            } else if d.len() < 1 + d[0] + 2 {
                None
            } else {
                Some(
                    CompactModel {
                        addr_type: t,
                        port: u16_of_be(d.skip(1 + d[0])),
                        data: d.subrange(1, 1 + d[0]),
                    },
                )
            }
        } else {
            None
        }
    }
}

/// What `encode` appends: the type byte, the address bytes, the port.
pub open spec fn compact_encoding(m: CompactModel) -> Seq<u8> {
    seq![m.addr_type] + m.data + be_u16(m.port)
}

impl CompactSocksAddr {
    pub closed spec fn model(self) -> CompactModel {
        CompactModel { addr_type: self.addr_type, port: self.port, data: bytes_view(self.data) }
    }

    pub fn from_ipv4(ip: [u8; 4], port: u16) -> (a: Self)
        ensures
            a.model() == (CompactModel { addr_type: 1, port, data: ip@ }),
    {
        CompactSocksAddr { addr_type: 1, port, data: bytes_copy_from_slice(&ip) }
    }

    pub fn from_ipv6(ip: [u8; 16], port: u16) -> (a: Self)
        ensures
            a.model() == (CompactModel { addr_type: 4, port, data: ip@ }),
    {
        CompactSocksAddr { addr_type: 4, port, data: bytes_copy_from_slice(&ip) }
    }

    /// A domain name: its length byte (the length taken modulo 256), then its
    /// UTF-8 bytes.
    pub fn from_domain(domain: &str, port: u16) -> (a: Self)
        requires
            domain.spec_bytes().len() + 1 <= max_buf_len(),
        ensures
            a.model() == (CompactModel {
                addr_type: 3,
                port,
                data: seq![(domain.spec_bytes().len() as u8)] + domain.spec_bytes(),
            }),
    {
        let bytes = domain.as_bytes();
        let mut buf = bytes_mut_with_capacity(1 + domain.len());
        put_u8(&mut buf, domain.len() as u8);
        extend_from_slice(&mut buf, bytes);
        CompactSocksAddr { addr_type: 3, port, data: freeze(buf) }
    }

    /// A domain name given by the bytes that stand for it.
    pub fn from_domain_bytes(domain: Bytes, port: u16) -> (a: Self)
        ensures
            a.model() == (CompactModel { addr_type: 3, port, data: bytes_view(domain) }),
    {
        CompactSocksAddr { addr_type: 3, port, data: domain }
    }

    pub fn addr_type(&self) -> (t: u8)
        ensures
            t == self.model().addr_type,
    {
        self.addr_type
    }

    pub fn port(&self) -> (p: u16)
        ensures
            p == self.model().port,
    {
        self.port
    }

    pub fn as_bytes(&self) -> (b: &Bytes)
        ensures
            bytes_view(*b) == self.model().data,
    {
        &self.data
    }

    /// Appends the type byte, the address bytes and the port.
    pub fn encode(&self, buf: &mut BytesMut)
        requires
            bytes_mut_view(*old(buf)).len() + compact_encoding(self.model()).len() <= max_buf_len(),
        ensures
            bytes_mut_view(*final(buf)) == bytes_mut_view(*old(buf)) + compact_encoding(self.model()),
    {
        put_u8(buf, self.addr_type);
        extend_from_slice(buf, bytes_as_slice(&self.data));
        put_u16(buf, self.port);
        assert(bytes_mut_view(*buf) =~= bytes_mut_view(*old(buf)) + compact_encoding(self.model()));
    }

    /// Reads an address from the front of `data`, which is left as it was.
    pub fn decode(data: &mut Bytes) -> (r: Option<Self>)
        ensures
            bytes_view(*final(data)) == bytes_view(*old(data)),
            r is Some <==> compact_decode(bytes_view(*old(data))) is Some,
            r matches Some(a) ==> a.model() == compact_decode(bytes_view(*old(data)))->0,
    {
        let n = bytes_len(data);
        if n == 0 {
            return None;
        }
        let s = bytes_as_slice(data);
        let addr_type = s[0];
        let data = bytes_slice(data, 1, n);
        let d = bytes_as_slice(&data);
        let ghost dv = bytes_view(data);
        if addr_type == 1 {
            if d.len() < 6 {
                return None;
            }
            let ip = bytes_slice(&data, 0, 4);
            let port = ((d[4] as u16) << 8u16) | (d[5] as u16);
            proof {
                assert(dv.skip(4)[0] == d@[4] && dv.skip(4)[1] == d@[5]);
                assert(dv.subrange(0, 4) =~= dv.take(4));
            }
            Some(CompactSocksAddr { addr_type, port, data: ip })
        } else if addr_type == 4 {
            if d.len() < 18 {
                return None;
            }
            let ip = bytes_slice(&data, 0, 16);
            let port = ((d[16] as u16) << 8u16) | (d[17] as u16);
            proof {
                assert(dv.skip(16)[0] == d@[16] && dv.skip(16)[1] == d@[17]);
                assert(dv.subrange(0, 16) =~= dv.take(16));
            }
            Some(CompactSocksAddr { addr_type, port, data: ip })
        } else if addr_type == 3 {
            if d.len() == 0 {
                return None;
            }
            let len = d[0] as usize;
            if d.len() < 1 + len + 2 {
                return None;
            }
            let domain = bytes_slice(&data, 1, 1 + len);
            let port = ((d[1 + len] as u16) << 8u16) | (d[1 + len + 1] as u16);
            proof {
                assert(dv.skip(1 + len)[0] == d@[1 + len as int] && dv.skip(1 + len)[1] == d@[1 + len + 1]);
            }
            Some(CompactSocksAddr { addr_type, port, data: domain })
        } else {
            None
        }
    }
}

/// Encoding an IPv4 or IPv6 address and decoding the result gives the same
/// address back.
pub proof fn lemma_compact_ip_roundtrip(m: CompactModel)
    requires
        (m.addr_type == 1 && m.data.len() == 4) || (m.addr_type == 4 && m.data.len() == 16),
    ensures
        compact_decode(compact_encoding(m)) == Some(m),
{
    let s = compact_encoding(m);
    let d = s.skip(1);
    let k = m.data.len() as int;
    assert(d =~= m.data + be_u16(m.port));
    lemma_be_u16_roundtrip(m.port, Seq::empty());
    assert(d.skip(k) =~= be_u16(m.port) + Seq::<u8>::empty());
    assert(d.take(k) =~= m.data);
}

/// Encoding a domain name whose data is its length byte and that many bytes,
/// and decoding the result, gives the same address back without the length
/// byte.
pub proof fn lemma_compact_domain_roundtrip(m: CompactModel)
    requires
        m.addr_type == 3,
        m.data.len() >= 1,
        m.data[0] == m.data.len() - 1,
    ensures
        compact_decode(compact_encoding(m)) == Some(CompactModel { data: m.data.skip(1), ..m }),
{
    let s = compact_encoding(m);
    let d = s.skip(1);
    let k = m.data.len() as int;
    assert(d =~= m.data + be_u16(m.port));
    lemma_be_u16_roundtrip(m.port, Seq::empty());
    assert(d.skip(k) =~= be_u16(m.port) + Seq::<u8>::empty());
    assert(d.subrange(1, k) =~= m.data.skip(1));
}

/// `FxHasher` over the address bytes, then the port widened to 64 bits. The
/// hash of the bytes depends on the width of `usize`, so nothing is stated
/// of the result.
#[verifier::external_body]
fn fx_hash_compact(data: &Bytes, port: u16) -> (h: u64) {
    let mut h = FxHasher::default();
    data.hash(&mut h);
    (port as u64).hash(&mut h);
    h.finish()
}

/// A hash of an address, for picking a shard.
pub fn fast_hash(addr: &CompactSocksAddr) -> (h: u64) {
    fx_hash_compact(&addr.data, addr.port)
}

} // verus!
