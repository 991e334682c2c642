//! SOCKS5 messages (RFC 1928, RFC 1929) and the address form shared with the
//! framed protocol.

pub mod consts;

pub use self::consts::{
    SOCKS5_ADDR_TYPE_DOMAIN_NAME, SOCKS5_ADDR_TYPE_IPV4, SOCKS5_ADDR_TYPE_IPV6,
    SOCKS5_AUTH_METHOD_GSSAPI, SOCKS5_AUTH_METHOD_NONE, SOCKS5_AUTH_METHOD_NOT_ACCEPTABLE,
    SOCKS5_AUTH_METHOD_PASSWORD, SOCKS5_CMD_TCP_BIND, SOCKS5_CMD_TCP_CONNECT,
    SOCKS5_CMD_UDP_ASSOCIATE, SOCKS5_REPLY_ADDRESS_TYPE_NOT_SUPPORTED,
    SOCKS5_REPLY_COMMAND_NOT_SUPPORTED, SOCKS5_REPLY_CONNECTION_NOT_ALLOWED,
    SOCKS5_REPLY_CONNECTION_REFUSED, SOCKS5_REPLY_GENERAL_FAILURE, SOCKS5_REPLY_HOST_UNREACHABLE,
    SOCKS5_REPLY_NETWORK_UNREACHABLE, SOCKS5_REPLY_SUCCEEDED, SOCKS5_REPLY_TTL_EXPIRED,
    SOCKS5_RESERVE, SOCKS5_VERSION,
};
use crate::bytes_io::{
    be_u16, bytes_as_slice, bytes_len, bytes_mut_view, bytes_view, copy_to_bytes, copy_to_slice,
    extend_from_slice, get_u16, get_u8, lemma_be_u16_roundtrip, max_buf_len, put_u16, put_u8,
    u16_of_be,
};
use crate::msgs::{decoded_agrees, Decoded, Parsed, SDecodeSync, SEncodeSync, WireModel};
use bytes::{Bytes, BytesMut};
use vstd::prelude::*;
use vstd::slice::slice_subrange;
use vstd::utf8::encode_utf8;
use vstd::std_specs::convert::FromSpecImpl;

verus! {

// ---------------------------------------------------------------------------
// Length-prefixed byte strings
// ---------------------------------------------------------------------------

/// A byte string of at most 255 bytes behind a one-byte length. Only the
/// first `len` bytes of `contents` are sent.
#[derive(Clone, Debug, Hash, PartialEq, Eq)]
pub struct VarVec {
    pub len: u8,
    pub contents: Vec<u8>,
}

pub struct SpecVarVec {
    pub len: u8,
    pub contents: Seq<u8>,
}

impl WireModel for VarVec {
    type Model = SpecVarVec;

    open spec fn model(&self) -> SpecVarVec {
        SpecVarVec { len: self.len, contents: self.contents@ }
    }
}

/// Sending reads the first `len` bytes, which must exist.
pub open spec fn varvec_encodable(v: SpecVarVec) -> bool {
    v.len <= v.contents.len()
}

pub open spec fn varvec_encoding(v: SpecVarVec) -> Seq<u8> {
    seq![v.len] + v.contents.take(v.len as int)
}

/// What `VarVec::decode_sync` makes of a byte sequence.
pub open spec fn varvec_parse(s: Seq<u8>) -> Parsed<SpecVarVec> {
    if s.len() < 1 {
        Parsed::Short
    } else {
        let n = s[0];
        let t = s.skip(1);
        if t.len() < n {
            Parsed::Reject(t)
        } else {
            Parsed::Done(SpecVarVec { len: n, contents: t.take(n as int) }, t.skip(n as int))
        }
    }
}

/// A string whose length field tells its actual length.
pub open spec fn varvec_wf(v: SpecVarVec) -> bool {
    v.len == v.contents.len()
}

impl SEncodeSync for VarVec {
    open spec fn spec_encodable(m: SpecVarVec) -> bool {
        varvec_encodable(m)
    }

    open spec fn spec_encoding(m: SpecVarVec) -> Seq<u8> {
        varvec_encoding(m)
    }

    fn encode_sync(&self, buf: &mut BytesMut) {
        encode_varvec(self, buf)
    }
}

/// Appends the encoding of `x`.
pub fn encode_varvec(x: &VarVec, buf: &mut BytesMut)
    requires
        <VarVec as SEncodeSync>::spec_encodable(x.model()),
        bytes_mut_view(*old(buf)).len() + <VarVec as SEncodeSync>::spec_encoding(x.model()).len()
            <= max_buf_len(),
    ensures
        bytes_mut_view(*final(buf)) == bytes_mut_view(*old(buf)) + <VarVec as SEncodeSync>::spec_encoding(
            x.model(),
        ),
{
    put_u8(buf, x.len);
    extend_from_slice(buf, slice_subrange(x.contents.as_slice(), 0, x.len as usize));
    proof {
        assert(bytes_mut_view(*buf) =~= bytes_mut_view(*old(buf)) + varvec_encoding(x.model()));
    }
}

impl SDecodeSync for VarVec {
    open spec fn spec_parse(s: Seq<u8>) -> Parsed<SpecVarVec> {
        varvec_parse(s)
    }

    fn try_decode_sync(buf: &mut Bytes) -> (r: Decoded<VarVec>) {
        decode_varvec(buf)
    }
}

/// Reads a one-byte length and that many bytes.
pub fn decode_varvec(buf: &mut Bytes) -> (r: Decoded<VarVec>)
    ensures
        decoded_agrees(r, varvec_parse(bytes_view(*old(buf))), bytes_view(*final(buf))),
{
    if bytes_len(buf) < 1 {
        return Decoded::Short;
    }
    let len = get_u8(buf) as usize;
    if bytes_len(buf) < len {
        return Decoded::Invalid;
    }
    let mut contents = vec![0u8; len];
    copy_to_slice(buf, contents.as_mut_slice());
    Decoded::Value(VarVec { len: len as u8, contents })
}

pub proof fn lemma_varvec_roundtrip(v: SpecVarVec, rest: Seq<u8>)
    requires
        varvec_wf(v),
    ensures
        varvec_parse(varvec_encoding(v) + rest) == Parsed::Done(v, rest),
{
    let s = varvec_encoding(v) + rest;
    assert(s.skip(1) =~= v.contents + rest);
    assert((v.contents + rest).take(v.len as int) =~= v.contents);
    assert((v.contents + rest).skip(v.len as int) =~= rest);
    assert(v.contents.take(v.len as int) =~= v.contents);
}

/// The length is the vector's length taken modulo 256.
impl From<Vec<u8>> for VarVec {
    fn from(vec: Vec<u8>) -> (r: Self) {
        VarVec { len: vec.len() as u8, contents: vec }
    }
}

impl FromSpecImpl<Vec<u8>> for VarVec {
    open spec fn obeys_from_spec() -> bool {
        true
    }

    open spec fn from_spec(vec: Vec<u8>) -> VarVec {
        VarVec { len: vec@.len() as u8, contents: vec }
    }
}

/// A byte string of at most 255 bytes behind a one-byte length, held in a `Bytes`.
#[derive(Clone, Debug)]
pub struct VarBytes {
    pub len: u8,
    pub contents: Bytes,
}

impl WireModel for VarBytes {
    type Model = SpecVarVec;

    open spec fn model(&self) -> SpecVarVec {
        SpecVarVec { len: self.len, contents: bytes_view(self.contents) }
    }
}

impl VarBytes {
    /// Wraps `contents` when it is at most 255 bytes long.
    pub fn new(contents: Bytes) -> (r: Option<Self>)
        ensures
            r is Some <==> bytes_view(contents).len() <= 255,
            r matches Some(v) ==> v.model() == (SpecVarVec {
                len: bytes_view(contents).len() as u8,
                contents: bytes_view(contents),
            }),
    {
        let len = bytes_len(&contents);
        if len > 255 {
            return None;
        }
        Some(VarBytes { len: len as u8, contents })
    }

    /// The first `len` bytes.
    pub fn as_slice(&self) -> (s: &[u8])
        requires
            self.len <= bytes_view(self.contents).len(),
        ensures
            s@ == bytes_view(self.contents).take(self.len as int),
    {
        slice_subrange(bytes_as_slice(&self.contents), 0, self.len as usize)
    }
}

impl SEncodeSync for VarBytes {
    open spec fn spec_encodable(m: SpecVarVec) -> bool {
        varvec_encodable(m)
    }

    open spec fn spec_encoding(m: SpecVarVec) -> Seq<u8> {
        varvec_encoding(m)
    }

    fn encode_sync(&self, buf: &mut BytesMut) {
        encode_var_bytes(self, buf)
    }
}

/// Appends the encoding of `x`.
pub fn encode_var_bytes(x: &VarBytes, buf: &mut BytesMut)
    requires
        <VarBytes as SEncodeSync>::spec_encodable(x.model()),
        bytes_mut_view(*old(buf)).len() + <VarBytes as SEncodeSync>::spec_encoding(x.model()).len()
            <= max_buf_len(),
    ensures
        bytes_mut_view(*final(buf)) == bytes_mut_view(*old(buf)) + <VarBytes as SEncodeSync>::spec_encoding(
            x.model(),
        ),
{
    put_u8(buf, x.len);
    extend_from_slice(buf, x.as_slice());
    proof {
        assert(bytes_mut_view(*buf) =~= bytes_mut_view(*old(buf)) + varvec_encoding(x.model()));
    }
}

impl SDecodeSync for VarBytes {
    open spec fn spec_parse(s: Seq<u8>) -> Parsed<SpecVarVec> {
        varvec_parse(s)
    }

    fn try_decode_sync(buf: &mut Bytes) -> (r: Decoded<VarBytes>) {
        decode_var_bytes(buf)
    }
}

/// Reads a value off the front of `buf`.
pub fn decode_var_bytes(buf: &mut Bytes) -> (r: Decoded<VarBytes>)
    ensures
        decoded_agrees(r, <VarBytes as SDecodeSync>::spec_parse(bytes_view(*old(buf))), bytes_view(*final(buf))),
{
    if bytes_len(buf) < 1 {
        return Decoded::Short;
    }
    let len = get_u8(buf) as usize;
    if bytes_len(buf) < len {
        return Decoded::Invalid;
    }
    let contents = copy_to_bytes(buf, len);
    Decoded::Value(VarBytes { len: len as u8, contents })
}

// ---------------------------------------------------------------------------
// Addresses
// ---------------------------------------------------------------------------

/// An IPv4 address, an IPv6 address or a domain name.
#[derive(Clone, Debug, Hash, PartialEq, Eq)]
pub enum AddrOrDomain {
    V4([u8; 4]),
    V6([u8; 16]),
    Domain(VarVec),
}

pub enum SpecAddr {
    V4(Seq<u8>),
    V6(Seq<u8>),
    Domain(SpecVarVec),
}

impl WireModel for AddrOrDomain {
    type Model = SpecAddr;

    open spec fn model(&self) -> SpecAddr {
        match self {
            AddrOrDomain::V4(v) => SpecAddr::V4(v@),
            AddrOrDomain::V6(v) => SpecAddr::V6(v@),
            AddrOrDomain::Domain(v) => SpecAddr::Domain(v.model()),
        }
    }
}

pub open spec fn addr_encodable(a: SpecAddr) -> bool {
    match a {
        SpecAddr::Domain(v) => varvec_encodable(v),
        _ => true,
    }
}

/// The type byte, then four or sixteen address bytes, or a length-prefixed name.
pub open spec fn addr_encoding(a: SpecAddr) -> Seq<u8> {
    match a {
        SpecAddr::V4(b) => seq![SOCKS5_ADDR_TYPE_IPV4] + b,
        SpecAddr::V6(b) => seq![SOCKS5_ADDR_TYPE_IPV6] + b,
        SpecAddr::Domain(v) => seq![SOCKS5_ADDR_TYPE_DOMAIN_NAME] + varvec_encoding(v),
    }
}

/// What `AddrOrDomain::decode_sync` makes of a byte sequence.
pub open spec fn addr_parse(s: Seq<u8>) -> Parsed<SpecAddr> {
    if s.len() < 1 {
        Parsed::Short
    } else {
        let typ = s[0];
        let t = s.skip(1);
        if typ == SOCKS5_ADDR_TYPE_IPV4 {
            if t.len() < 4 {
                Parsed::Short
            } else {
                Parsed::Done(SpecAddr::V4(t.take(4)), t.skip(4))
            }
        } else if typ == SOCKS5_ADDR_TYPE_IPV6 {
            if t.len() < 16 {
                Parsed::Short
            } else {
                Parsed::Done(SpecAddr::V6(t.take(16)), t.skip(16))
            }
        } else if typ == SOCKS5_ADDR_TYPE_DOMAIN_NAME {
            match varvec_parse(t) {
                Parsed::Done(v, r) => Parsed::Done(SpecAddr::Domain(v), r),
                Parsed::Reject(r) => Parsed::Reject(r),
                Parsed::Short => Parsed::Short,
            }
        } else {
            Parsed::Reject(t)
        }
    }
}

/// An address that decodes back to itself.
pub open spec fn addr_wf(a: SpecAddr) -> bool {
    match a {
        SpecAddr::V4(b) => b.len() == 4,
        SpecAddr::V6(b) => b.len() == 16,
        SpecAddr::Domain(v) => varvec_wf(v),
    }
}

impl SEncodeSync for AddrOrDomain {
    open spec fn spec_encodable(m: SpecAddr) -> bool {
        addr_encodable(m)
    }

    open spec fn spec_encoding(m: SpecAddr) -> Seq<u8> {
        addr_encoding(m)
    }

    fn encode_sync(&self, buf: &mut BytesMut) {
        encode_addr(self, buf)
    }
}

/// Appends the encoding of `x`.
pub fn encode_addr(x: &AddrOrDomain, buf: &mut BytesMut)
    requires
        <AddrOrDomain as SEncodeSync>::spec_encodable(x.model()),
        bytes_mut_view(*old(buf)).len() + <AddrOrDomain as SEncodeSync>::spec_encoding(x.model()).len()
            <= max_buf_len(),
    ensures
        bytes_mut_view(*final(buf)) == bytes_mut_view(*old(buf)) + <AddrOrDomain as SEncodeSync>::spec_encoding(
            x.model(),
        ),
{
    match x {
        AddrOrDomain::V4(v) => {
            put_u8(buf, SOCKS5_ADDR_TYPE_IPV4);
            extend_from_slice(buf, v);
        },
        AddrOrDomain::V6(v) => {
            put_u8(buf, SOCKS5_ADDR_TYPE_IPV6);
            extend_from_slice(buf, v);
        },
        AddrOrDomain::Domain(v) => {
            put_u8(buf, SOCKS5_ADDR_TYPE_DOMAIN_NAME);
            encode_varvec(v, buf);
        },
    }
    proof {
        assert(bytes_mut_view(*buf) =~= bytes_mut_view(*old(buf)) + addr_encoding(x.model()));
    }
}

impl SDecodeSync for AddrOrDomain {
    open spec fn spec_parse(s: Seq<u8>) -> Parsed<SpecAddr> {
        addr_parse(s)
    }

    fn try_decode_sync(buf: &mut Bytes) -> (r: Decoded<AddrOrDomain>) {
        decode_addr(buf)
    }
}

/// Reads an address type byte and the address it announces.
pub fn decode_addr(buf: &mut Bytes) -> (r: Decoded<AddrOrDomain>)
    ensures
        decoded_agrees(r, addr_parse(bytes_view(*old(buf))), bytes_view(*final(buf))),
{
    if bytes_len(buf) < 1 {
        return Decoded::Short;
    }
    let typ = get_u8(buf);
    if typ == SOCKS5_ADDR_TYPE_IPV4 {
        if bytes_len(buf) < 4 {
            return Decoded::Short;
        }
        let mut v = [0u8; 4];
        copy_to_slice(buf, &mut v);
        Decoded::Value(AddrOrDomain::V4(v))
    } else if typ == SOCKS5_ADDR_TYPE_IPV6 {
        if bytes_len(buf) < 16 {
            return Decoded::Short;
        }
        let mut v = [0u8; 16];
        copy_to_slice(buf, &mut v);
        Decoded::Value(AddrOrDomain::V6(v))
    } else if typ == SOCKS5_ADDR_TYPE_DOMAIN_NAME {
        match decode_varvec(buf) {
            Decoded::Value(v) => Decoded::Value(AddrOrDomain::Domain(v)),
            Decoded::Invalid => Decoded::Invalid,
            Decoded::Short => Decoded::Short,
        }
    } else {
        Decoded::Invalid
    }
}

pub proof fn lemma_addr_roundtrip(a: SpecAddr, rest: Seq<u8>)
    requires
        addr_wf(a),
    ensures
        addr_parse(addr_encoding(a) + rest) == Parsed::Done(a, rest),
{
    let s = addr_encoding(a) + rest;
    match a {
        SpecAddr::V4(b) => {
            assert(s.skip(1) =~= b + rest);
            assert((b + rest).take(4) =~= b);
            assert((b + rest).skip(4) =~= rest);
        },
        SpecAddr::V6(b) => {
            assert(s.skip(1) =~= b + rest);
            assert((b + rest).take(16) =~= b);
            assert((b + rest).skip(16) =~= rest);
        },
        SpecAddr::Domain(v) => {
            assert(s.skip(1) =~= varvec_encoding(v) + rest);
            lemma_varvec_roundtrip(v, rest);
        },
    }
}

/// A destination: an address and a port.
#[derive(Clone, Debug, Hash, PartialEq, Eq)]
pub struct SocksAddr {
    pub addr: AddrOrDomain,
    pub port: u16,
}

pub struct SpecSocksAddr {
    pub addr: SpecAddr,
    pub port: u16,
}

impl WireModel for SocksAddr {
    type Model = SpecSocksAddr;

    open spec fn model(&self) -> SpecSocksAddr {
        SpecSocksAddr { addr: self.addr.model(), port: self.port }
    }
}

pub open spec fn socks_addr_encodable(a: SpecSocksAddr) -> bool {
    addr_encodable(a.addr)
}

/// The address, then the port in big-endian order.
pub open spec fn socks_addr_encoding(a: SpecSocksAddr) -> Seq<u8> {
    addr_encoding(a.addr) + be_u16(a.port)
}

/// What `SocksAddr::decode_sync` makes of a byte sequence.
pub open spec fn socks_addr_parse(s: Seq<u8>) -> Parsed<SpecSocksAddr> {
    match addr_parse(s) {
        Parsed::Done(addr, r) => if r.len() < 2 {
            Parsed::Short
        } else {
            Parsed::Done(SpecSocksAddr { addr, port: u16_of_be(r) }, r.skip(2))
        },
        Parsed::Reject(r) => Parsed::Reject(r),
        Parsed::Short => Parsed::Short,
    }
}

pub open spec fn socks_addr_wf(a: SpecSocksAddr) -> bool {
    addr_wf(a.addr)
}

impl SEncodeSync for SocksAddr {
    open spec fn spec_encodable(m: SpecSocksAddr) -> bool {
        socks_addr_encodable(m)
    }

    open spec fn spec_encoding(m: SpecSocksAddr) -> Seq<u8> {
        socks_addr_encoding(m)
    }

    fn encode_sync(&self, buf: &mut BytesMut) {
        encode_socks_addr(self, buf)
    }
}

/// Appends the encoding of `x`.
pub fn encode_socks_addr(x: &SocksAddr, buf: &mut BytesMut)
    requires
        <SocksAddr as SEncodeSync>::spec_encodable(x.model()),
        bytes_mut_view(*old(buf)).len() + <SocksAddr as SEncodeSync>::spec_encoding(x.model()).len()
            <= max_buf_len(),
    ensures
        bytes_mut_view(*final(buf)) == bytes_mut_view(*old(buf)) + <SocksAddr as SEncodeSync>::spec_encoding(
            x.model(),
        ),
{
    encode_addr(&x.addr, buf);
    put_u16(buf, x.port);
    proof {
        assert(bytes_mut_view(*buf) =~= bytes_mut_view(*old(buf)) + socks_addr_encoding(
            x.model(),
        ));
    }
}

impl SDecodeSync for SocksAddr {
    open spec fn spec_parse(s: Seq<u8>) -> Parsed<SpecSocksAddr> {
        socks_addr_parse(s)
    }

    fn try_decode_sync(buf: &mut Bytes) -> (r: Decoded<SocksAddr>) {
        decode_socks_addr(buf)
    }
}

/// Reads an address and a port off the front of `buf`.
pub fn decode_socks_addr(buf: &mut Bytes) -> (r: Decoded<SocksAddr>)
    ensures
        decoded_agrees(r, socks_addr_parse(bytes_view(*old(buf))), bytes_view(*final(buf))),
{
    let addr = match decode_addr(buf) {
        Decoded::Value(a) => a,
        Decoded::Invalid => return Decoded::Invalid,
        Decoded::Short => return Decoded::Short,
    };
    if bytes_len(buf) < 2 {
        return Decoded::Short;
    }
    let port = get_u16(buf);
    Decoded::Value(SocksAddr { addr, port })
}

pub proof fn lemma_socks_addr_roundtrip(a: SpecSocksAddr, rest: Seq<u8>)
    requires
        socks_addr_wf(a),
    ensures
        socks_addr_parse(socks_addr_encoding(a) + rest) == Parsed::Done(a, rest),
{
    let s = socks_addr_encoding(a) + rest;
    assert(s =~= addr_encoding(a.addr) + (be_u16(a.port) + rest));
    lemma_addr_roundtrip(a.addr, be_u16(a.port) + rest);
    lemma_be_u16_roundtrip(a.port, rest);
    assert((be_u16(a.port) + rest).skip(2) =~= rest);
}


/// `String::into_bytes`: the UTF-8 bytes of the string.
#[verifier::external_body]
fn string_into_bytes(s: String) -> (v: Vec<u8>)
    ensures
        v@ == encode_utf8(s@),
{
    s.into_bytes()
}

/// A copy of `src`, byte for byte.
fn copy_bytes(src: &Vec<u8>) -> (r: Vec<u8>)
    ensures
        r@ == src@,
{
    let mut r: Vec<u8> = Vec::new();
    let mut i: usize = 0;
    while i < src.len()
        invariant
            i <= src@.len(),
            r@ == src@.take(i as int),
        decreases src@.len() - i,
    {
        r.push(src[i]);
        i = i + 1;
        proof {
            assert(r@ =~= src@.take(i as int));
        }
    }
    proof {
        assert(src@.take(i as int) =~= src@);
    }
    r
}

impl VarVec {
    /// A copy with the same length byte and bytes.
    pub fn duplicate(&self) -> (r: Self)
        ensures
            r.model() == self.model(),
    {
        VarVec { len: self.len, contents: copy_bytes(&self.contents) }
    }
}

impl AddrOrDomain {
    /// A copy of the same address or name.
    pub fn duplicate(&self) -> (r: Self)
        ensures
            r.model() == self.model(),
    {
        match self {
            AddrOrDomain::V4(a) => AddrOrDomain::V4(*a),
            AddrOrDomain::V6(a) => AddrOrDomain::V6(*a),
            AddrOrDomain::Domain(v) => AddrOrDomain::Domain(v.duplicate()),
        }
    }
}

/// Whether two byte vectors hold the same bytes.
fn same_bytes(a: &Vec<u8>, b: &Vec<u8>) -> (r: bool)
    ensures
        r == (a@ == b@),
{
    if a.len() != b.len() {
        return false;
    }
    let mut i: usize = 0;
    while i < a.len()
        invariant
            i <= a@.len(),
            a@.len() == b@.len(),
            a@.take(i as int) == b@.take(i as int),
        decreases a@.len() - i,
    {
        if a[i] != b[i] {
            assert(a@[i as int] != b@[i as int]);
            return false;
        }
        assert(a@.take(i as int + 1) =~= a@.take(i as int).push(a@[i as int]));
        assert(b@.take(i as int + 1) =~= b@.take(i as int).push(b@[i as int]));
        i = i + 1;
    }
    assert(a@.take(i as int) =~= a@);
    assert(b@.take(i as int) =~= b@);
    true
}

impl SocksAddr {
    /// Whether `self` and `other` are the same destination.
    pub fn same_addr(&self, other: &SocksAddr) -> (r: bool)
        ensures
            r == (self.model() == other.model()),
    {
        if self.port != other.port {
            return false;
        }
        match (&self.addr, &other.addr) {
            (AddrOrDomain::V4(a), AddrOrDomain::V4(b)) => {
                let r = a[0] == b[0] && a[1] == b[1] && a[2] == b[2] && a[3] == b[3];
                proof {
                    if r {
                        assert(a@ =~= b@);
                    } else {
                        assert(a@ != b@ || a@[0] == b@[0] && a@[1] == b@[1] && a@[2] == b@[2] && a@[3] == b@[3]);
                    }
                }
                r
            },
            (AddrOrDomain::V6(a), AddrOrDomain::V6(b)) => {
                let mut i: usize = 0;
                while i < 16
                    invariant
                        i <= 16,
                        a@.len() == 16,
                        b@.len() == 16,
                        self.addr.model() == SpecAddr::V6(a@),
                        other.addr.model() == SpecAddr::V6(b@),
                        forall|j: int| 0 <= j < i ==> a@[j] == b@[j],
                    decreases 16 - i,
                {
                    if a[i] != b[i] {
                        assert(a@[i as int] != b@[i as int]);
                        assert(a@ != b@);
                        assert(self.addr.model() == SpecAddr::V6(a@));
                        assert(other.addr.model() == SpecAddr::V6(b@));
                        assert(self.addr.model() != other.addr.model());
                        return false;
                    }
                    i = i + 1;
                }
                assert(a@ =~= b@);
                true
            },
            (AddrOrDomain::Domain(a), AddrOrDomain::Domain(b)) => {
                a.len == b.len && same_bytes(&a.contents, &b.contents)
            },
            _ => false,
        }
    }

    /// A copy of the same destination.
    pub fn duplicate(&self) -> (r: Self)
        ensures
            r.model() == self.model(),
    {
        SocksAddr { addr: self.addr.duplicate(), port: self.port }
    }

    /// A domain-name destination. The length byte is the name's UTF-8 length
    /// taken modulo 256.
    pub fn from_domain(name: String, port: u16) -> (r: SocksAddr)
        ensures
            r.model() == (SpecSocksAddr {
                addr: SpecAddr::Domain(
                    SpecVarVec { len: encode_utf8(name@).len() as u8, contents: encode_utf8(name@) },
                ),
                port,
            }),
    {
        let contents = string_into_bytes(name);
        SocksAddr {
            addr: AddrOrDomain::Domain(VarVec { len: contents.len() as u8, contents }),
            port,
        }
    }
}

// ---------------------------------------------------------------------------
// SOCKS5 handshake messages
// ---------------------------------------------------------------------------

/// The greeting: version and the offered authentication methods.
#[derive(Clone, Debug)]
pub struct AuthReq {
    pub version: u8,
    pub methods: VarVec,
}

pub struct SpecAuthReq {
    pub version: u8,
    pub methods: SpecVarVec,
}

impl WireModel for AuthReq {
    type Model = SpecAuthReq;

    open spec fn model(&self) -> SpecAuthReq {
        SpecAuthReq { version: self.version, methods: self.methods.model() }
    }
}

pub open spec fn auth_req_encoding(m: SpecAuthReq) -> Seq<u8> {
    seq![m.version] + varvec_encoding(m.methods)
}

pub open spec fn auth_req_parse(s: Seq<u8>) -> Parsed<SpecAuthReq> {
    if s.len() < 1 {
        Parsed::Short
    } else {
        match varvec_parse(s.skip(1)) {
            Parsed::Done(methods, r) => Parsed::Done(SpecAuthReq { version: s[0], methods }, r),
            Parsed::Reject(r) => Parsed::Reject(r),
            Parsed::Short => Parsed::Short,
        }
    }
}

impl SEncodeSync for AuthReq {
    open spec fn spec_encodable(m: SpecAuthReq) -> bool {
        varvec_encodable(m.methods)
    }

    open spec fn spec_encoding(m: SpecAuthReq) -> Seq<u8> {
        auth_req_encoding(m)
    }

    fn encode_sync(&self, buf: &mut BytesMut) {
        encode_auth_req(self, buf)
    }
}

/// Appends the encoding of `x`.
pub fn encode_auth_req(x: &AuthReq, buf: &mut BytesMut)
    requires
        <AuthReq as SEncodeSync>::spec_encodable(x.model()),
        bytes_mut_view(*old(buf)).len() + <AuthReq as SEncodeSync>::spec_encoding(x.model()).len()
            <= max_buf_len(),
    ensures
        bytes_mut_view(*final(buf)) == bytes_mut_view(*old(buf)) + <AuthReq as SEncodeSync>::spec_encoding(
            x.model(),
        ),
{
    put_u8(buf, x.version);
    encode_varvec(&x.methods, buf);
    proof {
        assert(bytes_mut_view(*buf) =~= bytes_mut_view(*old(buf)) + auth_req_encoding(x.model()));
    }
}

impl SDecodeSync for AuthReq {
    open spec fn spec_parse(s: Seq<u8>) -> Parsed<SpecAuthReq> {
        auth_req_parse(s)
    }

    fn try_decode_sync(buf: &mut Bytes) -> (r: Decoded<AuthReq>) {
        decode_auth_req(buf)
    }
}

/// Reads a value off the front of `buf`.
pub fn decode_auth_req(buf: &mut Bytes) -> (r: Decoded<AuthReq>)
    ensures
        decoded_agrees(r, <AuthReq as SDecodeSync>::spec_parse(bytes_view(*old(buf))), bytes_view(*final(buf))),
{
    if bytes_len(buf) < 1 {
        return Decoded::Short;
    }
    let version = get_u8(buf);
    match decode_varvec(buf) {
        Decoded::Value(methods) => Decoded::Value(AuthReq { version, methods }),
        Decoded::Invalid => Decoded::Invalid,
        Decoded::Short => Decoded::Short,
    }
}

pub proof fn lemma_auth_req_roundtrip(m: SpecAuthReq, rest: Seq<u8>)
    requires
        varvec_wf(m.methods),
    ensures
        auth_req_parse(auth_req_encoding(m) + rest) == Parsed::Done(m, rest),
{
    let s = auth_req_encoding(m) + rest;
    assert(s.skip(1) =~= varvec_encoding(m.methods) + rest);
    lemma_varvec_roundtrip(m.methods, rest);
}

/// Username and password authentication (RFC 1929).
#[derive(Clone, Debug)]
pub struct PasswordAuthReq {
    pub version: u8,
    pub username: VarVec,
    pub password: VarVec,
}

pub struct SpecPasswordAuthReq {
    pub version: u8,
    pub username: SpecVarVec,
    pub password: SpecVarVec,
}

impl WireModel for PasswordAuthReq {
    type Model = SpecPasswordAuthReq;

    open spec fn model(&self) -> SpecPasswordAuthReq {
        SpecPasswordAuthReq {
            version: self.version,
            username: self.username.model(),
            password: self.password.model(),
        }
    }
}

pub open spec fn password_auth_req_encoding(m: SpecPasswordAuthReq) -> Seq<u8> {
    seq![m.version] + varvec_encoding(m.username) + varvec_encoding(m.password)
}

pub open spec fn password_auth_req_parse(s: Seq<u8>) -> Parsed<SpecPasswordAuthReq> {
    if s.len() < 1 {
        Parsed::Short
    } else {
        match varvec_parse(s.skip(1)) {
            Parsed::Done(username, r) => match varvec_parse(r) {
                Parsed::Done(password, r2) => Parsed::Done(
                    SpecPasswordAuthReq { version: s[0], username, password },
                    r2,
                ),
                Parsed::Reject(r2) => Parsed::Reject(r2),
                Parsed::Short => Parsed::Short,
            },
            Parsed::Reject(r) => Parsed::Reject(r),
            Parsed::Short => Parsed::Short,
        }
    }
}

impl SEncodeSync for PasswordAuthReq {
    open spec fn spec_encodable(m: SpecPasswordAuthReq) -> bool {
        varvec_encodable(m.username) && varvec_encodable(m.password)
    }

    open spec fn spec_encoding(m: SpecPasswordAuthReq) -> Seq<u8> {
        password_auth_req_encoding(m)
    }

    fn encode_sync(&self, buf: &mut BytesMut) {
        encode_password_auth_req(self, buf)
    }
}

/// Appends the encoding of `x`.
pub fn encode_password_auth_req(x: &PasswordAuthReq, buf: &mut BytesMut)
    requires
        <PasswordAuthReq as SEncodeSync>::spec_encodable(x.model()),
        bytes_mut_view(*old(buf)).len() + <PasswordAuthReq as SEncodeSync>::spec_encoding(x.model()).len()
            <= max_buf_len(),
    ensures
        bytes_mut_view(*final(buf)) == bytes_mut_view(*old(buf)) + <PasswordAuthReq as SEncodeSync>::spec_encoding(
            x.model(),
        ),
{
    put_u8(buf, x.version);
    encode_varvec(&x.username, buf);
    encode_varvec(&x.password, buf);
    proof {
        assert(bytes_mut_view(*buf) =~= bytes_mut_view(*old(buf)) + password_auth_req_encoding(
            x.model(),
        ));
    }
}

impl SDecodeSync for PasswordAuthReq {
    open spec fn spec_parse(s: Seq<u8>) -> Parsed<SpecPasswordAuthReq> {
        password_auth_req_parse(s)
    }

    fn try_decode_sync(buf: &mut Bytes) -> (r: Decoded<PasswordAuthReq>) {
        decode_password_auth_req(buf)
    }
}

/// Reads a value off the front of `buf`.
pub fn decode_password_auth_req(buf: &mut Bytes) -> (r: Decoded<PasswordAuthReq>)
    ensures
        decoded_agrees(r, <PasswordAuthReq as SDecodeSync>::spec_parse(bytes_view(*old(buf))), bytes_view(*final(buf))),
{
    if bytes_len(buf) < 1 {
        return Decoded::Short;
    }
    let version = get_u8(buf);
    let username = match decode_varvec(buf) {
        Decoded::Value(v) => v,
        Decoded::Invalid => return Decoded::Invalid,
        Decoded::Short => return Decoded::Short,
    };
    match decode_varvec(buf) {
        Decoded::Value(password) => Decoded::Value(PasswordAuthReq { version, username, password }),
        Decoded::Invalid => Decoded::Invalid,
        Decoded::Short => Decoded::Short,
    }
}

pub proof fn lemma_password_auth_req_roundtrip(m: SpecPasswordAuthReq, rest: Seq<u8>)
    requires
        varvec_wf(m.username),
        varvec_wf(m.password),
    ensures
        password_auth_req_parse(password_auth_req_encoding(m) + rest) == Parsed::Done(m, rest),
{
    let s = password_auth_req_encoding(m) + rest;
    let r = varvec_encoding(m.password) + rest;
    assert(s.skip(1) =~= varvec_encoding(m.username) + r);
    lemma_varvec_roundtrip(m.username, r);
    lemma_varvec_roundtrip(m.password, rest);
}

/// The RFC 1929 layout of a username/password request: the version byte,
/// the username's length and bytes, then the password's length and bytes.
/// Such bytes are what a request is sent as, and reading them back gives the
/// username from the first string and the password from the second.
pub proof fn lemma_password_auth_req_layout(v: u8, user: Seq<u8>, pass: Seq<u8>, rest: Seq<u8>)
    requires
        user.len() <= 255,
        pass.len() <= 255,
    ensures
        ({
            let m = SpecPasswordAuthReq {
                version: v,
                username: SpecVarVec { len: user.len() as u8, contents: user },
                password: SpecVarVec { len: pass.len() as u8, contents: pass },
            };
            let wire = seq![v, user.len() as u8] + user + seq![pass.len() as u8] + pass;
            &&& password_auth_req_encoding(m) == wire
            &&& password_auth_req_parse(wire + rest) == Parsed::Done(m, rest)
        }),
{
    let m = SpecPasswordAuthReq {
        version: v,
        username: SpecVarVec { len: user.len() as u8, contents: user },
        password: SpecVarVec { len: pass.len() as u8, contents: pass },
    };
    let wire = seq![v, user.len() as u8] + user + seq![pass.len() as u8] + pass;
    assert(user.take(user.len() as int) =~= user);
    assert(pass.take(pass.len() as int) =~= pass);
    assert(password_auth_req_encoding(m) =~= wire);
    lemma_password_auth_req_roundtrip(m, rest);
}

/// The answer to a password authentication.
#[derive(Clone, Copy, Debug, PartialEq, Eq, Structural)]
pub struct PasswordAuthReply {
    pub version: u8,
    pub status: u8,
}

impl WireModel for PasswordAuthReply {
    type Model = PasswordAuthReply;

    open spec fn model(&self) -> PasswordAuthReply {
        *self
    }
}

impl SEncodeSync for PasswordAuthReply {
    open spec fn spec_encodable(m: PasswordAuthReply) -> bool {
        true
    }

    open spec fn spec_encoding(m: PasswordAuthReply) -> Seq<u8> {
        seq![m.version, m.status]
    }

    fn encode_sync(&self, buf: &mut BytesMut) {
        encode_password_auth_reply(self, buf)
    }
}

/// Appends the encoding of `x`.
pub fn encode_password_auth_reply(x: &PasswordAuthReply, buf: &mut BytesMut)
    requires
        <PasswordAuthReply as SEncodeSync>::spec_encodable(x.model()),
        bytes_mut_view(*old(buf)).len() + <PasswordAuthReply as SEncodeSync>::spec_encoding(x.model()).len()
            <= max_buf_len(),
    ensures
        bytes_mut_view(*final(buf)) == bytes_mut_view(*old(buf)) + <PasswordAuthReply as SEncodeSync>::spec_encoding(
            x.model(),
        ),
{
    put_u8(buf, x.version);
    put_u8(buf, x.status);
    proof {
        assert(bytes_mut_view(*buf) =~= bytes_mut_view(*old(buf)) + seq![x.version, x.status]);
    }
}

impl SDecodeSync for PasswordAuthReply {
    open spec fn spec_parse(s: Seq<u8>) -> Parsed<PasswordAuthReply> {
        if s.len() < 2 {
            Parsed::Short
        } else {
            Parsed::Done(PasswordAuthReply { version: s[0], status: s[1] }, s.skip(2))
        }
    }

    fn try_decode_sync(buf: &mut Bytes) -> (r: Decoded<PasswordAuthReply>) {
        decode_password_auth_reply(buf)
    }
}

/// Reads a value off the front of `buf`.
pub fn decode_password_auth_reply(buf: &mut Bytes) -> (r: Decoded<PasswordAuthReply>)
    ensures
        decoded_agrees(r, <PasswordAuthReply as SDecodeSync>::spec_parse(bytes_view(*old(buf))), bytes_view(*final(buf))),
{
    if bytes_len(buf) < 2 {
        return Decoded::Short;
    }
    let ghost s = bytes_view(*buf);
    let version = get_u8(buf);
    let status = get_u8(buf);
    proof {
        assert(s.skip(1).skip(1) =~= s.skip(2));
    }
    Decoded::Value(PasswordAuthReply { version, status })
}

/// The server's choice of authentication method.
#[derive(Clone, Copy, Debug, PartialEq, Eq, Structural)]
pub struct AuthReply {
    pub version: u8,
    pub method: u8,
}

impl WireModel for AuthReply {
    type Model = AuthReply;

    open spec fn model(&self) -> AuthReply {
        *self
    }
}

impl SEncodeSync for AuthReply {
    open spec fn spec_encodable(m: AuthReply) -> bool {
        true
    }

    open spec fn spec_encoding(m: AuthReply) -> Seq<u8> {
        seq![m.version, m.method]
    }

    fn encode_sync(&self, buf: &mut BytesMut) {
        encode_auth_reply(self, buf)
    }
}

/// Appends the encoding of `x`.
pub fn encode_auth_reply(x: &AuthReply, buf: &mut BytesMut)
    requires
        <AuthReply as SEncodeSync>::spec_encodable(x.model()),
        bytes_mut_view(*old(buf)).len() + <AuthReply as SEncodeSync>::spec_encoding(x.model()).len()
            <= max_buf_len(),
    ensures
        bytes_mut_view(*final(buf)) == bytes_mut_view(*old(buf)) + <AuthReply as SEncodeSync>::spec_encoding(
            x.model(),
        ),
{
    put_u8(buf, x.version);
    put_u8(buf, x.method);
    proof {
        assert(bytes_mut_view(*buf) =~= bytes_mut_view(*old(buf)) + seq![x.version, x.method]);
    }
}

impl SDecodeSync for AuthReply {
    open spec fn spec_parse(s: Seq<u8>) -> Parsed<AuthReply> {
        if s.len() < 2 {
            Parsed::Short
        } else {
            Parsed::Done(AuthReply { version: s[0], method: s[1] }, s.skip(2))
        }
    }

    fn try_decode_sync(buf: &mut Bytes) -> (r: Decoded<AuthReply>) {
        decode_auth_reply(buf)
    }
}

/// Reads a value off the front of `buf`.
pub fn decode_auth_reply(buf: &mut Bytes) -> (r: Decoded<AuthReply>)
    ensures
        decoded_agrees(r, <AuthReply as SDecodeSync>::spec_parse(bytes_view(*old(buf))), bytes_view(*final(buf))),
{
    if bytes_len(buf) < 2 {
        return Decoded::Short;
    }
    let ghost s = bytes_view(*buf);
    let version = get_u8(buf);
    let method = get_u8(buf);
    proof {
        assert(s.skip(1).skip(1) =~= s.skip(2));
    }
    Decoded::Value(AuthReply { version, method })
}

// ---------------------------------------------------------------------------
// Requests and replies
// ---------------------------------------------------------------------------

/// A SOCKS5 request: version, command, reserved byte, destination.
#[derive(Clone, Debug)]
pub struct CmdReq {
    pub version: u8,
    pub cmd: u8,
    pub rsv: u8,
    pub dst: SocksAddr,
}

/// Three header bytes and an address, shared by requests and replies.
pub struct SpecCmd {
    pub version: u8,
    pub code: u8,
    pub rsv: u8,
    pub addr: SpecSocksAddr,
}

pub open spec fn cmd_encoding(m: SpecCmd) -> Seq<u8> {
    seq![m.version, m.code, m.rsv] + socks_addr_encoding(m.addr)
}

pub open spec fn cmd_parse(s: Seq<u8>) -> Parsed<SpecCmd> {
    if s.len() < 3 {
        Parsed::Short
    } else {
        match socks_addr_parse(s.skip(3)) {
            Parsed::Done(addr, r) => Parsed::Done(
                SpecCmd { version: s[0], code: s[1], rsv: s[2], addr },
                r,
            ),
            Parsed::Reject(r) => Parsed::Reject(r),
            Parsed::Short => Parsed::Short,
        }
    }
}

pub proof fn lemma_cmd_roundtrip(m: SpecCmd, rest: Seq<u8>)
    requires
        socks_addr_wf(m.addr),
    ensures
        cmd_parse(cmd_encoding(m) + rest) == Parsed::Done(m, rest),
{
    let s = cmd_encoding(m) + rest;
    assert(s.skip(3) =~= socks_addr_encoding(m.addr) + rest);
    lemma_socks_addr_roundtrip(m.addr, rest);
}

/// Reads the three header bytes and the address of a request or reply.
fn decode_cmd(buf: &mut Bytes) -> (r: Decoded<(u8, u8, u8, SocksAddr)>)
    ensures
        match cmd_parse(bytes_view(*old(buf))) {
            Parsed::Done(m, rest) => r matches Decoded::Value((a, b, c, addr)) && a == m.version && b
                == m.code && c == m.rsv && addr.model() == m.addr && bytes_view(*final(buf)) == rest,
            Parsed::Reject(rest) => r is Invalid && bytes_view(*final(buf)) == rest,
            Parsed::Short => r is Short,
        },
{
    if bytes_len(buf) < 3 {
        return Decoded::Short;
    }
    let ghost s = bytes_view(*buf);
    let version = get_u8(buf);
    let code = get_u8(buf);
    let rsv = get_u8(buf);
    proof {
        assert(s.skip(1).skip(1).skip(1) =~= s.skip(3));
    }
    match decode_socks_addr(buf) {
        Decoded::Value(addr) => Decoded::Value((version, code, rsv, addr)),
        Decoded::Invalid => Decoded::Invalid,
        Decoded::Short => Decoded::Short,
    }
}

impl WireModel for CmdReq {
    type Model = SpecCmd;

    open spec fn model(&self) -> SpecCmd {
        SpecCmd { version: self.version, code: self.cmd, rsv: self.rsv, addr: self.dst.model() }
    }
}

impl SEncodeSync for CmdReq {
    open spec fn spec_encodable(m: SpecCmd) -> bool {
        socks_addr_encodable(m.addr)
    }

    open spec fn spec_encoding(m: SpecCmd) -> Seq<u8> {
        cmd_encoding(m)
    }

    fn encode_sync(&self, buf: &mut BytesMut) {
        encode_cmd_req(self, buf)
    }
}

/// Appends the encoding of `x`.
pub fn encode_cmd_req(x: &CmdReq, buf: &mut BytesMut)
    requires
        <CmdReq as SEncodeSync>::spec_encodable(x.model()),
        bytes_mut_view(*old(buf)).len() + <CmdReq as SEncodeSync>::spec_encoding(x.model()).len()
            <= max_buf_len(),
    ensures
        bytes_mut_view(*final(buf)) == bytes_mut_view(*old(buf)) + <CmdReq as SEncodeSync>::spec_encoding(
            x.model(),
        ),
{
    put_u8(buf, x.version);
    put_u8(buf, x.cmd);
    put_u8(buf, x.rsv);
    encode_socks_addr(&x.dst, buf);
    proof {
        assert(bytes_mut_view(*buf) =~= bytes_mut_view(*old(buf)) + cmd_encoding(x.model()));
    }
}

impl SDecodeSync for CmdReq {
    open spec fn spec_parse(s: Seq<u8>) -> Parsed<SpecCmd> {
        cmd_parse(s)
    }

    fn try_decode_sync(buf: &mut Bytes) -> (r: Decoded<CmdReq>) {
        decode_cmd_req(buf)
    }
}

/// Reads a value off the front of `buf`.
pub fn decode_cmd_req(buf: &mut Bytes) -> (r: Decoded<CmdReq>)
    ensures
        decoded_agrees(r, <CmdReq as SDecodeSync>::spec_parse(bytes_view(*old(buf))), bytes_view(*final(buf))),
{
    match decode_cmd(buf) {
        Decoded::Value((version, cmd, rsv, dst)) => Decoded::Value(CmdReq { version, cmd, rsv, dst }),
        Decoded::Invalid => Decoded::Invalid,
        Decoded::Short => Decoded::Short,
    }
}

/// A SOCKS5 reply: version, reply code, reserved byte, bound address.
#[derive(Clone, Debug)]
pub struct CmdReply {
    pub version: u8,
    pub rep: u8,
    pub rsv: u8,
    pub bind_addr: SocksAddr,
}

impl WireModel for CmdReply {
    type Model = SpecCmd;

    open spec fn model(&self) -> SpecCmd {
        SpecCmd { version: self.version, code: self.rep, rsv: self.rsv, addr: self.bind_addr.model() }
    }
}

impl SEncodeSync for CmdReply {
    open spec fn spec_encodable(m: SpecCmd) -> bool {
        socks_addr_encodable(m.addr)
    }

    open spec fn spec_encoding(m: SpecCmd) -> Seq<u8> {
        cmd_encoding(m)
    }

    fn encode_sync(&self, buf: &mut BytesMut) {
        encode_cmd_reply(self, buf)
    }
}

/// Appends the encoding of `x`.
pub fn encode_cmd_reply(x: &CmdReply, buf: &mut BytesMut)
    requires
        <CmdReply as SEncodeSync>::spec_encodable(x.model()),
        bytes_mut_view(*old(buf)).len() + <CmdReply as SEncodeSync>::spec_encoding(x.model()).len()
            <= max_buf_len(),
    ensures
        bytes_mut_view(*final(buf)) == bytes_mut_view(*old(buf)) + <CmdReply as SEncodeSync>::spec_encoding(
            x.model(),
        ),
{
    put_u8(buf, x.version);
    put_u8(buf, x.rep);
    put_u8(buf, x.rsv);
    encode_socks_addr(&x.bind_addr, buf);
    proof {
        assert(bytes_mut_view(*buf) =~= bytes_mut_view(*old(buf)) + cmd_encoding(x.model()));
    }
}

impl SDecodeSync for CmdReply {
    open spec fn spec_parse(s: Seq<u8>) -> Parsed<SpecCmd> {
        cmd_parse(s)
    }

    fn try_decode_sync(buf: &mut Bytes) -> (r: Decoded<CmdReply>) {
        decode_cmd_reply(buf)
    }
}

/// Reads a value off the front of `buf`.
pub fn decode_cmd_reply(buf: &mut Bytes) -> (r: Decoded<CmdReply>)
    ensures
        decoded_agrees(r, <CmdReply as SDecodeSync>::spec_parse(bytes_view(*old(buf))), bytes_view(*final(buf))),
{
    match decode_cmd(buf) {
        Decoded::Value((version, rep, rsv, bind_addr)) => Decoded::Value(
            CmdReply { version, rep, rsv, bind_addr },
        ),
        Decoded::Invalid => Decoded::Invalid,
        Decoded::Short => Decoded::Short,
    }
}

/// The header in front of every SOCKS5 UDP datagram.
pub struct UdpReqHeader {
    pub rsv: u16,
    pub frag: u8,
    pub dst: SocksAddr,
}

pub struct SpecUdpReqHeader {
    pub rsv: u16,
    pub frag: u8,
    pub dst: SpecSocksAddr,
}

impl WireModel for UdpReqHeader {
    type Model = SpecUdpReqHeader;

    open spec fn model(&self) -> SpecUdpReqHeader {
        SpecUdpReqHeader { rsv: self.rsv, frag: self.frag, dst: self.dst.model() }
    }
}

pub open spec fn udp_req_header_encoding(m: SpecUdpReqHeader) -> Seq<u8> {
    be_u16(m.rsv) + seq![m.frag] + socks_addr_encoding(m.dst)
}

pub open spec fn udp_req_header_parse(s: Seq<u8>) -> Parsed<SpecUdpReqHeader> {
    if s.len() < 3 {
        Parsed::Short
    } else {
        match socks_addr_parse(s.skip(3)) {
            Parsed::Done(dst, r) => Parsed::Done(
                SpecUdpReqHeader { rsv: u16_of_be(s), frag: s[2], dst },
                r,
            ),
            Parsed::Reject(r) => Parsed::Reject(r),
            Parsed::Short => Parsed::Short,
        }
    }
}

impl SEncodeSync for UdpReqHeader {
    open spec fn spec_encodable(m: SpecUdpReqHeader) -> bool {
        socks_addr_encodable(m.dst)
    }

    open spec fn spec_encoding(m: SpecUdpReqHeader) -> Seq<u8> {
        udp_req_header_encoding(m)
    }

    fn encode_sync(&self, buf: &mut BytesMut) {
        encode_udp_req_header(self, buf)
    }
}

/// Appends the encoding of `x`.
pub fn encode_udp_req_header(x: &UdpReqHeader, buf: &mut BytesMut)
    requires
        <UdpReqHeader as SEncodeSync>::spec_encodable(x.model()),
        bytes_mut_view(*old(buf)).len() + <UdpReqHeader as SEncodeSync>::spec_encoding(x.model()).len()
            <= max_buf_len(),
    ensures
        bytes_mut_view(*final(buf)) == bytes_mut_view(*old(buf)) + <UdpReqHeader as SEncodeSync>::spec_encoding(
            x.model(),
        ),
{
    put_u16(buf, x.rsv);
    put_u8(buf, x.frag);
    encode_socks_addr(&x.dst, buf);
    proof {
        assert(bytes_mut_view(*buf) =~= bytes_mut_view(*old(buf)) + udp_req_header_encoding(
            x.model(),
        ));
    }
}

impl SDecodeSync for UdpReqHeader {
    open spec fn spec_parse(s: Seq<u8>) -> Parsed<SpecUdpReqHeader> {
        udp_req_header_parse(s)
    }

    fn try_decode_sync(buf: &mut Bytes) -> (r: Decoded<UdpReqHeader>) {
        decode_udp_req_header(buf)
    }
}

/// Reads a value off the front of `buf`.
pub fn decode_udp_req_header(buf: &mut Bytes) -> (r: Decoded<UdpReqHeader>)
    ensures
        decoded_agrees(r, <UdpReqHeader as SDecodeSync>::spec_parse(bytes_view(*old(buf))), bytes_view(*final(buf))),
{
    if bytes_len(buf) < 3 {
        return Decoded::Short;
    }
    let ghost s = bytes_view(*buf);
    let rsv = get_u16(buf);
    let frag = get_u8(buf);
    proof {
        assert(s.skip(2).skip(1) =~= s.skip(3));
    }
    match decode_socks_addr(buf) {
        Decoded::Value(dst) => Decoded::Value(UdpReqHeader { rsv, frag, dst }),
        Decoded::Invalid => Decoded::Invalid,
        Decoded::Short => Decoded::Short,
    }
}

pub proof fn lemma_udp_req_header_roundtrip(m: SpecUdpReqHeader, rest: Seq<u8>)
    requires
        socks_addr_wf(m.dst),
    ensures
        udp_req_header_parse(udp_req_header_encoding(m) + rest) == Parsed::Done(m, rest),
{
    let s = udp_req_header_encoding(m) + rest;
    lemma_be_u16_roundtrip(m.rsv, s.skip(2));
    assert(s =~= be_u16(m.rsv) + s.skip(2));
    assert(s.skip(3) =~= socks_addr_encoding(m.dst) + rest);
    lemma_socks_addr_roundtrip(m.dst, rest);
}

} // verus!
