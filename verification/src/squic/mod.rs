//! The decisions of the SQUIC connection handlers: how a server answers the
//! frames a bistream opens with, how a client checks the server's hello,
//! and where each UDP frame goes.
//!
//! The handlers themselves read and write QUIC streams and datagrams; they
//! hand each frame they read to the functions here and carry out the answer.

pub mod id_store_optimized;

use crate::error::SError;
use crate::msgs::frame::{ClientHello, Frame, ServerHello, FEATURE_UDP};
use crate::math::is_next_power_of_two;
use crate::msgs::addr_text::has_text;
use crate::msgs::socks5::{AddrOrDomain, SocksAddr, SpecAddr, SpecSocksAddr};
use crate::msgs::WireModel;
use crate::utils::lock_free_ring::{ring_len, ring_slot, unspecified_addr, LockFreeRingBuffer, RingEntry, RingStats};
use bytes::Bytes;
use rustc_hash::FxHasher;
use std::hash::{Hash, Hasher};
use vstd::prelude::*;

verus! {

/// The QUIC error code a server closes a connection with when it refuses a peer.
pub const CLOSE_REFUSED: u64 = 263;

/// A user of the SQUIC server: the token it authenticates with, and its name.
pub struct SunnyUser {
    pub token: [u8; 64],
    pub name: String,
}

/// The users of a SQUIC server. Where two users share a token, the later one
/// is the one found.
pub struct SunnyQuicUsers {
    pub users: Vec<SunnyUser>,
}

/// The position of the last user of `users` with token `token`, if any.
pub open spec fn last_with_token(users: Seq<SunnyUser>, token: Seq<u8>) -> Option<int>
    decreases users.len(),
{
    if users.len() == 0 {
        None
    } else if users.last().token@ == token {
        Some(users.len() - 1)
    } else {
        last_with_token(users.drop_last(), token)
    }
}

/// Whether two tokens are the same.
fn same_token(a: &[u8; 64], b: &[u8; 64]) -> (r: bool)
    ensures
        r == (a@ == b@),
{
    let mut i: usize = 0;
    while i < 64
        invariant
            i <= 64,
            a@.len() == 64,
            b@.len() == 64,
            forall|j: int| 0 <= j < i ==> a@[j] == b@[j],
        decreases 64 - i,
    {
        if a[i] != b[i] {
            return false;
        }
        i = i + 1;
    }
    assert(a@ =~= b@);
    true
}

impl SunnyQuicUsers {
    /// The name of the user with `token`, if any.
    pub fn lookup(&self, token: &[u8; 64]) -> (r: Option<&String>)
        ensures
            r is Some <==> last_with_token(self.users@, token@) is Some,
            r matches Some(name) ==> *name == self.users@[last_with_token(self.users@, token@)->0].name,
    {
        let mut i: usize = self.users.len();
        assert(self.users@.take(i as int) =~= self.users@);
        while i > 0
            invariant
                i <= self.users@.len(),
                last_with_token(self.users@, token@) == last_with_token(self.users@.take(i as int), token@),
            decreases i,
        {
            let ghost prefix = self.users@.take(i as int);
            proof {
                assert(prefix.drop_last() =~= self.users@.take(i as int - 1));
            }
            if same_token(&self.users[i - 1].token, token) {
                return Some(&self.users[i - 1].name);
            }
            i = i - 1;
        }
        proof {
            assert(self.users@.take(0) =~= Seq::<SunnyUser>::empty());
        }
        None
    }
}

/// What a server does with the first frame of a bistream.
pub enum ServerStep {
    /// The peer authenticated: send this hello, mark the connection
    /// authenticated, and read the next frame.
    Hello(ServerHello),
    /// Once the connection is authenticated, relay TCP to this destination.
    Relay(SocksAddr),
    /// Once the connection is authenticated, associate UDP for this destination.
    Associate(SocksAddr),
    /// Close the connection with `CLOSE_REFUSED` and fail with this error.
    Refuse(SError),
}

/// The destination a UDP association without one is taken to go to.
pub fn unspecified_destination() -> (a: SocksAddr)
    ensures
        a.model() == SocksAddr::unspecified_model(),
{
    let host = "0.0.0.0".to_owned();
    proof {
        reveal_strlit("0.0.0.0");
        let chars = seq!['0', '.', '0', '.', '0', '.', '0'];
        assert(host@ =~= chars);
        assert(vstd::utf8::is_ascii_chars(chars));
        vstd::utf8::is_ascii_chars_encode_utf8(chars);
        let e = vstd::utf8::encode_utf8(chars);
        assert(e[0] == chars[0] as u8 && e[1] == chars[1] as u8 && e[2] == chars[2] as u8);
        assert(e[3] == chars[3] as u8 && e[4] == chars[4] as u8 && e[5] == chars[5] as u8 && e[6] == chars[6] as u8);
        assert(e =~= seq![48u8, 46u8, 48u8, 46u8, 48u8, 46u8, 48u8]);
    }
    SocksAddr::from_domain(host, 0)
}


impl SocksAddr {
    /// The model of `0.0.0.0:0`, written as a domain name.
    pub open spec fn unspecified_model() -> crate::msgs::socks5::SpecSocksAddr {
        crate::msgs::socks5::SpecSocksAddr {
            addr: crate::msgs::socks5::SpecAddr::Domain(
                crate::msgs::socks5::SpecVarVec {
                    len: 7,
                    contents: seq![48u8, 46u8, 48u8, 46u8, 48u8, 46u8, 48u8],
                },
            ),
            port: 0,
        }
    }
}

/// Answers the first frame of a bistream. A hello of version 1 whose token
/// belongs to a user is greeted (with `connection_id`); another version is a
/// protocol violation and an unknown token fails the authentication. A
/// connect or UDP-associate request is served once the connection is
/// authenticated. Any other frame is a protocol violation.
pub fn server_first_step(frame: Frame, users: &SunnyQuicUsers, connection_id: u64) -> (r: ServerStep)
    ensures
        frame matches Frame::ClientHello(h) && h.version != 1 ==> (r matches ServerStep::Refuse(
            SError::ProtocolViolation,
        )),
        frame matches Frame::ClientHello(h) && h.version == 1 && last_with_token(users.users@, h.auth_token@)
            is Some ==> (r matches ServerStep::Hello(sh) && sh.version == 1 && sh.selected_features == FEATURE_UDP
            && sh.connection_id == connection_id && sh.extensions@.len() == 0),
        frame matches Frame::ClientHello(h) && h.version == 1 && last_with_token(users.users@, h.auth_token@)
            is None ==> (r matches ServerStep::Refuse(SError::SunnyAuthError(m)) && m@
            == "Wrong password/username"@),
        frame matches Frame::Connect(c) ==> r == ServerStep::Relay(c.dst),
        frame matches Frame::UdpAssociate(u) ==> (u.dst is Some ==> r == ServerStep::Associate(u.dst->0)) && (
        u.dst is None ==> (r matches ServerStep::Associate(a) && a.model() == SocksAddr::unspecified_model())),
        !(frame is ClientHello || frame is Connect || frame is UdpAssociate) ==> r matches ServerStep::Refuse(
            SError::ProtocolViolation,
        ),
{
    match frame {
        Frame::ClientHello(hello) => {
            if hello.version != 1 {
                return ServerStep::Refuse(SError::ProtocolViolation);
            }
            match users.lookup(&hello.auth_token) {
                Some(_) => ServerStep::Hello(
                    ServerHello {
                        version: 1,
                        selected_features: FEATURE_UDP,
                        connection_id,
                        extensions: Vec::new(),
                    },
                ),
                None => ServerStep::Refuse(SError::SunnyAuthError("Wrong password/username".to_owned())),
            }
        },
        Frame::Connect(req) => ServerStep::Relay(req.dst),
        Frame::UdpAssociate(req) => match req.dst {
            Some(dst) => ServerStep::Associate(dst),
            None => ServerStep::Associate(unspecified_destination()),
        },
        _ => ServerStep::Refuse(SError::ProtocolViolation),
    }
}


/// What a server does with the frame that follows a greeted hello.
pub enum AfterHello {
    /// Relay TCP to this destination.
    Relay(SocksAddr),
    /// The client closed the bistream.
    Finished,
    /// Close the connection with `CLOSE_REFUSED` and fail with this error.
    Refuse(SError),
}

/// Answers the frame after a hello: a connect request is relayed, a finish
/// ends the bistream, anything else is a protocol violation.
pub fn server_after_hello(frame: Frame) -> (r: AfterHello)
    ensures
        frame matches Frame::Connect(c) ==> r == AfterHello::Relay(c.dst),
        frame is Fin ==> r is Finished,
        !(frame is Connect || frame is Fin) ==> r matches AfterHello::Refuse(SError::ProtocolViolation),
{
    match frame {
        Frame::Connect(req) => AfterHello::Relay(req.dst),
        Frame::Fin => AfterHello::Finished,
        _ => AfterHello::Refuse(SError::ProtocolViolation),
    }
}

/// The hello a client opens its authentication with.
pub fn client_hello(token: [u8; 64]) -> (h: ClientHello)
    ensures
        h.version == 1,
        h.supported_features == FEATURE_UDP,
        h.auth_token == token,
        h.extensions@.len() == 0,
{
    ClientHello { version: 1, supported_features: FEATURE_UDP, auth_token: token, extensions: Vec::new() }
}

/// How a client takes the server's answer to its hello.
pub enum HelloCheck {
    /// The server greeted with version 1: the connection is authenticated.
    Accepted,
    /// The server greeted with another version.
    Violation(SError),
    /// The server answered with another frame: close the connection with
    /// `CLOSE_REFUSED` and fail with this error.
    Refused(SError),
}

pub fn check_server_hello(frame: &Frame) -> (r: HelloCheck)
    ensures
        frame matches Frame::ServerHello(h) ==> (h.version == 1 ==> r is Accepted) && (h.version != 1
            ==> r matches HelloCheck::Violation(SError::ProtocolViolation)),
        !(frame is ServerHello) ==> (r matches HelloCheck::Refused(SError::SunnyAuthError(m)) && m@
            == "Protocol error"@),
{
    match frame {
        Frame::ServerHello(h) => {
            if h.version != 1 {
                HelloCheck::Violation(SError::ProtocolViolation)
            } else {
                HelloCheck::Accepted
            }
        },
        _ => HelloCheck::Refused(SError::SunnyAuthError("Protocol error".to_owned())),
    }
}


/// Where a frame read from a UDP control stream goes.
pub enum CtrlAction {
    /// Record the destination under a fresh id and send the payload to it.
    Forward(SocksAddr, Bytes),
    /// UDP data without a destination: dropped.
    MissingDestination,
    /// The client finished the association.
    Finish,
    /// Any other frame: skipped.
    Skip,
}

pub fn ctrl_frame_action(frame: Frame) -> (r: CtrlAction)
    ensures
        frame matches Frame::UdpData(d) ==> (d.dst is Some ==> r == CtrlAction::Forward(d.dst->0, d.payload))
            && (d.dst is None ==> r is MissingDestination),
        frame is Fin ==> r is Finish,
        !(frame is UdpData || frame is Fin) ==> r is Skip,
{
    match frame {
        Frame::UdpData(data) => match data.dst {
            Some(dst) => CtrlAction::Forward(dst, data.payload),
            None => CtrlAction::MissingDestination,
        },
        Frame::Fin => CtrlAction::Finish,
        _ => CtrlAction::Skip,
    }
}

/// What a server does with the first frame of a UDP stream from a client.
pub enum RelayStart {
    /// Send the payload to the destination (`0.0.0.0:0`, as a domain name,
    /// when none is given), which also serves the stream's later frames.
    Start(SocksAddr, Bytes),
    /// The stream is finished: wait for the next one.
    Skip,
    /// Any other frame is a protocol violation.
    Violation(SError),
}

pub fn relay_first_frame(frame: Frame) -> (r: RelayStart)
    ensures
        frame matches Frame::UdpData(d) ==> (d.dst is Some ==> r == RelayStart::Start(d.dst->0, d.payload)) && (
        d.dst is None ==> (r matches RelayStart::Start(a, p) && a.model() == SocksAddr::unspecified_model() && p
            == d.payload)),
        frame is Fin ==> r is Skip,
        !(frame is UdpData || frame is Fin) ==> r matches RelayStart::Violation(SError::ProtocolViolation),
{
    match frame {
        Frame::UdpData(data) => {
            let dst = match data.dst {
                Some(dst) => dst,
                None => unspecified_destination(),
            };
            RelayStart::Start(dst, data.payload)
        },
        Frame::Fin => RelayStart::Skip,
        _ => RelayStart::Violation(SError::ProtocolViolation),
    }
}

/// What a relay does with a later frame of a UDP stream.
pub enum RelayNext {
    /// Send the payload to this destination.
    Forward(SocksAddr, Bytes),
    /// The stream is over.
    Stop,
}

/// A later frame of a UDP stream: UDP data goes to its destination, or to
/// `default_dst` when it names none; anything else ends the stream.
pub fn relay_next_frame(frame: Frame, default_dst: &SocksAddr) -> (r: RelayNext)
    ensures
        frame matches Frame::UdpData(d) ==> (d.dst is Some ==> r == RelayNext::Forward(d.dst->0, d.payload)) && (
        d.dst is None ==> (r matches RelayNext::Forward(a, p) && a.model() == default_dst.model() && p
            == d.payload)),
        !(frame is UdpData) ==> r is Stop,
{
    match frame {
        Frame::UdpData(data) => {
            let dst = match data.dst {
                Some(dst) => dst,
                None => default_dst.duplicate(),
            };
            RelayNext::Forward(dst, data.payload)
        },
        _ => RelayNext::Stop,
    }
}

/// A frame of a UDP stream from the server: UDP data goes to its
/// destination, or to `0.0.0.0:0` (as a domain name) when it names none;
/// anything else ends the stream.
pub fn from_server_frame(frame: Frame) -> (r: RelayNext)
    ensures
        frame matches Frame::UdpData(d) ==> (d.dst is Some ==> r == RelayNext::Forward(d.dst->0, d.payload)) && (
        d.dst is None ==> (r matches RelayNext::Forward(a, p) && a.model() == SocksAddr::unspecified_model() && p
            == d.payload)),
        !(frame is UdpData) ==> r is Stop,
{
    let default_dst = unspecified_destination();
    relay_next_frame(frame, &default_dst)
}

/// A bistream as one stream: `s` is written to and `r` read from.
#[derive(Debug)]
pub struct Unsplit<S, R> {
    pub s: S,
    pub r: R,
}

/// The ids a UDP sender gives its destinations: each new destination gets
/// the next value of a counter shared by the connection, which wraps.
pub struct DstIds {
    entries: Vec<(SocksAddr, u16)>,
}

/// The id recorded for the destination of model `a`, if any.
pub open spec fn id_of(entries: Seq<(SocksAddr, u16)>, a: crate::msgs::socks5::SpecSocksAddr) -> Option<u16>
    decreases entries.len(),
{
    if entries.len() == 0 {
        None
    } else if entries.last().0.model() == a {
        Some(entries.last().1)
    } else {
        id_of(entries.drop_last(), a)
    }
}

/// A destination without a recorded id occurs nowhere in `entries`.
pub proof fn lemma_id_of_none(entries: Seq<(SocksAddr, u16)>, a: crate::msgs::socks5::SpecSocksAddr)
    requires
        id_of(entries, a) is None,
    ensures
        forall|i: int| 0 <= i < entries.len() ==> (#[trigger] entries[i]).0.model() != a,
    decreases entries.len(),
{
    if entries.len() > 0 {
        lemma_id_of_none(entries.drop_last(), a);
        assert forall|i: int| 0 <= i < entries.len() implies (#[trigger] entries[i]).0.model() != a by {
            if i < entries.len() - 1 {
                assert(entries[i] == entries.drop_last()[i]);
            }
        }
    }
}

impl DstIds {
    /// No destination is recorded twice.
    #[verifier::type_invariant]
    spec fn destinations_distinct(self) -> bool {
        forall|i: int, j: int|
            0 <= i < j < self.entries@.len() ==> (#[trigger] self.entries@[i]).0.model() != (
            #[trigger] self.entries@[j]).0.model()
    }

    /// The destinations recorded so far with their ids.
    pub closed spec fn entries(self) -> Seq<(SocksAddr, u16)> {
        self.entries@
    }

    pub fn new() -> (m: Self)
        ensures
            m.entries() == Seq::<(SocksAddr, u16)>::empty(),
    {
        DstIds { entries: Vec::new() }
    }

    /// The id of `addr` and `false` when it has one, else the counter's
    /// value, now recorded for it, and `true`; the counter then moves on.
    pub fn get_id_or_insert(&mut self, counter: &mut u16, addr: &SocksAddr) -> (r: (u16, bool))
        ensures
            id_of(old(self).entries(), addr.model()) matches Some(id) ==> r == (id, false) && final(self).entries()
                == old(self).entries() && *final(counter) == *old(counter),
            id_of(old(self).entries(), addr.model()) is None ==> r == (*old(counter), true)
                && *final(counter) == old(counter).wrapping_add(1) && id_of(
                final(self).entries(),
                addr.model(),
            ) == Some(*old(counter)) && forall|b: crate::msgs::socks5::SpecSocksAddr|
                b != addr.model() ==> #[trigger] id_of(final(self).entries(), b) == id_of(old(self).entries(), b),
    {
        proof {
            use_type_invariant(&*self);
        }
        let mut i: usize = self.entries.len();
        assert(self.entries@.take(i as int) =~= self.entries@);
        while i > 0
            invariant
                i <= self.entries@.len(),
                id_of(self.entries@, addr.model()) == id_of(self.entries@.take(i as int), addr.model()),
            decreases i,
        {
            proof {
                assert(self.entries@.take(i as int).drop_last() =~= self.entries@.take(i as int - 1));
            }
            if self.entries[i - 1].0.same_addr(addr) {
                return (self.entries[i - 1].1, false);
            }
            i = i - 1;
        }
        proof {
            assert(self.entries@.take(0) =~= Seq::<(SocksAddr, u16)>::empty());
        }
        let id = *counter;
        *counter = counter.wrapping_add(1);
        let ghost before = self.entries@;
        proof {
            lemma_id_of_none(before, addr.model());
        }
        let entry = (addr.duplicate(), id);
        let mut entries: Vec<(SocksAddr, u16)> = Vec::new();
        std::mem::swap(&mut entries, &mut self.entries);
        entries.push(entry);
        self.entries = entries;
        proof {
            assert(self.entries@.drop_last() =~= before);
            assert forall|b: crate::msgs::socks5::SpecSocksAddr| b != addr.model() implies #[trigger] id_of(
                self.entries@,
                b,
            ) == id_of(before, b) by {
                assert(self.entries@.drop_last() =~= before);
            }
        }
        (id, true)
    }

    /// The number of destinations recorded.
    pub fn len(&self) -> (n: usize)
        ensures
            n == self.entries().len(),
    {
        self.entries.len()
    }
}

/// The low 16 bits of a hash: the id a destination is looked up by.
pub fn id_from_hash(hash: u64) -> (id: u16)
    ensures
        id == hash % 65536,
{
    let id = (hash & 0xFFFF) as u16;
    assert((hash & 0xFFFF) == hash % 65536) by (bit_vector);
    id
}

/// `FxHasher` fed, in turn, a variant number, a byte string behind its
/// length, and a port, as `Hash` for `isize`, `[u8]` and `u16` feed it; the
/// result. It depends on the width of `usize`, so nothing is stated of it.
#[verifier::external_body]
fn fx_hash_ip_destination(variant: isize, bytes: &[u8], port: u16) -> u64 {
    let mut hasher = FxHasher::default();
    variant.hash(&mut hasher);
    bytes.hash(&mut hasher);
    port.hash(&mut hasher);
    hasher.finish()
}

/// `FxHasher` fed, in turn, a variant number, a length byte, a byte string
/// behind its length, and a port, as `Hash` for `isize`, `u8`, `[u8]` and
/// `u16` feed it; the result. It depends on the width of `usize`, so nothing
/// is stated of it.
#[verifier::external_body]
fn fx_hash_name_destination(variant: isize, len: u8, bytes: &[u8], port: u16) -> u64 {
    let mut hasher = FxHasher::default();
    variant.hash(&mut hasher);
    len.hash(&mut hasher);
    bytes.hash(&mut hasher);
    port.hash(&mut hasher);
    hasher.finish()
}

/// The id of a destination: the low 16 bits of its `FxHasher` hash. The
/// hasher is fed what the derived `Hash` of a destination feeds it: the
/// address variant's number (0 for IPv4, 1 for IPv6, 2 for a name), the
/// address bytes (for a name, its length byte first), then the port.
pub fn hash_dst(dst: &SocksAddr) -> (id: u16) {
    let h = match &dst.addr {
        AddrOrDomain::V4(a) => fx_hash_ip_destination(0, a.as_slice(), dst.port),
        AddrOrDomain::V6(a) => fx_hash_ip_destination(1, a.as_slice(), dst.port),
        AddrOrDomain::Domain(v) => fx_hash_name_destination(2, v.len, v.contents.as_slice(), dst.port),
    };
    id_from_hash(h)
}

/// `0.0.0.0:0`.
pub open spec fn unspecified_v4() -> SpecSocksAddr {
    SpecSocksAddr { addr: SpecAddr::V4(seq![0u8, 0u8, 0u8, 0u8]), port: 0 }
}

/// Where a queued packet is sent: the destination's text `host:port` read
/// back as a socket address, `0.0.0.0:0` where it does not read as one. An
/// IPv4 destination reads back as itself; an IPv6 one never does, its text
/// having no brackets; a name reads as what `parsed_name` holds.
pub open spec fn ring_destination(dst: SpecSocksAddr, parsed_name: Option<SpecSocksAddr>) -> SpecSocksAddr {
    match dst.addr {
        SpecAddr::V4(_) => dst,
        SpecAddr::V6(_) => unspecified_v4(),
        SpecAddr::Domain(_) => match parsed_name {
            Some(p) => p,
            None => unspecified_v4(),
        },
    }
}

/// UDP packets waiting to be relayed, in a ring.
pub struct BatchPacketProcessor {
    ring: LockFreeRingBuffer,
}

impl BatchPacketProcessor {
    /// The ring.
    pub closed spec fn queue(self) -> LockFreeRingBuffer {
        self.ring
    }

    /// An empty ring of `capacity` rounded up to a power of two slots.
    pub fn new(capacity: usize) -> (p: Self)
        requires
            capacity <= usize::MAX / 2 + 1,
        ensures
            p.queue().wf(),
            is_next_power_of_two(capacity as nat, p.queue().cap() as nat),
            p.queue().head() == 0,
            p.queue().tail() == 0,
            p.queue().counters() == (RingStats { pushed: 0, popped: 0, overflows: 0, underflows: 0 }),
    {
        BatchPacketProcessor { ring: LockFreeRingBuffer::new(capacity) }
    }

    /// Queues `payload` when the UDP session `udp` is known, from `0.0.0.0:0`
    /// to `ring_destination` of the session's destination; `parsed_name` is
    /// what the text `name:port` of a named destination reads as, a socket
    /// address or nothing. Without a session nothing is queued. The result
    /// says whether the packet was queued.
    pub fn push_packet<T>(
        &mut self,
        id: u16,
        payload: Bytes,
        addr: SocksAddr,
        udp: Option<(T, SocksAddr)>,
        parsed_name: Option<SocksAddr>,
    ) -> (r: bool)
        requires
            old(self).queue().wf(),
            old(self).queue().push_fits(),
            udp matches Some(u) ==> has_text(u.1.model()),
        ensures
            final(self).queue().wf(),
            udp is None ==> !r && *final(self) == *old(self),
            udp matches Some(u) ==> {
                let q = old(self).queue();
                let entry_dst = ring_destination(
                    u.1.model(),
                    match parsed_name {
                        Some(p) => Some(p.model()),
                        None => None,
                    },
                );
                &&& final(self).queue().cap() == q.cap()
                &&& final(self).queue().head() == q.head()
                &&& r == !q.push_overflows()
                &&& !r ==> final(self).queue().slots() == q.slots() && final(self).queue().tail() == q.tail()
                &&& r ==> final(self).queue().tail() == q.tail().wrapping_add(1) && final(self).queue().slots()
                    == q.slots().update(ring_slot(q.tail()), final(self).queue().slots()[ring_slot(q.tail())])
                &&& r ==> ({
                    let e = final(self).queue().slots()[ring_slot(q.tail())];
                    &&& crate::bytes_io::bytes_view(e.data) == crate::bytes_io::bytes_view(payload)
                    &&& e.src_addr.model() == unspecified_v4()
                    &&& e.dst_addr.model() == entry_dst
                })
            },
    {
        proof {
            self.ring.lemma_slots_match_capacity();
        }
        match udp {
            Some((_sender, dst)) => {
                let dst_addr = match &dst.addr {
                    AddrOrDomain::V4(_) => dst.duplicate(),
                    AddrOrDomain::V6(_) => unspecified_addr(),
                    AddrOrDomain::Domain(_) => match parsed_name {
                        Some(p) => p,
                        None => unspecified_addr(),
                    },
                };
                let entry = RingEntry { data: payload, src_addr: unspecified_addr(), dst_addr };
                proof {
                    assert(entry.src_addr.model().addr =~= unspecified_v4().addr);
                }
                self.ring.push(entry)
            },
            None => false,
        }
    }

    /// The oldest queued packet, or `None` when none is queued.
    pub fn pop_packet(&mut self) -> (r: Option<RingEntry>)
        requires
            old(self).queue().wf(),
            old(self).queue().pop_fits(),
        ensures
            final(self).queue().wf(),
            final(self).queue().slots() == old(self).queue().slots(),
            final(self).queue().tail() == old(self).queue().tail(),
            old(self).queue().head() == old(self).queue().tail() ==> r is None && final(self).queue().head()
                == old(self).queue().head(),
            old(self).queue().head() != old(self).queue().tail() ==> r is Some
                && crate::utils::lock_free_ring::same_entry(r->0, old(self).queue().slots()[ring_slot(old(self).queue().head())])
                && final(self).queue().head() == old(self).queue().head().wrapping_add(1),
    {
        self.ring.pop()
    }

    pub fn len(&self) -> (n: usize)
        ensures
            n == ring_len(self.queue().head(), self.queue().tail()),
    {
        self.ring.len()
    }

    pub fn is_empty(&self) -> (r: bool)
        ensures
            r == (ring_len(self.queue().head(), self.queue().tail()) == 0),
    {
        self.ring.is_empty()
    }
}

} // verus!
