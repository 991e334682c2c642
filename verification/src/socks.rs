//! The decisions of the SOCKS5 server: which authentication method to
//! answer, whether a user may pass, what a command is answered, and how a
//! UDP datagram is framed and unframed.

use crate::bytes_io::{bytes_mut_view, bytes_view, extend_from_slice, bytes_as_slice, max_buf_len};
use crate::error::SError;
use crate::msgs::socks5::{
    encode_udp_req_header, udp_req_header_encoding, AddrOrDomain, AuthReply, AuthReq, CmdReply,
    CmdReq, PasswordAuthReply, PasswordAuthReq, SocksAddr, SpecAddr, UdpReqHeader,
};
use crate::msgs::socks5::consts::{
    SOCKS5_AUTH_METHOD_NONE, SOCKS5_AUTH_METHOD_PASSWORD, SOCKS5_CMD_TCP_BIND, SOCKS5_CMD_TCP_CONNECT,
    SOCKS5_CMD_UDP_ASSOCIATE, SOCKS5_REPLY_SUCCEEDED, SOCKS5_VERSION,
};
use crate::msgs::addr_text::{decimal, push_decimal, push_text};
use crate::msgs::{SEncodeSync, WireModel};
use crate::pool::fast_session::FastSessionType;
use bytes::{Bytes, BytesMut};
use vstd::prelude::*;

verus! {

/// A user allowed through the password check.
#[derive(Clone, Debug)]
pub struct AuthUser {
    pub username: String,
    pub password: String,
}

/// The text that `String::from_utf8_lossy` makes of `bytes`.
pub uninterp spec fn utf8_lossy(bytes: Seq<u8>) -> Seq<char>;

/// `String::from_utf8_lossy(..).into_owned()`: the text of `bytes`, each
/// invalid sequence replaced by U+FFFD; named by `utf8_lossy`.
#[verifier::external_body]
fn string_from_utf8_lossy(bytes: &[u8]) -> (s: String)
    ensures
        s@ == utf8_lossy(bytes@),
{
    String::from_utf8_lossy(bytes).into_owned()
}

/// The numbers of `b` in decimal, separated by `, `.
pub open spec fn joined_decimals(b: Seq<u8>) -> Seq<char>
    decreases b.len(),
{
    if b.len() == 0 {
        Seq::empty()
    } else if b.len() == 1 {
        decimal(b[0] as nat)
    } else {
        joined_decimals(b.drop_last()) + seq![',', ' '] + decimal(b.last() as nat)
    }
}

/// The message of a greeting that offers none of the methods the server
/// accepts: the list as `Debug` writes a `Vec<u8>`.
pub open spec fn unsupported_methods_text(methods: Seq<u8>) -> Seq<char> {
    "authentication method not supported:"@ + seq!['['] + joined_decimals(methods) + seq![']']
}

fn unsupported_methods_message(methods: &Vec<u8>) -> (s: String)
    ensures
        s@ == unsupported_methods_text(methods@),
{
    proof {
        reveal_strlit("[");
        reveal_strlit(", ");
        reveal_strlit("]");
    }
    let mut s = "authentication method not supported:".to_owned();
    let ghost head = s@;
    push_text(&mut s, "[");
    let mut i: usize = 0;
    while i < methods.len()
        invariant
            i <= methods@.len(),
            head == "authentication method not supported:"@,
            s@ == head + seq!['['] + joined_decimals(methods@.take(i as int)),
        decreases methods@.len() - i,
    {
        let ghost before = s@;
        if i > 0 {
            push_text(&mut s, ", ");
        }
        push_decimal(&mut s, methods[i] as u16);
        proof {
            reveal_strlit(", ");
            let t = methods@.take(i as int + 1);
            assert(t.drop_last() =~= methods@.take(i as int));
            assert(t.last() == methods@[i as int]);
            if i == 0 {
                assert(methods@.take(0) =~= Seq::<u8>::empty());
                assert(s@ =~= head + seq!['['] + joined_decimals(t));
            } else {
                assert(s@ =~= head + seq!['['] + joined_decimals(t));
            }
        }
        i = i + 1;
    }
    push_text(&mut s, "]");
    proof {
        assert(methods@.take(i as int) =~= methods@);
    }
    s
}


/// The method the server asks for: none without users, else a password.
pub open spec fn required_method(users_empty: bool) -> u8 {
    if users_empty {
        SOCKS5_AUTH_METHOD_NONE
    } else {
        SOCKS5_AUTH_METHOD_PASSWORD
    }
}

/// Answers a greeting. A version other than 5 and a greeting that offers no
/// method are protocol violations; a greeting that does not offer the
/// required method fails the handshake; else the method is accepted.
pub fn select_auth_method(req: &AuthReq, users_empty: bool) -> (r: Result<AuthReply, SError>)
    ensures
        req.version != SOCKS5_VERSION ==> r matches Err(SError::ProtocolViolation),
        req.version == SOCKS5_VERSION && req.methods.contents@.len() == 0 ==> r matches Err(
            SError::ProtocolViolation,
        ),
        req.version == SOCKS5_VERSION && req.methods.contents@.len() > 0 && !req.methods.contents@.contains(
            required_method(users_empty),
        ) ==> (r matches Err(SError::SocksError(m)) && m@ == unsupported_methods_text(req.methods.contents@)),
        req.version == SOCKS5_VERSION && req.methods.contents@.contains(required_method(users_empty))
            ==> (r matches Ok(reply) && reply.version == SOCKS5_VERSION && reply.method == required_method(
            users_empty,
        )),
{
    if req.version != SOCKS5_VERSION {
        return Err(SError::ProtocolViolation);
    }
    let methods = &req.methods.contents;
    if methods.len() == 0 {
        return Err(SError::ProtocolViolation);
    }
    let method = if users_empty {
        SOCKS5_AUTH_METHOD_NONE
    } else {
        SOCKS5_AUTH_METHOD_PASSWORD
    };
    let mut i: usize = 0;
    let mut found = false;
    while i < methods.len()
        invariant
            i <= methods@.len(),
            found <==> exists|j: int| 0 <= j < i && methods@[j] == method,
        decreases methods@.len() - i,
    {
        if methods[i] == method {
            found = true;
        }
        i = i + 1;
    }
    proof {
        if found {
            let j = choose|j: int| 0 <= j < i && methods@[j] == method;
            assert(methods@.contains(method));
        } else {
            assert(!methods@.contains(method));
        }
    }
    if !found {
        return Err(SError::SocksError(unsupported_methods_message(methods)));
    }
    Ok(AuthReply { version: SOCKS5_VERSION, method })
}

/// Some user of `users` has the name and password of `auth`, each read as
/// text by `utf8_lossy`.
pub open spec fn user_matches(users: Seq<AuthUser>, auth: PasswordAuthReq) -> bool {
    exists|i: int|
        0 <= i < users.len() && (#[trigger] users[i]).username@ == utf8_lossy(auth.username.contents@)
            && users[i].password@ == utf8_lossy(auth.password.contents@)
}

/// Answers a password check: success when a user matches, else the
/// handshake fails.
pub fn check_password(users: &Vec<AuthUser>, auth: &PasswordAuthReq) -> (r: Result<PasswordAuthReply, SError>)
    ensures
        user_matches(users@, *auth) ==> (r matches Ok(reply) && reply.version == 1 && reply.status
            == SOCKS5_REPLY_SUCCEEDED),
        !user_matches(users@, *auth) ==> (r matches Err(SError::SocksError(m)) && m@
            == "authentication failed"@),
{
    let name = string_from_utf8_lossy(auth.username.contents.as_slice());
    let password = string_from_utf8_lossy(auth.password.contents.as_slice());
    let mut i: usize = 0;
    while i < users.len()
        invariant
            i <= users@.len(),
            name@ == utf8_lossy(auth.username.contents@),
            password@ == utf8_lossy(auth.password.contents@),
            forall|j: int|
                0 <= j < i ==> !((#[trigger] users@[j]).username@ == name@ && users@[j].password@
                    == password@),
        decreases users@.len() - i,
    {
        if users[i].username == name && users[i].password == password {
            return Ok(PasswordAuthReply { version: 1, status: SOCKS5_REPLY_SUCCEEDED });
        }
        i = i + 1;
    }
    Err(SError::SocksError("authentication failed".to_owned()))
}

/// The unspecified address of the family of `dst` (IPv4 for a domain name),
/// with port 0: what a command is answered with before a socket is bound.
pub open spec fn unspecified_of(dst: SpecAddr) -> SpecAddr {
    match dst {
        SpecAddr::V6(_) => SpecAddr::V6(Seq::new(16, |i: int| 0u8)),
        _ => SpecAddr::V4(seq![0u8, 0u8, 0u8, 0u8]),
    }
}

/// Answers a command. CONNECT and UDP ASSOCIATE succeed, with the
/// unspecified address of the destination's family and port 0 (for UDP
/// ASSOCIATE the caller then puts in the address of the socket it binds);
/// BIND is not done; any other command is a protocol violation.
pub fn command_reply(req: &CmdReq) -> (r: Result<CmdReply, SError>)
    ensures
        (req.cmd == SOCKS5_CMD_TCP_CONNECT || req.cmd == SOCKS5_CMD_UDP_ASSOCIATE) ==> (r matches Ok(reply)
            && reply.version == SOCKS5_VERSION && reply.rep == SOCKS5_REPLY_SUCCEEDED && reply.rsv == 0
            && reply.bind_addr.model().addr == unspecified_of(req.dst.model().addr)
            && reply.bind_addr.port == 0),
        req.cmd == SOCKS5_CMD_TCP_BIND ==> r matches Err(SError::ProtocolUnimpl),
        req.cmd != SOCKS5_CMD_TCP_CONNECT && req.cmd != SOCKS5_CMD_UDP_ASSOCIATE && req.cmd
            != SOCKS5_CMD_TCP_BIND ==> r matches Err(SError::ProtocolViolation),
{
    let z6: [u8; 16] = [0u8, 0u8, 0u8, 0u8, 0u8, 0u8, 0u8, 0u8, 0u8, 0u8, 0u8, 0u8, 0u8, 0u8, 0u8, 0u8];
    let z4: [u8; 4] = [0u8, 0u8, 0u8, 0u8];
    assert(z6@ =~= Seq::new(16, |i: int| 0u8));
    assert(z4@ =~= seq![0u8, 0u8, 0u8, 0u8]);
    let addr = match req.dst.addr {
        AddrOrDomain::V6(_) => AddrOrDomain::V6(z6),
        _ => AddrOrDomain::V4(z4),
    };
    let reply = CmdReply {
        version: SOCKS5_VERSION,
        rep: SOCKS5_REPLY_SUCCEEDED,
        rsv: 0u8,
        bind_addr: SocksAddr { addr, port: 0u16 },
    };
    if req.cmd == SOCKS5_CMD_TCP_CONNECT || req.cmd == SOCKS5_CMD_UDP_ASSOCIATE {
        Ok(reply)
    } else if req.cmd == SOCKS5_CMD_TCP_BIND {
        Err(SError::ProtocolUnimpl)
    } else {
        Err(SError::ProtocolViolation)
    }
}

/// The kind of session an accepted command opens: TCP for CONNECT, UDP
/// datagrams for UDP ASSOCIATE; any other command is a protocol violation.
pub fn session_kind(cmd: u8) -> (r: Result<FastSessionType, SError>)
    ensures
        cmd == SOCKS5_CMD_TCP_CONNECT ==> r matches Ok(FastSessionType::Tcp),
        cmd == SOCKS5_CMD_UDP_ASSOCIATE ==> r matches Ok(FastSessionType::UdpDatagram),
        cmd != SOCKS5_CMD_TCP_CONNECT && cmd != SOCKS5_CMD_UDP_ASSOCIATE ==> r matches Err(
            SError::ProtocolViolation,
        ),
{
    if cmd == SOCKS5_CMD_TCP_CONNECT {
        Ok(FastSessionType::Tcp)
    } else if cmd == SOCKS5_CMD_UDP_ASSOCIATE {
        Ok(FastSessionType::UdpDatagram)
    } else {
        Err(SError::ProtocolViolation)
    }
}

/// What a received SOCKS5 UDP datagram is let through as: its destination,
/// unless it is a fragment, which is not done.
pub fn accept_udp_header(header: UdpReqHeader) -> (r: Result<SocksAddr, SError>)
    ensures
        header.frag != 0 ==> r matches Err(SError::ProtocolUnimpl),
        header.frag == 0 ==> r == Ok::<SocksAddr, SError>(header.dst),
{
    if header.frag != 0 {
        return Err(SError::ProtocolUnimpl);
    }
    Ok(header.dst)
}

/// Frames `payload` as a SOCKS5 UDP datagram to `addr`: the header with
/// reserved bytes and fragment number zero, then the payload.
pub fn frame_udp_datagram(payload: &Bytes, addr: SocksAddr, out: &mut BytesMut)
    requires
        <UdpReqHeader as SEncodeSync>::spec_encodable((UdpReqHeader { rsv: 0, frag: 0, dst: addr }).model()),
        bytes_mut_view(*old(out)).len() + udp_req_header_encoding(
            (UdpReqHeader { rsv: 0, frag: 0, dst: addr }).model(),
        ).len() + bytes_view(*payload).len() <= max_buf_len(),
    ensures
        bytes_mut_view(*final(out)) == bytes_mut_view(*old(out)) + udp_req_header_encoding(
            (UdpReqHeader { rsv: 0, frag: 0, dst: addr }).model(),
        ) + bytes_view(*payload),
{
    let header = UdpReqHeader { rsv: 0, frag: 0, dst: addr };
    encode_udp_req_header(&header, out);
    extend_from_slice(out, bytes_as_slice(payload));
}

} // verus!
