use bytes::{Bytes, BytesMut};
use shadowquic::arena::{packet_buf_sized, PacketArena};
use shadowquic::error::SError;
use shadowquic::msgs::frame::{ClientHello, ConnectReq, Frame, ServerHello, UdpAssociateReq, UdpData, FEATURE_UDP};
use shadowquic::msgs::socks5::{
    AddrOrDomain, AuthReq, CmdReq, PasswordAuthReq, SocksAddr, UdpReqHeader, VarVec,
};
use shadowquic::pool::connection_pool::{ConnectOutcome, ConnectionShard, GetStart, PoolConfig};
use shadowquic::pool::fast_session::{FastSessionManager, FastSessionType};
use shadowquic::socks::{
    accept_udp_header, check_password, command_reply, frame_udp_datagram, select_auth_method, session_kind, AuthUser,
};
use shadowquic::squic::{
    check_server_hello, client_hello, ctrl_frame_action, from_server_frame, id_from_hash, relay_first_frame,
    relay_next_frame, server_after_hello, server_first_step, unspecified_destination, AfterHello, BatchPacketProcessor,
    CtrlAction, DstIds, HelloCheck, RelayNext, RelayStart, ServerStep, SunnyQuicUsers, SunnyUser, CLOSE_REFUSED,
};

fn v4(a: u8, port: u16) -> SocksAddr {
    SocksAddr { addr: AddrOrDomain::V4([10, 0, 0, a]), port }
}

#[test]
fn socks_greeting_choices() {
    let offer = |m: Vec<u8>| AuthReq { version: 5, methods: VarVec { len: m.len() as u8, contents: m } };
    let r = select_auth_method(&offer(vec![0, 2]), true).unwrap();
    assert_eq!((r.version, r.method), (5, 0));
    let r = select_auth_method(&offer(vec![0, 2]), false).unwrap();
    assert_eq!(r.method, 2);
    match select_auth_method(&offer(vec![0, 1]), false) {
        Err(SError::SocksError(m)) => assert_eq!(m, "authentication method not supported:[0, 1]"),
        _ => panic!("a greeting without the password method is refused"),
    }
    assert!(matches!(select_auth_method(&offer(vec![]), true), Err(SError::ProtocolViolation)));
    let old = AuthReq { version: 4, methods: VarVec { len: 1, contents: vec![0] } };
    assert!(matches!(select_auth_method(&old, true), Err(SError::ProtocolViolation)));
}

#[test]
fn socks_password_check() {
    let users = vec![AuthUser { username: "u".to_string(), password: "p".to_string() }];
    let good = PasswordAuthReq {
        version: 1,
        username: VarVec { len: 1, contents: b"u".to_vec() },
        password: VarVec { len: 1, contents: b"p".to_vec() },
    };
    let r = check_password(&users, &good).unwrap();
    assert_eq!((r.version, r.status), (1, 0));
    let bad = PasswordAuthReq { password: VarVec { len: 1, contents: b"x".to_vec() }, ..good };
    match check_password(&users, &bad) {
        Err(SError::SocksError(m)) => assert_eq!(m, "authentication failed"),
        _ => panic!("a wrong password is refused"),
    }
}

#[test]
fn socks_commands() {
    let req = |cmd: u8, addr: AddrOrDomain| CmdReq { version: 5, cmd, rsv: 0, dst: SocksAddr { addr, port: 9 } };
    let r = command_reply(&req(1, AddrOrDomain::V4([1, 2, 3, 4]))).unwrap();
    assert_eq!(r.bind_addr, SocksAddr { addr: AddrOrDomain::V4([0; 4]), port: 0 });
    let r = command_reply(&req(3, AddrOrDomain::V6([1; 16]))).unwrap();
    assert_eq!(r.bind_addr, SocksAddr { addr: AddrOrDomain::V6([0; 16]), port: 0 });
    assert!(matches!(command_reply(&req(2, AddrOrDomain::V4([0; 4]))), Err(SError::ProtocolUnimpl)));
    assert!(matches!(command_reply(&req(9, AddrOrDomain::V4([0; 4]))), Err(SError::ProtocolViolation)));
    assert!(matches!(session_kind(1), Ok(FastSessionType::Tcp)));
    assert!(matches!(session_kind(3), Ok(FastSessionType::UdpDatagram)));
    assert!(matches!(session_kind(2), Err(SError::ProtocolViolation)));
}

#[test]
fn socks_udp_datagrams() {
    let h = UdpReqHeader { rsv: 0, frag: 1, dst: v4(1, 1) };
    assert!(matches!(accept_udp_header(h), Err(SError::ProtocolUnimpl)));
    let h = UdpReqHeader { rsv: 0, frag: 0, dst: v4(1, 1) };
    assert_eq!(accept_udp_header(h).unwrap(), v4(1, 1));
    let mut out = BytesMut::new();
    frame_udp_datagram(&Bytes::from_static(b"hi"), v4(2, 53), &mut out);
    assert_eq!(&out[..], &[0u8, 0, 0, 1, 10, 0, 0, 2, 0, 53, b'h', b'i']);
}

fn users() -> SunnyQuicUsers {
    SunnyQuicUsers {
        users: vec![
            SunnyUser { token: [1; 64], name: "a".to_string() },
            SunnyUser { token: [2; 64], name: "b".to_string() },
            SunnyUser { token: [1; 64], name: "c".to_string() },
        ],
    }
}

#[test]
fn sunny_users_later_entry_wins() {
    assert_eq!(users().lookup(&[1; 64]).unwrap(), "c");
    assert_eq!(users().lookup(&[2; 64]).unwrap(), "b");
    assert!(users().lookup(&[3; 64]).is_none());
}

#[test]
fn server_answers_first_frame() {
    let hello = |version: u8, token: [u8; 64]| {
        Frame::ClientHello(ClientHello { version, supported_features: FEATURE_UDP, auth_token: token, extensions: vec![] })
    };
    match server_first_step(hello(1, [2; 64]), &users(), 77) {
        ServerStep::Hello(h) => {
            assert_eq!((h.version, h.selected_features, h.connection_id), (1, FEATURE_UDP, 77));
        }
        _ => panic!("a known token is greeted"),
    }
    match server_first_step(hello(1, [9; 64]), &users(), 1) {
        ServerStep::Refuse(SError::SunnyAuthError(m)) => assert_eq!(m, "Wrong password/username"),
        _ => panic!("an unknown token is refused"),
    }
    assert!(matches!(server_first_step(hello(2, [2; 64]), &users(), 1), ServerStep::Refuse(SError::ProtocolViolation)));
    match server_first_step(Frame::UdpAssociate(UdpAssociateReq { dst: None, extensions: vec![] }), &users(), 1) {
        ServerStep::Associate(a) => assert_eq!(a, unspecified_destination()),
        _ => panic!("an association is served"),
    }
    match server_first_step(Frame::Connect(ConnectReq { dst: v4(3, 80), extensions: vec![] }), &users(), 1) {
        ServerStep::Relay(a) => assert_eq!(a, v4(3, 80)),
        _ => panic!("a connect request is relayed"),
    }
    assert!(matches!(server_first_step(Frame::Ping(1), &users(), 1), ServerStep::Refuse(SError::ProtocolViolation)));
    assert_eq!(unspecified_destination().to_string(), "0.0.0.0:0");
    assert_eq!(CLOSE_REFUSED, 263);
    assert!(matches!(server_after_hello(Frame::Fin), AfterHello::Finished));
}

#[test]
fn client_checks_server_hello() {
    let h = client_hello([5; 64]);
    assert_eq!((h.version, h.supported_features, h.auth_token), (1, FEATURE_UDP, [5; 64]));
    let sh = |version: u8| Frame::ServerHello(ServerHello { version, selected_features: 1, connection_id: 0, extensions: vec![] });
    assert!(matches!(check_server_hello(&sh(1)), HelloCheck::Accepted));
    assert!(matches!(check_server_hello(&sh(3)), HelloCheck::Violation(SError::ProtocolViolation)));
    match check_server_hello(&Frame::Fin) {
        HelloCheck::Refused(SError::SunnyAuthError(m)) => assert_eq!(m, "Protocol error"),
        _ => panic!("another frame is refused"),
    }
}

#[test]
fn udp_frames_are_routed() {
    let data = |dst: Option<SocksAddr>| Frame::UdpData(UdpData { dst, payload: Bytes::from_static(b"x") });
    match ctrl_frame_action(data(Some(v4(4, 4)))) {
        CtrlAction::Forward(a, p) => {
            assert_eq!(a, v4(4, 4));
            assert_eq!(&p[..], b"x");
        }
        _ => panic!("data with a destination is forwarded"),
    }
    assert!(matches!(ctrl_frame_action(data(None)), CtrlAction::MissingDestination));
    assert!(matches!(relay_first_frame(Frame::Fin), RelayStart::Skip));
    assert!(matches!(relay_first_frame(Frame::Ping(1)), RelayStart::Violation(SError::ProtocolViolation)));
    match relay_first_frame(data(None)) {
        RelayStart::Start(a, _) => assert_eq!(a.to_string(), "0.0.0.0:0"),
        _ => panic!("data starts the relay"),
    }
    match relay_next_frame(data(None), &v4(6, 6)) {
        RelayNext::Forward(a, _) => assert_eq!(a, v4(6, 6)),
        _ => panic!("data without a destination goes to the default"),
    }
    assert!(matches!(relay_next_frame(Frame::Fin, &v4(6, 6)), RelayNext::Stop));
    assert!(matches!(from_server_frame(Frame::Fin), RelayNext::Stop));
}

#[test]
fn destination_ids() {
    let mut ids = DstIds::new();
    let mut counter: u16 = 0;
    assert_eq!(ids.get_id_or_insert(&mut counter, &v4(1, 1)), (0, true));
    assert_eq!(ids.get_id_or_insert(&mut counter, &v4(2, 1)), (1, true));
    assert_eq!(ids.get_id_or_insert(&mut counter, &v4(1, 1)), (0, false));
    assert_eq!(counter, 2);
    assert_eq!(ids.len(), 2);
    assert_eq!(id_from_hash(0x1234_5678_9ABC_DEF0), 0xDEF0);
}

#[test]
fn batch_processor_queues_known_sessions() {
    let mut p = BatchPacketProcessor::new(8);
    assert!(!p.push_packet::<u8>(1, Bytes::from_static(b"a"), v4(1, 1), None, None));
    assert!(p.is_empty());
    assert!(p.push_packet(1, Bytes::from_static(b"a"), v4(1, 1), Some((0u8, v4(7, 53))), None));
    let mut six = [0u8; 16];
    six[15] = 1;
    let v6 = SocksAddr { addr: AddrOrDomain::V6(six), port: 80 };
    assert!(p.push_packet(1, Bytes::from_static(b"b"), v4(1, 1), Some((0u8, v6)), None));
    assert_eq!(p.len(), 2);
    let e = p.pop_packet().unwrap();
    assert_eq!(e.dst_addr, v4(7, 53));
    assert_eq!(e.src_addr, SocksAddr { addr: AddrOrDomain::V4([0; 4]), port: 0 });
    let e = p.pop_packet().unwrap();
    assert_eq!(e.dst_addr, SocksAddr { addr: AddrOrDomain::V4([0; 4]), port: 0 });
    assert!(p.pop_packet().is_none());
}

#[test]
fn fast_sessions_expire_only_when_idle() {
    let mut m = FastSessionManager::new();
    let d = m.create_session(v4(1, 1), v4(2, 2), FastSessionType::Tcp);
    let e = m.create_session(v4(3, 3), v4(4, 4), FastSessionType::UdpDatagram);
    assert_eq!(e.id, d.id + 1);
    assert!(m.get_session(d.id).is_some());
    m.release_session(d.id);
    m.cleanup_expired_at(u64::MAX);
    assert!(m.get_session(d.id).is_none());
    assert!(m.get_session(e.id).is_some());
    m.close_session(e.id);
    assert!(m.get_session(e.id).is_none());
}

#[test]
fn connection_pool_reuses_free_connection() {
    let mut shard: ConnectionShard<u32> = ConnectionShard::new(PoolConfig::default());
    assert!(matches!(shard.begin_get(&v4(1, 443)), GetStart::Connect));
    assert!(shard.finish_get(v4(1, 443), ConnectOutcome::Connected(7)).is_ok());
    assert!(matches!(shard.begin_get(&v4(1, 443)), GetStart::Connect));
    shard.release(&v4(1, 443));
    assert!(matches!(shard.begin_get(&v4(1, 443)), GetStart::Reused));
    assert!(matches!(shard.finish_get(v4(2, 443), ConnectOutcome::TimedOut), Err(SError::OutboundUnavailable)));
    assert!(shard.finish_get(v4(2, 443), ConnectOutcome::Failed("no".to_string())).is_err());
    let s = shard.stats();
    assert_eq!(s.connection_timeouts, 1);
}

#[test]
fn arena_serves_size_classes() {
    let mut a = PacketArena::new(1, 1, 1, 1, 1);
    let b = packet_buf_sized(&mut a, 300);
    assert!(b.is_empty());
    assert!(b.capacity() >= 300);
    let big = a.get_sized(70000);
    assert!(big.capacity() >= 70000);
}

#[test]
fn sharded_pool_release_frees_the_connection() {
    use_sharded_pool();
}

fn use_sharded_pool() {
    let mut pool: shadowquic::pool::connection_pool::ShardedConnectionPool<u32> =
        shadowquic::pool::connection_pool::ShardedConnectionPool::new(4, PoolConfig::default());
    assert!(matches!(pool.begin_get(5, &v4(1, 443)), GetStart::Connect));
    assert!(pool.finish_get(5, v4(1, 443), ConnectOutcome::Connected(9)).is_ok());
    assert!(matches!(pool.begin_get(5, &v4(1, 443)), GetStart::Connect));
    pool.release(5, &v4(1, 443));
    assert!(matches!(pool.begin_get(5, &v4(1, 443)), GetStart::Reused));
}

#[test]
fn full_shard_refuses_and_keeps_connections_in_use() {
    let config = PoolConfig { max_connections_per_shard: 1, ..PoolConfig::default() };
    let mut shard: ConnectionShard<u32> = ConnectionShard::new(config);
    assert!(matches!(shard.begin_get(&v4(1, 443)), GetStart::Connect));
    assert!(shard.finish_get(v4(1, 443), ConnectOutcome::Connected(7)).is_ok());
    assert!(matches!(
        shard.begin_get(&v4(2, 443)),
        GetStart::Unavailable(SError::OutboundUnavailable)
    ));
    shard.release(&v4(1, 443));
    assert!(matches!(shard.begin_get(&v4(1, 443)), GetStart::Reused));
    assert_eq!(shard.stats().connection_acquires, 2);
}
