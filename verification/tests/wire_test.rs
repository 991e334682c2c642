use bytes::{Bytes, BytesMut};
use shadowquic::msgs::frame::{
    ConnectAck, ConnectReq, ErrorFrame, Extension, Frame, FrameHeader, FrameType, ServerHello,
    VarInt as QuicVarInt, ERROR_AUTH_FAILED, FEATURE_UDP,
};
use shadowquic::msgs::socks5::{
    AddrOrDomain, AuthReq, CmdReq, PasswordAuthReq, SocksAddr, UdpReqHeader, VarVec,
};
use shadowquic::msgs::squic::{SQPacketDatagramHeader, SQPacketStreamHeader, SQReq, SQUdpControlHeader};
use shadowquic::msgs::{Decoded, SDecodeSync, SEncodeSync, VarInt, VARINT_MAX_VALUE};

fn encode<T: SEncodeSync>(x: &T) -> Bytes {
    let mut buf = BytesMut::new();
    x.encode_sync(&mut buf);
    buf.freeze()
}

#[test]
fn varint30_one_byte_roundtrip() {
    let v = VarInt::new(5).unwrap();
    let enc = v.encode_varint();
    assert_eq!(&enc[..], &[5u8]);
    let mut b = enc.clone();
    assert_eq!(VarInt::decode_varint(&mut b).unwrap().inner(), 5);
    assert!(b.is_empty());
}

#[test]
fn varint30_two_byte_form_reads_past_its_encoding() {
    let v = VarInt::new(100).unwrap();
    let enc = v.encode_varint();
    assert_eq!(&enc[..], &[0x40u8, 0x64]);
    let mut b = enc.clone();
    assert!(matches!(VarInt::try_decode_varint(&mut b), Decoded::Short));
    let mut longer = Bytes::from(vec![0x40u8, 0x64, 0xAB, 0xCD]);
    assert_eq!(VarInt::decode_varint(&mut longer).unwrap().inner(), 0x24AB);
}

#[test]
fn varint30_four_byte_roundtrip() {
    let v = VarInt::new(20000).unwrap();
    let enc = v.encode_varint();
    assert_eq!(&enc[..], &[0x80u8, 0x00, 0x4E, 0x20]);
    let mut b = enc.clone();
    assert_eq!(VarInt::decode_varint(&mut b).unwrap().inner(), 20000);
    assert_eq!(v.encoded_len(), 4);
}

#[test]
fn varint30_bounds_and_refusals() {
    assert!(VarInt::new(VARINT_MAX_VALUE).is_some());
    assert!(VarInt::new(VARINT_MAX_VALUE + 1).is_none());
    let mut b = Bytes::from(vec![0xC0u8, 1, 2, 3]);
    assert!(VarInt::decode_varint(&mut b).is_none());
    let mut short = Bytes::from(vec![0x80u8, 1]);
    assert!(matches!(VarInt::try_decode_varint(&mut short), Decoded::Invalid));
}

#[test]
fn quic_varint_encodings() {
    let cases: [(u64, usize); 6] = [
        (0, 1),
        (63, 1),
        (64, 2),
        (16383, 2),
        (16384, 4),
        (1 << 30, 8),
    ];
    for (v, len) in cases {
        let x = QuicVarInt::new(v).unwrap();
        let mut buf = BytesMut::new();
        assert_eq!(x.encode_to(&mut buf), len);
        assert_eq!(x.encoded_len(), len);
        let (y, n) = QuicVarInt::decode(&buf[..]).unwrap();
        assert_eq!(y.inner(), v);
        assert_eq!(n, len);
    }
    let mut buf = BytesMut::new();
    QuicVarInt::new(300).unwrap().encode_to(&mut buf);
    assert_eq!(&buf[..], &[0x41u8, 0x2C]);
    assert!(QuicVarInt::new(QuicVarInt::MAX + 1).is_none());
    assert!(QuicVarInt::decode(&[0x41u8]).is_none());
    assert!(QuicVarInt::decode(&[]).is_none());
}

#[test]
fn frame_header_roundtrip() {
    let h = FrameHeader {
        version: 1,
        frame_type: FrameType::Data,
        flags: 3,
        stream_id: 77,
        length: QuicVarInt::new(1000).unwrap(),
    };
    let mut b = encode(&h);
    assert_eq!(b.len(), h.encoded_len());
    let d = FrameHeader::decode_sync(&mut b).unwrap();
    assert_eq!(d.version, 1);
    assert_eq!(d.frame_type, FrameType::Data);
    assert_eq!(d.flags, 3);
    assert_eq!(d.stream_id, 77);
    assert_eq!(d.length.inner(), 1000);
    assert!(b.is_empty());
    assert_eq!(FrameType::UdpData.code(), 0x21);
}

#[test]
fn frames_roundtrip() {
    let dst = SocksAddr { addr: AddrOrDomain::V4([10, 0, 0, 1]), port: 443 };
    let frames = vec![
        Frame::Ping(7),
        Frame::Pong(9),
        Frame::Fin,
        Frame::Reset(5),
        Frame::Data(Bytes::from_static(b"hello")),
        Frame::Error(ErrorFrame { code: ERROR_AUTH_FAILED, message: Bytes::from_static(b"no") }),
        Frame::Connect(ConnectReq {
            dst: dst.clone(),
            extensions: vec![Extension { typ: QuicVarInt::new(2).unwrap(), value: Bytes::from_static(b"x") }],
        }),
        Frame::ConnectAck(ConnectAck { status: 0, bind_addr: dst.clone(), extensions: vec![] }),
        Frame::ServerHello(ServerHello {
            version: 1,
            selected_features: FEATURE_UDP,
            connection_id: 42,
            extensions: vec![],
        }),
    ];
    for f in frames {
        let t = f.frame_type();
        let mut b = encode(&f);
        let d = Frame::decode_sync(&mut b).unwrap();
        assert_eq!(d.frame_type(), t);
        assert!(b.is_empty());
        match (&f, &d) {
            (Frame::Ping(a), Frame::Ping(b)) => assert_eq!(a, b),
            (Frame::Pong(a), Frame::Pong(b)) => assert_eq!(a, b),
            (Frame::Reset(a), Frame::Reset(b)) => assert_eq!(a, b),
            (Frame::Data(a), Frame::Data(b)) => assert_eq!(a, b),
            (Frame::Error(a), Frame::Error(b)) => {
                assert_eq!(a.code, b.code);
                assert_eq!(a.message, b.message);
            }
            (Frame::Connect(a), Frame::Connect(b)) => {
                assert_eq!(a.dst, b.dst);
                assert_eq!(b.extensions.len(), 1);
                assert_eq!(b.extensions[0].typ.inner(), 2);
            }
            (Frame::ConnectAck(a), Frame::ConnectAck(b)) => assert_eq!(a.bind_addr, b.bind_addr),
            (Frame::ServerHello(a), Frame::ServerHello(b)) => assert_eq!(a.connection_id, b.connection_id),
            _ => {}
        }
    }
}

#[test]
fn frame_decoding_refusals() {
    let mut empty = Bytes::new();
    assert!(matches!(Frame::try_decode_sync(&mut empty), Decoded::Invalid));
    let h = FrameHeader {
        version: 1,
        frame_type: FrameType::Ping,
        flags: 0,
        stream_id: 0,
        length: QuicVarInt::new(8).unwrap(),
    };
    let mut b = BytesMut::new();
    h.encode_sync(&mut b);
    let mut cut = b.freeze();
    assert!(matches!(Frame::try_decode_sync(&mut cut), Decoded::Invalid));
}

#[test]
fn socks5_messages_roundtrip() {
    let req = AuthReq { version: 5, methods: VarVec { len: 2, contents: vec![0, 2] } };
    let enc = encode(&req);
    assert_eq!(&enc[..], &[5u8, 2, 0, 2]);
    let mut b = enc.clone();
    let d = AuthReq::decode_sync(&mut b).unwrap();
    assert_eq!(d.methods.contents, vec![0u8, 2]);

    let cmd = CmdReq {
        version: 5,
        cmd: 1,
        rsv: 0,
        dst: SocksAddr { addr: AddrOrDomain::V4([1, 2, 3, 4]), port: 80 },
    };
    let enc = encode(&cmd);
    assert_eq!(&enc[..], &[5u8, 1, 0, 1, 1, 2, 3, 4, 0, 80]);
    let mut b = enc.clone();
    let d = CmdReq::decode_sync(&mut b).unwrap();
    assert_eq!(d.dst, cmd.dst);

    let pw = PasswordAuthReq {
        version: 1,
        username: VarVec { len: 3, contents: b"bob".to_vec() },
        password: VarVec { len: 2, contents: b"pw".to_vec() },
    };
    let mut b = encode(&pw);
    let d = PasswordAuthReq::decode_sync(&mut b).unwrap();
    assert_eq!(d.username.contents, b"bob".to_vec());
    assert_eq!(d.password.contents, b"pw".to_vec());

    let h = UdpReqHeader {
        rsv: 0,
        frag: 0,
        dst: SocksAddr::from_domain("a.b".to_string(), 53),
    };
    let enc = encode(&h);
    assert_eq!(&enc[..], &[0u8, 0, 0, 3, 3, b'a', b'.', b'b', 0, 53]);
}

#[test]
fn socks_addr_refusals() {
    let mut bad_type = Bytes::from(vec![9u8, 1, 2, 3, 4, 0, 80]);
    assert!(SocksAddr::decode_sync(&mut bad_type).is_none());
    let mut short = Bytes::from(vec![1u8, 1, 2]);
    assert!(matches!(SocksAddr::try_decode_sync(&mut short), Decoded::Short));
}

#[test]
fn long_domain_name_length_wraps() {
    let name = "a".repeat(256);
    let addr = SocksAddr::from_domain(name, 1);
    match &addr.addr {
        AddrOrDomain::Domain(v) => {
            assert_eq!(v.len, 0);
            assert_eq!(v.contents.len(), 256);
        }
        _ => panic!("expected a domain"),
    }
    let mut b = encode(&addr);
    let back = SocksAddr::decode_sync(&mut b).unwrap();
    assert_ne!(back, addr);
}

#[test]
fn socks_addr_text() {
    let v4 = SocksAddr { addr: AddrOrDomain::V4([192, 168, 0, 1]), port: 8080 };
    assert_eq!(v4.to_string(), "192.168.0.1:8080");
    let mut one = [0u8; 16];
    one[15] = 1;
    let v6 = SocksAddr { addr: AddrOrDomain::V6(one), port: 80 };
    assert_eq!(v6.to_string(), "[::1]:80");
    let mapped = SocksAddr {
        addr: AddrOrDomain::V6([0, 0, 0, 0, 0, 0, 0, 0, 0, 0, 0xff, 0xff, 1, 2, 3, 4]),
        port: 7,
    };
    assert_eq!(mapped.to_string(), "[::ffff:1.2.3.4]:7");
    let full = SocksAddr {
        addr: AddrOrDomain::V6([0x20, 0x01, 0x0d, 0xb8, 0, 0, 0, 0, 0, 1, 0, 0, 0, 0, 0, 1]),
        port: 443,
    };
    assert_eq!(full.to_string(), "[2001:db8::1:0:0:1]:443");
    let name = SocksAddr::from_domain("example.com".to_string(), 443);
    assert_eq!(name.to_string(), "example.com:443");
}

#[test]
fn squic_headers_roundtrip() {
    let h = SQUdpControlHeader { dst: SocksAddr { addr: AddrOrDomain::V4([8, 8, 8, 8]), port: 53 }, id: 513 };
    let enc = encode(&h);
    assert_eq!(&enc[..], &[1u8, 8, 8, 8, 8, 0, 53, 2, 1]);
    let mut b = enc.clone();
    let d = SQUdpControlHeader::decode_sync(&mut b).unwrap();
    assert_eq!(d.id, 513);

    let s = SQPacketStreamHeader { id: 1, len: 2 };
    assert_eq!(&encode(&s)[..], &[0u8, 1, 0, 2]);
    let p = SQPacketDatagramHeader { id: 0xABCD };
    assert_eq!(&encode(&p)[..], &[0xABu8, 0xCD]);

    let req = SQReq::SQConnect(SocksAddr { addr: AddrOrDomain::V4([1, 1, 1, 1]), port: 80 });
    let mut b = encode(&req);
    match SQReq::decode_sync(&mut b).unwrap() {
        SQReq::SQConnect(a) => assert_eq!(a.port, 80),
        _ => panic!("expected a connect request"),
    }
    let mut bad = Bytes::from(vec![9u8]);
    assert!(SQReq::decode_sync(&mut bad).is_none());
}
