use bytes::BytesMut;
use shadowquic::msgs::squic::SQReq;
use shadowquic::msgs::SEncodeSync;
use std::sync::Arc;

#[test]
fn test_encode_req() {
    let req = SQReq::SQAuthenticate(Arc::new([1u8; 64]));
    let mut buf = BytesMut::new();
    req.encode_sync(&mut buf);
    assert_eq!(buf.len(), 65);
    assert_eq!(buf[0], 0x5);
    assert!(buf[1..].iter().all(|b| *b == 1));
}
