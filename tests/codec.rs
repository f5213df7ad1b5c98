use bytes::BytesMut;
use rsipstack::codec::{SipCodec, SipCodecType};
use rsipstack::error::Error;

#[test]
fn keepalive_ping_and_pong() {
    let mut codec = SipCodec::new();
    let mut buf = BytesMut::from(&b"\r\n\r\n\r\nrest"[..]);
    assert!(matches!(codec.decode(&mut buf), Ok(Some(SipCodecType::KeepaliveRequest))));
    assert_eq!(&buf[..], b"\r\nrest");
    assert!(matches!(codec.decode(&mut buf), Ok(Some(SipCodecType::KeepaliveResponse))));
    assert_eq!(&buf[..], b"rest");
}

#[test]
fn partial_message_waits() {
    let mut codec = SipCodec::new();
    let mut buf = b"OPTIONS sip:bob@example.com SIP/2.0\r\n".to_vec();
    assert!(matches!(codec.decode_bytes(&mut buf), Ok(None)));
    assert_eq!(buf.len(), 37);
}

#[test]
fn whole_message_is_decoded() {
    let mut codec = SipCodec::new();
    let text = "OPTIONS sip:bob@example.com SIP/2.0\r\nVia: SIP/2.0/TCP 10.0.0.2:5060;branch=z9hG4bK1\r\nFrom: <sip:alice@example.com>;tag=a\r\nTo: <sip:bob@example.com>\r\nCall-ID: c1\r\nCSeq: 1 OPTIONS\r\nContent-Length: 0\r\n\r\n";
    let mut buf = BytesMut::from(text.as_bytes());
    buf.extend_from_slice(b"\r\n");
    assert!(matches!(codec.decode(&mut buf), Ok(Some(SipCodecType::Message(_)))));
    assert_eq!(&buf[..], b"\r\n");
}

#[test]
fn garbage_frame_is_dropped_with_error() {
    let mut codec = SipCodec::new();
    let mut buf = BytesMut::from(&b"garbage\r\n\r\nnext"[..]);
    assert!(matches!(codec.decode(&mut buf), Err(Error::ParseError)));
    assert_eq!(&buf[..], b"next");
}

#[test]
fn oversized_buffer_is_an_error() {
    let mut codec = SipCodec::new();
    let mut buf = BytesMut::from(&vec![b'a'; 65536][..]);
    assert!(matches!(codec.decode(&mut buf), Err(Error::MessageTooLarge)));
    assert!(buf.is_empty());
    let mut buf = vec![b'a'; 65535];
    assert!(matches!(codec.decode_bytes(&mut buf), Ok(None)));
}

const HEAD: &str = "MESSAGE sip:bob@example.com SIP/2.0\r\nVia: SIP/2.0/TCP 10.0.0.2:5060;branch=z9hG4bK2\r\nFrom: <sip:alice@example.com>;tag=a\r\nTo: <sip:bob@example.com>\r\nCall-ID: c2\r\nCSeq: 1 MESSAGE\r\n";

#[test]
fn body_is_framed_by_content_length() {
    let mut codec = SipCodec::new();
    let text = format!("{}Content-Length: 5\r\n\r\nhello\r\n\r\n", HEAD);
    let mut buf = BytesMut::from(text.as_bytes());
    assert!(matches!(codec.decode(&mut buf), Ok(Some(SipCodecType::Message(_)))));
    assert_eq!(&buf[..], b"\r\n\r\n");
    assert!(matches!(codec.decode(&mut buf), Ok(Some(SipCodecType::KeepaliveRequest))));
}

#[test]
fn compact_length_header_any_case() {
    let mut codec = SipCodec::new();
    let text = format!("{}l: 3\r\n\r\nabcXYZ", HEAD);
    let mut buf = BytesMut::from(text.as_bytes());
    assert!(matches!(codec.decode(&mut buf), Ok(Some(SipCodecType::Message(_)))));
    assert_eq!(&buf[..], b"XYZ");
}

#[test]
fn incomplete_body_waits() {
    let mut codec = SipCodec::new();
    let text = format!("{}content-length:10\r\n\r\nhalf", HEAD);
    let mut buf = BytesMut::from(text.as_bytes());
    let len = buf.len();
    assert!(matches!(codec.decode(&mut buf), Ok(None)));
    assert_eq!(buf.len(), len);
}

#[test]
fn huge_declared_body_waits_for_its_bytes() {
    let mut codec = SipCodec::new();
    let text = format!("{}Content-Length: 99999999999999999999999\r\n\r\n", HEAD);
    let mut buf = text.as_bytes().to_vec();
    let len = buf.len();
    assert!(matches!(codec.decode_bytes(&mut buf), Ok(None)));
    assert_eq!(buf.len(), len);
}

#[test]
fn large_body_is_framed_whole() {
    let mut codec = SipCodec::new();
    let text = format!("{}Content-Length: 70000\r\n\r\n", HEAD);
    let mut buf = BytesMut::from(text.as_bytes());
    assert!(matches!(codec.decode(&mut buf), Ok(None)));
    buf.extend_from_slice(&vec![b'x'; 70000]);
    buf.extend_from_slice(b"\r\n");
    assert!(matches!(codec.decode(&mut buf), Ok(Some(SipCodecType::Message(_)))));
    assert_eq!(&buf[..], b"\r\n");
}
