use zo_tunnel::protocol::{
    decode_header, encode_frame, FrameError, HEADER_LEN, MAX_PAYLOAD, MSG_AUTH_REQ, MSG_AUTH_RES, PROTOCOL_VERSION,
};
use zo_tunnel::version::{is_newer, parse_version};

#[test]
fn frame_layout() {
    let f = encode_frame(MSG_AUTH_REQ, b"hello").unwrap();
    assert_eq!(f, vec![PROTOCOL_VERSION, MSG_AUTH_REQ, 0, 0, 0, 5, b'h', b'e', b'l', b'l', b'o']);
    let big = vec![7u8; 300];
    let f = encode_frame(MSG_AUTH_RES, &big).unwrap();
    assert_eq!(&f[..HEADER_LEN], &[1, 2, 0, 0, 1, 44]);
    assert_eq!(f.len(), HEADER_LEN + 300);
}

#[test]
fn frame_roundtrip() {
    let payload = br#"{"client_id":"a","token":"t"}"#;
    let f = encode_frame(MSG_AUTH_REQ, payload).unwrap();
    assert_eq!(decode_header(&f[..HEADER_LEN]), Ok((MSG_AUTH_REQ, payload.len() as u32)));
    assert_eq!(&f[HEADER_LEN..], &payload[..]);
}

#[test]
fn oversized_payload_is_refused() {
    let big = vec![0u8; MAX_PAYLOAD as usize + 1];
    assert!(encode_frame(MSG_AUTH_REQ, &big).is_none());
    assert!(encode_frame(MSG_AUTH_REQ, &big[..MAX_PAYLOAD as usize]).is_some());
    assert_eq!(decode_header(&[1, 1, 0, 16, 0, 1]), Err(FrameError::TooLarge(1048577)));
    assert_eq!(decode_header(&[1, 1, 0, 16, 0, 0]), Ok((1, 1048576)));
}

#[test]
fn wrong_version_is_refused() {
    assert_eq!(decode_header(&[9, 1, 0, 0, 0, 0]), Err(FrameError::BadVersion(9)));
    assert_eq!(FrameError::BadVersion(9).message(), "unsupported protocol version");
    assert_eq!(FrameError::TooLarge(9).message(), "frame too large");
}

#[test]
fn versions_parse() {
    assert_eq!(parse_version("1.2.3"), Some((1, 2, 3)));
    assert_eq!(parse_version("v0.10.0"), Some((0, 10, 0)));
    assert_eq!(parse_version("1.2"), None);
    assert_eq!(parse_version("1.2.3.4"), None);
    assert_eq!(parse_version("1.x.3"), None);
    assert_eq!(parse_version(""), None);
}

#[test]
fn newer_versions() {
    assert!(is_newer("0.1.0", "v0.2.0"));
    assert!(is_newer("v1.9.9", "2.0.0"));
    assert!(is_newer("1.2.3", "1.2.4"));
    assert!(!is_newer("1.2.3", "1.2.3"));
    assert!(!is_newer("1.3.0", "1.2.9"));
    assert!(!is_newer("1.2.3", "garbage"));
}
