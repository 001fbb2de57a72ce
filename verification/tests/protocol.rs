use audiomock::protocol::{check_message_length, decode_length, frame_message, MAX_MESSAGE_LEN};

#[test]
fn decode_length_is_big_endian() {
    assert_eq!(decode_length(&[0, 0, 0, 5]), 5);
    assert_eq!(decode_length(&[0x01, 0x02, 0x03, 0x04]), 0x0102_0304);
    assert_eq!(decode_length(&[0xff, 0xff, 0xff, 0xff]), u32::MAX);
}

#[test]
fn frame_prefixes_length() {
    let payload = br#"{"type":"Status"}"#;
    let framed = frame_message(payload);
    assert_eq!(framed.len(), 4 + payload.len());
    assert_eq!(&framed[..4], &[0, 0, 0, payload.len() as u8]);
    assert_eq!(&framed[4..], &payload[..]);
}

#[test]
fn frame_roundtrip() {
    let payload = br#"{"type":"Error","message":"not found"}"#;
    let encoded = frame_message(payload);
    let len = decode_length(&encoded[..4].try_into().unwrap()) as usize;
    assert_eq!(&encoded[4..4 + len], &payload[..]);
}

#[test]
fn frame_of_empty_payload() {
    assert_eq!(frame_message(&[]), vec![0, 0, 0, 0]);
}

#[test]
fn frame_of_long_payload() {
    let payload = vec![7u8; 300];
    let framed = frame_message(&payload);
    assert_eq!(&framed[..4], &[0, 0, 1, 44]);
    assert_eq!(decode_length(&framed[..4].try_into().unwrap()), 300);
}

#[test]
fn message_length_limit() {
    assert_eq!(MAX_MESSAGE_LEN, 1024 * 1024);
    assert_eq!(check_message_length(0), Some(0));
    assert_eq!(check_message_length(1024 * 1024), Some(1024 * 1024));
    assert_eq!(check_message_length(1024 * 1024 + 1), None);
}
