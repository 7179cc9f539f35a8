use oracles::payload::{deserialize, serialize, PayloadError};

#[test]
fn payload_round_trip() {
    let data = vec![0u8, 1, 2, 250, 255, 17];
    let text = serialize(&data);
    assert_eq!(deserialize(&text), Ok(data));
}

#[test]
fn payload_known_values() {
    assert_eq!(serialize(b"hello world"), "aGVsbG8gd29ybGQ=");
    assert_eq!(deserialize("aGVsbG8gd29ybGQ="), Ok(b"hello world".to_vec()));
    assert_eq!(serialize(b""), "");
}

#[test]
fn invalid_payload_is_refused() {
    let err = deserialize("not base64!").unwrap_err();
    assert_eq!(err, PayloadError::InvalidBase64);
    assert_eq!(err.message(), "invalid payload base64");
}

#[test]
fn payload_bytes_are_not_decoded_further() {
    assert_eq!(deserialize("/w=="), Ok(vec![0xFF]));
    assert_eq!(serialize(&[0xFF]), "/w==");
    assert_eq!(serialize(&[0xFB, 0xEF]), "++8=");
    assert_eq!(serialize(b"Man"), "TWFu");
}
