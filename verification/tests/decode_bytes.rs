use whois::decode::{decode, decode_response};
use whois::WhoisError;

#[test]
fn valid_utf8_is_returned_unchanged() {
    let data = "hello whois\r\n".as_bytes().to_vec();
    assert_eq!(decode_response(data.clone(), true).unwrap(), "hello whois\r\n");
    assert_eq!(decode_response(data, false).unwrap(), "hello whois\r\n");
}

#[test]
fn legacy_bytes_decode_as_windows_1252() {
    // 0xE9 is no valid UTF-8 sequence but is `é` in windows-1252.
    let data = vec![b'c', b'a', b'f', 0xE9];
    assert_eq!(decode_response(data, true).unwrap(), "caf\u{e9}");
}

#[test]
fn lossy_fallback_replaces_invalid_sequences() {
    let data = vec![b'c', b'a', b'f', 0xE9];
    assert_eq!(decode_response(data, false).unwrap(), "caf\u{fffd}");
}

#[test]
fn undecodable_legacy_bytes_come_back_as_the_error() {
    // A UTF-8 byte-order mark routes the legacy decoder into UTF-8, where
    // 0xFF forces a replacement, so legacy decoding reports an error.
    let data = vec![0xEF, 0xBB, 0xBF, 0xFF];
    match decode_response(data.clone(), true) {
        Err(WhoisError::WhoisData(bytes)) => assert_eq!(bytes, data),
        other => panic!("expected the raw bytes back, got {:?}", other),
    }
}

#[test]
fn fallback_decode_without_legacy_never_fails() {
    let data = vec![0xEF, 0xBB, 0xBF, 0xFF];
    assert!(decode(data, false).is_ok());
}

#[test]
fn fallback_decode_legacy_plain_bytes() {
    assert_eq!(decode(vec![0xE9], true).unwrap(), "\u{e9}");
}
