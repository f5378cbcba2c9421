use proxy_wasm::bytestring::ByteString;
use proxy_wasm::codec::{deserialize_map, serialize_map, serialize_property_path};
use proxy_wasm::error::DecodeError;

fn pair(key: &str, value: &str) -> (ByteString, ByteString) {
    (key.into(), value.into())
}

#[test]
fn test_serialize_property_path_joins_with_zero_bytes() {
    assert_eq!(serialize_property_path(&[]), b"".to_vec());
    assert_eq!(serialize_property_path(&["request"]), b"request".to_vec());
    assert_eq!(serialize_property_path(&["request", "time"]), b"request\0time".to_vec());
    assert_eq!(
        serialize_property_path(&["node", "metadata", "id"]),
        b"node\0metadata\0id".to_vec()
    );
}

#[test]
fn test_serialize_map_exact_bytes() {
    let entries = vec![pair("a", "b"), pair("cd", "efg")];
    let encoded = serialize_map(&entries);

    let mut expected: Vec<u8> = Vec::new();
    expected.extend_from_slice(&[2, 0, 0, 0]);
    expected.extend_from_slice(&[1, 0, 0, 0]);
    expected.extend_from_slice(&[1, 0, 0, 0]);
    expected.extend_from_slice(&[2, 0, 0, 0]);
    expected.extend_from_slice(&[3, 0, 0, 0]);
    expected.extend_from_slice(b"a\0b\0cd\0efg\0");
    assert_eq!(encoded, expected);
}

#[test]
fn test_serialize_empty_map() {
    let entries: Vec<(ByteString, ByteString)> = Vec::new();
    assert_eq!(serialize_map(&entries), vec![0u8, 0, 0, 0]);
}

#[test]
fn test_map_round_trip() {
    let entries = vec![
        pair(":method", "GET"),
        pair(":path", "/stuff"),
        pair("empty", ""),
        pair("", "only-value"),
        pair("set-cookie", "a=1"),
        pair("set-cookie", "b=2"),
    ];
    let encoded = serialize_map(&entries);
    let decoded = deserialize_map(&encoded).unwrap();
    assert_eq!(decoded, entries);
}

#[test]
fn test_deserialize_empty_payload() {
    assert_eq!(deserialize_map(b""), Ok(Vec::new()));
}

#[test]
fn test_deserialize_truncated_payloads() {
    // Shorter than the pair count.
    assert_eq!(deserialize_map(&[1, 2, 3]), Err(DecodeError::Truncated));

    // The count announces more length fields than the payload holds.
    assert_eq!(deserialize_map(&[9, 0, 0, 0, 1, 0]), Err(DecodeError::Truncated));

    // The length table announces more data than the payload holds.
    let entries = vec![pair("key", "value")];
    let mut encoded = serialize_map(&entries);
    encoded.truncate(encoded.len() - 4);
    assert_eq!(deserialize_map(&encoded), Err(DecodeError::Truncated));
}

#[test]
fn test_deserialize_ignores_trailing_bytes() {
    let entries = vec![pair("k", "v")];
    let mut encoded = serialize_map(&entries);
    encoded.push(7);
    assert_eq!(deserialize_map(&encoded), Ok(entries));
}
