use bstr::ByteSlice;
use std::collections::hash_map::DefaultHasher;
use std::hash::{Hash, Hasher};

use proxy_wasm::bytestring::ByteString;

#[test]
fn test_bytestring_bstr_utf8() {
    let string: ByteString = "hello".into();
    assert_eq!(string.as_bytes().is_utf8(), true);
    assert_eq!(string.as_bytes().starts_with_str("hel"), true);
    assert_eq!(string.as_bytes().ends_with_str("lo"), true);
}

#[test]
fn test_bytestring_bstr_bytes() {
    let bytes: ByteString = vec![144u8, 145u8, 146u8].into();
    assert_eq!(bytes.as_bytes().is_utf8(), false);
    assert_eq!(bytes.as_bytes().starts_with_str(b"\x90"), true);
    assert_eq!(bytes.as_bytes().ends_with_str(b"\x92"), true);
}

#[test]
fn test_bytestring_display_utf8() {
    let string: ByteString = "utf-8 encoded string".into();

    assert_eq!(string.display_string(), "utf-8 encoded string");
}

#[test]
fn test_bytestring_debug_utf8() {
    let string: ByteString = "utf-8 encoded string".into();

    assert_eq!(string.debug_string(), "b\"utf-8 encoded string\"");
}

#[test]
fn test_bytestring_display_bytes() {
    let bytes: ByteString = vec![144u8, 145u8, 146u8].into();

    assert_eq!(bytes.display_string(), "\u{fffd}\u{fffd}\u{fffd}");
}

#[test]
fn test_bytestring_debug_bytes() {
    let bytes: ByteString = vec![144u8, 145u8, 146u8].into();

    assert_eq!(bytes.debug_string(), "b\"\\x90\\x91\\x92\"");
}

#[test]
fn test_bytestring_as_ref() {
    fn receive<T>(value: T)
    where
        T: AsRef<[u8]>,
    {
        value.as_ref();
    }

    let string: ByteString = "utf-8 encoded string".into();
    receive(string.into_bytes());

    let bytes: ByteString = vec![144u8, 145u8, 146u8].into();
    receive(bytes.into_bytes());
}

#[test]
fn test_bytestring_substr_eq_utf8() {
    let string: ByteString = "hello".into();

    assert_eq!(string.slice(1, 4), "ell");
    assert_eq!(string.slice(1, 4), "ell".to_owned());

    assert_eq!("ell", string.slice(1, 4));
    assert_eq!("ell".to_owned(), string.slice(1, 4));
}

#[test]
fn test_bytestring_substr_eq_bytes() {
    let bytes: ByteString = vec![144u8, 145u8, 146u8].into();

    assert_eq!(bytes.slice(1, 2), b"\x91" as &[u8]);
    assert_eq!(bytes.slice(1, 2), b"\x91".to_vec());

    assert_eq!(b"\x91" as &[u8], bytes.slice(1, 2));
    assert_eq!(b"\x91".to_vec(), bytes.slice(1, 2));
}

#[test]
#[allow(clippy::eq_op)]
fn test_bytestring_eq_string() {
    let string: ByteString = "utf-8 encoded string".into();

    assert_eq!(string, "utf-8 encoded string");
    assert_eq!(string, b"utf-8 encoded string" as &[u8]);

    assert_eq!("utf-8 encoded string", string);
    assert_eq!(b"utf-8 encoded string" as &[u8], string);

    assert_eq!(string, string);
}

#[test]
#[allow(clippy::eq_op)]
fn test_bytestring_eq_bytes() {
    let bytes: ByteString = vec![144u8, 145u8, 146u8].into();

    assert_eq!(bytes, vec![144u8, 145u8, 146u8]);
    assert_eq!(bytes, b"\x90\x91\x92" as &[u8]);

    assert_eq!(vec![144u8, 145u8, 146u8], bytes);
    assert_eq!(b"\x90\x91\x92" as &[u8], bytes);

    assert_eq!(bytes, bytes);
}

fn hash<T: Hash>(t: &T) -> u64 {
    let mut h = DefaultHasher::new();
    t.hash(&mut h);
    h.finish()
}

#[test]
fn test_bytestring_hash_string() {
    let string: ByteString = "utf-8 encoded string".into();

    assert_ne!(hash(&string), hash(&"utf-8 encoded string"));
    assert_eq!(hash(&string), hash(&b"utf-8 encoded string"));

    assert_ne!(hash(&"utf-8 encoded string"), hash(&string));
    assert_eq!(hash(&b"utf-8 encoded string"), hash(&string));
}

#[test]
fn test_bytestring_hash_bytes() {
    let bytes: ByteString = vec![144u8, 145u8, 146u8].into();

    assert_eq!(hash(&bytes), hash(&vec![144u8, 145u8, 146u8]));
    assert_eq!(hash(&bytes), hash(&[144u8, 145u8, 146u8]));

    assert_eq!(hash(&vec![144u8, 145u8, 146u8]), hash(&bytes));
    assert_eq!(hash(&[144u8, 145u8, 146u8]), hash(&bytes));
}

#[test]
fn test_bytestring_into_string() {
    let string: ByteString = "hello".into();
    assert_eq!(string.into_string().unwrap(), "hello");

    let bytes: ByteString = vec![144u8, 145u8, 146u8].into();
    assert!(bytes.into_string().is_err());
}

#[test]
fn test_bytestring_new_empty() {
    let empty = ByteString::new();
    assert!(empty.is_empty());
    assert_eq!(empty.len(), 0);
    assert_eq!(empty.as_bytes(), b"" as &[u8]);

    let string: ByteString = "hello".into();
    assert!(!string.is_empty());
    assert_eq!(string.len(), 5);
    assert_eq!(string.into_bytes(), b"hello".to_vec());
}
