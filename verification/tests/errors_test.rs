use hoard::errors::{decimal_string, no_existing_value_error, size_error};
use hoard::key::Key;
use hoard::key_value_store::KeyValueStore;
use hoard::hash_map_key_value_store::HashmapKeyValueStore;
use hoard::value::Value;
use hoard::serde::{IdentityCodec, Serde};
use hoard::ErrorKind;

#[test]
fn decimal_rendering_is_exact() {
    assert_eq!(decimal_string(0), "0");
    assert_eq!(decimal_string(7), "7");
    assert_eq!(decimal_string(10), "10");
    assert_eq!(decimal_string(1024), "1024");
    assert_eq!(decimal_string(90871), "90871");
}

#[test]
fn size_error_cites_limit_and_observed_size() {
    let e = size_error(1024, 37);
    assert_eq!(e.kind, ErrorKind::Size);
    assert_eq!(e.message, "Size of cache cannot exceed 1024. Was 37");
}

#[test]
fn no_existing_value_error_has_its_kind_and_message() {
    let e = no_existing_value_error();
    assert_eq!(e.kind, ErrorKind::NoExistingValue);
    assert_eq!(e.message, "No existing value for the supplied key");
}

#[test]
fn key_round_trips_through_bytes_and_compares_by_contents() {
    let k = Key::new(vec![2, 21, 78]);
    assert_eq!(k.to_bytes(), &vec![2u8, 21, 78]);
    assert_eq!(k, Key::new(vec![2, 21, 78]));
    assert_ne!(k, Key::new(vec![2, 21]));
    let copy = k.clone();
    assert_eq!(copy, k);
}

#[test]
fn value_round_trips_through_bytes() {
    let v = Value::new(vec![9, 8, 7]);
    assert_eq!(v.to_bytes(), &vec![9u8, 8, 7]);
    assert_eq!(v.clone().to_bytes(), &vec![9u8, 8, 7]);
}

#[test]
fn bare_store_supports_all_four_operations() {
    let mut s = HashmapKeyValueStore::new();
    let k = Key::new(b"k".to_vec());
    assert!(s.create(&k, &Value::new(vec![1])).is_none());
    assert!(s.contains(&k));
    assert_eq!(s.read(&k).unwrap().to_bytes(), &vec![1u8]);
    assert_eq!(s.update(&k, &Value::new(vec![2])).unwrap().unwrap().to_bytes(), &vec![1u8]);
    assert_eq!(s.size(), 1);
    assert_eq!(s.delete(&k).unwrap().to_bytes(), &vec![2u8]);
    assert_eq!(s.size(), 0);
    assert!(!s.contains(&k));
    assert!(s.update(&k, &Value::new(vec![3])).is_err());
}

#[test]
fn identity_codec_round_trips_a_value() {
    let codec = IdentityCodec {};
    let v = Value::new(vec![1, 2, 3]);
    let bytes = codec.encode(&v);
    assert_eq!(bytes, vec![1u8, 2, 3]);
    let back = codec.decode(&bytes).unwrap();
    assert_eq!(back.to_bytes(), &vec![1u8, 2, 3]);
}
