use hoard::key::Key;
use hoard::max_size_hash_map_cache::MaxSizeHashMapCache;
use hoard::value::Value;
use hoard::ErrorKind;

fn key(s: &str) -> Key {
    Key::new(s.as_bytes().to_vec())
}

fn val(b: u8) -> Value {
    Value::new(vec![b])
}

#[test]
fn create_and_read_cache() {
    let k = key("10");
    let mut c = MaxSizeHashMapCache::new(5);
    let _ = c.create(&k, &val(10));
    let value = c.read(&k);

    match value {
        Ok(x) => match x {
            Some(x) => {
                assert_eq!(10, x.to_bytes()[0]);
            }
            None => panic!("No value was returned!!"),
        },
        Err(_) => panic!("There was an unexpected error"),
    }
}

#[test]
fn cache_size_exceeds() {
    let k = key("10");
    let mut c = MaxSizeHashMapCache::new(5);
    let _ = c.create(&key("1"), &val(10));
    let _ = c.create(&key("2"), &val(10));
    let _ = c.create(&key("3"), &val(10));
    let _ = c.create(&key("4"), &val(10));
    let _ = c.create(&key("5"), &val(10));

    let value = c.create(&k, &val(10));

    match value {
        Ok(_) => {
            panic!("Cache should have maxed out.")
        }
        Err(e) => {
            assert!(matches!(e.kind, ErrorKind::Size));
            assert_eq!(e.message, "Size of cache cannot exceed 5. Was 5");
        }
    }
}

#[test]
fn admits_and_reads_within_capacity() {
    let mut c = MaxSizeHashMapCache::new(2);
    assert!(c.create(&key("1"), &val(10)).unwrap().is_none());
    assert!(c.create(&key("2"), &val(12)).unwrap().is_none());

    let got = c.read(&key("2")).unwrap();
    assert_eq!(got.unwrap().to_bytes(), &vec![12u8]);
    assert_eq!(c.size(), 2);
    assert_eq!(c.len(), 2);
}

#[test]
fn refuses_create_at_capacity_with_exact_message() {
    let mut c = MaxSizeHashMapCache::new(2);
    assert!(c.create(&key("1"), &val(10)).is_ok());
    assert!(c.create(&key("2"), &val(10)).is_ok());

    let e = c.create(&key("3"), &val(10)).unwrap_err();
    assert_eq!(e.kind, ErrorKind::Size);
    assert_eq!(e.message, "Size of cache cannot exceed 2. Was 2");
    assert_eq!(c.size(), 2);
}

#[test]
fn refuses_every_create_at_capacity_zero() {
    let mut c = MaxSizeHashMapCache::new(0);
    let e = c.create(&key("1"), &val(1)).unwrap_err();
    assert_eq!(e.kind, ErrorKind::Size);
    assert_eq!(e.message, "Size of cache cannot exceed 0. Was 0");
    assert_eq!(c.size(), 0);
}

#[test]
fn create_overwrites_and_returns_previous() {
    let mut c = MaxSizeHashMapCache::new(4);
    assert!(c.create(&key("a"), &val(1)).unwrap().is_none());
    let previous = c.create(&key("a"), &val(2)).unwrap();
    assert_eq!(previous.unwrap().to_bytes(), &vec![1u8]);
    assert_eq!(c.read(&key("a")).unwrap().unwrap().to_bytes(), &vec![2u8]);
    assert_eq!(c.size(), 1);
}

#[test]
fn update_of_absent_key_fails_and_changes_nothing() {
    let mut c = MaxSizeHashMapCache::new(4);
    let e = c.update(&key("missing"), &val(9)).unwrap_err();
    assert_eq!(e.kind, ErrorKind::NoExistingValue);
    assert_eq!(e.message, "No existing value for the supplied key");
    assert!(c.read(&key("missing")).unwrap().is_none());
    assert_eq!(c.size(), 0);
}

#[test]
fn update_of_live_key_replaces_and_returns_previous() {
    let mut c = MaxSizeHashMapCache::new(4);
    assert!(c.create(&key("a"), &val(1)).is_ok());
    let previous = c.update(&key("a"), &val(7)).unwrap();
    assert_eq!(previous.unwrap().to_bytes(), &vec![1u8]);
    assert_eq!(c.read(&key("a")).unwrap().unwrap().to_bytes(), &vec![7u8]);
}

#[test]
fn delete_removes_entry_and_shrinks_size_by_one() {
    let mut c = MaxSizeHashMapCache::new(4);
    assert!(c.create(&key("a"), &val(1)).is_ok());
    assert!(c.create(&key("b"), &val(2)).is_ok());
    assert_eq!(c.size(), 2);

    let removed = c.delete(&key("a")).unwrap();
    assert_eq!(removed.unwrap().to_bytes(), &vec![1u8]);
    assert!(c.read(&key("a")).unwrap().is_none());
    assert_eq!(c.size(), 1);
}

#[test]
fn delete_of_absent_key_returns_none() {
    let mut c = MaxSizeHashMapCache::new(4);
    let removed = c.delete(&key("ghost")).unwrap();
    assert!(removed.is_none());
    assert_eq!(c.size(), 0);
}
