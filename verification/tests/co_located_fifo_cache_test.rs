use hoard::broker::{Broker, NoBroker};
use hoard::co_located_distributed_fifo_cache::SyncKeyValueStore;
use hoard::co_located_distributed_fifo_cache::CoLocatedDistributedKeyValueStore;
use hoard::co_located_fifo_cache::CoLocatedFIFOCache;
use hoard::key::Key;
use hoard::key_value_store::KeyValueStore;
use hoard::value::Value;
use hoard::ErrorKind;

fn key(s: &str) -> Key {
    Key::new(s.as_bytes().to_vec())
}

fn val(b: u8) -> Value {
    Value::new(vec![b])
}

#[test]
fn fifo_keeps_newest_entries_at_capacity() {
    let mut c = CoLocatedFIFOCache::without_broker(2);
    assert!(c.create(&key("k1"), &val(1)).is_ok());
    assert!(c.create(&key("k2"), &val(2)).is_ok());
    assert!(c.create(&key("k3"), &val(3)).is_ok());

    assert!(c.read(&key("k1")).unwrap().is_none());
    assert_eq!(c.read(&key("k2")).unwrap().unwrap().to_bytes(), &vec![2u8]);
    assert_eq!(c.read(&key("k3")).unwrap().unwrap().to_bytes(), &vec![3u8]);
    assert_eq!(c.size(), 2);
}

#[test]
fn fifo_evicts_in_insertion_order() {
    let mut c = CoLocatedFIFOCache::without_broker(3);
    for (k, v) in [("a", 1u8), ("b", 2), ("c", 3), ("d", 4), ("e", 5)] {
        assert!(c.create(&key(k), &val(v)).is_ok());
    }
    assert!(c.read(&key("a")).unwrap().is_none());
    assert!(c.read(&key("b")).unwrap().is_none());
    assert_eq!(c.read(&key("c")).unwrap().unwrap().to_bytes(), &vec![3u8]);
    assert_eq!(c.read(&key("d")).unwrap().unwrap().to_bytes(), &vec![4u8]);
    assert_eq!(c.read(&key("e")).unwrap().unwrap().to_bytes(), &vec![5u8]);
    assert_eq!(c.size(), 3);
}

#[test]
fn fifo_create_then_read_round_trip() {
    let mut c = CoLocatedFIFOCache::without_broker(5);
    assert!(c.create(&key("k"), &val(42)).is_ok());
    assert_eq!(c.read(&key("k")).unwrap().unwrap().to_bytes(), &vec![42u8]);
}

#[test]
fn fifo_delete_frees_a_slot_and_updates_eviction_order() {
    let mut c = CoLocatedFIFOCache::without_broker(2);
    assert!(c.create(&key("a"), &val(1)).is_ok());
    assert!(c.create(&key("b"), &val(2)).is_ok());

    let removed = c.delete(&key("a")).unwrap();
    assert_eq!(removed.unwrap().to_bytes(), &vec![1u8]);
    assert_eq!(c.size(), 1);

    // After the delete, "b" is the oldest live key: the next create beyond
    // capacity evicts it, not the deleted slot.
    assert!(c.create(&key("c"), &val(3)).is_ok());
    assert!(c.create(&key("d"), &val(4)).is_ok());
    assert!(c.read(&key("b")).unwrap().is_none());
    assert_eq!(c.read(&key("c")).unwrap().unwrap().to_bytes(), &vec![3u8]);
    assert_eq!(c.read(&key("d")).unwrap().unwrap().to_bytes(), &vec![4u8]);
    assert_eq!(c.size(), 2);
}

#[test]
fn fifo_update_of_absent_key_fails() {
    let mut c = CoLocatedFIFOCache::without_broker(2);
    let e = c.update(&key("nope"), &val(1)).unwrap_err();
    assert_eq!(e.kind, ErrorKind::NoExistingValue);
    assert!(c.read(&key("nope")).unwrap().is_none());
}

#[test]
fn no_broker_reports_its_name() {
    let b = NoBroker {};
    assert_eq!(b.name(), "No Broker");
}

#[test]
fn with_broker_cache_behaves_like_co_located() {
    let mut c = CoLocatedFIFOCache::with_broker(NoBroker {});
    assert!(c.create(&key("k"), &val(9)).is_ok());
    assert_eq!(c.read(&key("k")).unwrap().unwrap().to_bytes(), &vec![9u8]);
    assert_eq!(c.size(), 1);
}

#[test]
fn distributed_store_reads_local_tier_and_reports_broker() {
    let mut s = CoLocatedDistributedKeyValueStore::new(NoBroker {});
    assert_eq!(s.broker_config(), "No Broker");
    assert!(s.create(&key("k"), &val(5)).is_none());
    assert_eq!(s.key_value(&key("k")).unwrap().to_bytes(), &vec![5u8]);
    assert!(s.key_value(&key("other")).is_none());
    assert_eq!(s.size(), 1);
}

#[test]
fn fifo_overwrite_of_live_key_evicts_nothing() {
    let mut c = CoLocatedFIFOCache::without_broker(2);
    assert!(c.create(&key("a"), &val(1)).is_ok());
    assert!(c.create(&key("b"), &val(2)).is_ok());

    // The store is at capacity, but "a" is already live: the create
    // overwrites in place and nothing is evicted.
    let previous = c.create(&key("a"), &val(9)).unwrap();
    assert_eq!(previous.unwrap().to_bytes(), &vec![1u8]);
    assert_eq!(c.read(&key("a")).unwrap().unwrap().to_bytes(), &vec![9u8]);
    assert_eq!(c.read(&key("b")).unwrap().unwrap().to_bytes(), &vec![2u8]);
    assert_eq!(c.size(), 2);
}
