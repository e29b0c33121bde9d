//! The distributed store variant: local reads and writes are delegated to
//! an in-process tier, and a broker capability stands by for cross-node
//! coordination. Shard ownership and replica fan-out are forward extension
//! points; with a no-op broker this store behaves exactly like its
//! co-located counterpart, which its `KeyValueStore` contract guarantees.
use vstd::prelude::*;

use crate::broker::Broker;
use crate::errors::Error;
use crate::hash_map_key_value_store::HashmapKeyValueStore;
use crate::key::Key;
use crate::key_value_store::KeyValueStore;
use crate::value::Value;

verus! {

/// A store that keeps an in-process tier and additionally carries a broker
/// for global coordination.
pub struct CoLocatedDistributedKeyValueStore<B> {
    kvs: HashmapKeyValueStore,
    broker: B,
}

impl<B: Broker> CoLocatedDistributedKeyValueStore<B> {
    pub fn new(broker: B) -> (s: CoLocatedDistributedKeyValueStore<B>)
        ensures
            s.inv(),
            s.contents() == Map::<Seq<u8>, Seq<u8>>::empty(),
    {
        CoLocatedDistributedKeyValueStore { kvs: HashmapKeyValueStore::new(), broker }
    }
}

impl<B: Broker> KeyValueStore for CoLocatedDistributedKeyValueStore<B> {
    closed spec fn contents(&self) -> Map<Seq<u8>, Seq<u8>> {
        self.kvs.contents()
    }

    closed spec fn inv(&self) -> bool {
        self.kvs.inv()
    }

    proof fn lemma_inv_contents_finite(&self) {
        self.kvs.lemma_inv_contents_finite();
    }

    fn size(&self) -> (n: usize) {
        self.kvs.size()
    }

    fn contains(&self, key: &Key) -> (present: bool) {
        self.kvs.contains(key)
    }

    fn read(&self, key: &Key) -> (r: Option<Value>) {
        self.kvs.read(key)
    }

    fn create(&mut self, key: &Key, value: &Value) -> (previous: Option<Value>) {
        self.kvs.create(key, value)
    }

    fn update(&mut self, key: &Key, value: &Value) -> (r: Result<Option<Value>, Error>) {
        self.kvs.update(key, value)
    }

    fn delete(&mut self, key: &Key) -> (removed: Option<Value>) {
        self.kvs.delete(key)
    }
}

pub trait SyncKeyValueStore: Sized {
    spec fn sync_inv(&self) -> bool;

    spec fn sync_contents(&self) -> Map<Seq<u8>, Seq<u8>>;

    spec fn sync_broker_name(&self) -> Seq<char>;

    fn broker_config(&self) -> (name: String)
        requires
            self.sync_inv(),
        ensures
            name@ == self.sync_broker_name(),
    ;

    fn key_value(&self, key: &Key) -> (r: Option<Value>)
        requires
            self.sync_inv(),
        ensures
            match r {
                Some(v) => self.sync_contents().contains_key(key@) && v@ == self.sync_contents()[key@],
                None => !self.sync_contents().contains_key(key@),
            },
    ;
}

impl<B: Broker> SyncKeyValueStore for CoLocatedDistributedKeyValueStore<B> {
    closed spec fn sync_inv(&self) -> bool {
        self.kvs.inv()
    }

    closed spec fn sync_contents(&self) -> Map<Seq<u8>, Seq<u8>> {
        self.kvs.contents()
    }

    closed spec fn sync_broker_name(&self) -> Seq<char> {
        self.broker.broker_name()
    }

    fn broker_config(&self) -> (name: String) {
        self.broker.name()
    }

    fn key_value(&self, key: &Key) -> (r: Option<Value>) {
        self.kvs.read(key)
    }
}

} // verus!
