//! The capacity-bound reference cache: the in-process hash-map store
//! composed with pure admission control.

use vstd::prelude::*;

use crate::cache::Cache;
use crate::hash_map_key_value_store::HashmapKeyValueStore;
use crate::max_size_eviction_policy::{MaxSizeEvictionPolicy, MaxSizeModel};

verus! {

/// Convenience factory assembling the capacity-bound cache.
pub struct MaxSizeHashMapCache {}

impl MaxSizeHashMapCache {
    /// An empty cache that refuses creates beyond `max_size` entries.
    pub fn new(max_size: usize) -> (c: Cache<HashmapKeyValueStore, MaxSizeEvictionPolicy>)
        ensures
            c.inv(),
            c.contents() == Map::<Seq<u8>, Seq<u8>>::empty(),
            c.policy() == (MaxSizeModel { max_size: max_size as nat }),
    {
        let kvs = HashmapKeyValueStore::new();
        let ep = MaxSizeEvictionPolicy::new(max_size);
        proof {
            assert(Map::<Seq<u8>, Seq<u8>>::empty().dom() =~= Set::empty());
        }
        Cache::new(kvs, ep)
    }
}

} // verus!
