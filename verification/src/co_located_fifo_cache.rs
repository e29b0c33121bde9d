//! The co-located FIFO cache: an in-process store composed with a policy
//! that evicts in insertion order. When a create arrives at capacity, the
//! policy evicts the longest-live key through the store's own `delete`
//! before admitting the new key, rather than refusing it.

use vstd::prelude::*;

use crate::broker::Broker;
use crate::cache::Cache;
use crate::co_located_distributed_fifo_cache::CoLocatedDistributedKeyValueStore;
use crate::errors::{Error, ErrorView};
use crate::eviction_policy::{CacheOp, EvictionPolicy, PolicyModel};
use crate::hash_map_key_value_store::HashmapKeyValueStore;
use crate::key::Key;
use crate::key_value_store::KeyValueStore;
use crate::value::Value;

verus! {

broadcast use vstd::set::group_set_axioms;

/// Dropping the first element of a duplicate-free sequence removes exactly
/// that element from the set of its elements.
pub proof fn lemma_drop_first_to_set(q: Seq<Seq<u8>>)
    requires
        q.len() >= 1,
        q.no_duplicates(),
    ensures
        q.drop_first().to_set() == q.to_set().remove(q.first()),
{
    let t = q.drop_first();
    assert forall|x: Seq<u8>| t.to_set().contains(x) implies q.to_set().remove(q.first()).contains(
        x,
    ) by {
        let i = choose|i: int| 0 <= i < t.len() && t[i] == x;
        assert(q[i + 1] == x);
    }
    assert forall|x: Seq<u8>| q.to_set().remove(q.first()).contains(x) implies t.to_set().contains(
        x,
    ) by {
        let i = choose|i: int| 0 <= i < q.len() && q[i] == x;
        assert(i != 0);
        assert(t[i - 1] == x);
    }
    assert(t.to_set() =~= q.to_set().remove(q.first()));
}

/// Removing the element at `i` from a duplicate-free sequence removes
/// exactly that element from the set of its elements.
pub proof fn lemma_remove_to_set(q: Seq<Seq<u8>>, i: int)
    requires
        0 <= i < q.len(),
        q.no_duplicates(),
    ensures
        q.remove(i).to_set() == q.to_set().remove(q[i]),
        q.remove(i).no_duplicates(),
        !q.remove(i).contains(q[i]),
{
    let t = q.remove(i);
    q.remove_ensures(i);
    assert forall|x: Seq<u8>| t.to_set().contains(x) implies q.to_set().remove(q[i]).contains(
        x,
    ) by {
        let j = choose|j: int| 0 <= j < t.len() && t[j] == x;
        if j < i {
            assert(q[j] == x);
        } else {
            assert(q[j + 1] == x);
        }
    }
    assert forall|x: Seq<u8>| q.to_set().remove(q[i]).contains(x) implies t.to_set().contains(
        x,
    ) by {
        let j = choose|j: int| 0 <= j < q.len() && q[j] == x;
        assert(j != i);
        if j < i {
            assert(t[j] == x);
        } else {
            assert(t[j - 1] == x);
        }
    }
    assert(t.to_set() =~= q.to_set().remove(q[i]));
    assert forall|x: int, y: int| 0 <= x < y < t.len() implies t[x] != t[y] by {
        let qx = if x < i {
            x
        } else {
            x + 1
        };
        let qy = if y < i {
            y
        } else {
            y + 1
        };
        assert(t[x] == q[qx] && t[y] == q[qy]);
    }
    if t.contains(q[i]) {
        let j = choose|j: int| 0 <= j < t.len() && t[j] == q[i];
        if j < i {
            assert(q[j] == q[i]);
        } else {
            assert(q[j + 1] == q[i]);
        }
    }
}

/// The model of the FIFO policy: the configured capacity and the queue of
/// live keys in insertion order, oldest first.
pub ghost struct FifoModel {
    pub max_size: nat,
    pub queue: Seq<Seq<u8>>,
}

impl PolicyModel for FifoModel {
    /// The queue tracks exactly the live keys, each once, oldest first, and
    /// the store never exceeds the capacity, which is at least one.
    open spec fn inv(self, contents: Map<Seq<u8>, Seq<u8>>) -> bool {
        &&& contents.dom().finite()
        &&& self.max_size >= 1
        &&& self.queue.no_duplicates()
        &&& self.queue.to_set() == contents.dom()
        &&& contents.dom().len() <= self.max_size
    }

    /// A FIFO policy never refuses an operation: at capacity it makes room
    /// instead.
    open spec fn veto(self, op: CacheOp, key: Seq<u8>, contents: Map<Seq<u8>, Seq<u8>>) -> Option<
        ErrorView,
    > {
        None
    }

    /// Before a create of a fresh key at capacity, the oldest key leaves
    /// the queue; before a delete, the key leaves the queue regardless of
    /// the initiator.
    open spec fn pre_step(self, op: CacheOp, key: Seq<u8>, contents: Map<Seq<u8>, Seq<u8>>) -> Self {
        match op {
            CacheOp::Create => {
                if !contents.contains_key(key) && contents.dom().len() >= self.max_size {
                    FifoModel { max_size: self.max_size, queue: self.queue.drop_first() }
                } else {
                    self
                }
            },
            CacheOp::Delete => FifoModel {
                max_size: self.max_size,
                queue: self.queue.remove_value(key),
            },
            _ => self,
        }
    }

    /// Before a create of a fresh key at capacity, the oldest tracked key
    /// is evicted through the store.
    open spec fn pre_store(self, op: CacheOp, key: Seq<u8>, contents: Map<Seq<u8>, Seq<u8>>) -> Map<
        Seq<u8>,
        Seq<u8>,
    > {
        if op is Create && !contents.contains_key(key) && contents.dom().len() >= self.max_size {
            contents.remove(self.queue.first())
        } else {
            contents
        }
    }

    open spec fn mid_inv(self, op: CacheOp, key: Seq<u8>, contents: Map<Seq<u8>, Seq<u8>>) -> bool {
        match op {
            CacheOp::Create => {
                &&& contents.dom().finite()
                &&& self.max_size >= 1
                &&& self.queue.no_duplicates()
                &&& contents.dom() == self.queue.to_set().insert(key)
                &&& contents.dom().len() <= self.max_size
            },
            CacheOp::Delete => {
                &&& contents.dom().finite()
                &&& self.max_size >= 1
                &&& self.queue.no_duplicates()
                &&& !self.queue.contains(key)
                &&& self.queue.to_set() == contents.dom()
                &&& contents.dom().len() <= self.max_size
            },
            _ => self.inv(contents),
        }
    }

    /// FIFO post hooks never fail.
    open spec fn post_err(self, op: CacheOp, key: Seq<u8>, contents: Map<Seq<u8>, Seq<u8>>) -> Option<
        ErrorView,
    > {
        None
    }

    /// After a create, the new key joins the back of the queue (an
    /// overwrite keeps its original position); after a delete, the key is
    /// gone from the queue.
    open spec fn post_step(self, op: CacheOp, key: Seq<u8>, contents: Map<Seq<u8>, Seq<u8>>) -> Self {
        match op {
            CacheOp::Create => {
                if self.queue.contains(key) {
                    self
                } else {
                    FifoModel { max_size: self.max_size, queue: self.queue.push(key) }
                }
            },
            CacheOp::Delete => FifoModel {
                max_size: self.max_size,
                queue: self.queue.remove_value(key),
            },
            _ => self,
        }
    }
}

/// Keys are evicted in the order they came in: when a create arrives and
/// the store is at capacity, the longest-live key is deleted from the store
/// and dropped from the queue before the new key is admitted. The policy
/// itself never refuses an operation.
pub struct FIFOEvictionPolicy {
    max_size: usize,
    queue: Vec<Key>,
}

impl FIFOEvictionPolicy {
    /// The model of this policy's bookkeeping.
    pub closed spec fn policy_model(&self) -> FifoModel {
        FifoModel { max_size: self.max_size as nat, queue: self.queue@.map_values(|k: Key| k@) }
    }

    /// A policy keeping at most `max_size` entries live. A capacity-bound
    /// FIFO needs room for at least one entry: with a capacity of zero
    /// there would be nothing to evict on the first create.
    pub fn new(max_size: usize) -> (p: FIFOEvictionPolicy)
        requires
            max_size >= 1,
        ensures
            p.policy_model() == (FifoModel {
                max_size: max_size as nat,
                queue: Seq::<Seq<u8>>::empty(),
            }),
    {
        let p = FIFOEvictionPolicy { max_size, queue: Vec::new() };
        proof {
            assert(p.policy_model().queue =~= Seq::<Seq<u8>>::empty());
        }
        p
    }

    /// A FIFO policy with a default capacity of 1024 entries.
    pub fn default() -> (p: FIFOEvictionPolicy)
        ensures
            p.policy_model() == (FifoModel { max_size: 1024, queue: Seq::<Seq<u8>>::empty() }),
    {
        FIFOEvictionPolicy::new(1024)
    }

    /// The position of the key's first occurrence in the queue, if any.
    fn queue_index(&self, key: &Key) -> (r: Option<usize>)
        ensures
            match r {
                Some(i) => {
                    &&& i < self.policy_model().queue.len()
                    &&& self.policy_model().queue[i as int] == key@
                    &&& forall|j: int| 0 <= j < i ==> self.policy_model().queue[j] != key@
                },
                None => !self.policy_model().queue.contains(key@),
            },
    {
        let mut i: usize = 0;
        while i < self.queue.len()
            invariant
                i <= self.queue.len(),
                forall|j: int| 0 <= j < i ==> self.policy_model().queue[j] != key@,
            decreases self.queue.len() - i,
        {
            if self.queue[i] == *key {
                assert(self.policy_model().queue[i as int] == key@);
                return Some(i);
            }
            i = i + 1;
        }
        None
    }

    /// Whether the queue tracks the key.
    fn queue_contains(&self, key: &Key) -> (present: bool)
        ensures
            present == self.policy_model().queue.contains(key@),
    {
        match self.queue_index(key) {
            Some(i) => {
                proof {
                    assert(self.policy_model().queue[i as int] == key@);
                }
                true
            },
            None => false,
        }
    }
}

impl<S: KeyValueStore> EvictionPolicy<S> for FIFOEvictionPolicy {
    type Model = FifoModel;

    open spec fn model(&self) -> FifoModel {
        self.policy_model()
    }

    fn pre_read(&self, key: &Key, kvs: &S) -> (r: Result<(), Error>) {
        Ok(())
    }

    fn post_read(&self, key: &Key, kvs: &S) -> (r: Result<(), Error>) {
        Ok(())
    }

    fn pre_create(&mut self, key: &Key, kvs: &mut S) -> (r: Result<(), Error>) {
        let ghost pm0 = self.policy_model();
        let ghost m0 = kvs.contents();
        let present = kvs.contains(key);
        if !present && kvs.size() >= self.max_size {
            proof {
                kvs.lemma_inv_contents_finite();
                // The store is at capacity >= 1, so some key is live and
                // the queue cannot be empty.
                let w = m0.dom().choose();
                assert(pm0.queue.to_set().contains(w));
                assert(pm0.queue.len() >= 1);
                assert(self.queue.len() >= 1);
            }
            let oldest = self.queue.remove(0);
            proof {
                assert(oldest@ == pm0.queue.first());
                assert(self.policy_model().queue =~= pm0.queue.drop_first());
            }
            let _ = kvs.delete(&oldest);
            proof {
                lemma_drop_first_to_set(pm0.queue);
                assert(kvs.contents().dom() =~= m0.dom().remove(pm0.queue.first()));
                let pm1 = self.policy_model();
                assert forall|j: int, l: int| 0 <= j < l < pm1.queue.len() implies pm1.queue[j]
                    != pm1.queue[l] by {
                    assert(pm1.queue[j] == pm0.queue[j + 1] && pm1.queue[l] == pm0.queue[l + 1]);
                }
                assert forall|v: Seq<u8>|
                    pm1.mid_inv(CacheOp::Create, key@, kvs.contents().insert(key@, v)) by {
                    assert(kvs.contents().insert(key@, v).dom() =~= kvs.contents().dom().insert(
                        key@,
                    ));
                }
            }
            Ok(())
        } else {
            proof {
                kvs.lemma_inv_contents_finite();
                let pm = self.policy_model();
                assert forall|v: Seq<u8>|
                    pm.mid_inv(CacheOp::Create, key@, m0.insert(key@, v)) by {
                    assert(m0.insert(key@, v).dom() =~= m0.dom().insert(key@));
                    if m0.contains_key(key@) {
                        assert(m0.dom().insert(key@) =~= m0.dom());
                    }
                }
            }
            Ok(())
        }
    }

    fn post_create(&mut self, key: &Key, kvs: &S) -> (r: Result<(), Error>) {
        let ghost pm0 = self.policy_model();
        if !self.queue_contains(key) {
            self.queue.push(key.clone());
            proof {
                assert(self.policy_model().queue =~= pm0.queue.push(key@));
                let pm1 = self.policy_model();
                assert forall|j: int, l: int| 0 <= j < l < pm1.queue.len() implies pm1.queue[j]
                    != pm1.queue[l] by {
                    if l < pm1.queue.len() - 1 {
                        assert(pm1.queue[j] == pm0.queue[j] && pm1.queue[l] == pm0.queue[l]);
                    } else {
                        assert(pm1.queue[j] == pm0.queue[j] && pm0.queue.contains(pm0.queue[j]));
                    }
                }
                assert(pm1.queue.to_set() =~= pm0.queue.to_set().insert(key@)) by {
                    assert forall|x: Seq<u8>| pm1.queue.to_set().contains(x) implies pm0
                        .queue
                        .to_set()
                        .insert(key@)
                        .contains(x) by {
                        let j = choose|j: int| 0 <= j < pm1.queue.len() && pm1.queue[j] == x;
                        if j < pm1.queue.len() - 1 {
                            assert(pm0.queue[j] == x);
                        }
                    }
                    assert forall|x: Seq<u8>| pm0.queue.to_set().insert(key@).contains(
                        x,
                    ) implies pm1.queue.to_set().contains(x) by {
                        if x == key@ {
                            assert(pm1.queue.last() == x);
                        } else {
                            let j = choose|j: int| 0 <= j < pm0.queue.len() && pm0.queue[j] == x;
                            assert(pm1.queue[j] == x);
                        }
                    }
                }
            }
        } else {
            proof {
                assert(pm0.queue.to_set().insert(key@) =~= pm0.queue.to_set());
            }
        }
        Ok(())
    }

    fn pre_update(&mut self, key: &Key, kvs: &S) -> (r: Result<(), Error>) {
        proof {
            let pm = self.policy_model();
            let m0 = kvs.contents();
            if m0.contains_key(key@) {
                assert forall|v: Seq<u8>|
                    pm.mid_inv(CacheOp::Update, key@, m0.insert(key@, v)) by {
                    assert(m0.insert(key@, v).dom() =~= m0.dom());
                }
            }
        }
        Ok(())
    }

    fn post_update(&mut self, key: &Key, kvs: &S) -> (r: Result<(), Error>) {
        Ok(())
    }

    fn pre_delete(&mut self, key: &Key, kvs: &S) -> (r: Result<(), Error>) {
        let ghost pm0 = self.policy_model();
        let ghost m0 = kvs.contents();
        proof {
            kvs.lemma_inv_contents_finite();
        }
        match self.queue_index(key) {
            Some(i) => {
                proof {
                    assert(pm0.queue[i as int] == key@);
                    assert(pm0.queue.contains(key@));
                    pm0.queue.index_of_first_ensures(key@);
                    let first = pm0.queue.index_of_first(key@).unwrap();
                    assert(pm0.queue[first] == key@);
                    assert(first == i as int);
                    lemma_remove_to_set(pm0.queue, i as int);
                }
                let _ = self.queue.remove(i);
                proof {
                    assert(self.policy_model().queue =~= pm0.queue.remove(i as int));
                    assert(self.policy_model().queue == pm0.queue.remove_value(key@));
                    assert(m0.remove(key@).dom() =~= m0.dom().remove(key@));
                }
                Ok(())
            },
            None => {
                proof {
                    assert(!pm0.queue.contains(key@));
                    pm0.queue.index_of_first_ensures(key@);
                    assert(pm0.queue.remove_value(key@) == pm0.queue);
                    assert(!m0.dom().contains(key@));
                    assert(m0.remove(key@).dom() =~= m0.dom().remove(key@));
                    assert(m0.dom().remove(key@) =~= m0.dom());
                }
                Ok(())
            },
        }
    }

    fn post_delete(&mut self, key: &Key, kvs: &S) -> (r: Result<(), Error>) {
        proof {
            let pm = self.policy_model();
            pm.queue.index_of_first_ensures(key@);
            assert(pm.queue.remove_value(key@) == pm.queue);
        }
        Ok(())
    }
}

/// The base in-process store of the co-located FIFO cache: the local tier
/// that a broker-backed deployment also delegates to.
pub struct CoLocatedKeyValueStore {
    kvs: HashmapKeyValueStore,
}

impl CoLocatedKeyValueStore {
    /// Builds an empty co-located store.
    pub fn new() -> (s: CoLocatedKeyValueStore)
        ensures
            s.inv(),
            s.contents() == Map::<Seq<u8>, Seq<u8>>::empty(),
    {
        CoLocatedKeyValueStore { kvs: HashmapKeyValueStore::new() }
    }
}

impl KeyValueStore for CoLocatedKeyValueStore {
    closed spec fn contents(&self) -> Map<Seq<u8>, Seq<u8>> {
        self.kvs.contents()
    }

    closed spec fn inv(&self) -> bool {
        self.kvs.inv()
    }

    proof fn lemma_inv_contents_finite(&self) {
        self.kvs.lemma_inv_contents_finite();
    }

    fn size(&self) -> (n: usize) {
        self.kvs.size()
    }

    fn contains(&self, key: &Key) -> (present: bool) {
        self.kvs.contains(key)
    }

    fn read(&self, key: &Key) -> (r: Option<Value>) {
        self.kvs.read(key)
    }

    fn create(&mut self, key: &Key, value: &Value) -> (previous: Option<Value>) {
        self.kvs.create(key, value)
    }

    fn update(&mut self, key: &Key, value: &Value) -> (r: Result<Option<Value>, Error>) {
        self.kvs.update(key, value)
    }

    fn delete(&mut self, key: &Key) -> (removed: Option<Value>) {
        self.kvs.delete(key)
    }
}

/// Convenience factories assembling a FIFO-policed cache.
pub struct CoLocatedFIFOCache {}

impl CoLocatedFIFOCache {
    /// A single-node FIFO cache of the given capacity (at least one).
    pub fn without_broker(max_size: usize) -> (c: Cache<CoLocatedKeyValueStore, FIFOEvictionPolicy>)
        requires
            max_size >= 1,
        ensures
            c.inv(),
            c.contents() == Map::<Seq<u8>, Seq<u8>>::empty(),
            c.policy() == (FifoModel { max_size: max_size as nat, queue: Seq::<Seq<u8>>::empty() }),
    {
        let kvs = CoLocatedKeyValueStore::new();
        let ep = FIFOEvictionPolicy::new(max_size);
        proof {
            assert(Seq::<Seq<u8>>::empty().to_set() =~= Map::<Seq<u8>, Seq<u8>>::empty().dom());
        }
        Cache::new(kvs, ep)
    }

    /// A broker-backed FIFO cache with the default capacity.
    pub fn with_broker<B: Broker>(broker: B) -> (c: Cache<
        CoLocatedDistributedKeyValueStore<B>,
        FIFOEvictionPolicy,
    >)
        ensures
            c.inv(),
            c.contents() == Map::<Seq<u8>, Seq<u8>>::empty(),
            c.policy() == (FifoModel { max_size: 1024, queue: Seq::<Seq<u8>>::empty() }),
    {
        let kvs = CoLocatedDistributedKeyValueStore::new(broker);
        let ep = FIFOEvictionPolicy::default();
        proof {
            assert(Seq::<Seq<u8>>::empty().to_set() =~= Map::<Seq<u8>, Seq<u8>>::empty().dom());
        }
        Cache::new(kvs, ep)
    }
}

} // verus!
