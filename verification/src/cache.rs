//! The cache orchestrator: generic over a store and an eviction policy, it
//! owns no data itself and purely sequences the hook-dispatch protocol
//! around every store operation, forwarding the first failure verbatim.
//!
//! Each operation follows the state machine
//! `Start -> PreHook -> (Vetoed = Fail | Proceed) -> StoreOp -> PostHook ->
//! (PostFail = Fail-with-mutation-applied | Success)`, written down here as
//! the spec-level step functions `read_step`, `create_step`, `update_step`
//! and `delete_step`; the contract of every operation equates its outcome
//! with the corresponding step function.

use vstd::prelude::*;

use crate::errors::{Error, ErrorView, no_existing_value_error_view};
use crate::eviction_policy::{CacheOp, EvictionPolicy, PolicyModel};
use crate::key::Key;
use crate::key_value_store::KeyValueStore;
use crate::value::Value;

verus! {

/// The view of an operation's outcome: value bytes in place of values, an
/// error view in place of the error.
pub open spec fn res_view(r: Result<Option<Value>, Error>) -> Result<Option<Seq<u8>>, ErrorView> {
    match r {
        Ok(Some(v)) => Ok(Some(v@)),
        Ok(None) => Ok(None),
        Err(e) => Err(e@),
    }
}

/// The value under `key`, or none.
pub open spec fn lookup(m: Map<Seq<u8>, Seq<u8>>, key: Seq<u8>) -> Option<Seq<u8>> {
    if m.contains_key(key) {
        Some(m[key])
    } else {
        None
    }
}

/// One `read` through the hook-dispatch protocol. A read never changes the
/// store or the policy; the outcome is the first hook failure, or the value
/// under the key.
pub open spec fn read_step<M: PolicyModel>(p: M, m: Map<Seq<u8>, Seq<u8>>, key: Seq<u8>) -> Result<
    Option<Seq<u8>>,
    ErrorView,
> {
    match p.veto(CacheOp::Read, key, m) {
        Some(e) => Err(e),
        None => match p.post_err(CacheOp::Read, key, m) {
            Some(e) => Err(e),
            None => Ok(lookup(m, key)),
        },
    }
}

/// One `create` through the hook-dispatch protocol: the policy may veto or
/// first evict through the store (`pre_store`), then the store inserts,
/// then the policy records the new key. Returns the policy bookkeeping, the
/// store contents and the outcome after the operation.
pub open spec fn create_step<M: PolicyModel>(
    p: M,
    m: Map<Seq<u8>, Seq<u8>>,
    key: Seq<u8>,
    value: Seq<u8>,
) -> (M, Map<Seq<u8>, Seq<u8>>, Result<Option<Seq<u8>>, ErrorView>) {
    match p.veto(CacheOp::Create, key, m) {
        Some(e) => (p, m, Err(e)),
        None => {
            let p1 = p.pre_step(CacheOp::Create, key, m);
            let m1 = p.pre_store(CacheOp::Create, key, m);
            let previous = lookup(m1, key);
            let m2 = m1.insert(key, value);
            let p2 = p1.post_step(CacheOp::Create, key, m2);
            match p1.post_err(CacheOp::Create, key, m2) {
                Some(e) => (p2, m2, Err(e)),
                None => (p2, m2, Ok(previous)),
            }
        },
    }
}

/// One `update` through the hook-dispatch protocol. The store replaces the
/// value of an existing key; an update of an absent key is the store's own
/// failure and, as the first failure, is the outcome even though the post
/// hook still runs.
pub open spec fn update_step<M: PolicyModel>(
    p: M,
    m: Map<Seq<u8>, Seq<u8>>,
    key: Seq<u8>,
    value: Seq<u8>,
) -> (M, Map<Seq<u8>, Seq<u8>>, Result<Option<Seq<u8>>, ErrorView>) {
    match p.veto(CacheOp::Update, key, m) {
        Some(e) => (p, m, Err(e)),
        None => {
            let p1 = p.pre_step(CacheOp::Update, key, m);
            if m.contains_key(key) {
                let m2 = m.insert(key, value);
                let p2 = p1.post_step(CacheOp::Update, key, m2);
                match p1.post_err(CacheOp::Update, key, m2) {
                    Some(e) => (p2, m2, Err(e)),
                    None => (p2, m2, Ok(Some(m[key]))),
                }
            } else {
                let p2 = p1.post_step(CacheOp::Update, key, m);
                (p2, m, Err(no_existing_value_error_view()))
            }
        },
    }
}

/// One `delete` through the hook-dispatch protocol: the policy may veto or
/// drop the key from its bookkeeping, then the store removes the entry.
pub open spec fn delete_step<M: PolicyModel>(
    p: M,
    m: Map<Seq<u8>, Seq<u8>>,
    key: Seq<u8>,
) -> (M, Map<Seq<u8>, Seq<u8>>, Result<Option<Seq<u8>>, ErrorView>) {
    match p.veto(CacheOp::Delete, key, m) {
        Some(e) => (p, m, Err(e)),
        None => {
            let p1 = p.pre_step(CacheOp::Delete, key, m);
            let previous = lookup(m, key);
            let m2 = m.remove(key);
            let p2 = p1.post_step(CacheOp::Delete, key, m2);
            match p1.post_err(CacheOp::Delete, key, m2) {
                Some(e) => (p2, m2, Err(e)),
                None => (p2, m2, Ok(previous)),
            }
        },
    }
}

/// The cache orchestrator: exactly one store and one policy, composed for
/// the cache's lifetime.
pub struct Cache<S: KeyValueStore, E: EvictionPolicy<S>> {
    kvs: S,
    ep: E,
}

impl<S: KeyValueStore, E: EvictionPolicy<S>> Cache<S, E> {
    /// The store contents this cache mediates.
    pub closed spec fn contents(&self) -> Map<Seq<u8>, Seq<u8>> {
        self.kvs.contents()
    }

    /// The model of the composed policy's bookkeeping.
    pub closed spec fn policy(&self) -> E::Model {
        self.ep.model()
    }

    /// Well-formedness: the store's own invariant and the joint invariant
    /// between policy bookkeeping and store contents.
    pub closed spec fn inv(&self) -> bool {
        self.kvs.inv() && self.ep.model().inv(self.kvs.contents())
    }

    /// Composes a store and a policy into a cache. The pair must be
    /// consistent with each other from the start.
    pub fn new(kvs: S, ep: E) -> (c: Cache<S, E>)
        requires
            kvs.inv(),
            ep.model().inv(kvs.contents()),
        ensures
            c.inv(),
            c.contents() == kvs.contents(),
            c.policy() == ep.model(),
    {
        Cache { kvs, ep }
    }

    /// The number of live entries.
    pub fn size(&self) -> (n: usize)
        requires
            self.inv(),
        ensures
            n as nat == self.contents().dom().len(),
    {
        self.kvs.size()
    }

    /// The number of live entries (an alias of `size`).
    pub fn len(&self) -> (n: usize)
        requires
            self.inv(),
        ensures
            n as nat == self.contents().dom().len(),
    {
        self.kvs.size()
    }

    /// Reads the value under `key` through the pre/post read hooks. The
    /// outcome is exactly `read_step`; the store is never touched.
    pub fn read(&self, key: &Key) -> (r: Result<Option<Value>, Error>)
        requires
            self.inv(),
        ensures
            res_view(r) == read_step(self.policy(), self.contents(), key@),
    {
        match self.ep.pre_read(key, &self.kvs) {
            Ok(()) => {
                let value = self.kvs.read(key);
                match self.ep.post_read(key, &self.kvs) {
                    Ok(()) => Ok(value),
                    Err(e) => Err(e),
                }
            },
            Err(e) => Err(e),
        }
    }

    /// Creates (or overwrites) the entry under `key` through the pre/post
    /// create hooks. The new state and the outcome are exactly
    /// `create_step`: a veto leaves everything unchanged, an admitted
    /// create first lets the policy evict, then inserts.
    pub fn create(&mut self, key: &Key, value: &Value) -> (r: Result<Option<Value>, Error>)
        requires
            old(self).inv(),
        ensures
            ({
                let (p2, m2, rr) = create_step(
                    old(self).policy(),
                    old(self).contents(),
                    key@,
                    value@,
                );
                &&& final(self).policy() == p2
                &&& final(self).contents() == m2
                &&& res_view(r) == rr
                &&& (rr is Ok ==> final(self).inv())
            }),
            old(self).policy().veto(CacheOp::Create, key@, old(self).contents()) is Some
                ==> final(self).inv(),
    {
        let pre_res = self.ep.pre_create(key, &mut self.kvs);
        match pre_res {
            Ok(()) => {
                let previous = self.kvs.create(key, value);
                let post_res = self.ep.post_create(key, &self.kvs);
                match post_res {
                    Ok(()) => Ok(previous),
                    Err(e) => Err(e),
                }
            },
            Err(e) => Err(e),
        }
    }

    /// Replaces the value under an existing `key` through the pre/post
    /// update hooks; an update of an absent key is the store's
    /// `NoExistingValue` failure and leaves the contents unchanged. The new
    /// state and the outcome are exactly `update_step`.
    pub fn update(&mut self, key: &Key, value: &Value) -> (r: Result<Option<Value>, Error>)
        requires
            old(self).inv(),
        ensures
            ({
                let (p2, m2, rr) = update_step(
                    old(self).policy(),
                    old(self).contents(),
                    key@,
                    value@,
                );
                &&& final(self).policy() == p2
                &&& final(self).contents() == m2
                &&& res_view(r) == rr
                &&& (rr is Ok ==> final(self).inv())
            }),
            old(self).policy().veto(CacheOp::Update, key@, old(self).contents()) is Some
                ==> final(self).inv(),
            ({
                let p0 = old(self).policy();
                let m0 = old(self).contents();
                let p1 = p0.pre_step(CacheOp::Update, key@, m0);
                &&& p0.veto(CacheOp::Update, key@, m0) is None
                &&& !m0.contains_key(key@)
                &&& p1.post_err(CacheOp::Update, key@, m0) is None
            }) ==> final(self).inv(),
    {
        let pre_res = self.ep.pre_update(key, &self.kvs);
        match pre_res {
            Ok(()) => {
                let store_res = self.kvs.update(key, value);
                let post_res = self.ep.post_update(key, &self.kvs);
                match store_res {
                    Ok(previous) => match post_res {
                        Ok(()) => Ok(previous),
                        Err(e) => Err(e),
                    },
                    // The store's failure came first; it is the outcome,
                    // though the post hook has already run.
                    Err(e) => Err(e),
                }
            },
            Err(e) => Err(e),
        }
    }

    /// Removes the entry under `key` through the pre/post delete hooks. The
    /// new state and the outcome are exactly `delete_step`.
    pub fn delete(&mut self, key: &Key) -> (r: Result<Option<Value>, Error>)
        requires
            old(self).inv(),
        ensures
            ({
                let (p2, m2, rr) = delete_step(old(self).policy(), old(self).contents(), key@);
                &&& final(self).policy() == p2
                &&& final(self).contents() == m2
                &&& res_view(r) == rr
                &&& (rr is Ok ==> final(self).inv())
            }),
            old(self).policy().veto(CacheOp::Delete, key@, old(self).contents()) is Some
                ==> final(self).inv(),
    {
        let pre_res = self.ep.pre_delete(key, &self.kvs);
        match pre_res {
            Ok(()) => {
                let removed = self.kvs.delete(key);
                let post_res = self.ep.post_delete(key, &self.kvs);
                match post_res {
                    Ok(()) => Ok(removed),
                    Err(e) => Err(e),
                }
            },
            Err(e) => Err(e),
        }
    }
}

} // verus!
