//! The eviction policy capability and its mathematical model. A policy is
//! invoked symmetrically before and after every store operation: the pre
//! hook may veto the operation or perform a compensating eviction through
//! the store, the post hook observes the completed operation and updates
//! the policy's private bookkeeping.

use vstd::prelude::*;

use crate::errors::{Error, ErrorView};
use crate::key::Key;
use crate::key_value_store::KeyValueStore;

verus! {

/// The four store operations a policy is hooked around.
pub ghost enum CacheOp {
    Create,
    Read,
    Update,
    Delete,
}

/// The mathematical model of an eviction policy: a pure state machine over
/// the policy's private bookkeeping, driven by the operation, the key and
/// the store contents. The hook-dispatch protocol for one operation runs
/// `veto`, then (if not vetoed) the pre-hook transition `pre_step` /
/// `pre_store`, then the store operation itself, then the post-hook
/// transition `post_step` with failure `post_err`.
pub trait PolicyModel: Sized {
    /// The joint invariant between the policy's bookkeeping and the store
    /// contents; it holds between operations.
    spec fn inv(self, contents: Map<Seq<u8>, Seq<u8>>) -> bool;

    /// The pre-hook's decision: the error with which the operation is
    /// vetoed, or none to let it proceed. A vetoed operation leaves both
    /// the store and the policy unchanged.
    spec fn veto(self, op: CacheOp, key: Seq<u8>, contents: Map<Seq<u8>, Seq<u8>>) -> Option<
        ErrorView,
    >;

    /// The policy's bookkeeping after an admitted pre hook.
    spec fn pre_step(self, op: CacheOp, key: Seq<u8>, contents: Map<Seq<u8>, Seq<u8>>) -> Self;

    /// The store contents after an admitted pre hook: the hook may only
    /// evict (remove entries), e.g. to make room before a create.
    spec fn pre_store(self, op: CacheOp, key: Seq<u8>, contents: Map<Seq<u8>, Seq<u8>>) -> Map<
        Seq<u8>,
        Seq<u8>,
    >;

    /// What an admitted pre hook guarantees about the state the post hook
    /// will see: `self` is the bookkeeping after the pre hook and
    /// `contents` the store contents after the store operation.
    spec fn mid_inv(self, op: CacheOp, key: Seq<u8>, contents: Map<Seq<u8>, Seq<u8>>) -> bool;

    /// The post hook's failure, or none. A failing post hook means the
    /// store mutation already happened and the bookkeeping may be
    /// inconsistent; conforming policies keep such failures rare.
    spec fn post_err(self, op: CacheOp, key: Seq<u8>, contents: Map<Seq<u8>, Seq<u8>>) -> Option<
        ErrorView,
    >;

    /// The policy's bookkeeping after the post hook.
    spec fn post_step(self, op: CacheOp, key: Seq<u8>, contents: Map<Seq<u8>, Seq<u8>>) -> Self;
}

/// The eviction policy capability: eight hooks, one pre/post pair per store
/// operation, each contracted against the policy's `PolicyModel`. Read
/// hooks only observe: they may veto for symmetry but never touch the
/// store. `pre_create` is the admission-control point and the only hook
/// that may mutate the store (a compensating eviction through the store's
/// own `delete`).
pub trait EvictionPolicy<S: KeyValueStore>: Sized {
    /// The mathematical model of this policy's bookkeeping.
    type Model: PolicyModel;

    /// The model of the policy's current bookkeeping.
    spec fn model(&self) -> Self::Model;

    fn pre_read(&self, key: &Key, kvs: &S) -> (r: Result<(), Error>)
        requires
            kvs.inv(),
            self.model().inv(kvs.contents()),
        ensures
            match r {
                Ok(()) => {
                    &&& self.model().veto(CacheOp::Read, key@, kvs.contents()) is None
                    &&& self.model().mid_inv(CacheOp::Read, key@, kvs.contents())
                },
                Err(e) => self.model().veto(CacheOp::Read, key@, kvs.contents()) == Some(e@),
            },
    ;

    fn post_read(&self, key: &Key, kvs: &S) -> (r: Result<(), Error>)
        requires
            kvs.inv(),
            self.model().mid_inv(CacheOp::Read, key@, kvs.contents()),
        ensures
            match r {
                Ok(()) => self.model().post_err(CacheOp::Read, key@, kvs.contents()) is None,
                Err(e) => self.model().post_err(CacheOp::Read, key@, kvs.contents()) == Some(e@),
            },
    ;

    fn pre_create(&mut self, key: &Key, kvs: &mut S) -> (r: Result<(), Error>)
        requires
            old(kvs).inv(),
            old(self).model().inv(old(kvs).contents()),
        ensures
            final(kvs).inv(),
            match r {
                Ok(()) => {
                    let p0 = old(self).model();
                    let m0 = old(kvs).contents();
                    &&& p0.veto(CacheOp::Create, key@, m0) is None
                    &&& final(self).model() == p0.pre_step(CacheOp::Create, key@, m0)
                    &&& final(kvs).contents() == p0.pre_store(CacheOp::Create, key@, m0)
                    &&& forall|v: Seq<u8>|
                        final(self).model().mid_inv(
                            CacheOp::Create,
                            key@,
                            final(kvs).contents().insert(key@, v),
                        )
                },
                Err(e) => {
                    &&& old(self).model().veto(CacheOp::Create, key@, old(kvs).contents()) == Some(
                        e@,
                    )
                    &&& final(self).model() == old(self).model()
                    &&& final(kvs).contents() == old(kvs).contents()
                },
            },
    ;

    fn post_create(&mut self, key: &Key, kvs: &S) -> (r: Result<(), Error>)
        requires
            kvs.inv(),
            old(self).model().mid_inv(CacheOp::Create, key@, kvs.contents()),
        ensures
            final(self).model() == old(self).model().post_step(
                CacheOp::Create,
                key@,
                kvs.contents(),
            ),
            match r {
                Ok(()) => {
                    &&& old(self).model().post_err(CacheOp::Create, key@, kvs.contents()) is None
                    &&& final(self).model().inv(kvs.contents())
                },
                Err(e) => old(self).model().post_err(CacheOp::Create, key@, kvs.contents()) == Some(
                    e@,
                ),
            },
    ;

    fn pre_update(&mut self, key: &Key, kvs: &S) -> (r: Result<(), Error>)
        requires
            kvs.inv(),
            old(self).model().inv(kvs.contents()),
        ensures
            match r {
                Ok(()) => {
                    let p0 = old(self).model();
                    let m0 = kvs.contents();
                    &&& p0.veto(CacheOp::Update, key@, m0) is None
                    &&& final(self).model() == p0.pre_step(CacheOp::Update, key@, m0)
                    &&& final(self).model().mid_inv(CacheOp::Update, key@, m0)
                    &&& (m0.contains_key(key@) ==> forall|v: Seq<u8>|
                        final(self).model().mid_inv(CacheOp::Update, key@, m0.insert(key@, v)))
                },
                Err(e) => {
                    &&& old(self).model().veto(CacheOp::Update, key@, kvs.contents()) == Some(e@)
                    &&& final(self).model() == old(self).model()
                },
            },
    ;

    fn post_update(&mut self, key: &Key, kvs: &S) -> (r: Result<(), Error>)
        requires
            kvs.inv(),
            old(self).model().mid_inv(CacheOp::Update, key@, kvs.contents()),
        ensures
            final(self).model() == old(self).model().post_step(
                CacheOp::Update,
                key@,
                kvs.contents(),
            ),
            match r {
                Ok(()) => {
                    &&& old(self).model().post_err(CacheOp::Update, key@, kvs.contents()) is None
                    &&& final(self).model().inv(kvs.contents())
                },
                Err(e) => old(self).model().post_err(CacheOp::Update, key@, kvs.contents()) == Some(
                    e@,
                ),
            },
    ;

    fn pre_delete(&mut self, key: &Key, kvs: &S) -> (r: Result<(), Error>)
        requires
            kvs.inv(),
            old(self).model().inv(kvs.contents()),
        ensures
            match r {
                Ok(()) => {
                    let p0 = old(self).model();
                    let m0 = kvs.contents();
                    &&& p0.veto(CacheOp::Delete, key@, m0) is None
                    &&& final(self).model() == p0.pre_step(CacheOp::Delete, key@, m0)
                    &&& final(self).model().mid_inv(CacheOp::Delete, key@, m0.remove(key@))
                },
                Err(e) => {
                    &&& old(self).model().veto(CacheOp::Delete, key@, kvs.contents()) == Some(e@)
                    &&& final(self).model() == old(self).model()
                },
            },
    ;

    fn post_delete(&mut self, key: &Key, kvs: &S) -> (r: Result<(), Error>)
        requires
            kvs.inv(),
            old(self).model().mid_inv(CacheOp::Delete, key@, kvs.contents()),
        ensures
            final(self).model() == old(self).model().post_step(
                CacheOp::Delete,
                key@,
                kvs.contents(),
            ),
            match r {
                Ok(()) => {
                    &&& old(self).model().post_err(CacheOp::Delete, key@, kvs.contents()) is None
                    &&& final(self).model().inv(kvs.contents())
                },
                Err(e) => old(self).model().post_err(CacheOp::Delete, key@, kvs.contents()) == Some(
                    e@,
                ),
            },
    ;
}

} // verus!
