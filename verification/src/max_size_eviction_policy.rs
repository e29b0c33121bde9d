//! Pure admission control: a stateless policy that refuses a create once
//! the store is full and never evicts.

use vstd::prelude::*;

use crate::errors::{Error, ErrorKind, ErrorView, size_error, size_message};
use crate::eviction_policy::{CacheOp, EvictionPolicy, PolicyModel};
use crate::key::Key;
use crate::key_value_store::KeyValueStore;

verus! {

broadcast use vstd::set::group_set_axioms;

/// The model of the admission-control policy: nothing but the configured
/// limit.
pub ghost struct MaxSizeModel {
    pub max_size: nat,
}

impl PolicyModel for MaxSizeModel {
    /// The store never exceeds the configured limit.
    open spec fn inv(self, contents: Map<Seq<u8>, Seq<u8>>) -> bool {
        contents.dom().finite() && contents.dom().len() <= self.max_size
    }

    /// A create is refused, with kind `Size` and a message citing the limit
    /// and the observed size, exactly when the store is full; every other
    /// operation is admitted.
    open spec fn veto(self, op: CacheOp, key: Seq<u8>, contents: Map<Seq<u8>, Seq<u8>>) -> Option<
        ErrorView,
    > {
        if op is Create && contents.dom().len() >= self.max_size {
            Some(
                ErrorView {
                    kind: ErrorKind::Size,
                    message: size_message(self.max_size, contents.dom().len()),
                },
            )
        } else {
            None
        }
    }

    open spec fn pre_step(self, op: CacheOp, key: Seq<u8>, contents: Map<Seq<u8>, Seq<u8>>) -> Self {
        self
    }

    open spec fn pre_store(self, op: CacheOp, key: Seq<u8>, contents: Map<Seq<u8>, Seq<u8>>) -> Map<
        Seq<u8>,
        Seq<u8>,
    > {
        contents
    }

    open spec fn mid_inv(self, op: CacheOp, key: Seq<u8>, contents: Map<Seq<u8>, Seq<u8>>) -> bool {
        self.inv(contents)
    }

    open spec fn post_err(self, op: CacheOp, key: Seq<u8>, contents: Map<Seq<u8>, Seq<u8>>) -> Option<
        ErrorView,
    > {
        None
    }

    open spec fn post_step(self, op: CacheOp, key: Seq<u8>, contents: Map<Seq<u8>, Seq<u8>>) -> Self {
        self
    }
}

/// Admission control only: `pre_create` fails with kind `Size` when the
/// store has reached `max_size`; all other hooks always succeed. The policy
/// never evicts, it only refuses once full.
pub struct MaxSizeEvictionPolicy {
    max_size: usize,
}

impl MaxSizeEvictionPolicy {
    /// The model of this policy's configuration.
    pub closed spec fn policy_model(&self) -> MaxSizeModel {
        MaxSizeModel { max_size: self.max_size as nat }
    }

    /// A policy admitting at most `max_size` entries.
    pub fn new(max_size: usize) -> (p: MaxSizeEvictionPolicy)
        ensures
            p.policy_model() == (MaxSizeModel { max_size: max_size as nat }),
    {
        MaxSizeEvictionPolicy { max_size }
    }
}

impl<S: KeyValueStore> EvictionPolicy<S> for MaxSizeEvictionPolicy {
    type Model = MaxSizeModel;

    open spec fn model(&self) -> MaxSizeModel {
        self.policy_model()
    }

    fn pre_read(&self, key: &Key, kvs: &S) -> (r: Result<(), Error>) {
        Ok(())
    }

    fn post_read(&self, key: &Key, kvs: &S) -> (r: Result<(), Error>) {
        Ok(())
    }

    fn pre_create(&mut self, key: &Key, kvs: &mut S) -> (r: Result<(), Error>) {
        let observed = kvs.size();
        if observed >= self.max_size {
            Err(size_error(self.max_size, observed))
        } else {
            proof {
                let pm = MaxSizeModel { max_size: self.max_size as nat };
                kvs.lemma_inv_contents_finite();
                assert forall|v: Seq<u8>|
                    pm.mid_inv(CacheOp::Create, key@, kvs.contents().insert(key@, v)) by {
                    assert(kvs.contents().insert(key@, v).dom() =~= kvs.contents().dom().insert(
                        key@,
                    ));
                }
            }
            Ok(())
        }
    }

    fn post_create(&mut self, key: &Key, kvs: &S) -> (r: Result<(), Error>) {
        Ok(())
    }

    fn pre_update(&mut self, key: &Key, kvs: &S) -> (r: Result<(), Error>) {
        proof {
            let pm = MaxSizeModel { max_size: self.max_size as nat };
            if kvs.contents().contains_key(key@) {
                assert forall|v: Seq<u8>|
                    pm.mid_inv(CacheOp::Update, key@, kvs.contents().insert(key@, v)) by {
                    assert(kvs.contents().insert(key@, v).dom() =~= kvs.contents().dom());
                }
            }
        }
        Ok(())
    }

    fn post_update(&mut self, key: &Key, kvs: &S) -> (r: Result<(), Error>) {
        Ok(())
    }

    fn pre_delete(&mut self, key: &Key, kvs: &S) -> (r: Result<(), Error>) {
        proof {
            kvs.lemma_inv_contents_finite();
            assert(kvs.contents().remove(key@).dom() =~= kvs.contents().dom().remove(key@));
        }
        Ok(())
    }

    fn post_delete(&mut self, key: &Key, kvs: &S) -> (r: Result<(), Error>) {
        Ok(())
    }
}

} // verus!
