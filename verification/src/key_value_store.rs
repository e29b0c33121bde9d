//! The key-value store capability: the component that owns the key-to-value
//! mapping. It has no policy knowledge; the cache orchestrator composes it
//! with an eviction policy.

use vstd::prelude::*;

use crate::errors::{Error, no_existing_value_error_view};
use crate::key::Key;
use crate::value::Value;

verus! {

/// A store owning a key-to-value mapping, abstracted by `contents()`: a map
/// from key bytes to value bytes.
///
/// The store-wide convention for `create` on an existing key is overwrite:
/// the prior value is returned, never an `AlreadyExists` failure. `update`
/// of an absent key fails with `NoExistingValue` and leaves the stored data
/// unchanged; a distributed implementation must match this co-located
/// semantics.
pub trait KeyValueStore: Sized {
    /// The mapping this store holds, as key bytes to value bytes.
    spec fn contents(&self) -> Map<Seq<u8>, Seq<u8>>;

    /// The store's internal well-formedness condition.
    spec fn inv(&self) -> bool;

    /// A well-formed store holds finitely many entries.
    proof fn lemma_inv_contents_finite(&self)
        requires
            self.inv(),
        ensures
            self.contents().dom().finite(),
    ;

    /// The number of live entries.
    fn size(&self) -> (n: usize)
        requires
            self.inv(),
        ensures
            n as nat == self.contents().dom().len(),
    ;

    /// Whether the key currently holds a value.
    fn contains(&self, key: &Key) -> (present: bool)
        requires
            self.inv(),
        ensures
            present == self.contents().contains_key(key@),
    ;

    /// The current value under the key, or none.
    fn read(&self, key: &Key) -> (r: Option<Value>)
        requires
            self.inv(),
        ensures
            match r {
                Some(v) => self.contents().contains_key(key@) && v@ == self.contents()[key@],
                None => !self.contents().contains_key(key@),
            },
    ;

    /// Stores the value under the key and returns the previous value, or
    /// none if the key was absent (overwrite semantics).
    fn create(&mut self, key: &Key, value: &Value) -> (previous: Option<Value>)
        requires
            old(self).inv(),
        ensures
            final(self).inv(),
            final(self).contents() == old(self).contents().insert(key@, value@),
            match previous {
                Some(v) => old(self).contents().contains_key(key@) && v@ == old(self).contents()[key@],
                None => !old(self).contents().contains_key(key@),
            },
    ;

    /// Replaces the value under an existing key and returns the previous
    /// value; fails with `NoExistingValue`, leaving the stored data
    /// unchanged, exactly when the key is absent.
    fn update(&mut self, key: &Key, value: &Value) -> (r: Result<Option<Value>, Error>)
        requires
            old(self).inv(),
        ensures
            final(self).inv(),
            match r {
                Ok(previous) => {
                    &&& old(self).contents().contains_key(key@)
                    &&& final(self).contents() == old(self).contents().insert(key@, value@)
                    &&& match previous {
                        Some(v) => v@ == old(self).contents()[key@],
                        None => false,
                    }
                },
                Err(e) => {
                    &&& !old(self).contents().contains_key(key@)
                    &&& final(self).contents() == old(self).contents()
                    &&& e@ == no_existing_value_error_view()
                },
            },
    ;

    /// Removes the entry under the key and returns the removed value, or
    /// none if the key was absent.
    fn delete(&mut self, key: &Key) -> (removed: Option<Value>)
        requires
            old(self).inv(),
        ensures
            final(self).inv(),
            final(self).contents() == old(self).contents().remove(key@),
            match removed {
                Some(v) => old(self).contents().contains_key(key@) && v@ == old(self).contents()[key@],
                None => !old(self).contents().contains_key(key@),
            },
    ;
}

} // verus!
