//! Cache keys: opaque, immutable identifiers constructed from and rendered
//! back to a byte representation.

use vstd::prelude::*;

use crate::byte_ops::{bytes_eq, clone_bytes};

verus! {

/// A cache key. Its mathematical view is the byte sequence it was built
/// from; two keys are equal exactly when their byte sequences are equal.
#[derive(Debug)]
pub struct Key {
    bytes: Vec<u8>,
}

impl View for Key {
    type V = Seq<u8>;

    closed spec fn view(&self) -> Seq<u8> {
        self.bytes@
    }
}

impl Key {
    /// Builds a key from its byte representation.
    pub fn new(bytes: Vec<u8>) -> (k: Key)
        ensures
            k@ == bytes@,
    {
        Key { bytes }
    }

    /// Renders the key back to its byte representation.
    pub fn to_bytes(&self) -> (b: &Vec<u8>)
        ensures
            b@ == self@,
    {
        &self.bytes
    }
}

impl Clone for Key {
    fn clone(&self) -> (other: Key)
        ensures
            other@ == self@,
    {
        Key { bytes: clone_bytes(&self.bytes) }
    }
}

impl PartialEq for Key {
    fn eq(&self, other: &Key) -> (r: bool) {
        bytes_eq(&self.bytes, &other.bytes)
    }
}

impl Eq for Key {

}

impl vstd::std_specs::cmp::PartialEqSpecImpl for Key {
    open spec fn obeys_eq_spec() -> bool {
        true
    }

    open spec fn eq_spec(&self, other: &Key) -> bool {
        self@ == other@
    }
}

} // verus!
