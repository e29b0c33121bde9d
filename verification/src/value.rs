//! Cache values: opaque, cloneable payloads carried as bytes so that a
//! store crossing a process boundary can serialize them.

use vstd::prelude::*;

use crate::byte_ops::clone_bytes;

verus! {

/// A cache value. Its mathematical view is its byte payload.
#[derive(Debug)]
pub struct Value {
    bytes: Vec<u8>,
}

impl View for Value {
    type V = Seq<u8>;

    closed spec fn view(&self) -> Seq<u8> {
        self.bytes@
    }
}

impl Value {
    /// Builds a value from its byte payload.
    pub fn new(bytes: Vec<u8>) -> (v: Value)
        ensures
            v@ == bytes@,
    {
        Value { bytes }
    }

    /// Renders the value back to its byte payload.
    pub fn to_bytes(&self) -> (b: &Vec<u8>)
        ensures
            b@ == self@,
    {
        &self.bytes
    }
}

impl Clone for Value {
    fn clone(&self) -> (other: Value)
        ensures
            other@ == self@,
    {
        Value { bytes: clone_bytes(&self.bytes) }
    }
}

} // verus!
