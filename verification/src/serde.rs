//! The codec capability: encode a value to bytes and decode it back.
//! Consumed by stores that move entries across a process boundary; the
//! co-located stores never need it.

use vstd::prelude::*;

use crate::byte_ops::clone_bytes;
use crate::errors::{Error, ErrorKind};
use crate::value::Value;

verus! {

/// A value codec. Decoding what was encoded gives the value back (an
/// obligation every implementation proves); a byte string the codec cannot
/// read fails with `DeserializationFailure`.
pub trait Serde: Sized {
    /// The bytes the codec writes for a value.
    spec fn encoding(&self, value: Seq<u8>) -> Seq<u8>;

    /// The value the codec reads from a byte string, if any.
    spec fn decoding(&self, bytes: Seq<u8>) -> Option<Seq<u8>>;

    /// Encoding a value and decoding the result returns the value
    /// unchanged.
    proof fn lemma_round_trip(&self, value: Seq<u8>)
        ensures
            self.decoding(self.encoding(value)) == Some(value),
    ;

    /// Writes the value's byte encoding.
    fn encode(&self, value: &Value) -> (bytes: Vec<u8>)
        ensures
            bytes@ == self.encoding(value@),
    ;

    /// Reads a value back from its byte encoding; fails with
    /// `DeserializationFailure` exactly on the byte strings the codec
    /// cannot decode.
    fn decode(&self, bytes: &Vec<u8>) -> (r: Result<Value, Error>)
        ensures
            match r {
                Ok(v) => self.decoding(bytes@) == Some(v@),
                Err(e) => {
                    &&& self.decoding(bytes@) is None
                    &&& e@.kind == ErrorKind::DeserializationFailure
                },
            },
    ;
}

/// The identity codec: a value's payload is its own wire form, and every
/// byte string decodes.
pub struct IdentityCodec {}

impl Serde for IdentityCodec {
    open spec fn encoding(&self, value: Seq<u8>) -> Seq<u8> {
        value
    }

    open spec fn decoding(&self, bytes: Seq<u8>) -> Option<Seq<u8>> {
        Some(bytes)
    }

    proof fn lemma_round_trip(&self, value: Seq<u8>) {
    }

    fn encode(&self, value: &Value) -> (bytes: Vec<u8>) {
        clone_bytes(value.to_bytes())
    }

    fn decode(&self, bytes: &Vec<u8>) -> (r: Result<Value, Error>) {
        Ok(Value::new(clone_bytes(bytes)))
    }
}

} // verus!
