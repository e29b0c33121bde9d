//! A pluggable in-memory caching library. A generic cache orchestrator
//! composes an interchangeable key-value store with an interchangeable
//! eviction policy, dispatching a symmetric pre/post hook protocol around
//! every operation; the policy may veto an operation or perform a
//! compensating eviction, and the orchestrator forwards the first failure
//! verbatim.

mod byte_ops;
pub mod errors;
pub mod key;
pub mod value;

pub mod eviction_policy;
pub mod key_value_store;
pub mod serde;

pub mod broker;
pub mod cache;
pub mod hash_map_key_value_store;
pub mod max_size_eviction_policy;
pub mod max_size_hash_map_cache;

pub mod co_located_distributed_fifo_cache;
pub mod co_located_fifo_cache;

pub mod laws;

pub use errors::Error;
pub use errors::ErrorKind;
pub use key::Key;
pub use value::Value;
