//! The storage port of the node's cache: an interface a key-value backend
//! implements. The overlay never depends on it; lookups that fail are
//! surfaced to the caller of the cache and do not reach the ring.
use vstd::prelude::*;

verus! {

use crate::err::Error;

/// A cache backend holding values under keys, with optional size
/// accounting. The runtime provides the implementation; which entries a
/// backend holds is its own affair, so the methods carry no contracts.
pub trait TRedisCacheStorage {
    /// The key type of the backend.
    type K;

    /// The value type of the backend.
    type V;

    /// Get a cache entry by `key`.
    fn get(&self, key: &Self::K) -> Result<Self::V, Error>;

    /// Put `entry` in the cache under `key`.
    fn put(&mut self, key: &Self::K, entry: &Self::V) -> Result<(), Error>;

    /// The current storage usage, if the backend reports one.
    fn current_size(&self) -> Result<Option<u64>, Error>;

    /// The maximum storage size, if the backend has a limit.
    fn max_size(&self) -> Result<Option<u64>, Error>;
}

} // verus!
