//! The rows of the cache table as they are read and written in full.
use vstd::prelude::*;

verus! {

/// A row of the cache table.
#[derive(Debug)]
pub struct CacheEntry {
    /// The key.
    pub cache_key: String,
    /// The stored bytes.
    pub cache_value: Vec<u8>,
    /// The time of expiration in seconds since the Unix epoch, if there is one.
    pub expires: Option<i64>,
    /// When the key was last used, in seconds since the Unix epoch.
    pub last_accessed: i64,
}

/// A row that is to be added to the cache table.
#[derive(Debug)]
pub struct NewCacheEntry<'a> {
    /// The key.
    pub cache_key: &'a str,
    /// The bytes to store.
    pub cache_value: &'a [u8],
    /// The time of expiration in seconds since the Unix epoch, if there is one.
    pub expires: Option<&'a i64>,
    /// The current time, in seconds since the Unix epoch.
    pub last_accessed: &'a i64,
}

} // verus!
