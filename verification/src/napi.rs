//! What the Node.js binding hands over, in the terms of the cache.
use crate::clock::duration_secs;
use crate::memory::CacheOptions;
use std::time::Duration;
use vstd::prelude::*;

verus! {

/// How a cache is set up from JavaScript.
#[derive(Debug, Clone)]
pub struct JsCacheOptions {
    /// Maximum memory usage in megabytes.
    pub max_memory_mb: u32,
    /// Path to the SQLite database file.
    pub db_path: String,
    /// Cleanup interval in milliseconds. Without one, expired keys are only cleaned up when asked
    /// for.
    pub cleanup_interval_ms: Option<u32>,
}

impl JsCacheOptions {
    /// The options of the cache.
    pub fn into_options(self) -> (options: CacheOptions)
        ensures
            options.max_memory_mb == self.max_memory_mb,
            options.db_path == self.db_path,
            match self.cleanup_interval_ms {
                Some(millis) => options.cleanup_interval_ms == Some(millis as u64),
                None => options.cleanup_interval_ms is None,
            },
    {
        CacheOptions {
            max_memory_mb: self.max_memory_mb as usize,
            db_path: self.db_path,
            cleanup_interval_ms: match self.cleanup_interval_ms {
                Some(millis) => Some(millis as u64),
                None => None,
            },
        }
    }
}

/// The smallest number of whole seconds in which a number of milliseconds fits.
pub open spec fn seconds_for(millis: u32) -> int {
    (millis + 999) / 1000
}

/// The time to live that a number of milliseconds stands for. Expiration goes by whole seconds, so
/// that a part of a second counts as a whole one: no value is gone before its time has passed.
pub fn ttl_from_millis(ttl_ms: Option<u32>) -> (ttl: Option<Duration>)
    ensures
        match ttl_ms {
            Some(millis) => ttl matches Some(span) && duration_secs(span) == seconds_for(millis),
            None => ttl is None,
        },
{
    match ttl_ms {
        Some(millis) => {
            let secs: u64 = (millis as u64 + 999) / 1000;
            Some(Duration::from_millis(secs * 1000))
        },
        None => None,
    }
}

} // verus!
