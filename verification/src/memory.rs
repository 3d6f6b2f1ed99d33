//! The memory layer: recently used values, and how much memory they take.
use crate::clock::CacheData;
use crate::database::DbError;
use crate::error::CacheError;
use crate::lru_store::{
    lru_capacity, lru_entries, lru_get, lru_len, lru_new, lru_pop, lru_pop_lru, lru_put,
    MAX_LRU_CACHE_ITEMS,
};
use crate::recency::{
    distinct, find, has_key, lemma_drop_first, lemma_push_distinct, lemma_without,
    saturating_difference, saturating_sum, size_of, stored, touched, without, Datum, Entry,
};
use lru::LruCache;
use vstd::prelude::*;

verus! {

/// How a cache is set up.
#[derive(Debug, Clone)]
pub struct CacheOptions {
    /// Maximum memory usage in megabytes.
    pub max_memory_mb: usize,
    /// Path to the SQLite database file.
    pub db_path: String,
    /// Cleanup interval in milliseconds. Without one, expired keys are only cleaned up when asked
    /// for.
    pub cleanup_interval_ms: Option<u64>,
}

/// The number of bytes in a megabyte.
pub const BYTES_PER_MB: usize = 1_048_576;

/// A key-value cache with both in-memory and persistent storage.
///
/// The cache holds values in memory, the most recently used ones, and has all of them in an SQLite
/// database. Values can be set with an optional time-to-live (TTL).
///
/// The cache itself never waits: each operation says which request to send to the database, and
/// goes on when it is handed the answer.
pub struct Cache {
    memory_cache: LruCache<String, CacheData>,
    options: CacheOptions,
    current_memory_usage: usize,
}

/// The mathematical value of a `Cache`: the entries in memory, the least recently used one first,
/// how many bytes they are counted for, how many entries there may be, and the limit in megabytes.
#[verifier::ext_equal]
pub struct Memory {
    pub entries: Seq<Entry>,
    pub usage: int,
    pub capacity: nat,
    pub max_memory_mb: usize,
}

impl View for Cache {
    type V = Memory;

    closed spec fn view(&self) -> Memory {
        Memory {
            entries: lru_entries(self.memory_cache),
            usage: self.current_memory_usage as int,
            capacity: lru_capacity(self.memory_cache),
            max_memory_mb: self.options.max_memory_mb,
        }
    }
}

/// The memory usage after `add` bytes came and `sub` bytes went.
pub open spec fn usage_after(usage: int, add: Option<usize>, sub: Option<usize>) -> int {
    let added = match add {
        Some(add) => saturating_sum(usage, add as int),
        None => usage,
    };
    match sub {
        Some(sub) => saturating_difference(added, sub as int),
        None => added,
    }
}

/// The memory of a cache that was just made.
pub open spec fn fresh(max_memory_mb: usize, capacity: nat) -> Memory {
    Memory { entries: Seq::empty(), usage: 0, capacity, max_memory_mb }
}

impl Memory {
    /// No key occurs twice, there are not more entries than allowed, and the usage is a machine
    /// number.
    pub open spec fn wf(self) -> bool {
        &&& distinct(self.entries)
        &&& 0 < self.capacity
        &&& self.entries.len() <= self.capacity
        &&& 0 <= self.usage <= usize::MAX
    }

    /// The limit in bytes.
    pub open spec fn limit(self) -> int {
        self.max_memory_mb * BYTES_PER_MB
    }

    /// The memory after `key` was looked up.
    pub open spec fn looked_up(self, key: Seq<char>) -> Memory {
        Memory { entries: touched(self.entries, key), ..self }
    }

    /// The memory after a value was set: it is counted, and the one it replaces no longer is.
    pub open spec fn set(self, key: Seq<char>, datum: Datum) -> Memory {
        let replaced = match find(self.entries, key) {
            Some(old) => size_of(key, old),
            None => 0,
        };
        Memory {
            entries: stored(self.entries, key, datum, self.capacity),
            usage: usage_after(
                self.usage,
                Some(size_of(key, datum) as usize),
                Some(replaced as usize),
            ),
            ..self
        }
    }

    /// The memory after a value was taken over from the database: it is counted.
    pub open spec fn taken_over(self, key: Seq<char>, datum: Datum) -> Memory {
        Memory {
            entries: stored(self.entries, key, datum, self.capacity),
            usage: usage_after(self.usage, Some(size_of(key, datum) as usize), None),
            ..self
        }
    }

    /// The memory after a key was deleted: its value is no longer counted.
    pub open spec fn deleted(self, key: Seq<char>) -> Memory {
        match find(self.entries, key) {
            Some(datum) => Memory {
                entries: without(self.entries, key),
                usage: usage_after(self.usage, None, Some(size_of(key, datum) as usize)),
                ..self
            },
            None => self,
        }
    }

    /// The memory after several keys were deleted, one after the other.
    pub open spec fn deleted_all(self, keys: Seq<Seq<char>>) -> Memory
        decreases keys.len(),
    {
        if keys.len() == 0 {
            self
        } else {
            self.deleted_all(keys.drop_last()).deleted(keys.last())
        }
    }

    /// The memory after a key was dropped because its value is no longer good. What it was
    /// counted for stays counted.
    pub open spec fn dropped(self, key: Seq<char>) -> Memory {
        Memory { entries: without(self.entries, key), ..self }
    }

    /// The memory after least recently used entries made room: as long as the usage is above the
    /// limit, and never the last entry.
    pub open spec fn evicted(self) -> Memory
        decreases self.entries.len(),
    {
        if self.usage > self.limit() && self.entries.len() > 1 {
            (Memory {
                entries: self.entries.drop_first(),
                usage: saturating_difference(
                    self.usage,
                    size_of(self.entries[0].0, self.entries[0].1),
                ),
                ..self
            }).evicted()
        } else {
            self
        }
    }
}

/// The bytes that an entry counts for.
fn entry_size(key: &str, data: &Vec<u8>) -> (size: usize)
    ensures
        forall|expires: Option<i64>| size == #[trigger] size_of(key@, (data@, expires)),
{
    data.len().saturating_add(key.len())
}

/// Without a key the entries stay in order.
proof fn lemma_without_wf(memory: Memory, key: Seq<char>)
    requires
        memory.wf(),
    ensures
        memory.dropped(key).wf(),
        memory.looked_up(key).wf(),
{
    lemma_without(memory.entries, key);
    if has_key(memory.entries, key) {
        lemma_push_distinct(
            without(memory.entries, key),
            key,
            find(memory.entries, key)->0,
        );
    }
}

/// Storing a value keeps the entries in order.
pub(crate) proof fn lemma_stored_wf(memory: Memory, key: Seq<char>, datum: Datum)
    requires
        memory.wf(),
    ensures
        distinct(stored(memory.entries, key, datum, memory.capacity)),
        stored(memory.entries, key, datum, memory.capacity).len() <= memory.capacity,
{
    lemma_without(memory.entries, key);
    if has_key(memory.entries, key) {
        lemma_push_distinct(without(memory.entries, key), key, datum);
    } else if memory.entries.len() == memory.capacity {
        lemma_drop_first(memory.entries, key);
        lemma_push_distinct(memory.entries.drop_first(), key, datum);
    } else {
        lemma_push_distinct(memory.entries, key, datum);
    }
}

impl Cache {
    /// Creates a cache whose database was opened, or returns the error for which it was not.
    pub fn new(options: CacheOptions, opened: Result<(), DbError>) -> (result: Result<
        Cache,
        CacheError,
    >)
        ensures
            match opened {
                Ok(()) => result matches Ok(cache) && cache@ == fresh(
                    options.max_memory_mb,
                    MAX_LRU_CACHE_ITEMS as nat,
                ) && cache@.wf(),
                Err(err) => result == Err::<Cache, CacheError>(CacheError::DbConnectionError(err)),
            },
    {
        match opened {
            Ok(()) => Cache::with_max_items(options, MAX_LRU_CACHE_ITEMS),
            Err(err) => Err(CacheError::from(err)),
        }
    }

    /// Creates a cache that holds at most `max_items` values in memory.
    pub fn with_max_items(options: CacheOptions, max_items: usize) -> (result: Result<
        Cache,
        CacheError,
    >)
        requires
            max_items <= MAX_LRU_CACHE_ITEMS,
        ensures
            match result {
                Ok(cache) => {
                    &&& max_items > 0
                    &&& cache@ == fresh(options.max_memory_mb, max_items as nat)
                    &&& cache@.wf()
                },
                Err(err) => {
                    &&& max_items == 0
                    &&& err matches CacheError::InvalidValue(text)
                    &&& text@ == "MAX_LRU_CACHE_ITEMS cannot be zero"@
                },
            },
    {
        if max_items == 0 {
            return Err(
                CacheError::InvalidValue("MAX_LRU_CACHE_ITEMS cannot be zero".to_owned()),
            );
        }
        let memory_cache = lru_new(max_items);
        let cache = Cache { memory_cache, options, current_memory_usage: 0 };
        assert(cache@ =~= fresh(options.max_memory_mb, max_items as nat));
        Ok(cache)
    }

    /// Counts the bytes that came into memory and those that went.
    pub fn update_memory_usage(&mut self, add: Option<usize>, sub: Option<usize>)
        ensures
            final(self)@ == (Memory {
                usage: usage_after(old(self)@.usage, add, sub),
                ..old(self)@
            }),
    {
        if let Some(add) = add {
            self.current_memory_usage = self.current_memory_usage.saturating_add(add);
        }
        if let Some(sub) = sub {
            self.current_memory_usage = self.current_memory_usage.saturating_sub(sub);
        }
    }

    /// Evicts least recently used values while memory usage exceeds the limit. The most recently
    /// used value stays.
    pub fn evict_if_memory_pressure(&mut self)
        requires
            old(self)@.wf(),
            old(self)@.limit() <= usize::MAX,
        ensures
            final(self)@ == old(self)@.evicted(),
            final(self)@.wf(),
    {
        let max_memory_bytes: usize = self.options.max_memory_mb * BYTES_PER_MB;
        while self.current_memory_usage > max_memory_bytes && lru_len(&self.memory_cache) > 1
            invariant
                self@.wf(),
                self@.evicted() == old(self)@.evicted(),
                self@.limit() == max_memory_bytes,
            decreases self@.entries.len(),
        {
            let ghost before = self@;
            if let Some((evicted_key, evicted_value)) = lru_pop_lru(&mut self.memory_cache) {
                let evicted_size = entry_size(evicted_key.as_str(), &evicted_value.data);
                self.current_memory_usage = self.current_memory_usage.saturating_sub(evicted_size);
                proof {
                    assert(evicted_size == size_of(before.entries[0].0, before.entries[0].1));
                    lemma_drop_first(before.entries, before.entries[0].0);
                    assert(self@ == Memory {
                        entries: before.entries.drop_first(),
                        usage: saturating_difference(
                            before.usage,
                            size_of(before.entries[0].0, before.entries[0].1),
                        ),
                        ..before
                    });
                }
            }
        }
    }

    /// Looks a key up, which makes it the most recently used one.
    pub(crate) fn look_up(&mut self, key: &str) -> (found: Option<CacheData>)
        requires
            old(self)@.wf(),
        ensures
            final(self)@ == old(self)@.looked_up(key@),
            final(self)@.wf(),
            match found {
                Some(data) => find(old(self)@.entries, key@) == Some(data@),
                None => !has_key(old(self)@.entries, key@),
            },
    {
        proof {
            lemma_without_wf(self@, key@);
        }
        match lru_get(&mut self.memory_cache, key) {
            Some(data) => Some(CacheData { data: data.data.clone(), expires: data.expires }),
            None => None,
        }
    }

    /// Stores a value in memory and counts it in place of the one it replaces.
    pub(crate) fn set_in_memory(&mut self, key: String, data: CacheData)
        requires
            old(self)@.wf(),
        ensures
            final(self)@ == old(self)@.set(key@, data@),
            final(self)@.wf(),
    {
        let ghost before = self@;
        let ghost datum = data@;
        let ghost name = key@;
        proof {
            lemma_stored_wf(before, key@, data@);
        }
        let new_size = entry_size(key.as_str(), &data.data);
        let stored_key = key.clone();
        assert(new_size == size_of(name, datum));
        let removed_size = match lru_put(&mut self.memory_cache, stored_key, data) {
            Some(old_data) => {
                let size = entry_size(key.as_str(), &old_data.data);
                assert(size == size_of(name, old_data@));
                size
            },
            None => 0,
        };
        self.update_memory_usage(Some(new_size), Some(removed_size));
        assert(self@ =~= before.set(name, datum));
    }

    /// Takes a value over from the database and counts it.
    pub(crate) fn take_over(&mut self, key: String, data: CacheData)
        requires
            old(self)@.wf(),
        ensures
            final(self)@ == old(self)@.taken_over(key@, data@),
            final(self)@.wf(),
    {
        let ghost before = self@;
        let ghost datum = data@;
        let ghost name = key@;
        proof {
            lemma_stored_wf(before, key@, data@);
        }
        let size = entry_size(key.as_str(), &data.data);
        assert(size == size_of(name, datum));
        self.update_memory_usage(Some(size), None);
        lru_put(&mut self.memory_cache, key, data);
        assert(self@ =~= before.taken_over(name, datum));
    }

    /// Deletes a key from memory and no longer counts its value. Answers whether it was there.
    pub(crate) fn delete_from_memory(&mut self, key: &str) -> (removed: bool)
        requires
            old(self)@.wf(),
        ensures
            removed == has_key(old(self)@.entries, key@),
            final(self)@ == old(self)@.deleted(key@),
            final(self)@.wf(),
    {
        let ghost before = self@;
        proof {
            lemma_without_wf(self@, key@);
            lemma_without(self@.entries, key@);
        }
        match lru_pop(&mut self.memory_cache, key) {
            Some(data) => {
                let size = entry_size(key, &data.data);
                assert(size == size_of(key@, data@));
                self.update_memory_usage(None, Some(size));
                assert(self@ =~= before.deleted(key@));
                true
            },
            None => {
                assert(self@ =~= before.deleted(key@));
                false
            },
        }
    }

    /// Drops a key from memory because its value is no longer good.
    pub(crate) fn drop_from_memory(&mut self, key: &str)
        requires
            old(self)@.wf(),
        ensures
            final(self)@ == old(self)@.dropped(key@),
            final(self)@.wf(),
    {
        proof {
            lemma_without_wf(self@, key@);
        }
        lru_pop(&mut self.memory_cache, key);
    }
}

} // verus!
