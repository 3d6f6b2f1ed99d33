//! What holds of the memory layer.
use crate::database::DbError;
use crate::error::CacheError;
use crate::memory::{lemma_stored_wf, usage_after, Cache, CacheOptions, Memory};
use crate::operation::lemma_deleted_all_has_key;
use crate::recency::{
    distinct, find, has_key, lemma_drop_first, lemma_find_push, lemma_push_distinct,
    lemma_total_nonnegative, lemma_total_push, lemma_without, saturating_difference, size_of,
    stored, total_size, touched, without, Datum, Entry,
};
use vstd::prelude::*;
use vstd::utf8::encode_utf8;

verus! {

/// Whether the memory usage covers all entries.
pub open spec fn counted(memory: Memory) -> bool {
    total_size(memory.entries) <= memory.usage
}

/// What is found after a value was stored. A key that is not the stored one either keeps its value
/// or, if it was the least recently used one and there was no room left, is gone.
pub proof fn lemma_find_stored(memory: Memory, key: Seq<char>, datum: Datum, other: Seq<char>)
    requires
        memory.wf(),
    ensures
        ({
            let after = stored(memory.entries, key, datum, memory.capacity);
            &&& find(after, key) == Some(datum)
            &&& other != key ==> find(after, other) == find(memory.entries, other) || find(
                after,
                other,
            ) is None
        }),
{
    let entries = memory.entries;
    lemma_without(entries, key);
    if has_key(entries, key) {
        lemma_find_push(without(entries, key), (key, datum), key);
        lemma_find_push(without(entries, key), (key, datum), other);
        if other != key {
            assert(find(without(entries, key), other) == find(entries, other));
        }
    } else if entries.len() == memory.capacity {
        lemma_drop_first(entries, other);
        lemma_find_push(entries.drop_first(), (key, datum), key);
        lemma_find_push(entries.drop_first(), (key, datum), other);
    } else {
        lemma_find_push(entries, (key, datum), key);
        lemma_find_push(entries, (key, datum), other);
    }
}

/// Looking a key up changes no value.
pub proof fn lemma_find_touched(memory: Memory, key: Seq<char>, other: Seq<char>)
    requires
        memory.wf(),
    ensures
        find(touched(memory.entries, key), other) == find(memory.entries, other),
{
    let entries = memory.entries;
    lemma_without(entries, key);
    if let Some(datum) = find(entries, key) {
        lemma_find_push(without(entries, key), (key, datum), other);
        if other != key {
            assert(find(without(entries, key), other) == find(entries, other));
        }
    }
}

/// Every operation of the memory layer keeps it in order: no key occurs twice, and there are never
/// more entries than allowed.
pub proof fn law_memory_stays_in_order(
    memory: Memory,
    key: Seq<char>,
    datum: Datum,
    keys: Seq<Seq<char>>,
)
    requires
        memory.wf(),
    ensures
        memory.looked_up(key).wf(),
        memory.set(key, datum).wf(),
        memory.taken_over(key, datum).wf(),
        memory.deleted(key).wf(),
        memory.deleted_all(keys).wf(),
        memory.dropped(key).wf(),
        memory.evicted().wf(),
{
    lemma_without(memory.entries, key);
    lemma_stored_wf(memory, key, datum);
    if has_key(memory.entries, key) {
        lemma_push_distinct(without(memory.entries, key), key, find(memory.entries, key)->0);
    }
    lemma_evicted_wf(memory);
    lemma_deleted_all_has_key(memory, keys, key);
}

proof fn lemma_evicted_wf(memory: Memory)
    requires
        memory.wf(),
    ensures
        memory.evicted().wf(),
    decreases memory.entries.len(),
{
    if memory.usage > memory.limit() && memory.entries.len() > 1 {
        lemma_drop_first(memory.entries, memory.entries[0].0);
        reveal_with_fuel(after_evictions, 2);
        lemma_evicted_wf(after_evictions(memory, 1));
    }
}

/// The memory usage never falls below what the entries take, as long as the entries, a new one
/// and the one it replaces included, fit into the address space.
pub proof fn law_usage_covers_entries(
    memory: Memory,
    key: Seq<char>,
    datum: Datum,
    keys: Seq<Seq<char>>,
)
    requires
        memory.wf(),
        counted(memory),
        total_size(memory.entries) + size_of(key, datum) <= usize::MAX,
    ensures
        counted(memory.looked_up(key)),
        counted(memory.set(key, datum)),
        counted(memory.taken_over(key, datum)),
        counted(memory.deleted(key)),
        counted(memory.deleted_all(keys)),
        counted(memory.dropped(key)),
        counted(memory.evicted()),
{
    let entries = memory.entries;
    lemma_without(entries, key);
    lemma_total_nonnegative(entries);
    lemma_total_nonnegative(without(entries, key));
    if let Some(old) = find(entries, key) {
        lemma_total_push(without(entries, key), (key, old));
        lemma_total_push(without(entries, key), (key, datum));
    } else if entries.len() == memory.capacity {
        lemma_drop_first(entries, key);
        lemma_total_push(entries.drop_first(), (key, datum));
    } else {
        lemma_total_push(entries, (key, datum));
    }
    lemma_evicted_counted(memory);
    lemma_deleted_all_counted(memory, keys);
}

proof fn lemma_deleted_all_counted(memory: Memory, keys: Seq<Seq<char>>)
    requires
        memory.wf(),
        counted(memory),
    ensures
        counted(memory.deleted_all(keys)),
    decreases keys.len(),
{
    if keys.len() > 0 {
        let before = memory.deleted_all(keys.drop_last());
        lemma_deleted_all_counted(memory, keys.drop_last());
        lemma_deleted_all_has_key(memory, keys.drop_last(), keys.last());
        lemma_without(before.entries, keys.last());
        lemma_total_nonnegative(without(before.entries, keys.last()));
    }
}

proof fn lemma_evicted_counted(memory: Memory)
    requires
        memory.wf(),
        counted(memory),
    ensures
        counted(memory.evicted()),
    decreases memory.entries.len(),
{
    if memory.usage > memory.limit() && memory.entries.len() > 1 {
        lemma_drop_first(memory.entries, memory.entries[0].0);
        lemma_total_nonnegative(memory.entries.drop_first());
        reveal_with_fuel(after_evictions, 2);
        lemma_evicted_counted(after_evictions(memory, 1));
    }
}

/// The memory usage is exact as long as values are only set, taken over, looked up, deleted and
/// evicted: it neither misses bytes nor counts any twice. A value that is set finds its key or
/// room, and a value that is taken over finds room and was not there.
pub proof fn law_usage_is_exact(
    memory: Memory,
    key: Seq<char>,
    datum: Datum,
    keys: Seq<Seq<char>>,
)
    requires
        memory.wf(),
        memory.usage == total_size(memory.entries),
        total_size(memory.entries) + size_of(key, datum) <= usize::MAX,
        has_key(memory.entries, key) || memory.entries.len() < memory.capacity,
    ensures
        memory.looked_up(key).usage == total_size(memory.looked_up(key).entries),
        memory.set(key, datum).usage == total_size(memory.set(key, datum).entries),
        !has_key(memory.entries, key) ==> memory.taken_over(key, datum).usage == total_size(
            memory.taken_over(key, datum).entries,
        ),
        memory.deleted(key).usage == total_size(memory.deleted(key).entries),
        memory.deleted_all(keys).usage == total_size(memory.deleted_all(keys).entries),
        memory.evicted().usage == total_size(memory.evicted().entries),
{
    let entries = memory.entries;
    lemma_without(entries, key);
    lemma_total_nonnegative(entries);
    lemma_total_nonnegative(without(entries, key));
    if let Some(old) = find(entries, key) {
        lemma_total_push(without(entries, key), (key, old));
        lemma_total_push(without(entries, key), (key, datum));
    } else {
        lemma_total_push(entries, (key, datum));
    }
    lemma_evicted_exact(memory);
    lemma_deleted_all_exact(memory, keys);
}

proof fn lemma_deleted_all_exact(memory: Memory, keys: Seq<Seq<char>>)
    requires
        memory.wf(),
        memory.usage == total_size(memory.entries),
    ensures
        memory.deleted_all(keys).usage == total_size(memory.deleted_all(keys).entries),
    decreases keys.len(),
{
    if keys.len() > 0 {
        let before = memory.deleted_all(keys.drop_last());
        lemma_deleted_all_exact(memory, keys.drop_last());
        lemma_deleted_all_has_key(memory, keys.drop_last(), keys.last());
        lemma_without(before.entries, keys.last());
        lemma_total_nonnegative(without(before.entries, keys.last()));
    }
}

proof fn lemma_evicted_exact(memory: Memory)
    requires
        memory.wf(),
        memory.usage == total_size(memory.entries),
    ensures
        memory.evicted().usage == total_size(memory.evicted().entries),
    decreases memory.entries.len(),
{
    if memory.usage > memory.limit() && memory.entries.len() > 1 {
        lemma_drop_first(memory.entries, memory.entries[0].0);
        lemma_total_nonnegative(memory.entries.drop_first());
        reveal_with_fuel(after_evictions, 2);
        lemma_evicted_exact(after_evictions(memory, 1));
    }
}

/// The memory without its `n` least recently used entries.
pub open spec fn after_evictions(memory: Memory, n: nat) -> Memory
    decreases n,
{
    if n == 0 {
        memory
    } else {
        let before = after_evictions(memory, (n - 1) as nat);
        Memory {
            entries: before.entries.drop_first(),
            usage: saturating_difference(
                before.usage,
                size_of(before.entries[0].0, before.entries[0].1),
            ),
            ..before
        }
    }
}

proof fn lemma_after_evictions_shift(memory: Memory, n: nat)
    ensures
        after_evictions(after_evictions(memory, 1), n) == after_evictions(memory, n + 1),
    decreases n,
{
    if n > 0 {
        lemma_after_evictions_shift(memory, (n - 1) as nat);
    }
}

/// What eviction keeps is the most recently used part of the entries, with the last entry in any
/// case. No entry is evicted while the usage is within the limit, and no more are evicted than
/// it takes to get there. The result is the number of entries that are evicted.
pub proof fn law_eviction_is_minimal(memory: Memory) -> (n: nat)
    requires
        memory.wf(),
    ensures
        memory.evicted() == after_evictions(memory, n),
        memory.evicted().entries == memory.entries.skip(n as int),
        n == 0 || n < memory.entries.len(),
        memory.evicted().usage <= memory.limit() || memory.evicted().entries.len() <= 1,
        forall|k: nat| k < n ==> #[trigger] after_evictions(memory, k).usage > memory.limit(),
    decreases memory.entries.len(),
{
    if memory.usage > memory.limit() && memory.entries.len() > 1 {
        reveal_with_fuel(after_evictions, 2);
        let next = after_evictions(memory, 1);
        lemma_drop_first(memory.entries, memory.entries[0].0);
        let rest = law_eviction_is_minimal(next);
        lemma_after_evictions_shift(memory, rest);
        assert(memory.entries.drop_first().skip(rest as int) =~= memory.entries.skip((rest + 1) as int));
        assert forall|k: nat| k < rest + 1 implies #[trigger] after_evictions(memory, k).usage
            > memory.limit() by {
            if k > 0 {
                lemma_after_evictions_shift(memory, (k - 1) as nat);
                assert(after_evictions(next, (k - 1) as nat).usage > next.limit());
            }
        }
        rest + 1
    } else {
        assert(memory.entries.skip(0) =~= memory.entries);
        0
    }
}

/// The memory limit, which counts megabytes of 1024 times 1024 bytes, is enforced: after eviction
/// the entries take no more than it, unless a single entry alone takes more.
pub proof fn law_memory_limit_is_enforced(memory: Memory)
    requires
        memory.wf(),
        counted(memory),
    ensures
        memory.limit() == memory.max_memory_mb * 1024 * 1024,
        total_size(memory.evicted().entries) <= memory.limit() || memory.evicted().entries.len()
            <= 1,
{
    let n = law_eviction_is_minimal(memory);
    lemma_evicted_counted(memory);
}

proof fn lemma_find_skip(entries: Seq<Entry>, n: nat, key: Seq<char>)
    requires
        distinct(entries),
        n <= entries.len(),
    ensures
        find(entries.skip(n as int), key) == find(entries, key) || find(
            entries.skip(n as int),
            key,
        ) is None,
    decreases n,
{
    if n == 0 {
        assert(entries.skip(0) =~= entries);
    } else {
        lemma_drop_first(entries, key);
        lemma_find_skip(entries.drop_first(), (n - 1) as nat, key);
        assert(entries.drop_first().skip(n - 1) =~= entries.skip(n as int));
    }
}

/// Eviction changes no value: what is still in memory is what was there before.
pub proof fn law_eviction_changes_no_value(memory: Memory, key: Seq<char>)
    requires
        memory.wf(),
    ensures
        find(memory.evicted().entries, key) == find(memory.entries, key) || find(
            memory.evicted().entries,
            key,
        ) is None,
{
    let n = law_eviction_is_minimal(memory);
    lemma_find_skip(memory.entries, n, key);
}

/// The key that was used last survives eviction.
pub proof fn law_last_used_survives_eviction(memory: Memory, key: Seq<char>, datum: Datum)
    requires
        memory.wf(),
        memory.entries.len() > 0,
        memory.entries.last() == (key, datum),
    ensures
        find(memory.evicted().entries, key) == Some(datum),
{
    let n = law_eviction_is_minimal(memory);
    let kept = memory.entries.skip(n as int);
    assert(kept.last() == memory.entries.last());
}

/// An entry counts for the bytes of its key and those of its value, as long as they fit into the
/// address space.
pub proof fn law_size_counts_key_and_value(key: Seq<char>, datum: Datum)
    requires
        encode_utf8(key).len() + datum.0.len() <= usize::MAX,
    ensures
        size_of(key, datum) == encode_utf8(key).len() + datum.0.len(),
{
}

/// Bytes that come are added and bytes that go are subtracted, as long as nothing is missing.
pub proof fn law_usage_is_a_sum(usage: int, came: usize, went: usize)
    requires
        0 <= usage,
        usage + came <= usize::MAX,
        went <= usage + came,
    ensures
        usage_after(usage, Some(came), Some(went)) == usage + came - went,
        usage_after(usage, Some(came), None) == usage + came,
        went <= usage ==> usage_after(usage, None, Some(went)) == usage - went,
        usage_after(usage, None, None) == usage,
{
}

/// A new cache is empty, counts no bytes, has the limit that it was given and room for a hundred
/// million entries; without an open database there is none, and the reason is the error.
pub proof fn law_new_cache_is_empty(
    options: CacheOptions,
    opened: Result<(), DbError>,
    result: Result<Cache, CacheError>,
)
    requires
        call_ensures(Cache::new, (options, opened), result),
    ensures
        match opened {
            Ok(_) => {
                &&& result matches Ok(cache)
                &&& cache@.entries.len() == 0
                &&& cache@.usage == 0
                &&& cache@.capacity == 100_000_000
                &&& cache@.max_memory_mb == options.max_memory_mb
            },
            Err(err) => result == Err::<Cache, CacheError>(CacheError::DbConnectionError(err)),
        },
{
}

} // verus!
