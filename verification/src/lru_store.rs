//! The memory layer's collection: an `LruCache` of the lru crate, with what is relied on of it.
use crate::clock::CacheData;
use crate::recency::{find, stored, touched, without};
use lru::LruCache;
use std::num::NonZeroUsize;
use vstd::prelude::*;

verus! {

/// The collection of the lru crate.
#[verifier::external_type_specification]
#[verifier::external_body]
#[verifier::reject_recursive_types(K)]
#[verifier::reject_recursive_types(V)]
#[verifier::reject_recursive_types(S)]
pub struct ExLruCache<K, V, S>(lru::LruCache<K, V, S>);

/// The hasher that the lru crate uses unless told otherwise.
#[verifier::external_type_specification]
#[verifier::external_body]
pub struct ExDefaultHasher(lru::DefaultHasher);

/// What the collection holds, the least recently used entry first.
pub uninterp spec fn lru_entries(cache: LruCache<String, CacheData>) -> Seq<
    (Seq<char>, (Seq<u8>, Option<i64>)),
>;

/// How many entries the collection was made for.
pub uninterp spec fn lru_capacity(cache: LruCache<String, CacheData>) -> nat;

/// The largest number of entries that a collection is made for.
pub const MAX_LRU_CACHE_ITEMS: usize = 100_000_000;

/// What is stored under a key, if anything is, as a mathematical value.
pub open spec fn datum_view(found: Option<CacheData>) -> Option<(Seq<u8>, Option<i64>)> {
    match found {
        Some(data) => Some(data@),
        None => None,
    }
}

/// `LruCache::new`: claimed to give an empty collection for `capacity` entries.
///
/// The table for all of them is allocated at once, and a capacity whose table would not fit into
/// the address space is refused with a panic. A hundred million entries do fit.
#[verifier::external_body]
pub(crate) fn lru_new(capacity: usize) -> (cache: LruCache<String, CacheData>)
    requires
        0 < capacity <= MAX_LRU_CACHE_ITEMS,
    ensures
        lru_entries(cache) == Seq::<(Seq<char>, (Seq<u8>, Option<i64>))>::empty(),
        lru_capacity(cache) == capacity,
{
    LruCache::new(NonZeroUsize::new(capacity).unwrap())
}

/// `LruCache::len`: claimed to answer the number of entries.
#[verifier::external_body]
pub(crate) fn lru_len(cache: &LruCache<String, CacheData>) -> (len: usize)
    ensures
        len == lru_entries(*cache).len(),
{
    cache.len()
}

/// `LruCache::get`: claimed to answer what is stored under the key, and to make the key the most
/// recently used one if it is there. Nothing else changes.
#[verifier::external_body]
pub(crate) fn lru_get<'a>(cache: &'a mut LruCache<String, CacheData>, key: &str) -> (found: Option<
    &'a CacheData,
>)
    ensures
        found matches Some(data) ==> find(lru_entries(*old(cache)), key@) == Some(data@),
        found is None ==> find(lru_entries(*old(cache)), key@) is None,
        lru_entries(*final(cache)) == touched(lru_entries(*old(cache)), key@),
        lru_capacity(*final(cache)) == lru_capacity(*old(cache)),
{
    cache.get(key)
}

/// `LruCache::put`: claimed to store the value under the key as the most recently used entry, and
/// to answer what was stored under the key before. If the key is new and there is no room for
/// it, the least recently used entry is dropped.
#[verifier::external_body]
pub(crate) fn lru_put(
    cache: &mut LruCache<String, CacheData>,
    key: String,
    data: CacheData,
) -> (replaced: Option<CacheData>)
    ensures
        datum_view(replaced) == find(lru_entries(*old(cache)), key@),
        lru_entries(*final(cache)) == stored(
            lru_entries(*old(cache)),
            key@,
            data@,
            lru_capacity(*old(cache)),
        ),
        lru_capacity(*final(cache)) == lru_capacity(*old(cache)),
{
    cache.put(key, data)
}

/// `LruCache::pop`: claimed to remove the key and to answer what was stored under it. The other
/// entries keep their order.
#[verifier::external_body]
pub(crate) fn lru_pop(cache: &mut LruCache<String, CacheData>, key: &str) -> (removed: Option<
    CacheData,
>)
    ensures
        datum_view(removed) == find(lru_entries(*old(cache)), key@),
        lru_entries(*final(cache)) == without(lru_entries(*old(cache)), key@),
        lru_capacity(*final(cache)) == lru_capacity(*old(cache)),
{
    cache.pop(key)
}

/// `LruCache::pop_lru`: claimed to remove the least recently used entry and to answer it, and to
/// answer nothing if there is no entry.
#[verifier::external_body]
pub(crate) fn lru_pop_lru(cache: &mut LruCache<String, CacheData>) -> (removed: Option<
    (String, CacheData),
>)
    ensures
        removed is None <==> lru_entries(*old(cache)).len() == 0,
        removed is None ==> lru_entries(*final(cache)) == lru_entries(*old(cache)),
        removed matches Some(entry) ==> {
            &&& lru_entries(*old(cache))[0] == (entry.0@, entry.1@)
            &&& lru_entries(*final(cache)) == lru_entries(*old(cache)).drop_first()
        },
        lru_capacity(*final(cache)) == lru_capacity(*old(cache)),
{
    cache.pop_lru()
}

} // verus!
