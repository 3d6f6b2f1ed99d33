//! The contents of the memory layer as a mathematical sequence.
//!
//! Entries are listed in order of use: the least recently used entry comes first and the most
//! recently used one comes last. No key occurs twice.
use vstd::prelude::*;
use vstd::utf8::encode_utf8;

verus! {

/// A stored value together with its time of expiration in seconds since the Unix epoch.
pub type Datum = (Seq<u8>, Option<i64>);

/// A key with what is stored under it.
pub type Entry = (Seq<char>, (Seq<u8>, Option<i64>));

/// What is stored under `key`, if anything is.
pub open spec fn find(entries: Seq<Entry>, key: Seq<char>) -> Option<Datum>
    decreases entries.len(),
{
    if entries.len() == 0 {
        None
    } else if entries.last().0 == key {
        Some(entries.last().1)
    } else {
        find(entries.drop_last(), key)
    }
}

/// Whether something is stored under `key`.
pub open spec fn has_key(entries: Seq<Entry>, key: Seq<char>) -> bool {
    find(entries, key) is Some
}

/// The entries of all other keys, in the order they had.
pub open spec fn without(entries: Seq<Entry>, key: Seq<char>) -> Seq<Entry> {
    entries.filter(|entry: Entry| entry.0 != key)
}

/// The entries after `key` was looked up: a key that is there becomes the most recently used one.
pub open spec fn touched(entries: Seq<Entry>, key: Seq<char>) -> Seq<Entry> {
    match find(entries, key) {
        Some(datum) => without(entries, key).push((key, datum)),
        None => entries,
    }
}

/// The entries after `datum` was stored under `key` in a collection of at most `capacity` entries.
/// The new entry is the most recently used one. A new key takes the place of the least recently
/// used one if there is no room left.
pub open spec fn stored(entries: Seq<Entry>, key: Seq<char>, datum: Datum, capacity: nat) -> Seq<
    Entry,
> {
    if has_key(entries, key) {
        without(entries, key).push((key, datum))
    } else if entries.len() == capacity {
        entries.drop_first().push((key, datum))
    } else {
        entries.push((key, datum))
    }
}

/// No key occurs twice.
pub open spec fn distinct(entries: Seq<Entry>) -> bool {
    forall|i: int, j: int|
        0 <= i < j < entries.len() ==> #[trigger] entries[i].0 != #[trigger] entries[j].0
}

/// The length of a key in bytes.
pub open spec fn key_len(key: Seq<char>) -> usize {
    encode_utf8(key).len() as usize
}

/// The sum of two sizes, held at the largest machine number.
pub open spec fn saturating_sum(a: int, b: int) -> int {
    if a + b > usize::MAX {
        usize::MAX as int
    } else {
        a + b
    }
}

/// The difference of two sizes, held at zero.
pub open spec fn saturating_difference(a: int, b: int) -> int {
    if a < b {
        0
    } else {
        a - b
    }
}

/// The bytes that an entry counts for: those of its key and those of its value.
pub open spec fn size_of(key: Seq<char>, datum: Datum) -> int {
    saturating_sum(datum.0.len() as int, key_len(key) as int)
}

/// The bytes that all entries count for.
pub open spec fn total_size(entries: Seq<Entry>) -> int
    decreases entries.len(),
{
    if entries.len() == 0 {
        0
    } else {
        total_size(entries.drop_last()) + size_of(entries.last().0, entries.last().1)
    }
}

/// A key is found exactly where an entry carries it.
pub proof fn lemma_find_index(entries: Seq<Entry>, key: Seq<char>, i: int)
    requires
        distinct(entries),
        0 <= i < entries.len(),
        entries[i].0 == key,
    ensures
        find(entries, key) == Some(entries[i].1),
    decreases entries.len(),
{
    if i < entries.len() - 1 {
        lemma_find_index(entries.drop_last(), key, i);
    }
}

/// What is found stands somewhere.
pub proof fn lemma_find_some(entries: Seq<Entry>, key: Seq<char>) -> (i: int)
    requires
        has_key(entries, key),
    ensures
        0 <= i < entries.len(),
        entries[i] == (key, find(entries, key)->0),
    decreases entries.len(),
{
    if entries.last().0 == key {
        entries.len() - 1
    } else {
        lemma_find_some(entries.drop_last(), key)
    }
}

pub proof fn lemma_find_push(entries: Seq<Entry>, entry: Entry, key: Seq<char>)
    ensures
        find(entries.push(entry), key) == (if entry.0 == key {
            Some(entry.1)
        } else {
            find(entries, key)
        }),
{
    assert(entries.push(entry).drop_last() =~= entries);
}

pub proof fn lemma_total_push(entries: Seq<Entry>, entry: Entry)
    ensures
        total_size(entries.push(entry)) == total_size(entries) + size_of(entry.0, entry.1),
{
    assert(entries.push(entry).drop_last() =~= entries);
}

pub proof fn lemma_total_nonnegative(entries: Seq<Entry>)
    ensures
        total_size(entries) >= 0,
    decreases entries.len(),
{
    if entries.len() > 0 {
        lemma_total_nonnegative(entries.drop_last());
    }
}

/// Dropping the least recently used entry.
pub proof fn lemma_drop_first(entries: Seq<Entry>, key: Seq<char>)
    requires
        distinct(entries),
        entries.len() > 0,
    ensures
        distinct(entries.drop_first()),
        total_size(entries.drop_first()) == total_size(entries) - size_of(
            entries[0].0,
            entries[0].1,
        ),
        find(entries.drop_first(), key) == (if entries[0].0 == key {
            None
        } else {
            find(entries, key)
        }),
    decreases entries.len(),
{
    let rest = entries.drop_first();
    assert(distinct(rest)) by {
        assert forall|i: int, j: int| 0 <= i < j < rest.len() implies #[trigger] rest[i].0
            != #[trigger] rest[j].0 by {
            assert(entries[i + 1].0 != entries[j + 1].0);
        }
    }
    if entries.len() == 1 {
        assert(entries.drop_last() =~= Seq::<Entry>::empty());
        assert(rest =~= Seq::<Entry>::empty());
        reveal_with_fuel(find, 2);
        reveal_with_fuel(total_size, 2);
    } else {
        lemma_drop_first(entries.drop_last(), key);
        assert(rest.drop_last() =~= entries.drop_last().drop_first());
        assert(entries[0].0 != entries[entries.len() - 1].0);
    }
}

/// Taking one key out.
pub proof fn lemma_without(entries: Seq<Entry>, key: Seq<char>)
    requires
        distinct(entries),
    ensures
        distinct(without(entries, key)),
        !has_key(without(entries, key), key),
        forall|other: Seq<char>|
            other != key ==> #[trigger] find(without(entries, key), other) == find(entries, other),
        forall|i: int|
            0 <= i < without(entries, key).len() ==> entries.contains(
                #[trigger] without(entries, key)[i],
            ),
        match find(entries, key) {
            Some(datum) => {
                &&& without(entries, key).len() == entries.len() - 1
                &&& total_size(without(entries, key)) == total_size(entries) - size_of(key, datum)
            },
            None => without(entries, key) == entries,
        },
    decreases entries.len(),
{
    reveal(Seq::filter);
    if entries.len() > 0 {
        let front = entries.drop_last();
        let last = entries.last();
        assert(distinct(front));
        lemma_without(front, key);
        assert forall|i: int| 0 <= i < without(front, key).len() implies entries.contains(
            #[trigger] without(front, key)[i],
        ) by {
            let entry = without(front, key)[i];
            assert(front.contains(entry));
            let at = choose|at: int| 0 <= at < front.len() && front[at] == entry;
            assert(entries[at] == entry);
        }
        if last.0 == key {
            assert(without(entries, key) =~= without(front, key));
            if has_key(front, key) {
                let at = lemma_find_some(front, key);
                assert(entries[at].0 == entries[entries.len() - 1].0);
                assert(false);
            }
        } else {
            assert(without(entries, key) =~= without(front, key).push(last));
            assert(entries.contains(last)) by {
                assert(entries[entries.len() - 1] == last);
            }
            assert forall|i: int, j: int|
                0 <= i < j < without(entries, key).len() implies #[trigger] without(
                entries,
                key,
            )[i].0 != #[trigger] without(entries, key)[j].0 by {
                if j == without(front, key).len() {
                    let entry = without(front, key)[i];
                    assert(front.contains(entry));
                    let at = choose|at: int| 0 <= at < front.len() && front[at] == entry;
                    assert(entries[at].0 != entries[entries.len() - 1].0);
                }
            }
            assert forall|other: Seq<char>| other != key implies #[trigger] find(
                without(entries, key),
                other,
            ) == find(entries, other) by {
                lemma_find_push(without(front, key), last, other);
                assert(find(without(front, key), other) == find(front, other));
            }
            lemma_find_push(without(front, key), last, key);
            lemma_total_push(without(front, key), last);
            if find(entries, key) is None {
                assert(without(front, key) == front);
                assert(front.push(last) =~= entries);
            }
        }
    }
}

/// Putting an entry with a new key at the end.
pub proof fn lemma_push_distinct(entries: Seq<Entry>, key: Seq<char>, datum: Datum)
    requires
        distinct(entries),
        !has_key(entries, key),
    ensures
        distinct(entries.push((key, datum))),
{
    let pushed = entries.push((key, datum));
    assert forall|i: int, j: int| 0 <= i < j < pushed.len() implies #[trigger] pushed[i].0
        != #[trigger] pushed[j].0 by {
        if j == entries.len() && entries[i].0 == key {
            lemma_find_index(entries, key, i);
        }
    }
}

} // verus!
