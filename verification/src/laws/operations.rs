//! What holds of the operations of the cache, run to their end on a database.
use crate::call::RequestView;
use crate::cleanup::{due_at, due_in};
use crate::clock::{clock_shows, duration_secs, expired_at, expiry_secs, Reading};
use crate::error::CacheError;
use crate::laws::memory::{
    lemma_find_stored, lemma_find_touched, law_eviction_changes_no_value,
    law_last_used_survives_eviction, law_memory_stays_in_order,
};
use crate::memory::{fresh, Cache, Memory};
use crate::napi::seconds_for;
use crate::operation::{
    cleanup_begin, delete_begin, get_begin, lemma_deleted_all_has_key, resumed, set_begin,
    validate_begin, OutcomeView, Step, StepView, TaskView, TurnView,
};
use crate::recency::{find, has_key, lemma_without};
use crate::table::{readable, row_expired, Row, RowsView, Table};
use std::time::{Duration, SystemTimeError};
use vstd::prelude::*;

verus! {

/// A request that was sent: the reply, the table afterwards, and what the clock showed when the
/// operation went on.
pub struct Reply {
    pub answer: Result<RowsView, CacheError>,
    pub after: Table,
    pub now: Reading,
    pub later: Reading,
}

/// Whether these replies are how an operation runs from `step` to its end on a database that
/// performs each request that it does not refuse, and leaves the table alone when it refuses one.
/// Nobody else uses the memory or writes to the table meanwhile.
pub open spec fn ran(memory: Memory, table: Table, step: StepView, replies: Seq<Reply>) -> bool
    decreases replies.len(),
{
    match step.turn {
        TurnView::Finished(_) => replies.len() == 0,
        TurnView::Ask { request, task } => {
            let reply = replies[0];
            let (next_memory, next_step) = resumed(
                memory,
                task,
                reply.answer,
                reply.now,
                reply.later,
            );
            &&& replies.len() > 0
            &&& match reply.answer {
                Ok(rows) => request.performed(table, reply.after, rows),
                Err(_) => reply.after == table,
            }
            &&& ran(next_memory, reply.after, next_step, replies.drop_first())
        },
    }
}

/// The memory after an operation ran through these replies.
pub open spec fn memory_after(memory: Memory, step: StepView, replies: Seq<Reply>) -> Memory
    decreases replies.len(),
{
    match step.turn {
        TurnView::Finished(_) => memory,
        TurnView::Ask { task, .. } => if replies.len() == 0 {
            memory
        } else {
            let (next_memory, next_step) = resumed(
                memory,
                task,
                replies[0].answer,
                replies[0].now,
                replies[0].later,
            );
            memory_after(next_memory, next_step, replies.drop_first())
        },
    }
}

/// The outcome of an operation that ran through these replies.
pub open spec fn outcome_after(memory: Memory, step: StepView, replies: Seq<Reply>) -> OutcomeView
    decreases replies.len(),
{
    match step.turn {
        TurnView::Finished(outcome) => outcome,
        TurnView::Ask { task, .. } => if replies.len() == 0 {
            arbitrary()
        } else {
            let (next_memory, next_step) = resumed(
                memory,
                task,
                replies[0].answer,
                replies[0].now,
                replies[0].later,
            );
            outcome_after(next_memory, next_step, replies.drop_first())
        },
    }
}

/// The table after the last reply.
pub open spec fn table_after(table: Table, replies: Seq<Reply>) -> Table {
    if replies.len() == 0 {
        table
    } else {
        replies.last().after
    }
}

/// Whether the database refused none of the requests.
pub open spec fn all_granted(replies: Seq<Reply>) -> bool {
    forall|i: int| 0 <= i < replies.len() ==> #[trigger] replies[i].answer is Ok
}

/// Whether two readings of the clock, after the Unix epoch, are in order.
pub open spec fn in_order(now: Reading, later: Reading) -> bool {
    match (now, later) {
        (Ok(first), Ok(second)) => first <= second <= i64::MAX,
        _ => false,
    }
}

/// Whether the value that memory has for a key, if it has one, is the one that the table has.
pub open spec fn coherent_at(memory: Memory, table: Table, key: Seq<char>) -> bool {
    find(memory.entries, key) matches Some(datum) ==> table.contains_key(key) && table[key].datum
        == datum
}

/// Whether every value in memory is the one that the table has.
pub open spec fn coherent(memory: Memory, table: Table) -> bool {
    forall|key: Seq<char>| #[trigger] coherent_at(memory, table, key)
}

/// A cache that was just made agrees with any table.
pub proof fn law_fresh_cache_is_coherent(max_memory_mb: usize, capacity: nat, table: Table)
    ensures
        coherent(fresh(max_memory_mb, capacity), table),
{
}

/// Eviction leaves memory in agreement with the table.
pub proof fn law_eviction_keeps_coherence(memory: Memory, table: Table)
    requires
        memory.wf(),
        coherent(memory, table),
    ensures
        coherent(memory.evicted(), table),
{
    assert forall|key: Seq<char>| #[trigger] coherent_at(memory.evicted(), table, key) by {
        law_eviction_changes_no_value(memory, key);
        assert(coherent_at(memory, table, key));
    }
}

/// A value that has expired stays expired.
pub proof fn law_expiration_is_final(expiry: Option<i64>, now: Reading, later: Reading)
    requires
        in_order(now, later),
        expired_at(expiry, now),
    ensures
        expired_at(expiry, later),
{
}

/// As long as the clock stands after the Unix epoch, a value that is set with a time to live
/// expires when more seconds have passed than it was given, and one that is set without never
/// does.
pub proof fn law_time_to_live_is_kept(ttl: Option<Duration>, now: Reading, later: Reading)
    requires
        in_order(now, later),
        expiry_secs(ttl, now) is Ok,
    ensures
        expired_at(expiry_secs(ttl, now)->Ok_0, later) <==> (ttl matches Some(span)
            && later->Ok_0 - now->Ok_0 > duration_secs(span)),
{
}

/// A time to live in milliseconds is kept: a value is not expired before its milliseconds have
/// passed, though the clock is only read in whole seconds, and less than a second is added to them.
/// `span` is any time to live that the milliseconds may become.
pub proof fn law_milliseconds_are_kept(millis: u32, span: Duration, set_ms: nat, read_ms: nat)
    requires
        duration_secs(span) == seconds_for(millis),
        set_ms <= read_ms <= set_ms + millis,
        read_ms / 1000 <= i64::MAX,
        expiry_secs(Some(span), Ok((set_ms / 1000) as u64)) is Ok,
    ensures
        millis <= 1000 * duration_secs(span) < millis + 1000,
        !expired_at(
            expiry_secs(Some(span), Ok((set_ms / 1000) as u64))->Ok_0,
            Ok((read_ms / 1000) as u64),
        ),
{
    assert(read_ms / 1000 <= set_ms / 1000 + seconds_for(millis));
}

/// Cleanups come round: a cleanup is due as soon as the interval has passed since the last one, and
/// not before; from any moment on, that is when the time until the next one is over.
pub proof fn law_cleanup_interval_is_kept(last_ms: nat, now_ms: nat, interval_ms: nat, at_ms: nat)
    requires
        last_ms <= now_ms <= at_ms,
    ensures
        due_at(last_ms as int, at_ms as int, interval_ms as int) <==> at_ms - last_ms
            >= interval_ms,
        0 <= due_in(last_ms as int, now_ms as int, interval_ms as int) <= interval_ms,
        due_at(last_ms as int, at_ms as int, interval_ms as int) <==> at_ms >= now_ms + due_in(
            last_ms as int,
            now_ms as int,
            interval_ms as int,
        ),
{
}

/// A time of expiration is refused exactly if the sum is not less than 2^63 - 1 seconds, whatever
/// the time to live. Without a time to live nothing is refused, and the only other reason is a
/// clock that stands before the Unix epoch.
pub proof fn law_time_to_live_is_refused_for_a_reason(ttl: Option<Duration>, now: Reading)
    ensures
        now matches Err(err) ==> expiry_secs(ttl, now) == Err::<Option<i64>, CacheError>(
            CacheError::SystemTimeError(err),
        ),
        now matches Ok(secs) ==> match ttl {
            None => expiry_secs(ttl, now) == Ok::<Option<i64>, CacheError>(None),
            Some(span) => {
                &&& expiry_secs(ttl, now) is Err <==> secs + duration_secs(span) >= i64::MAX
                &&& expiry_secs(ttl, now) matches Err(err) ==> err is TtlValueOverflow
                &&& expiry_secs(ttl, now) matches Ok(expires) ==> expires matches Some(at) && at
                    == secs + duration_secs(span)
            },
        },
{
}

/// A value has expired when its last second is over, and not before. Before the Unix epoch every
/// value has.
pub proof fn law_expiration_is_judged_by_the_second(expiry: Option<i64>, now: Reading)
    requires
        now matches Ok(secs) ==> secs <= i64::MAX,
    ensures
        match now {
            Ok(secs) => expired_at(expiry, now) <==> (expiry matches Some(expiration) && secs
                > expiration),
            Err(_) => expired_at(expiry, now),
        },
{
}

/// The database looks for the same rows that the cache takes for expired.
pub proof fn law_database_and_cache_agree_on_expiration(row: Row, now: u64)
    ensures
        row_expired(row, now as i64) == expired_at(row.datum.1, Ok(now)),
{
}

/// Each operation takes at most two requests and ends with an outcome of its own kind.
pub proof fn law_operations_end(
    memory: Memory,
    table: Table,
    key: Seq<char>,
    value: Seq<u8>,
    ttl: Option<Duration>,
    now: Reading,
    later: Reading,
    replies: Seq<Reply>,
)
    ensures
        ran(memory, table, set_begin(key, value, ttl, now, later), replies) ==> replies.len() <= 1
            && outcome_after(memory, set_begin(key, value, ttl, now, later), replies) is Stored,
        ({
            let (begun, step) = get_begin(memory, key, now);
            ran(begun, table, step, replies) ==> replies.len() <= 2 && outcome_after(
                begun,
                step,
                replies,
            ) is Found
        }),
        ({
            let (begun, step) = delete_begin(memory, key);
            ran(begun, table, step, replies) ==> replies.len() == 1 && outcome_after(
                begun,
                step,
                replies,
            ) is Deleted
        }),
        ran(memory, table, cleanup_begin(now), replies) ==> replies.len() <= 2 && outcome_after(
            memory,
            cleanup_begin(now),
            replies,
        ) is CleanedUp,
        ran(memory, table, validate_begin(key), replies) ==> 1 <= replies.len() <= 2
            && outcome_after(memory, validate_begin(key), replies) is Validated,
{
    reveal_with_fuel(ran, 4);
    reveal_with_fuel(outcome_after, 4);
}

/// What `set` does to memory and table: the table has the value, memory has it too, and nothing
/// else of the table changes.
pub proof fn law_set_stores(
    memory: Memory,
    table: Table,
    key: Seq<char>,
    value: Seq<u8>,
    ttl: Option<Duration>,
    now: Reading,
    later: Reading,
    replies: Seq<Reply>,
)
    requires
        memory.wf(),
        ran(memory, table, set_begin(key, value, ttl, now, later), replies),
        all_granted(replies),
        expiry_secs(ttl, now) is Ok,
        later is Ok,
    ensures
        ({
            let step = set_begin(key, value, ttl, now, later);
            let datum = (value, expiry_secs(ttl, now)->Ok_0);
            let after = memory_after(memory, step, replies);
            &&& outcome_after(memory, step, replies) == OutcomeView::Stored(Ok(()))
            &&& table_after(table, replies) == table.insert(
                key,
                Row { datum, last_accessed: later->Ok_0 as i64 },
            )
            &&& after == memory.set(key, datum)
            &&& after.wf()
            &&& find(after.entries, key) == Some(datum)
            &&& coherent(memory, table) ==> coherent(after, table_after(table, replies))
        }),
{
    reveal_with_fuel(ran, 3);
    reveal_with_fuel(outcome_after, 3);
    reveal_with_fuel(memory_after, 3);
    let datum = (value, expiry_secs(ttl, now)->Ok_0);
    let step = set_begin(key, value, ttl, now, later);
    assert(replies[0].answer is Ok);
    law_memory_stays_in_order(memory, key, datum, Seq::empty());
    lemma_find_stored(memory, key, datum, key);
    assert(replies.len() == 1);
    let after = memory_after(memory, step, replies);
    assert(after == memory.set(key, datum));
    if coherent(memory, table) {
        assert forall|other: Seq<char>| #[trigger]
            coherent_at(after, table_after(table, replies), other) by {
            lemma_find_stored(memory, key, datum, other);
            assert(coherent_at(memory, table, other));
        }
    }
}

/// A `set` that fails, because of the clock, of its time to live or of the database, changes
/// neither memory nor table and returns the error.
pub proof fn law_failed_set_changes_nothing(
    memory: Memory,
    table: Table,
    key: Seq<char>,
    value: Seq<u8>,
    ttl: Option<Duration>,
    now: Reading,
    later: Reading,
    replies: Seq<Reply>,
)
    requires
        ran(memory, table, set_begin(key, value, ttl, now, later), replies),
        !(expiry_secs(ttl, now) is Ok && later is Ok && all_granted(replies)),
    ensures
        ({
            let step = set_begin(key, value, ttl, now, later);
            &&& outcome_after(memory, step, replies) matches OutcomeView::Stored(Err(err))
            &&& expiry_secs(ttl, now) matches Err(reason) ==> err == reason
            &&& expiry_secs(ttl, now) is Ok && later is Err ==> err == CacheError::SystemTimeError(
                later->Err_0,
            )
            &&& replies.len() > 0 ==> replies[0].answer == Err::<RowsView, CacheError>(err)
            &&& memory_after(memory, step, replies) == memory
            &&& table_after(table, replies) == table
        }),
{
    reveal_with_fuel(ran, 3);
    reveal_with_fuel(outcome_after, 3);
    reveal_with_fuel(memory_after, 3);
    if replies.len() > 0 {
        assert(replies.len() == 1);
        assert(replies.drop_first().len() == 0);
        if replies[0].answer is Ok {
            assert(all_granted(replies));
        }
    }
}

/// `get` returns what the table holds: the value if the key is there and has not expired, and
/// nothing otherwise. What happens to be in memory makes no difference, and neither memory's
/// agreement with the table nor anything that a reader can see is changed.
///
/// A value from memory is judged by the clock at the start, a value from the database by the
/// clock when it arrived.
pub proof fn law_get_returns_what_the_table_holds(
    memory: Memory,
    table: Table,
    key: Seq<char>,
    now: Reading,
    replies: Seq<Reply>,
)
    requires
        memory.wf(),
        coherent_at(memory, table, key),
        ran(get_begin(memory, key, now).0, table, get_begin(memory, key, now).1, replies),
        all_granted(replies),
        replies.len() > 0 ==> in_order(now, replies[0].now),
    ensures
        ({
            let (begun, step) = get_begin(memory, key, now);
            let after = memory_after(begun, step, replies);
            let end = table_after(table, replies);
            let judged = if has_key(memory.entries, key) {
                now
            } else {
                replies[0].now
            };
            &&& outcome_after(begun, step, replies) == OutcomeView::Found(
                Ok(readable(table, key, judged)),
            )
            &&& after.wf()
            &&& coherent_at(after, end, key)
            &&& coherent(memory, table) ==> coherent(after, end)
            &&& forall|other: Seq<char>, at: Reading|
                (replies.len() > 0 ==> in_order(replies[0].now, at)) ==> #[trigger] readable(
                    end,
                    other,
                    at,
                ) == readable(table, other, at)
        }),
{
    reveal_with_fuel(ran, 4);
    reveal_with_fuel(outcome_after, 4);
    reveal_with_fuel(memory_after, 4);
    let (begun, step) = get_begin(memory, key, now);
    let after = memory_after(begun, step, replies);
    let end = table_after(table, replies);
    let datum = if has_key(memory.entries, key) {
        find(memory.entries, key)->0
    } else {
        table[key].datum
    };
    law_memory_stays_in_order(memory, key, datum, Seq::empty());
    law_memory_stays_in_order(memory.looked_up(key), key, datum, Seq::empty());
    law_memory_stays_in_order(begun, key, table[key].datum, Seq::empty());
    lemma_find_touched(memory, key, key);
    lemma_without(memory.looked_up(key).entries, key);
    lemma_find_stored(begun, key, table[key].datum, key);
    if replies.len() > 0 {
        assert(replies[0].answer is Ok);
        if replies.len() > 1 {
            assert(replies.drop_first()[0] == replies[1]);
            assert(replies[1].answer is Ok);
            assert(replies.len() == 2);
        }
    }
    assert forall|other: Seq<char>| coherent_at(memory, table, other) implies #[trigger] coherent_at(
        after,
        end,
        other,
    ) by {
        lemma_find_touched(memory, key, other);
        lemma_find_stored(begun, key, table[key].datum, other);
        if other != key {
            assert(find(memory.looked_up(key).dropped(key).entries, other) == find(
                memory.looked_up(key).entries,
                other,
            ));
        }
    }
    if coherent(memory, table) {
        assert forall|other: Seq<char>| #[trigger] coherent_at(after, end, other) by {
            assert(coherent_at(memory, table, other));
        }
    }
}

/// `get` never returns a value that has expired, whatever is in memory: a value that it returns
/// comes from memory or from the table, and had not expired there.
pub proof fn law_get_returns_nothing_expired(
    memory: Memory,
    table: Table,
    key: Seq<char>,
    now: Reading,
    replies: Seq<Reply>,
)
    requires
        ran(get_begin(memory, key, now).0, table, get_begin(memory, key, now).1, replies),
    ensures
        outcome_after(
            get_begin(memory, key, now).0,
            get_begin(memory, key, now).1,
            replies,
        ) matches OutcomeView::Found(Ok(Some(value))) ==> {
            ||| find(memory.entries, key) matches Some(datum) && datum.0 == value && !expired_at(
                datum.1,
                now,
            )
            ||| table.contains_key(key) && table[key].datum.0 == value && !expired_at(
                table[key].datum.1,
                replies[0].now,
            )
        },
{
    reveal_with_fuel(ran, 4);
    reveal_with_fuel(outcome_after, 4);
}

/// `get` returns an error only if the database refused a request, and then returns that one.
pub proof fn law_get_fails_with_the_database(
    memory: Memory,
    table: Table,
    key: Seq<char>,
    now: Reading,
    replies: Seq<Reply>,
)
    requires
        ran(get_begin(memory, key, now).0, table, get_begin(memory, key, now).1, replies),
    ensures
        outcome_after(
            get_begin(memory, key, now).0,
            get_begin(memory, key, now).1,
            replies,
        ) matches OutcomeView::Found(Err(err)) ==> replies.len() > 0 && replies.last().answer
            == Err::<RowsView, CacheError>(err),
        all_granted(replies) ==> outcome_after(
            get_begin(memory, key, now).0,
            get_begin(memory, key, now).1,
            replies,
        ) matches OutcomeView::Found(Ok(_)),
{
    reveal_with_fuel(ran, 4);
    reveal_with_fuel(outcome_after, 4);
    if replies.len() > 1 {
        assert(replies.drop_first()[0] == replies[1]);
    }
}

/// `delete` removes the key from memory and, unless the database refuses, from the table. The
/// other keys keep their values, and a refusal is the error that it returns.
pub proof fn law_delete_removes(
    memory: Memory,
    table: Table,
    key: Seq<char>,
    replies: Seq<Reply>,
)
    requires
        memory.wf(),
        ran(delete_begin(memory, key).0, table, delete_begin(memory, key).1, replies),
    ensures
        ({
            let (begun, step) = delete_begin(memory, key);
            let after = memory_after(begun, step, replies);
            let end = table_after(table, replies);
            &&& after.wf()
            &&& !has_key(after.entries, key)
            &&& forall|other: Seq<char>|
                other != key ==> #[trigger] find(after.entries, other) == find(
                    memory.entries,
                    other,
                )
            &&& match replies[0].answer {
                Ok(_) => {
                    &&& outcome_after(begun, step, replies) == OutcomeView::Deleted(Ok(()))
                    &&& end == table.remove(key)
                },
                Err(err) => {
                    &&& outcome_after(begun, step, replies) == OutcomeView::Deleted(Err(err))
                    &&& end == table
                },
            }
            &&& coherent(memory, table) ==> coherent(after, end)
        }),
{
    reveal_with_fuel(ran, 3);
    reveal_with_fuel(outcome_after, 3);
    reveal_with_fuel(memory_after, 3);
    lemma_without(memory.entries, key);
    law_memory_stays_in_order(memory, key, find(memory.entries, key)->0, Seq::empty());
    let (begun, step) = delete_begin(memory, key);
    let after = memory_after(begun, step, replies);
    assert(after == memory.deleted(key));
    assert(replies.len() == 1);
    if coherent(memory, table) {
        assert forall|other: Seq<char>| #[trigger]
            coherent_at(after, table_after(table, replies), other) by {
            assert(coherent_at(memory, table, other));
        }
    }
}

/// The keys whose rows have expired at `now`.
pub open spec fn expired_keys(table: Table, now: i64) -> Set<Seq<char>> {
    Set::new(|key: Seq<char>| table.contains_key(key) && row_expired(table[key], now))
}

/// `cleanup_expired_keys` removes exactly the expired keys, from the table and from memory, and
/// returns how many there were. No expired row is left in the table.
pub proof fn law_cleanup_removes_the_expired(
    memory: Memory,
    table: Table,
    now: Reading,
    replies: Seq<Reply>,
)
    requires
        memory.wf(),
        now is Ok,
        expired_keys(table, now->Ok_0 as i64).len() <= usize::MAX,
        ran(memory, table, cleanup_begin(now), replies),
        all_granted(replies),
    ensures
        ({
            let step = cleanup_begin(now);
            let gone = expired_keys(table, now->Ok_0 as i64);
            let after = memory_after(memory, step, replies);
            let end = table_after(table, replies);
            &&& outcome_after(memory, step, replies) matches OutcomeView::CleanedUp(Ok(count))
            &&& gone.finite()
            &&& count == gone.len()
            &&& end == table.remove_keys(gone)
            &&& forall|key: Seq<char>| #[trigger]
                end.contains_key(key) ==> !row_expired(end[key], now->Ok_0 as i64)
            &&& after.wf()
            &&& forall|key: Seq<char>| #[trigger]
                find(after.entries, key) == (if gone.contains(key) {
                    None
                } else {
                    find(memory.entries, key)
                })
            &&& coherent(memory, table) ==> coherent(after, end)
        }),
{
    reveal_with_fuel(ran, 4);
    reveal_with_fuel(outcome_after, 4);
    reveal_with_fuel(memory_after, 4);
    let step = cleanup_begin(now);
    let gone = expired_keys(table, now->Ok_0 as i64);
    let after = memory_after(memory, step, replies);
    let end = table_after(table, replies);
    assert(replies[0].answer is Ok);
    let keys = replies[0].answer->Ok_0->Keys_0;
    assert(keys.to_set() =~= gone);
    keys.unique_seq_to_set();
    if keys.len() > 0 {
        assert(replies.drop_first()[0] == replies[1]);
        assert(replies[1].answer is Ok);
        assert(replies.len() == 2);
    } else {
        assert(replies.len() == 1);
        assert(gone =~= Set::<Seq<char>>::empty());
        assert(table.remove_keys(gone) =~= table);
    }
    assert(after == memory.deleted_all(keys));
    assert forall|key: Seq<char>| #[trigger]
        find(after.entries, key) == (if gone.contains(key) {
            None
        } else {
            find(memory.entries, key)
        }) by {
        lemma_deleted_all_has_key(memory, keys, key);
        assert(keys.contains(key) <==> keys.to_set().contains(key));
    }
    lemma_deleted_all_has_key(memory, keys, Seq::empty());
    if coherent(memory, table) {
        assert forall|key: Seq<char>| #[trigger] coherent_at(after, end, key) by {
            assert(coherent_at(memory, table, key));
        }
    }
}

/// `validate` drops a value from memory that the database no longer has or that has expired
/// there, and removes one that has expired from the database too. A value that is still good
/// stays, and of the table nothing changes but the time of its last use, which becomes the current
/// one. If the database cannot be read, everything stays.
pub proof fn law_validate_drops_what_is_gone(
    memory: Memory,
    table: Table,
    key: Seq<char>,
    replies: Seq<Reply>,
)
    requires
        memory.wf(),
        ran(memory, table, validate_begin(key), replies),
    ensures
        ({
            let step = validate_begin(key);
            let after = memory_after(memory, step, replies);
            let end = table_after(table, replies);
            &&& after.wf()
            &&& forall|other: Seq<char>|
                other != key ==> #[trigger] find(after.entries, other) == find(
                    memory.entries,
                    other,
                )
            &&& if replies[0].answer is Err {
                after == memory && end == table
            } else if !table.contains_key(key) {
                !has_key(after.entries, key) && end == table
            } else if expired_at(table[key].datum.1, replies[0].now) {
                !has_key(after.entries, key) && (all_granted(replies) ==> end == table.remove(key))
            } else {
                let noted = replies[0].later is Ok && all_granted(replies);
                &&& after == memory
                &&& end == table.insert(
                    key,
                    Row { last_accessed: end[key].last_accessed, ..table[key] },
                )
                &&& end[key].last_accessed == (if noted {
                    replies[0].later->Ok_0 as i64
                } else {
                    table[key].last_accessed
                })
            }
            &&& coherent(memory, table) ==> coherent(after, end)
        }),
{
    reveal_with_fuel(ran, 4);
    reveal_with_fuel(outcome_after, 4);
    reveal_with_fuel(memory_after, 4);
    let step = validate_begin(key);
    let after = memory_after(memory, step, replies);
    let end = table_after(table, replies);
    lemma_without(memory.entries, key);
    law_memory_stays_in_order(memory, key, (Seq::empty(), None), Seq::empty());
    if replies.len() > 1 {
        assert(replies.drop_first()[0] == replies[1]);
        assert(replies.len() == 2);
    }
    if replies[0].answer is Ok && table.contains_key(key) && !expired_at(
        table[key].datum.1,
        replies[0].now,
    ) {
        if replies.len() > 1 && replies[1].answer is Ok {
            assert(all_granted(replies));
        }
        assert(end =~= table.insert(
            key,
            Row { last_accessed: end[key].last_accessed, ..table[key] },
        ));
    }
    if coherent(memory, table) {
        assert forall|other: Seq<char>| #[trigger] coherent_at(after, end, other) by {
            assert(coherent_at(memory, table, other));
        }
    }
}

/// Whether a value lives when the clock shows `now`: its last second is not over.
pub open spec fn lives_at(expiry: Option<i64>, now: Reading) -> bool {
    now matches Ok(secs) && secs <= i64::MAX && (expiry matches Some(expiration) ==> secs
        <= expiration)
}

/// A row that lives is returned by `get` and stays in the table: when memory has no value for the
/// key or the same one, and the row lives at the second that the clock shows when the row arrives.
/// Afterwards memory has it too, as the value that was used last.
pub proof fn law_living_row_is_returned(
    memory: Memory,
    table: Table,
    key: Seq<char>,
    now: Reading,
    replies: Seq<Reply>,
)
    requires
        memory.wf(),
        table.contains_key(key),
        coherent_at(memory, table, key),
        ran(get_begin(memory, key, now).0, table, get_begin(memory, key, now).1, replies),
        all_granted(replies),
        replies.len() > 0 ==> lives_at(table[key].datum.1, replies[0].now),
    ensures
        memory_after(
            get_begin(memory, key, now).0,
            get_begin(memory, key, now).1,
            replies,
        ).entries.last() == (key, table[key].datum),
        outcome_after(get_begin(memory, key, now).0, get_begin(memory, key, now).1, replies)
            == OutcomeView::Found(Ok(Some(table[key].datum.0))),
        table_after(table, replies) == table,
{
    reveal_with_fuel(ran, 3);
    reveal_with_fuel(outcome_after, 3);
    reveal_with_fuel(memory_after, 3);
    if replies.len() > 0 {
        assert(replies[0].answer is Ok);
        assert(replies.len() == 1);
    }
}

/// A row that has expired is removed by `get`, which returns nothing: when memory has no value for
/// the key that still lives, and the last second of the row is over when it arrives.
pub proof fn law_expired_row_is_removed(
    memory: Memory,
    table: Table,
    key: Seq<char>,
    now: Reading,
    expiration: i64,
    secs: u64,
    replies: Seq<Reply>,
)
    requires
        memory.wf(),
        table.contains_key(key),
        table[key].datum.1 == Some(expiration),
        expiration < secs <= i64::MAX,
        find(memory.entries, key) matches Some(datum) ==> expired_at(datum.1, now),
        ran(get_begin(memory, key, now).0, table, get_begin(memory, key, now).1, replies),
        all_granted(replies),
        replies[0].now == Ok::<u64, SystemTimeError>(secs),
    ensures
        outcome_after(get_begin(memory, key, now).0, get_begin(memory, key, now).1, replies)
            == OutcomeView::Found(Ok(None)),
        table_after(table, replies) == table.remove(key),
        !has_key(
            memory_after(
                get_begin(memory, key, now).0,
                get_begin(memory, key, now).1,
                replies,
            ).entries,
            key,
        ),
{
    reveal_with_fuel(ran, 4);
    reveal_with_fuel(outcome_after, 4);
    reveal_with_fuel(memory_after, 4);
    assert(replies[0].answer is Ok);
    assert(replies.drop_first()[0] == replies[1]);
    assert(replies[1].answer is Ok);
    assert(replies.len() == 2);
    law_memory_stays_in_order(memory, key, (Seq::empty(), None), Seq::empty());
    lemma_without(memory.looked_up(key).entries, key);
}

/// A value in memory that lives is the result of `get`, at once and without the database.
pub proof fn law_living_value_in_memory_is_returned(
    memory: Memory,
    key: Seq<char>,
    value: Seq<u8>,
    expires: Option<i64>,
    now: Reading,
)
    requires
        find(memory.entries, key) == Some((value, expires)),
        lives_at(expires, now),
    ensures
        get_begin(memory, key, now).1.turn == TurnView::Finished(
            OutcomeView::Found(Ok(Some(value))),
        ),
{
}

/// A row that lives survives the validation of its key, in the table with its value and in memory.
pub proof fn law_living_row_survives_validation(
    memory: Memory,
    table: Table,
    key: Seq<char>,
    replies: Seq<Reply>,
)
    requires
        memory.wf(),
        table.contains_key(key),
        ran(memory, table, validate_begin(key), replies),
        lives_at(table[key].datum.1, replies[0].now),
    ensures
        memory_after(memory, validate_begin(key), replies) == memory,
        table_after(table, replies).contains_key(key),
        table_after(table, replies)[key].datum == table[key].datum,
{
    law_validate_drops_what_is_gone(memory, table, key, replies);
}

/// A key whose value lives survives a cleanup, in the table and in memory, whatever the database
/// answers.
pub proof fn law_living_key_survives_cleanup(
    memory: Memory,
    table: Table,
    key: Seq<char>,
    now: Reading,
    replies: Seq<Reply>,
)
    requires
        memory.wf(),
        ran(memory, table, cleanup_begin(now), replies),
        table.contains_key(key),
        lives_at(table[key].datum.1, now),
    ensures
        table_after(table, replies).contains_key(key),
        table_after(table, replies)[key] == table[key],
        find(memory_after(memory, cleanup_begin(now), replies).entries, key) == find(
            memory.entries,
            key,
        ),
{
    reveal_with_fuel(ran, 4);
    reveal_with_fuel(memory_after, 4);
    if replies[0].answer is Ok {
        let keys = replies[0].answer->Ok_0->Keys_0;
        assert(!keys.contains(key));
        assert(!keys.to_set().contains(key));
        lemma_deleted_all_has_key(memory, keys, key);
    }
    if replies.len() > 1 {
        assert(replies.drop_first()[0] == replies[1]);
        assert(replies.len() == 2);
    }
}

/// `cleanup_expired_keys` asks for the keys that have expired at the second that the clock showed
/// when it was called, and for no others.
pub proof fn law_cleanup_goes_by_the_clock(cache: &Cache, step: Step)
    requires
        call_ensures(Cache::cleanup_expired_keys, (cache,), step),
    ensures
        exists|now: Reading| #[trigger]
            clock_shows(now) && match now {
                Ok(secs) => step@.turn == (TurnView::Ask {
                    request: RequestView::Expired { now: secs as i64 },
                    task: TaskView::FindExpired,
                }),
                Err(err) => step@.turn == TurnView::Finished(
                    OutcomeView::CleanedUp(Err(CacheError::SystemTimeError(err))),
                ),
            },
{
}

/// `set` sends the key and the value that it was given, with the second that the clock showed when
/// it was called as the time of the last use. The time of expiration is that second plus the time
/// to live, and none if there is none.
pub proof fn law_set_goes_by_the_clock(
    cache: &Cache,
    key: &str,
    value: &[u8],
    ttl: Option<Duration>,
    step: Step,
)
    requires
        call_ensures(Cache::set, (cache, key, value, ttl), step),
    ensures
        exists|now: Reading, later: Reading| #[trigger]
            clock_shows(now) && #[trigger] clock_shows(later) && match step@.turn {
                TurnView::Ask {
                    request: RequestView::Store { key: name, value: bytes, expires, last_accessed },
                    ..
                } => {
                    &&& now is Ok && later is Ok
                    &&& name == key@ && bytes == value@
                    &&& last_accessed == later->Ok_0 as i64
                    &&& match ttl {
                        Some(span) => expires matches Some(at) && at == now->Ok_0 + duration_secs(
                            span,
                        ),
                        None => expires is None,
                    }
                },
                TurnView::Ask { .. } => false,
                TurnView::Finished(outcome) => outcome matches OutcomeView::Stored(Err(_)) && (now
                    is Err || later is Err || (ttl matches Some(span) && now->Ok_0 + duration_secs(
                    span,
                ) >= i64::MAX)),
            },
{
    let (now, later) = choose|now: Reading, later: Reading|
        clock_shows(now) && clock_shows(later) && step@ == #[trigger] set_begin(
            key@,
            value@,
            ttl,
            now,
            later,
        );
    assert(clock_shows(now) && clock_shows(later));
}

/// A cleanup fails only with the clock or with the database, and then returns that error. What it
/// was refused to remove stays in the table.
pub proof fn law_cleanup_fails_for_a_reason(
    memory: Memory,
    table: Table,
    now: Reading,
    replies: Seq<Reply>,
)
    requires
        ran(memory, table, cleanup_begin(now), replies),
    ensures
        match outcome_after(memory, cleanup_begin(now), replies) {
            OutcomeView::CleanedUp(Ok(_)) => now is Ok && all_granted(replies),
            OutcomeView::CleanedUp(Err(err)) => {
                &&& table_after(table, replies) == table
                &&& match now {
                    Err(reason) => err == CacheError::SystemTimeError(reason),
                    Ok(_) => replies.len() > 0 && replies.last().answer == Err::<
                        RowsView,
                        CacheError,
                    >(err),
                }
            },
            _ => false,
        },
{
    reveal_with_fuel(ran, 4);
    reveal_with_fuel(outcome_after, 4);
    if replies.len() > 1 {
        assert(replies.drop_first()[0] == replies[1]);
        assert(replies.len() == 2);
    }
}

proof fn lemma_nothing_deleted(memory: Memory, keys: Seq<Seq<char>>)
    requires
        forall|i: int| 0 <= i < keys.len() ==> !has_key(memory.entries, #[trigger] keys[i]),
    ensures
        memory.deleted_all(keys) == memory,
    decreases keys.len(),
{
    if keys.len() > 0 {
        let front = keys.drop_last();
        assert forall|i: int| 0 <= i < front.len() implies !has_key(
            memory.entries,
            #[trigger] front[i],
        ) by {
            assert(front[i] == keys[i]);
        }
        lemma_nothing_deleted(memory, front);
        assert(keys[keys.len() - 1] == keys.last());
    }
}

/// Eviction is due whenever memory usage has changed: no step changes it without saying so.
pub proof fn law_eviction_is_due_when_usage_changes(
    memory: Memory,
    key: Seq<char>,
    task: TaskView,
    answer: Result<RowsView, CacheError>,
    now: Reading,
    later: Reading,
)
    ensures
        get_begin(memory, key, now).0.usage != memory.usage ==> get_begin(memory, key, now).1.evict,
        delete_begin(memory, key).0.usage != memory.usage ==> delete_begin(memory, key).1.evict,
        resumed(memory, task, answer, now, later).0.usage != memory.usage ==> resumed(
            memory,
            task,
            answer,
            now,
            later,
        ).1.evict,
        task is Store && answer is Ok ==> resumed(memory, task, answer, now, later).1.evict,
{
    if task is FindExpired && answer is Ok {
        let keys = answer->Ok_0->Keys_0;
        if !(exists|i: int| 0 <= i < keys.len() && has_key(memory.entries, #[trigger] keys[i])) {
            lemma_nothing_deleted(memory, keys);
        }
    }
}

/// Whether what a step asks for is what its task is waiting for: whatever the database gives back
/// for the request is accepted by the task.
pub open spec fn answerable(step: StepView) -> bool {
    step.turn matches TurnView::Ask { request, task } ==> forall|
        before: Table,
        after: Table,
        rows: RowsView,
    | #[trigger]
        request.performed(before, after, rows) ==> task.accepts(Ok(rows))
}

/// Every step that asks the database for something can go on with what it gives back, and with any
/// error.
pub proof fn law_steps_are_answerable(
    memory: Memory,
    key: Seq<char>,
    value: Seq<u8>,
    ttl: Option<Duration>,
    task: TaskView,
    answer: Result<RowsView, CacheError>,
    err: CacheError,
    now: Reading,
    later: Reading,
)
    ensures
        answerable(set_begin(key, value, ttl, now, later)),
        answerable(get_begin(memory, key, now).1),
        answerable(delete_begin(memory, key).1),
        answerable(cleanup_begin(now)),
        answerable(validate_begin(key)),
        answerable(resumed(memory, task, answer, now, later).1),
        task.accepts(Err(err)),
{
}

/// Validation is due whenever `get` finds its key in memory, and only then.
pub proof fn law_validation_is_due_after_a_hit(memory: Memory, key: Seq<char>, now: Reading)
    ensures
        get_begin(memory, key, now).1.validate <==> has_key(memory.entries, key),
{
}

/// Read your own writes: after a `set` that succeeded, with or without eviction, `get` returns the
/// value as long as it has not expired.
pub proof fn law_get_after_set(
    memory: Memory,
    table: Table,
    key: Seq<char>,
    value: Seq<u8>,
    ttl: Option<Duration>,
    now: Reading,
    later: Reading,
    stores: Seq<Reply>,
    evict: bool,
    at: Reading,
    replies: Seq<Reply>,
)
    requires
        memory.wf(),
        ran(memory, table, set_begin(key, value, ttl, now, later), stores),
        outcome_after(memory, set_begin(key, value, ttl, now, later), stores)
            == OutcomeView::Stored(Ok(())),
        !expired_at(expiry_secs(ttl, now)->Ok_0, at),
        ({
            let stored = memory_after(memory, set_begin(key, value, ttl, now, later), stores);
            let before = if evict {
                stored.evicted()
            } else {
                stored
            };
            let (begun, step) = get_begin(before, key, at);
            ran(begun, table_after(table, stores), step, replies)
        }),
    ensures
        ({
            let stored = memory_after(memory, set_begin(key, value, ttl, now, later), stores);
            let before = if evict {
                stored.evicted()
            } else {
                stored
            };
            let (begun, step) = get_begin(before, key, at);
            outcome_after(begun, step, replies) == OutcomeView::Found(Ok(Some(value)))
        }),
{
    let step = set_begin(key, value, ttl, now, later);
    if !(expiry_secs(ttl, now) is Ok && later is Ok && all_granted(stores)) {
        law_failed_set_changes_nothing(memory, table, key, value, ttl, now, later, stores);
    }
    law_set_stores(memory, table, key, value, ttl, now, later, stores);
    let datum = (value, expiry_secs(ttl, now)->Ok_0);
    let stored = memory_after(memory, step, stores);
    law_last_used_survives_eviction(stored, key, datum);
}

/// After a `delete` that succeeded, `get` returns nothing.
pub proof fn law_get_after_delete(
    memory: Memory,
    table: Table,
    key: Seq<char>,
    deletes: Seq<Reply>,
    at: Reading,
    replies: Seq<Reply>,
)
    requires
        memory.wf(),
        ran(delete_begin(memory, key).0, table, delete_begin(memory, key).1, deletes),
        outcome_after(delete_begin(memory, key).0, delete_begin(memory, key).1, deletes)
            == OutcomeView::Deleted(Ok(())),
        ({
            let (begun, step) = delete_begin(memory, key);
            let before = memory_after(begun, step, deletes);
            let (reading, lookup) = get_begin(before, key, at);
            ran(reading, table_after(table, deletes), lookup, replies)
        }),
        all_granted(replies),
    ensures
        ({
            let (begun, step) = delete_begin(memory, key);
            let before = memory_after(begun, step, deletes);
            let (reading, lookup) = get_begin(before, key, at);
            outcome_after(reading, lookup, replies) == OutcomeView::Found(Ok(None))
        }),
{
    law_delete_removes(memory, table, key, deletes);
    reveal_with_fuel(ran, 3);
    reveal_with_fuel(outcome_after, 3);
    assert(replies[0].answer is Ok);
}

/// Bounded staleness: when another process has deleted a key, the first `get` may still answer
/// from memory. Once the validation that it makes due has run, the next `get` returns nothing.
pub proof fn law_deletion_elsewhere_is_noticed(
    memory: Memory,
    table: Table,
    key: Seq<char>,
    now: Reading,
    first: Seq<Reply>,
    checks: Seq<Reply>,
    at: Reading,
    second: Seq<Reply>,
)
    requires
        memory.wf(),
        !table.contains_key(key),
        ran(get_begin(memory, key, now).0, table, get_begin(memory, key, now).1, first),
        all_granted(first),
        ({
            let (begun, step) = get_begin(memory, key, now);
            let stale = memory_after(begun, step, first);
            let checked = if step.validate {
                memory_after(stale, validate_begin(key), checks)
            } else {
                stale
            };
            let (reading, lookup) = get_begin(checked, key, at);
            &&& step.validate ==> ran(stale, table, validate_begin(key), checks)
            &&& ran(reading, table, lookup, second)
        }),
        all_granted(checks),
        all_granted(second),
    ensures
        ({
            let (begun, step) = get_begin(memory, key, now);
            let stale = memory_after(begun, step, first);
            let checked = if step.validate {
                memory_after(stale, validate_begin(key), checks)
            } else {
                stale
            };
            let (reading, lookup) = get_begin(checked, key, at);
            outcome_after(reading, lookup, second) == OutcomeView::Found(Ok(None))
        }),
{
    reveal_with_fuel(ran, 3);
    reveal_with_fuel(outcome_after, 3);
    reveal_with_fuel(memory_after, 3);
    let (begun, step) = get_begin(memory, key, now);
    let stale = memory_after(begun, step, first);
    law_memory_stays_in_order(memory, key, (Seq::empty(), None), Seq::empty());
    law_memory_stays_in_order(memory.looked_up(key), key, (Seq::empty(), None), Seq::empty());
    if first.len() > 0 {
        assert(first[0].answer is Ok);
    }
    if step.validate {
        assert(stale.wf());
        law_validate_drops_what_is_gone(stale, table, key, checks);
        assert(checks[0].answer is Ok);
    }
    assert(second[0].answer is Ok);
}

} // verus!
