//! What holds of the cache over any number of operations, one after the other.
use crate::clock::{expired_at, expiry_secs, Reading};
use crate::laws::memory::{
    law_eviction_changes_no_value, law_memory_stays_in_order, lemma_find_stored, lemma_find_touched,
};
use crate::laws::operations::{
    all_granted, coherent_at, law_database_and_cache_agree_on_expiration,
    law_failed_set_changes_nothing, law_set_stores, memory_after, outcome_after, ran, table_after,
    Reply,
};
use crate::memory::Memory;
use crate::operation::{
    cleanup_begin, delete_begin, finish, get_begin, lemma_deleted_all_has_key, set_begin,
    validate_begin, OutcomeView, StepView,
};
use crate::recency::{find, lemma_without, Datum};
use crate::table::Table;
use std::time::Duration;
use vstd::prelude::*;

verus! {

/// Something that happens to a cache or to its table: an operation with the replies that it ran
/// through, an eviction, or a change that another process makes to the table.
pub enum Action {
    Store {
        key: Seq<char>,
        value: Seq<u8>,
        ttl: Option<Duration>,
        now: Reading,
        later: Reading,
        replies: Seq<Reply>,
    },
    Get { key: Seq<char>, now: Reading, replies: Seq<Reply> },
    Delete { key: Seq<char>, replies: Seq<Reply> },
    CleanUp { now: Reading, replies: Seq<Reply> },
    Validate { key: Seq<char>, replies: Seq<Reply> },
    Evict,
    Elsewhere { after: Table },
}

/// Whether none of these replies came when the clock showed that a value had expired.
pub open spec fn in_time(expiry: Option<i64>, replies: Seq<Reply>) -> bool {
    forall|i: int| 0 <= i < replies.len() ==> !expired_at(expiry, #[trigger] replies[i].now)
}

impl Action {
    /// How the action begins.
    pub open spec fn begun(self, memory: Memory) -> (Memory, StepView) {
        match self {
            Action::Store { key, value, ttl, now, later, .. } => (
                memory,
                set_begin(key, value, ttl, now, later),
            ),
            Action::Get { key, now, .. } => get_begin(memory, key, now),
            Action::Delete { key, .. } => delete_begin(memory, key),
            Action::CleanUp { now, .. } => (memory, cleanup_begin(now)),
            Action::Validate { key, .. } => (memory, validate_begin(key)),
            Action::Evict => (memory.evicted(), finish(OutcomeView::Validated)),
            Action::Elsewhere { .. } => (memory, finish(OutcomeView::Validated)),
        }
    }

    /// The replies that the action runs through.
    pub open spec fn replies(self) -> Seq<Reply> {
        match self {
            Action::Store { replies, .. } => replies,
            Action::Get { replies, .. } => replies,
            Action::Delete { replies, .. } => replies,
            Action::CleanUp { replies, .. } => replies,
            Action::Validate { replies, .. } => replies,
            _ => Seq::empty(),
        }
    }

    /// Whether the action can happen with this memory and table.
    pub open spec fn happens(self, memory: Memory, table: Table) -> bool {
        ran(self.begun(memory).0, table, self.begun(memory).1, self.replies())
    }

    /// The memory after the action.
    pub open spec fn memory_after(self, memory: Memory) -> Memory {
        memory_after(self.begun(memory).0, self.begun(memory).1, self.replies())
    }

    /// The table after the action.
    pub open spec fn table_after(self, table: Table) -> Table {
        match self {
            Action::Elsewhere { after } => after,
            _ => table_after(table, self.replies()),
        }
    }

    /// Whether the action leaves a key with its value alone: it neither sets nor deletes the key,
    /// and the clock does not show that the value has expired when the action looks at it.
    pub open spec fn spares(self, table: Table, key: Seq<char>, expiry: Option<i64>) -> bool {
        match self {
            Action::Store { key: stored, .. } => stored != key,
            Action::Get { key: read, replies, .. } => read == key ==> in_time(expiry, replies),
            Action::Delete { key: deleted, .. } => deleted != key,
            Action::CleanUp { now, .. } => now is Ok ==> !expired_at(expiry, now),
            Action::Validate { key: checked, replies } => checked == key ==> in_time(
                expiry,
                replies,
            ),
            Action::Evict => true,
            Action::Elsewhere { after } => {
                &&& after.contains_key(key)
                &&& after[key].datum == table[key].datum
            },
        }
    }
}

/// Whether these actions can happen one after the other, beginning with this memory and table.
pub open spec fn happened(memory: Memory, table: Table, actions: Seq<Action>) -> bool
    decreases actions.len(),
{
    actions.len() > 0 ==> {
        &&& actions[0].happens(memory, table)
        &&& happened(
            actions[0].memory_after(memory),
            actions[0].table_after(table),
            actions.drop_first(),
        )
    }
}

/// Whether all these actions leave a key with its value alone.
pub open spec fn spared(
    table: Table,
    actions: Seq<Action>,
    key: Seq<char>,
    expiry: Option<i64>,
) -> bool
    decreases actions.len(),
{
    actions.len() > 0 ==> {
        &&& actions[0].spares(table, key, expiry)
        &&& spared(actions[0].table_after(table), actions.drop_first(), key, expiry)
    }
}

/// The memory after all these actions.
pub open spec fn memory_in_the_end(memory: Memory, actions: Seq<Action>) -> Memory
    decreases actions.len(),
{
    if actions.len() == 0 {
        memory
    } else {
        memory_in_the_end(actions[0].memory_after(memory), actions.drop_first())
    }
}

/// The table after all these actions.
pub open spec fn table_in_the_end(table: Table, actions: Seq<Action>) -> Table
    decreases actions.len(),
{
    if actions.len() == 0 {
        table
    } else {
        table_in_the_end(actions[0].table_after(table), actions.drop_first())
    }
}

/// Whether the table has a value under a key, and memory has no other.
pub open spec fn kept(memory: Memory, table: Table, key: Seq<char>, datum: Datum) -> bool {
    &&& memory.wf()
    &&& table.contains_key(key)
    &&& table[key].datum == datum
    &&& coherent_at(memory, table, key)
}

proof fn lemma_store_keeps(
    memory: Memory,
    table: Table,
    action: Action,
    key: Seq<char>,
    datum: Datum,
)
    requires
        kept(memory, table, key, datum),
        action is Store,
        action.happens(memory, table),
        action.spares(table, key, datum.1),
    ensures
        kept(action.memory_after(memory), action.table_after(table), key, datum),
{
    if let Action::Store { key: stored, value, ttl, now, later, replies } = action {
        if expiry_secs(ttl, now) is Ok && later is Ok && all_granted(replies) {
            law_set_stores(memory, table, stored, value, ttl, now, later, replies);
            lemma_find_stored(memory, stored, (value, expiry_secs(ttl, now)->Ok_0), key);
        } else {
            law_failed_set_changes_nothing(
                memory,
                table,
                stored,
                value,
                ttl,
                now,
                later,
                replies,
            );
        }
    }
}

proof fn lemma_get_keeps(memory: Memory, table: Table, action: Action, key: Seq<char>, datum: Datum)
    requires
        kept(memory, table, key, datum),
        action is Get,
        action.happens(memory, table),
        action.spares(table, key, datum.1),
    ensures
        kept(action.memory_after(memory), action.table_after(table), key, datum),
{
    if let Action::Get { key: read, now, replies } = action {
        reveal_with_fuel(ran, 4);
        reveal_with_fuel(memory_after, 4);
        let begun = get_begin(memory, read, now).0;
        let row = table[read].datum;
        law_memory_stays_in_order(memory, read, row, Seq::empty());
        law_memory_stays_in_order(memory.looked_up(read), read, row, Seq::empty());
        law_memory_stays_in_order(begun, read, row, Seq::empty());
        lemma_find_touched(memory, read, key);
        lemma_without(memory.looked_up(read).entries, read);
        lemma_find_stored(begun, read, row, key);
        if read != key {
            assert(find(memory.looked_up(read).dropped(read).entries, key) == find(
                memory.looked_up(read).entries,
                key,
            ));
        }
        if replies.len() > 1 {
            assert(replies.drop_first()[0] == replies[1]);
            assert(replies.len() == 2);
        }
    }
}

proof fn lemma_delete_keeps(
    memory: Memory,
    table: Table,
    action: Action,
    key: Seq<char>,
    datum: Datum,
)
    requires
        kept(memory, table, key, datum),
        action is Delete,
        action.happens(memory, table),
        action.spares(table, key, datum.1),
    ensures
        kept(action.memory_after(memory), action.table_after(table), key, datum),
{
    if let Action::Delete { key: deleted, replies } = action {
        reveal_with_fuel(ran, 3);
        reveal_with_fuel(memory_after, 3);
        law_memory_stays_in_order(memory, deleted, datum, Seq::empty());
        lemma_without(memory.entries, deleted);
        assert(find(memory.deleted(deleted).entries, key) == find(memory.entries, key));
        assert(replies.len() == 1);
    }
}

proof fn lemma_cleanup_keeps(
    memory: Memory,
    table: Table,
    action: Action,
    key: Seq<char>,
    datum: Datum,
)
    requires
        kept(memory, table, key, datum),
        action is CleanUp,
        action.happens(memory, table),
        action.spares(table, key, datum.1),
    ensures
        kept(action.memory_after(memory), action.table_after(table), key, datum),
{
    if let Action::CleanUp { now, replies } = action {
        reveal_with_fuel(ran, 4);
        reveal_with_fuel(memory_after, 4);
        if replies.len() > 0 {
            law_database_and_cache_agree_on_expiration(table[key], now->Ok_0);
            if replies[0].answer is Ok {
                let keys = replies[0].answer->Ok_0->Keys_0;
                assert(!keys.contains(key));
                assert(!keys.to_set().contains(key));
                lemma_deleted_all_has_key(memory, keys, key);
            }
            if replies.len() > 1 {
                assert(replies.drop_first()[0] == replies[1]);
                assert(replies.len() == 2);
            }
        }
    }
}

proof fn lemma_validate_keeps(
    memory: Memory,
    table: Table,
    action: Action,
    key: Seq<char>,
    datum: Datum,
)
    requires
        kept(memory, table, key, datum),
        action is Validate,
        action.happens(memory, table),
        action.spares(table, key, datum.1),
    ensures
        kept(action.memory_after(memory), action.table_after(table), key, datum),
{
    if let Action::Validate { key: checked, replies } = action {
        reveal_with_fuel(ran, 4);
        reveal_with_fuel(memory_after, 4);
        law_memory_stays_in_order(memory, checked, datum, Seq::empty());
        lemma_without(memory.entries, checked);
        if checked != key {
            assert(find(memory.dropped(checked).entries, key) == find(memory.entries, key));
        }
        if replies.len() > 1 {
            assert(replies.drop_first()[0] == replies[1]);
            assert(replies.len() == 2);
        }
    }
}

/// An action that leaves a key alone leaves its value where it is.
pub proof fn law_action_keeps_other_values(
    memory: Memory,
    table: Table,
    action: Action,
    key: Seq<char>,
    datum: Datum,
)
    requires
        kept(memory, table, key, datum),
        action.happens(memory, table),
        action.spares(table, key, datum.1),
    ensures
        kept(action.memory_after(memory), action.table_after(table), key, datum),
{
    match action {
        Action::Store { .. } => lemma_store_keeps(memory, table, action, key, datum),
        Action::Get { .. } => lemma_get_keeps(memory, table, action, key, datum),
        Action::Delete { .. } => lemma_delete_keeps(memory, table, action, key, datum),
        Action::CleanUp { .. } => lemma_cleanup_keeps(memory, table, action, key, datum),
        Action::Validate { .. } => lemma_validate_keeps(memory, table, action, key, datum),
        Action::Evict => {
            law_memory_stays_in_order(memory, key, datum, Seq::empty());
            law_eviction_changes_no_value(memory, key);
        },
        Action::Elsewhere { .. } => {},
    }
}

proof fn lemma_history_keeps(
    memory: Memory,
    table: Table,
    actions: Seq<Action>,
    key: Seq<char>,
    datum: Datum,
)
    requires
        kept(memory, table, key, datum),
        happened(memory, table, actions),
        spared(table, actions, key, datum.1),
    ensures
        kept(memory_in_the_end(memory, actions), table_in_the_end(table, actions), key, datum),
    decreases actions.len(),
{
    if actions.len() > 0 {
        law_action_keeps_other_values(memory, table, actions[0], key, datum);
        lemma_history_keeps(
            actions[0].memory_after(memory),
            actions[0].table_after(table),
            actions.drop_first(),
            key,
            datum,
        );
    }
}

/// Read your own writes, however much happens in between: after a `set` that succeeded, any number
/// of operations, evictions, validations, cleanups and changes by other processes may follow. As
/// long as none of them sets or deletes the key and the value has not expired when it is looked
/// at, a `get` that the database does not refuse returns the value.
pub proof fn law_value_is_kept(
    memory: Memory,
    table: Table,
    key: Seq<char>,
    value: Seq<u8>,
    ttl: Option<Duration>,
    now: Reading,
    later: Reading,
    stores: Seq<Reply>,
    actions: Seq<Action>,
    at: Reading,
    replies: Seq<Reply>,
)
    requires
        memory.wf(),
        ran(memory, table, set_begin(key, value, ttl, now, later), stores),
        outcome_after(memory, set_begin(key, value, ttl, now, later), stores)
            == OutcomeView::Stored(Ok(())),
        ({
            let stored = memory_after(memory, set_begin(key, value, ttl, now, later), stores);
            let written = table_after(table, stores);
            let (begun, step) = get_begin(memory_in_the_end(stored, actions), key, at);
            &&& happened(stored, written, actions)
            &&& spared(written, actions, key, expiry_secs(ttl, now)->Ok_0)
            &&& ran(begun, table_in_the_end(written, actions), step, replies)
        }),
        all_granted(replies),
        in_time(expiry_secs(ttl, now)->Ok_0, replies),
    ensures
        ({
            let stored = memory_after(memory, set_begin(key, value, ttl, now, later), stores);
            let (begun, step) = get_begin(memory_in_the_end(stored, actions), key, at);
            outcome_after(begun, step, replies) == OutcomeView::Found(Ok(Some(value)))
        }),
{
    let step = set_begin(key, value, ttl, now, later);
    if !(expiry_secs(ttl, now) is Ok && later is Ok && all_granted(stores)) {
        law_failed_set_changes_nothing(memory, table, key, value, ttl, now, later, stores);
    }
    law_set_stores(memory, table, key, value, ttl, now, later, stores);
    let datum = (value, expiry_secs(ttl, now)->Ok_0);
    let stored = memory_after(memory, step, stores);
    let written = table_after(table, stores);
    lemma_history_keeps(stored, written, actions, key, datum);
    reveal_with_fuel(ran, 3);
    reveal_with_fuel(outcome_after, 3);
    if replies.len() > 0 {
        assert(replies[0].answer is Ok);
        assert(!expired_at(datum.1, replies[0].now));
    }
}

} // verus!
