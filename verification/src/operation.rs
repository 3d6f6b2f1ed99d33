//! The operations of the cache, step by step.
//!
//! An operation works on the memory layer at once and asks the database when it has to. Each step
//! ends with the request to send and the task to resume with its reply, or with the outcome.
use crate::call::{Request, RequestView};
use crate::clock::{
    clock_shows, expired_at, expired_by, expiry_from, expiry_secs, read_clock, CacheData, Reading,
};
use crate::database::{texts, CacheKey};
use crate::error::CacheError;
use crate::memory::{Cache, Memory};
use crate::recency::{find, has_key, lemma_without, Datum};
use crate::table::{row_keys, Rows, RowsView};
use std::time::Duration;
use vstd::prelude::*;

verus! {

/// What an operation is waiting for.
#[derive(Debug)]
pub enum Task {
    /// A value is being stored in the database.
    Store {
        /// The key.
        key: String,
        /// The value.
        value: Vec<u8>,
        /// The time of expiration in seconds, if there is one.
        expires: Option<i64>,
    },
    /// A value that is not in memory is being read from the database.
    Get {
        /// The key.
        key: String,
    },
    /// A value that turned out to have expired is being removed from the database.
    DropExpired,
    /// A key is being deleted from the database.
    Delete,
    /// The expired keys are being looked for.
    FindExpired,
    /// The expired keys are being deleted from the database.
    DeleteExpired {
        /// How many there are.
        count: usize,
    },
    /// A value that was found in memory is being compared with the database.
    Validate {
        /// The key.
        key: String,
    },
    /// A value in memory that has expired is being removed from the database.
    Invalidate {
        /// The key.
        key: String,
    },
    /// The use of a value is being noted in the database.
    NoteUse,
}

/// The mathematical value of a `Task`.
#[verifier::ext_equal]
pub enum TaskView {
    Store { key: Seq<char>, datum: Datum },
    Get { key: Seq<char> },
    DropExpired,
    Delete,
    FindExpired,
    DeleteExpired { count: usize },
    Validate { key: Seq<char> },
    Invalidate { key: Seq<char> },
    NoteUse,
}

impl View for Task {
    type V = TaskView;

    open spec fn view(&self) -> TaskView {
        match *self {
            Task::Store { key, value, expires } => TaskView::Store {
                key: key@,
                datum: (value@, expires),
            },
            Task::Get { key } => TaskView::Get { key: key@ },
            Task::DropExpired => TaskView::DropExpired,
            Task::Delete => TaskView::Delete,
            Task::FindExpired => TaskView::FindExpired,
            Task::DeleteExpired { count } => TaskView::DeleteExpired { count },
            Task::Validate { key } => TaskView::Validate { key: key@ },
            Task::Invalidate { key } => TaskView::Invalidate { key: key@ },
            Task::NoteUse => TaskView::NoteUse,
        }
    }
}

/// The result of an operation.
#[derive(Debug)]
pub enum Outcome {
    /// Of `Cache::set`.
    Stored(Result<(), CacheError>),
    /// Of `Cache::get`: the value if found, nothing if not found or expired.
    Found(Result<Option<Vec<u8>>, CacheError>),
    /// Of `Cache::delete`.
    Deleted(Result<(), CacheError>),
    /// Of `Cache::cleanup_expired_keys`: the number of keys that were removed.
    CleanedUp(Result<usize, CacheError>),
    /// Of `Cache::validate`, which tells nobody.
    Validated,
}

/// The mathematical value of an `Outcome`.
#[verifier::ext_equal]
pub enum OutcomeView {
    Stored(Result<(), CacheError>),
    Found(Result<Option<Seq<u8>>, CacheError>),
    Deleted(Result<(), CacheError>),
    CleanedUp(Result<usize, CacheError>),
    Validated,
}

impl View for Outcome {
    type V = OutcomeView;

    open spec fn view(&self) -> OutcomeView {
        match *self {
            Outcome::Stored(result) => OutcomeView::Stored(result),
            Outcome::Found(Ok(Some(value))) => OutcomeView::Found(Ok(Some(value@))),
            Outcome::Found(Ok(None)) => OutcomeView::Found(Ok(None)),
            Outcome::Found(Err(err)) => OutcomeView::Found(Err(err)),
            Outcome::Deleted(result) => OutcomeView::Deleted(result),
            Outcome::CleanedUp(result) => OutcomeView::CleanedUp(result),
            Outcome::Validated => OutcomeView::Validated,
        }
    }
}

/// What comes next.
#[derive(Debug)]
pub enum Turn {
    /// Send the request to the database and resume the task with its reply.
    Ask {
        /// The request.
        request: Request,
        /// The task.
        task: Task,
    },
    /// Nothing more: this is the outcome.
    Finished(Outcome),
}

/// The mathematical value of a `Turn`.
#[verifier::ext_equal]
pub enum TurnView {
    Ask { request: RequestView, task: TaskView },
    Finished(OutcomeView),
}

impl View for Turn {
    type V = TurnView;

    open spec fn view(&self) -> TurnView {
        match *self {
            Turn::Ask { request, task } => TurnView::Ask { request: request@, task: task@ },
            Turn::Finished(outcome) => TurnView::Finished(outcome@),
        }
    }
}

/// A step of an operation.
#[derive(Debug)]
pub struct Step {
    /// What comes next.
    pub turn: Turn,
    /// Whether memory usage changed, so that `Cache::evict_if_memory_pressure` is due.
    pub evict: bool,
    /// Whether the value came from memory, so that `Cache::validate` is due.
    pub validate: bool,
}

/// The mathematical value of a `Step`.
#[verifier::ext_equal]
pub struct StepView {
    pub turn: TurnView,
    pub evict: bool,
    pub validate: bool,
}

impl View for Step {
    type V = StepView;

    open spec fn view(&self) -> StepView {
        StepView { turn: self.turn@, evict: self.evict, validate: self.validate }
    }
}

/// A reply of the database, its rows taken as mathematical values.
pub open spec fn reply_view(reply: Result<Rows, CacheError>) -> Result<RowsView, CacheError> {
    match reply {
        Ok(rows) => Ok(rows@),
        Err(err) => Err(err),
    }
}

/// A step that sends a request.
pub open spec fn ask(request: RequestView, task: TaskView) -> StepView {
    StepView { turn: TurnView::Ask { request, task }, evict: false, validate: false }
}

/// A step that ends an operation.
pub open spec fn finish(outcome: OutcomeView) -> StepView {
    StepView { turn: TurnView::Finished(outcome), evict: false, validate: false }
}

/// How `set` begins: the value goes to the database first. The clock is read twice, for the time
/// of expiration and for the time of the last use.
pub open spec fn set_begin(
    key: Seq<char>,
    value: Seq<u8>,
    ttl: Option<Duration>,
    now: Reading,
    later: Reading,
) -> StepView {
    match expiry_secs(ttl, now) {
        Err(err) => finish(OutcomeView::Stored(Err(err))),
        Ok(expires) => match later {
            Err(err) => finish(OutcomeView::Stored(Err(CacheError::SystemTimeError(err)))),
            Ok(secs) => ask(
                RequestView::Store { key, value, expires, last_accessed: secs as i64 },
                TaskView::Store { key, datum: (value, expires) },
            ),
        },
    }
}

/// How `get` begins: a value in memory that has not expired is the result. One that has expired
/// is dropped from memory. Without a value from memory the database is asked.
pub open spec fn get_begin(memory: Memory, key: Seq<char>, now: Reading) -> (Memory, StepView) {
    let lookup = ask(RequestView::Get { key }, TaskView::Get { key });
    match find(memory.entries, key) {
        None => (memory, lookup),
        Some(datum) => if expired_at(datum.1, now) {
            (memory.looked_up(key).dropped(key), StepView { validate: true, ..lookup })
        } else {
            (
                memory.looked_up(key),
                StepView {
                    validate: true,
                    ..finish(OutcomeView::Found(Ok(Some(datum.0))))
                },
            )
        },
    }
}

/// How `delete` begins: the key leaves memory, then the database is asked.
pub open spec fn delete_begin(memory: Memory, key: Seq<char>) -> (Memory, StepView) {
    (
        memory.deleted(key),
        StepView {
            evict: has_key(memory.entries, key),
            ..ask(RequestView::Delete { key }, TaskView::Delete)
        },
    )
}

/// How `cleanup_expired_keys` begins: the database is asked for the expired keys.
pub open spec fn cleanup_begin(now: Reading) -> StepView {
    match now {
        Err(err) => finish(OutcomeView::CleanedUp(Err(CacheError::SystemTimeError(err)))),
        Ok(secs) => ask(RequestView::Expired { now: secs as i64 }, TaskView::FindExpired),
    }
}

/// How `validate` begins: the database is asked for its value.
pub open spec fn validate_begin(key: Seq<char>) -> StepView {
    ask(RequestView::Get { key }, TaskView::Validate { key })
}

/// How `set` goes on: once the database has the value, memory takes it.
pub open spec fn set_resumed(
    memory: Memory,
    key: Seq<char>,
    datum: Datum,
    reply: Result<RowsView, CacheError>,
) -> (Memory, StepView) {
    match reply {
        Err(err) => (memory, finish(OutcomeView::Stored(Err(err)))),
        Ok(_) => (
            memory.set(key, datum),
            StepView { evict: true, ..finish(OutcomeView::Stored(Ok(()))) },
        ),
    }
}

/// How `get` goes on: a value in the database that has not expired is the result, and memory
/// takes it over. One that has expired is removed from the database.
pub open spec fn get_resumed(
    memory: Memory,
    key: Seq<char>,
    reply: Result<RowsView, CacheError>,
    now: Reading,
) -> (Memory, StepView) {
    match reply {
        Err(err) => (memory, finish(OutcomeView::Found(Err(err)))),
        Ok(rows) => match rows->Entry_0 {
            None => (memory, finish(OutcomeView::Found(Ok(None)))),
            Some(datum) => if expired_at(datum.1, now) {
                (memory, ask(RequestView::Delete { key }, TaskView::DropExpired))
            } else {
                (
                    memory.taken_over(key, datum),
                    StepView {
                        evict: true,
                        ..finish(OutcomeView::Found(Ok(Some(datum.0))))
                    },
                )
            },
        },
    }
}

/// How `cleanup_expired_keys` goes on: the expired keys leave memory, then the database.
pub open spec fn cleanup_resumed(memory: Memory, reply: Result<RowsView, CacheError>) -> (
    Memory,
    StepView,
) {
    match reply {
        Err(err) => (memory, finish(OutcomeView::CleanedUp(Err(err)))),
        Ok(rows) => {
            let keys = rows->Keys_0;
            if keys.len() == 0 {
                (memory, finish(OutcomeView::CleanedUp(Ok(0))))
            } else {
                (
                    memory.deleted_all(keys),
                    StepView {
                        evict: exists|i: int|
                            0 <= i < keys.len() && has_key(memory.entries, #[trigger] keys[i]),
                        ..ask(
                            RequestView::DeleteBatch { keys },
                            TaskView::DeleteExpired { count: keys.len() as usize },
                        )
                    },
                )
            }
        },
    }
}

/// How `validate` goes on: a value that is missing from the database is dropped from memory, one
/// that has expired there is removed from the database first, and the use of any other is noted.
/// If the database cannot be read, everything stays.
pub open spec fn validate_resumed(
    memory: Memory,
    key: Seq<char>,
    reply: Result<RowsView, CacheError>,
    now: Reading,
    later: Reading,
) -> (Memory, StepView) {
    match reply {
        Err(_) => (memory, finish(OutcomeView::Validated)),
        Ok(rows) => match rows->Entry_0 {
            None => (memory.dropped(key), finish(OutcomeView::Validated)),
            Some(datum) => if expired_at(datum.1, now) {
                (memory, ask(RequestView::Delete { key }, TaskView::Invalidate { key }))
            } else {
                match later {
                    Err(_) => (memory, finish(OutcomeView::Validated)),
                    Ok(secs) => (
                        memory,
                        ask(
                            RequestView::Touch { key, last_accessed: secs as i64 },
                            TaskView::NoteUse,
                        ),
                    ),
                }
            },
        },
    }
}

impl TaskView {
    /// Whether a reply is of the kind that the task is waiting for. An error always is.
    pub open spec fn accepts(self, reply: Result<RowsView, CacheError>) -> bool {
        match reply {
            Err(_) => true,
            Ok(rows) => match self {
                TaskView::Get { .. } | TaskView::Validate { .. } => rows is Entry,
                TaskView::FindExpired => rows is Keys,
                _ => rows is Nothing,
            },
        }
    }
}

/// How an operation goes on with the reply that its task was waiting for, when the clock shows
/// `now` and, read again, `later`.
pub open spec fn resumed(
    memory: Memory,
    task: TaskView,
    reply: Result<RowsView, CacheError>,
    now: Reading,
    later: Reading,
) -> (Memory, StepView) {
    match task {
        TaskView::Store { key, datum } => set_resumed(memory, key, datum, reply),
        TaskView::Get { key } => get_resumed(memory, key, reply, now),
        TaskView::DropExpired => (
            memory,
            finish(
                OutcomeView::Found(
                    match reply {
                        Ok(_) => Ok(None),
                        Err(err) => Err(err),
                    },
                ),
            ),
        ),
        TaskView::Delete => (
            memory,
            finish(
                OutcomeView::Deleted(
                    match reply {
                        Ok(_) => Ok(()),
                        Err(err) => Err(err),
                    },
                ),
            ),
        ),
        TaskView::FindExpired => cleanup_resumed(memory, reply),
        TaskView::DeleteExpired { count } => (
            memory,
            finish(
                OutcomeView::CleanedUp(
                    match reply {
                        Ok(_) => Ok(count),
                        Err(err) => Err(err),
                    },
                ),
            ),
        ),
        TaskView::Validate { key } => validate_resumed(memory, key, reply, now, later),
        TaskView::Invalidate { key } => (memory.dropped(key), finish(OutcomeView::Validated)),
        TaskView::NoteUse => (memory, finish(OutcomeView::Validated)),
    }
}

impl Step {
    fn ask(request: Request, task: Task) -> (step: Step)
        ensures
            step@ == ask(request@, task@),
    {
        Step { turn: Turn::Ask { request, task }, evict: false, validate: false }
    }

    fn finish(outcome: Outcome) -> (step: Step)
        ensures
            step@ == finish(outcome@),
    {
        Step { turn: Turn::Finished(outcome), evict: false, validate: false }
    }
}

impl Task {
    /// Whether a reply is of the kind that the task is waiting for. An error always is.
    pub fn accepts(&self, reply: &Result<Rows, CacheError>) -> (accepted: bool)
        ensures
            accepted == self@.accepts(reply_view(*reply)),
    {
        match reply {
            Err(_) => true,
            Ok(rows) => match self {
                Task::Get { .. } => matches!(rows, Rows::Entry(_)),
                Task::Validate { .. } => matches!(rows, Rows::Entry(_)),
                Task::FindExpired => matches!(rows, Rows::Keys(_)),
                _ => matches!(rows, Rows::Nothing),
            },
        }
    }
}

/// The result of a request of which nothing but success is expected.
fn without_rows(reply: Result<Rows, CacheError>) -> (result: Result<(), CacheError>)
    ensures
        result == (match reply_view(reply) {
            Ok(_) => Ok::<(), CacheError>(()),
            Err(err) => Err(err),
        }),
{
    match reply {
        Ok(_) => Ok(()),
        Err(err) => Err(err),
    }
}

/// Extracts the keys from rows.
fn key_strings(rows: &Vec<CacheKey>) -> (keys: Vec<String>)
    ensures
        texts(keys@) == row_keys(rows@),
{
    let mut keys: Vec<String> = Vec::new();
    let mut i: usize = 0;
    while i < rows.len()
        invariant
            0 <= i <= rows@.len(),
            keys@.len() == i,
            forall|j: int| 0 <= j < i ==> #[trigger] keys@[j]@ == rows@[j]@,
        decreases rows@.len() - i,
    {
        keys.push(rows[i].cache_key.clone());
        i = i + 1;
    }
    assert(texts(keys@) =~= row_keys(rows@));
    keys
}

/// Deleting keys one after the other never brings one back.
pub(crate) proof fn lemma_deleted_all_has_key(memory: Memory, keys: Seq<Seq<char>>, key: Seq<char>)
    requires
        memory.wf(),
    ensures
        memory.deleted_all(keys).wf(),
        find(memory.deleted_all(keys).entries, key) == (if keys.contains(key) {
            None
        } else {
            find(memory.entries, key)
        }),
    decreases keys.len(),
{
    if keys.len() > 0 {
        let front = keys.drop_last();
        lemma_deleted_all_has_key(memory, front, key);
        lemma_deleted_all_has_key(memory, front, keys.last());
        let before = memory.deleted_all(front);
        lemma_without(before.entries, keys.last());
        assert(keys.contains(key) <==> front.contains(key) || key == keys.last()) by {
            assert(keys =~= front.push(keys.last()));
            if front.contains(key) {
                let i = choose|i: int| 0 <= i < front.len() && front[i] == key;
                assert(keys[i] == key);
            }
            assert(keys[keys.len() - 1] == keys.last());
        }
    }
}

impl Cache {
    /// Sets a value, when the clock shows `now` and, read again, `later`.
    pub fn set_at(
        &self,
        key: &str,
        value: &[u8],
        ttl: Option<Duration>,
        now: Reading,
        later: Reading,
    ) -> (step: Step)
        ensures
            step@ == set_begin(key@, value@, ttl, now, later),
    {
        match expiry_from(ttl, now) {
            Err(err) => Step::finish(Outcome::Stored(Err(err))),
            Ok(expires) => match later {
                Err(err) => Step::finish(Outcome::Stored(Err(CacheError::from(err)))),
                Ok(secs) => Step::ask(
                    Request::Store {
                        key: key.to_owned(),
                        value: vstd::slice::slice_to_vec(value),
                        expires,
                        last_accessed: secs as i64,
                    },
                    Task::Store {
                        key: key.to_owned(),
                        value: vstd::slice::slice_to_vec(value),
                        expires,
                    },
                ),
            },
        }
    }

    /// Sets a value in the cache: first in the database, then in memory. It expires when its time
    /// to live, counted from now in whole seconds, is over.
    pub fn set(&self, key: &str, value: &[u8], ttl: Option<Duration>) -> (step: Step)
        ensures
            exists|now: Reading, later: Reading|
                clock_shows(now) && clock_shows(later) && step@ == #[trigger] set_begin(
                    key@,
                    value@,
                    ttl,
                    now,
                    later,
                ),
    {
        let now = read_clock();
        let later = read_clock();
        let ghost first = now;
        let ghost second = later;
        let step = self.set_at(key, value, ttl, now, later);
        assert(step@ == set_begin(key@, value@, ttl, first, second));
        step
    }

    /// Retrieves a value, when the clock shows `now`.
    pub fn get_at(&mut self, key: &str, now: &Reading) -> (step: Step)
        requires
            old(self)@.wf(),
        ensures
            (final(self)@, step@) == get_begin(old(self)@, key@, *now),
            final(self)@.wf(),
    {
        let lookup = Step::ask(
            Request::Get { key: key.to_owned() },
            Task::Get { key: key.to_owned() },
        );
        match self.look_up(key) {
            None => lookup,
            Some(found) => {
                if expired_by(found.expires, now) {
                    self.drop_from_memory(key);
                    Step { turn: lookup.turn, evict: false, validate: true }
                } else {
                    Step {
                        turn: Turn::Finished(Outcome::Found(Ok(Some(found.data)))),
                        evict: false,
                        validate: true,
                    }
                }
            },
        }
    }

    /// Retrieves a value from the cache. Values cached in memory are immediately returned and
    /// lazily reconciled with the database. If there is a memory cache miss, or the value in
    /// memory is expired, the value will be retrieved from the database and added to the memory
    /// cache. If the value is expired in the database it will be removed.
    pub fn get(&mut self, key: &str) -> (step: Step)
        requires
            old(self)@.wf(),
        ensures
            exists|now: Reading|
                clock_shows(now) && (final(self)@, step@) == #[trigger] get_begin(
                    old(self)@,
                    key@,
                    now,
                ),
            final(self)@.wf(),
    {
        let now = read_clock();
        let ghost before = self@;
        let step = self.get_at(key, &now);
        assert((self@, step@) == get_begin(before, key@, now));
        step
    }

    /// Deletes a value from both the memory cache and the database.
    pub fn delete(&mut self, key: &str) -> (step: Step)
        requires
            old(self)@.wf(),
        ensures
            (final(self)@, step@) == delete_begin(old(self)@, key@),
            final(self)@.wf(),
    {
        let evict = self.delete_from_memory(key);
        Step {
            turn: Turn::Ask {
                request: Request::Delete { key: key.to_owned() },
                task: Task::Delete,
            },
            evict,
            validate: false,
        }
    }

    /// Cleans up expired keys, when the clock shows `now`.
    pub fn cleanup_expired_keys_at(&self, now: Reading) -> (step: Step)
        ensures
            step@ == cleanup_begin(now),
    {
        match now {
            Err(err) => Step::finish(Outcome::CleanedUp(Err(CacheError::from(err)))),
            Ok(secs) => Step::ask(Request::Expired { now: secs as i64 }, Task::FindExpired),
        }
    }

    /// Cleans up expired keys from both the memory cache and the database. The outcome is the
    /// number of keys that were removed.
    pub fn cleanup_expired_keys(&self) -> (step: Step)
        ensures
            exists|now: Reading| clock_shows(now) && step@ == #[trigger] cleanup_begin(now),
    {
        let now = read_clock();
        let ghost reading = now;
        let step = self.cleanup_expired_keys_at(now);
        assert(step@ == cleanup_begin(reading));
        step
    }

    /// Checks that a value in memory is valid and present in the database. This is due whenever
    /// `get` answers from memory, and nobody waits for it.
    pub fn validate(&self, key: &str) -> (step: Step)
        ensures
            step@ == validate_begin(key@),
    {
        Step::ask(Request::Get { key: key.to_owned() }, Task::Validate { key: key.to_owned() })
    }

    /// Goes on with the row that `get` was waiting for.
    fn resume_get(
        &mut self,
        key: String,
        reply: Result<Rows, CacheError>,
        now: &Reading,
    ) -> (step: Step)
        requires
            old(self)@.wf(),
            reply_view(reply) matches Ok(rows) ==> rows is Entry,
        ensures
            (final(self)@, step@) == get_resumed(old(self)@, key@, reply_view(reply), *now),
            final(self)@.wf(),
    {
        match reply {
            Err(err) => Step::finish(Outcome::Found(Err(err))),
            Ok(Rows::Entry(Some(row))) => {
                if expired_by(row.expires, now) {
                    Step::ask(Request::Delete { key }, Task::DropExpired)
                } else {
                    let value = row.cache_value.clone();
                    assert(value@ =~= row.cache_value@);
                    self.take_over(key, CacheData { data: row.cache_value, expires: row.expires });
                    Step {
                        turn: Turn::Finished(Outcome::Found(Ok(Some(value)))),
                        evict: true,
                        validate: false,
                    }
                }
            },
            Ok(_) => Step::finish(Outcome::Found(Ok(None))),
        }
    }

    /// Goes on with the expired keys that `cleanup_expired_keys` was waiting for.
    fn resume_cleanup(&mut self, reply: Result<Rows, CacheError>) -> (step: Step)
        requires
            old(self)@.wf(),
            reply_view(reply) matches Ok(rows) ==> rows is Keys,
        ensures
            (final(self)@, step@) == cleanup_resumed(old(self)@, reply_view(reply)),
            final(self)@.wf(),
    {
        let rows = match reply {
            Err(err) => return Step::finish(Outcome::CleanedUp(Err(err))),
            Ok(Rows::Keys(rows)) => rows,
            Ok(_) => return Step::finish(Outcome::CleanedUp(Ok(0))),
        };
        if rows.len() == 0 {
            return Step::finish(Outcome::CleanedUp(Ok(0)));
        }
        let keys = key_strings(&rows);
        let ghost names = texts(keys@);
        let ghost before = self@;
        assert(names.len() == rows@.len());
        let mut evict = false;
        let mut i: usize = 0;
        assert(names.take(0) =~= Seq::<Seq<char>>::empty());
        while i < keys.len()
            invariant
                0 <= i <= keys@.len(),
                names == texts(keys@),
                names.len() == keys@.len(),
                before.wf(),
                self@.wf(),
                self@ == before.deleted_all(names.take(i as int)),
                evict == exists|j: int| 0 <= j < i && has_key(before.entries, #[trigger] names[j]),
            decreases keys@.len() - i,
        {
            let ghost done = names.take(i as int);
            let ghost was = evict;
            proof {
                lemma_deleted_all_has_key(before, done, names[i as int]);
                assert(names.take(i + 1).drop_last() =~= done);
                assert(names.take(i + 1).last() == names[i as int]);
            }
            let removed = self.delete_from_memory(keys[i].as_str());
            evict = evict || removed;
            proof {
                if has_key(before.entries, names[i as int]) && !removed {
                    assert(done.contains(names[i as int]));
                    let j = choose|j: int| 0 <= j < done.len() && done[j] == names[i as int];
                    assert(has_key(before.entries, names[j]));
                    assert(was);
                }
                if removed {
                    assert(has_key(before.entries, names[i as int]));
                }
            }
            i = i + 1;
        }
        assert(names.take(names.len() as int) =~= names);
        let count = keys.len();
        Step {
            turn: Turn::Ask {
                request: Request::DeleteBatch { keys },
                task: Task::DeleteExpired { count },
            },
            evict,
            validate: false,
        }
    }

    /// Goes on with the row that `validate` was waiting for.
    fn resume_validate(
        &mut self,
        key: String,
        reply: Result<Rows, CacheError>,
        now: &Reading,
        later: &Reading,
    ) -> (step: Step)
        requires
            old(self)@.wf(),
            reply_view(reply) matches Ok(rows) ==> rows is Entry,
        ensures
            (final(self)@, step@) == validate_resumed(
                old(self)@,
                key@,
                reply_view(reply),
                *now,
                *later,
            ),
            final(self)@.wf(),
    {
        match reply {
            Err(_) => Step::finish(Outcome::Validated),
            Ok(Rows::Entry(Some(row))) => {
                if expired_by(row.expires, now) {
                    let requested = key.clone();
                    Step::ask(Request::Delete { key: requested }, Task::Invalidate { key })
                } else {
                    match later {
                        Err(_) => Step::finish(Outcome::Validated),
                        Ok(secs) => Step::ask(
                            Request::Touch { key, last_accessed: *secs as i64 },
                            Task::NoteUse,
                        ),
                    }
                }
            },
            Ok(_) => {
                self.drop_from_memory(key.as_str());
                Step::finish(Outcome::Validated)
            },
        }
    }

    /// Goes on with the reply that a task was waiting for, when the clock shows `now` and, read
    /// again, `later`.
    pub fn resume_at(
        &mut self,
        task: Task,
        reply: Result<Rows, CacheError>,
        now: &Reading,
        later: &Reading,
    ) -> (step: Step)
        requires
            old(self)@.wf(),
            task@.accepts(reply_view(reply)),
        ensures
            (final(self)@, step@) == resumed(old(self)@, task@, reply_view(reply), *now, *later),
            final(self)@.wf(),
    {
        match task {
            Task::Store { key, value, expires } => match reply {
                Err(err) => Step::finish(Outcome::Stored(Err(err))),
                Ok(_) => {
                    self.set_in_memory(key, CacheData { data: value, expires });
                    Step {
                        turn: Turn::Finished(Outcome::Stored(Ok(()))),
                        evict: true,
                        validate: false,
                    }
                },
            },
            Task::Get { key } => self.resume_get(key, reply, now),
            Task::DropExpired => match reply {
                Err(err) => Step::finish(Outcome::Found(Err(err))),
                Ok(_) => Step::finish(Outcome::Found(Ok(None))),
            },
            Task::Delete => Step::finish(Outcome::Deleted(without_rows(reply))),
            Task::FindExpired => self.resume_cleanup(reply),
            Task::DeleteExpired { count } => match reply {
                Err(err) => Step::finish(Outcome::CleanedUp(Err(err))),
                Ok(_) => Step::finish(Outcome::CleanedUp(Ok(count))),
            },
            Task::Validate { key } => self.resume_validate(key, reply, now, later),
            Task::Invalidate { key } => {
                self.drop_from_memory(key.as_str());
                Step::finish(Outcome::Validated)
            },
            Task::NoteUse => Step::finish(Outcome::Validated),
        }
    }

    /// Goes on with the reply that a task was waiting for.
    pub fn resume(&mut self, task: Task, reply: Result<Rows, CacheError>) -> (step: Step)
        requires
            old(self)@.wf(),
            task@.accepts(reply_view(reply)),
        ensures
            exists|now: Reading, later: Reading|
                clock_shows(now) && clock_shows(later) && (final(self)@, step@)
                    == #[trigger] resumed(
                    old(self)@,
                    task@,
                    reply_view(reply),
                    now,
                    later,
                ),
            final(self)@.wf(),
    {
        let now = read_clock();
        let later = read_clock();
        let ghost before = self@;
        let ghost waiting = task@;
        let ghost answer = reply_view(reply);
        let step = self.resume_at(task, reply, &now, &later);
        assert((self@, step@) == resumed(before, waiting, answer, now, later));
        step
    }
}

} // verus!
