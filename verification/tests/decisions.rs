//! The decisions of the cache on given inputs.
use dig_key_store::call::{Call, CallTurn, Request};
use dig_key_store::cleanup::{cleanup_due, cleanup_wait};
use dig_key_store::clock::{
    calculate_expiry_secs, expired, expired_by, expiry_from, reading_from, CacheData, Reading,
};
use dig_key_store::connect::{
    database_url, pragma, setup_db_connection, setup_with_text, Setup, SetupEvent, SetupStage,
    SetupTurn,
};
use dig_key_store::database::{
    delete_cache_entry, delete_keys_batch, get_cache_entry, get_expired_keys, insert_cache_entry,
    key_exists, update_cache_entry, update_last_accessed, Bind, CacheEntry, CacheKey, DbError,
    Fetch, KeyExistsResult, Statement,
};
use dig_key_store::db_connection;
use dig_key_store::error::{is_busy_code, is_sqlite_busy_error, is_unique_code, CacheError};
use dig_key_store::init::{init, Init, InitEvent, InitStage, InitTurn};
use dig_key_store::memory::{Cache, CacheOptions};
use dig_key_store::napi::{ttl_from_millis, JsCacheOptions};
use dig_key_store::operation::{Outcome, Step, Task, Turn};
use dig_key_store::retry::{retry_on_busy, Retry};
use dig_key_store::table::Rows;
use sqlx::error::{DatabaseError, ErrorKind};
use std::borrow::Cow;
use std::error::Error;
use std::time::{Duration, SystemTimeError, UNIX_EPOCH};

#[derive(Debug)]
struct CodedError {
    code: Option<&'static str>,
}

impl std::fmt::Display for CodedError {
    fn fmt(&self, f: &mut std::fmt::Formatter<'_>) -> std::fmt::Result {
        f.write_str("coded error")
    }
}

impl Error for CodedError {}

impl DatabaseError for CodedError {
    fn message(&self) -> &str {
        "coded error"
    }

    fn code(&self) -> Option<Cow<'_, str>> {
        self.code.map(Cow::Borrowed)
    }

    fn as_error(&self) -> &(dyn Error + Send + Sync + 'static) {
        self
    }

    fn as_error_mut(&mut self) -> &mut (dyn Error + Send + Sync + 'static) {
        self
    }

    fn into_error(self: Box<Self>) -> Box<dyn Error + Send + Sync + 'static> {
        self
    }

    fn kind(&self) -> ErrorKind {
        ErrorKind::Other
    }
}

fn coded(code: &'static str) -> sqlx::Error {
    sqlx::Error::Database(Box::new(CodedError { code: Some(code) }))
}

fn busy() -> sqlx::Error {
    coded("5")
}

fn before_epoch() -> SystemTimeError {
    UNIX_EPOCH.duration_since(UNIX_EPOCH + Duration::from_secs(1)).unwrap_err()
}

fn at(secs: u64) -> Reading {
    Ok(secs)
}

fn options(max_memory_mb: usize) -> CacheOptions {
    CacheOptions { max_memory_mb, db_path: "cache.db".to_string(), cleanup_interval_ms: None }
}

fn small_cache(max_memory_mb: usize) -> Cache {
    Cache::with_max_items(options(max_memory_mb), 100).unwrap()
}

fn show(statement: &Statement) -> String {
    format!("{:?}", statement.binds)
}

#[test]
fn busy_and_locked_are_busy() {
    assert!(is_sqlite_busy_error(&coded("5")));
    assert!(is_sqlite_busy_error(&coded("6")));
    assert!(!is_sqlite_busy_error(&coded("1555")));
    assert!(!is_sqlite_busy_error(&coded("55")));
    assert!(!is_sqlite_busy_error(&sqlx::Error::Database(Box::new(CodedError { code: None }))));
    assert!(!is_sqlite_busy_error(&sqlx::Error::RowNotFound));
    assert!(is_busy_code(&Some("6".to_string())));
    assert!(!is_busy_code(&None));
    assert!(is_unique_code(&Some("1555".to_string())));
    assert!(!is_unique_code(&Some("5".to_string())));
}

#[test]
fn success_is_returned_at_once() {
    assert!(matches!(retry_on_busy(Ok(7)), Retry::Finished(Ok(7))));
}

#[test]
fn busy_is_retried_until_success() {
    let mut calls = 0;
    let result = loop {
        calls += 1;
        let outcome = if calls <= 11 { Err(busy()) } else { Ok(7) };
        match retry_on_busy(outcome) {
            Retry::Again { delay_ms } => assert_eq!(delay_ms, 5),
            Retry::Finished(result) => break result,
        }
    };
    assert_eq!(calls, 12);
    assert!(matches!(result, Ok(7)));
}

#[test]
fn another_error_is_not_retried() {
    let next = retry_on_busy::<u8>(Err(sqlx::Error::RowNotFound));
    assert!(matches!(
        next,
        Retry::Finished(Err(CacheError::DatabaseError(sqlx::Error::RowNotFound)))
    ));
}

#[test]
fn statements_have_their_text_and_values() {
    let statement = key_exists("k");
    assert_eq!(
        statement.sql,
        "SELECT EXISTS(SELECT 1 FROM cache WHERE cache_key = ?) as \"exists\""
    );
    assert_eq!(show(&statement), "[Text(\"k\")]");
    assert_eq!(statement.fetch, Fetch::Exists);

    let statement = update_cache_entry("k", &[1, 2], Some(9), 4);
    assert_eq!(
        statement.sql,
        "UPDATE cache SET cache_value = ?, expires = ?, last_accessed = ? WHERE cache_key = ?"
    );
    assert_eq!(show(&statement), "[Blob([1, 2]), Nullable(Some(9)), Integer(4), Text(\"k\")]");
    assert_eq!(statement.fetch, Fetch::Nothing);

    let statement = insert_cache_entry("k", &[1, 2], None, 4);
    assert_eq!(
        statement.sql,
        "INSERT INTO cache (cache_key, cache_value, expires, last_accessed) VALUES (?, ?, ?, ?)"
    );
    assert_eq!(show(&statement), "[Text(\"k\"), Blob([1, 2]), Nullable(None), Integer(4)]");

    let statement = get_cache_entry("k");
    assert_eq!(statement.sql, "SELECT cache_value, expires FROM cache WHERE cache_key = ?");
    assert_eq!(statement.fetch, Fetch::Entry);

    let statement = update_last_accessed("k", 4);
    assert_eq!(statement.sql, "UPDATE cache SET last_accessed = ? WHERE cache_key = ?");
    assert_eq!(show(&statement), "[Integer(4), Text(\"k\")]");

    let statement = delete_cache_entry("k");
    assert_eq!(statement.sql, "DELETE FROM cache WHERE cache_key = ?");

    let statement = get_expired_keys(8);
    assert_eq!(
        statement.sql,
        "SELECT cache_key FROM cache WHERE expires < ? AND expires IS NOT NULL"
    );
    assert_eq!(show(&statement), "[Integer(8)]");
    assert_eq!(statement.fetch, Fetch::Keys);
}

#[test]
fn a_batch_has_one_placeholder_for_each_key() {
    assert!(delete_keys_batch(&vec![]).is_none());
    let one = delete_keys_batch(&vec!["a".to_string()]).unwrap();
    assert_eq!(one.sql, "DELETE FROM cache WHERE cache_key IN (?)");
    let three =
        delete_keys_batch(&vec!["a".to_string(), "b".to_string(), "c".to_string()]).unwrap();
    assert_eq!(three.sql, "DELETE FROM cache WHERE cache_key IN (?,?,?)");
    assert_eq!(three.binds.len(), 3);
    assert!(matches!(&three.binds[1], Bind::Text(text) if text == "b"));
}

#[test]
fn expiration_is_judged_in_whole_seconds() {
    assert!(!expired_by(Some(100), &at(99)));
    assert!(!expired_by(Some(100), &at(100)));
    assert!(expired_by(Some(100), &at(101)));
    assert!(!expired_by(None, &at(u64::MAX)));
    assert!(expired_by(Some(i64::MAX), &Err(before_epoch())));
    assert!(expired_by(None, &Err(before_epoch())));
}

#[test]
fn a_reading_is_the_whole_seconds_elapsed() {
    assert_eq!(reading_from(Ok(Duration::from_millis(1_999))).unwrap(), 1);
    assert_eq!(reading_from(Ok(Duration::from_secs(u64::MAX))).unwrap(), u64::MAX);
    assert!(reading_from(Err(before_epoch())).is_err());
}

#[test]
fn the_clock_is_read() {
    assert!(!expired(None));
    assert!(expired(Some(1)));
    assert!(!expired(Some(i64::MAX)));
    assert!(CacheData { data: vec![1], expires: Some(0) }.expired());
    assert!(!CacheData { data: vec![1], expires: None }.expired());
    // A day from now lies between the years 2023 and 3000.
    let tomorrow = calculate_expiry_secs(Some(Duration::from_secs(86_400))).unwrap().unwrap();
    assert!(tomorrow > 1_700_000_000);
    assert!(tomorrow < 32_503_680_000);
    assert!(!expired(Some(tomorrow)));
    assert!(calculate_expiry_secs(None).unwrap().is_none());
}

#[test]
fn the_time_of_expiration_is_a_sum() {
    assert_eq!(expiry_from(Some(Duration::from_secs(30)), at(1_000)).unwrap(), Some(1_030));
    assert_eq!(expiry_from(Some(Duration::from_millis(2_999)), at(1_000)).unwrap(), Some(1_002));
    assert_eq!(expiry_from(None, at(1_000)).unwrap(), None);
    let largest = i64::MAX as u64;
    assert_eq!(
        expiry_from(Some(Duration::from_secs(largest - 1_001)), at(1_000)).unwrap(),
        Some(i64::MAX - 1)
    );
    assert!(matches!(
        expiry_from(Some(Duration::from_secs(largest - 1_000)), at(1_000)),
        Err(CacheError::TtlValueOverflow)
    ));
    assert!(matches!(
        expiry_from(Some(Duration::from_secs(largest - 999)), at(1_000)),
        Err(CacheError::TtlValueOverflow)
    ));
    assert!(matches!(
        expiry_from(Some(Duration::from_secs(u64::MAX)), at(1_000)),
        Err(CacheError::TtlValueOverflow)
    ));
    assert!(matches!(
        calculate_expiry_secs(Some(Duration::from_secs(u64::MAX))),
        Err(CacheError::TtlValueOverflow)
    ));
    assert!(matches!(
        expiry_from(None, Err(before_epoch())),
        Err(CacheError::SystemTimeError(_))
    ));
}

#[test]
fn milliseconds_become_whole_seconds() {
    assert_eq!(ttl_from_millis(Some(3_600_000)), Some(Duration::from_secs(3_600)));
    assert_eq!(ttl_from_millis(Some(1_500)), Some(Duration::from_secs(2)));
    assert_eq!(ttl_from_millis(Some(0)), Some(Duration::from_secs(0)));
    assert_eq!(ttl_from_millis(Some(u32::MAX)), Some(Duration::from_secs(4_294_968)));
    assert_eq!(ttl_from_millis(None), None);
    assert_eq!(expiry_from(ttl_from_millis(Some(1_999)), at(10)).unwrap(), Some(12));
}

#[test]
fn a_value_lives_for_its_milliseconds() {
    // Set at 1000.900 and read at 1001.300, which is 400 milliseconds later.
    let expires = expiry_from(ttl_from_millis(Some(500)), at(1_000)).unwrap();
    assert!(!expired_by(expires, &at(1_001)));
    assert!(expired_by(expires, &at(1_002)));
}

#[test]
fn options_come_from_javascript() {
    let js = JsCacheOptions {
        max_memory_mb: 100,
        db_path: "./cache.db".to_string(),
        cleanup_interval_ms: Some(60_000),
    };
    let options = js.into_options();
    assert_eq!(options.max_memory_mb, 100);
    assert_eq!(options.db_path, "./cache.db");
    assert_eq!(options.cleanup_interval_ms, Some(60_000));
    let js = JsCacheOptions {
        max_memory_mb: 1,
        db_path: String::new(),
        cleanup_interval_ms: None,
    };
    assert_eq!(js.into_options().cleanup_interval_ms, None);
}

#[test]
fn a_cleanup_is_due_when_its_interval_has_passed() {
    assert!(!cleanup_due(1_000, 60_999, 60_000));
    assert!(cleanup_due(1_000, 61_000, 60_000));
    assert!(!cleanup_due(1_000, 999, 0));
    assert!(!cleanup_due(1, u64::MAX, u64::MAX));
    assert_eq!(cleanup_wait(1_000, 1_000, 60_000), 60_000);
    assert_eq!(cleanup_wait(1_000, 60_999, 60_000), 1);
    assert_eq!(cleanup_wait(1_000, 70_000, 60_000), 0);
}

#[test]
fn errors_have_texts() {
    let text = |err: CacheError| err.message();
    assert_eq!(text(CacheError::KeyNotFound), "Key not found");
    assert_eq!(text(CacheError::ValueExpired), "Value expired");
    assert_eq!(text(CacheError::MutexLockError), "Mutex lock error");
    assert_eq!(text(CacheError::MigrationError("m".to_string())), "Migration error: m");
    assert_eq!(text(CacheError::PoolError("p".to_string())), "Pool error: p");
    assert_eq!(text(CacheError::InvalidValue("v".to_string())), "Invalid value: v");
    assert_eq!(
        text(CacheError::TtlValueOverflow),
        "TTL value overflow. Current time (seconds) + TTL (seconds) must be less than (2^63)-1 \
         seconds"
    );
    let shown = sqlx::Error::RowNotFound.to_string();
    assert_eq!(
        text(CacheError::DatabaseError(sqlx::Error::RowNotFound)),
        format!("Database error: {}", shown)
    );
    assert_eq!(
        text(CacheError::IoError(std::io::Error::other("disk"))),
        "IO error: disk"
    );
    assert_eq!(
        text(CacheError::SystemTimeError(before_epoch())),
        format!("System time error: {}", before_epoch())
    );
    assert_eq!(
        text(CacheError::DbConnectionError(DbError::Database(sqlx::Error::RowNotFound))),
        format!("DB connection error: Database error: {}", shown)
    );
    assert_eq!(
        text(CacheError::DbConnectionError(DbError::Pool("full".to_string()))),
        "DB connection error: Pool error: full"
    );
    assert_eq!(DbError::Io(std::io::Error::other("disk")).message(), "IO error: disk");
}

#[test]
fn a_cache_needs_an_open_database_and_room() {
    let refused = Cache::new(options(1), Err(DbError::Pool("closed".to_string())));
    assert!(matches!(
        refused,
        Err(CacheError::DbConnectionError(DbError::Pool(text))) if text == "closed"
    ));
    let empty = Cache::with_max_items(options(1), 0);
    assert!(matches!(
        empty,
        Err(CacheError::InvalidValue(text)) if text == "MAX_LRU_CACHE_ITEMS cannot be zero"
    ));
}

fn sent(turn: CallTurn) -> (u64, Call) {
    match turn {
        CallTurn::Send { delay_ms, call } => (delay_ms, call),
        other => panic!("{:?}", other),
    }
}

fn store() -> Request {
    Request::Store {
        key: "k".to_string(),
        value: vec![1],
        expires: Some(50),
        last_accessed: 40,
    }
}

#[test]
fn storing_looks_the_key_up_first() {
    for exists in [true, false] {
        let (delay, call) = sent(Call::begin(store()));
        assert_eq!(delay, 0);
        assert!(call.statement().sql.starts_with("SELECT EXISTS"));
        assert!(!call.accepts(&Ok(Rows::Nothing)));
        let (delay, call) = sent(call.answer(Ok(Rows::Exists(KeyExistsResult { exists }))));
        assert_eq!(delay, 0);
        let verb = if exists { "UPDATE" } else { "INSERT" };
        assert!(call.statement().sql.starts_with(verb));
        assert!(call.accepts(&Ok(Rows::Nothing)));
        assert!(matches!(call.answer(Ok(Rows::Nothing)), CallTurn::Finished(Ok(Rows::Nothing))));
    }
}

#[test]
fn storing_starts_over_when_busy() {
    let (_, call) = sent(Call::begin(store()));
    let (_, call) = sent(call.answer(Ok(Rows::Exists(KeyExistsResult { exists: false }))));
    let (delay, call) = sent(call.answer(Err(busy())));
    assert_eq!(delay, 5);
    assert!(call.statement().sql.starts_with("SELECT EXISTS"));
    let finished = call.answer(Err(coded("1555")));
    assert!(matches!(finished, CallTurn::Finished(Err(CacheError::DatabaseError(_)))));
}

#[test]
fn a_call_goes_on_while_the_database_is_busy() {
    let mut turn = Call::begin(Request::Get { key: "k".to_string() });
    for attempt in 0..100 {
        let (delay, call) = sent(turn);
        assert_eq!(delay, if attempt == 0 { 0 } else { 5 });
        turn = call.answer(Err(busy()));
    }
    let (_, call) = sent(turn);
    assert!(matches!(
        call.answer(Ok(Rows::Entry(None))),
        CallTurn::Finished(Ok(Rows::Entry(None)))
    ));
}

#[test]
fn a_call_fails_with_the_first_error_that_is_not_busy() {
    let (_, call) = sent(Call::begin(Request::Get { key: "k".to_string() }));
    let (_, call) = sent(call.answer(Err(busy())));
    assert!(matches!(
        call.answer(Err(sqlx::Error::RowNotFound)),
        CallTurn::Finished(Err(CacheError::DatabaseError(sqlx::Error::RowNotFound)))
    ));
}

#[test]
fn removing_no_keys_takes_no_statement() {
    let turn = Call::begin(Request::DeleteBatch { keys: vec![] });
    assert!(matches!(turn, CallTurn::Finished(Ok(Rows::Nothing))));
}

fn asked(step: Step) -> (Request, Task) {
    match step.turn {
        Turn::Ask { request, task } => (request, task),
        other => panic!("{:?}", other),
    }
}

fn entry(value: &[u8], expires: Option<i64>) -> Rows {
    Rows::Entry(Some(CacheEntry { cache_value: value.to_vec(), expires }))
}

fn put(cache: &mut Cache, key: &str, value: &[u8], ttl: Option<u64>, now: u64) {
    let step = cache.set_at(key, value, ttl.map(Duration::from_secs), at(now), at(now));
    let (_, task) = asked(step);
    let done = cache.resume_at(task, Ok(Rows::Nothing), &at(now), &at(now));
    assert!(done.evict);
    assert!(matches!(done.turn, Turn::Finished(Outcome::Stored(Ok(())))));
}

#[test]
fn a_value_is_set_in_the_database_first() {
    let mut cache = small_cache(1);
    let step = cache.set_at("k", b"v", Some(Duration::from_secs(10)), at(100), at(101));
    let (request, task) = asked(step);
    match request {
        Request::Store { key, value, expires, last_accessed } => {
            assert_eq!(key, "k");
            assert_eq!(value, b"v".to_vec());
            assert_eq!(expires, Some(110));
            assert_eq!(last_accessed, 101);
        }
        other => panic!("{:?}", other),
    }
    // Nothing is in memory before the database has answered.
    assert!(matches!(cache.get_at("k", &at(100)).turn, Turn::Ask { .. }));
    let step = cache.resume_at(task, Err(CacheError::DatabaseError(busy())), &at(100), &at(100));
    assert!(matches!(step.turn, Turn::Finished(Outcome::Stored(Err(_)))));
    assert!(!step.evict);
    assert!(matches!(cache.get_at("k", &at(100)).turn, Turn::Ask { .. }));
}

#[test]
fn a_set_can_fail_before_it_begins() {
    let cache = small_cache(1);
    let step = cache.set_at("k", b"v", Some(Duration::from_secs(u64::MAX)), at(1), at(1));
    assert!(matches!(
        step.turn,
        Turn::Finished(Outcome::Stored(Err(CacheError::TtlValueOverflow)))
    ));
    let step = cache.set_at("k", b"v", None, Err(before_epoch()), at(1));
    assert!(matches!(
        step.turn,
        Turn::Finished(Outcome::Stored(Err(CacheError::SystemTimeError(_))))
    ));
    let step = cache.set_at("k", b"v", None, at(1), Err(before_epoch()));
    assert!(matches!(
        step.turn,
        Turn::Finished(Outcome::Stored(Err(CacheError::SystemTimeError(_))))
    ));
    let step = cache.set("k", b"v", Some(Duration::from_secs(u64::MAX)));
    assert!(matches!(
        step.turn,
        Turn::Finished(Outcome::Stored(Err(CacheError::TtlValueOverflow)))
    ));
}

#[test]
fn a_value_in_memory_is_returned_until_it_expires() {
    let mut cache = small_cache(1);
    put(&mut cache, "k", b"v", Some(10), 100);
    let step = cache.get_at("k", &at(110));
    assert!(step.validate);
    assert!(matches!(
        step.turn,
        Turn::Finished(Outcome::Found(Ok(Some(value)))) if value == b"v".to_vec()
    ));
    let step = cache.get_at("k", &at(111));
    assert!(step.validate);
    let (request, task) = asked(step);
    assert!(matches!(request, Request::Get { key } if key == "k"));
    // The expired value has left memory, and the database is asked to remove its own.
    assert!(!cache.get_at("k", &at(100)).validate);
    let step = cache.resume_at(task, Ok(entry(b"v", Some(110))), &at(111), &at(111));
    let (request, task) = asked(step);
    assert!(matches!(request, Request::Delete { key } if key == "k"));
    let step = cache.resume_at(task, Ok(Rows::Nothing), &at(111), &at(111));
    assert!(matches!(step.turn, Turn::Finished(Outcome::Found(Ok(None)))));
}

#[test]
fn before_the_epoch_every_value_counts_as_expired() {
    let mut cache = small_cache(1);
    put(&mut cache, "k", b"v", None, 100);
    let (_, task) = asked(cache.get_at("k", &Err(before_epoch())));
    let reply = Ok(entry(b"v", None));
    let (request, _) = asked(cache.resume_at(task, reply, &Err(before_epoch()), &at(1)));
    assert!(matches!(request, Request::Delete { key } if key == "k"));
}

#[test]
fn a_value_from_the_database_is_kept_in_memory() {
    let mut cache = small_cache(1);
    let (_, task) = asked(cache.get_at("k", &at(5)));
    assert!(task.accepts(&Ok(entry(b"v", None))));
    assert!(!task.accepts(&Ok(Rows::Nothing)));
    let step = cache.resume_at(task, Ok(entry(b"v", None)), &at(5), &at(5));
    assert!(step.evict);
    assert!(matches!(step.turn, Turn::Finished(Outcome::Found(Ok(Some(_))))));
    assert!(matches!(cache.get_at("k", &at(5)).turn, Turn::Finished(_)));

    let (_, task) = asked(cache.get_at("absent", &at(5)));
    let step = cache.resume_at(task, Ok(Rows::Entry(None)), &at(5), &at(5));
    assert!(!step.evict);
    assert!(matches!(step.turn, Turn::Finished(Outcome::Found(Ok(None)))));
}

#[test]
fn deleting_leaves_memory_before_the_database() {
    let mut cache = small_cache(1);
    put(&mut cache, "k", b"v", None, 100);
    let step = cache.delete("k");
    assert!(step.evict);
    assert!(matches!(cache.get_at("k", &at(100)).turn, Turn::Ask { .. }));
    let (request, task) = asked(step);
    assert!(matches!(request, Request::Delete { key } if key == "k"));
    let step = cache.resume_at(task, Ok(Rows::Nothing), &at(100), &at(100));
    assert!(matches!(step.turn, Turn::Finished(Outcome::Deleted(Ok(())))));
    assert!(!cache.delete("k").evict);
}

#[test]
fn cleanup_goes_through_both_layers() {
    let mut cache = small_cache(1);
    put(&mut cache, "a", b"1", Some(1), 100);
    put(&mut cache, "b", b"2", None, 100);
    let (request, task) = asked(cache.cleanup_expired_keys_at(at(200)));
    assert!(matches!(request, Request::Expired { now: 200 }));
    let keys = vec![
        CacheKey { cache_key: "a".to_string() },
        CacheKey { cache_key: "elsewhere".to_string() },
    ];
    let step = cache.resume_at(task, Ok(Rows::Keys(keys)), &at(200), &at(200));
    assert!(step.evict);
    let (request, task) = asked(step);
    match request {
        Request::DeleteBatch { keys } => {
            assert_eq!(keys, vec!["a".to_string(), "elsewhere".to_string()])
        }
        other => panic!("{:?}", other),
    }
    let step = cache.resume_at(task, Ok(Rows::Nothing), &at(200), &at(200));
    assert!(matches!(step.turn, Turn::Finished(Outcome::CleanedUp(Ok(2)))));
    assert!(matches!(cache.get_at("a", &at(100)).turn, Turn::Ask { .. }));
    assert!(matches!(cache.get_at("b", &at(100)).turn, Turn::Finished(_)));

    let (_, task) = asked(cache.cleanup_expired_keys_at(at(200)));
    let step = cache.resume_at(task, Ok(Rows::Keys(vec![])), &at(200), &at(200));
    assert!(matches!(step.turn, Turn::Finished(Outcome::CleanedUp(Ok(0)))));
    let step = cache.cleanup_expired_keys_at(Err(before_epoch()));
    assert!(matches!(
        step.turn,
        Turn::Finished(Outcome::CleanedUp(Err(CacheError::SystemTimeError(_))))
    ));
}

#[test]
fn validation_follows_the_database() {
    let mut cache = small_cache(1);
    put(&mut cache, "k", b"v", None, 100);

    // An unreadable database changes nothing.
    let (_, task) = asked(cache.validate("k"));
    let failed = cache.resume_at(task, Err(CacheError::MutexLockError), &at(100), &at(100));
    assert!(matches!(failed.turn, Turn::Finished(Outcome::Validated)));
    assert!(matches!(cache.get_at("k", &at(100)).turn, Turn::Finished(_)));

    // A good row is noted as used.
    let (_, task) = asked(cache.validate("k"));
    let step = cache.resume_at(task, Ok(entry(b"v", Some(200))), &at(100), &at(101));
    let (request, task) = asked(step);
    assert!(matches!(request, Request::Touch { last_accessed: 101, .. }));
    let done = cache.resume_at(task, Ok(Rows::Nothing), &at(100), &at(100));
    assert!(matches!(done.turn, Turn::Finished(Outcome::Validated)));
    assert!(matches!(cache.get_at("k", &at(100)).turn, Turn::Finished(_)));

    // Without a clock the use cannot be noted.
    let (_, task) = asked(cache.validate("k"));
    let step = cache.resume_at(task, Ok(entry(b"v", None)), &at(100), &Err(before_epoch()));
    assert!(matches!(step.turn, Turn::Finished(Outcome::Validated)));

    // An expired row is removed, and then the value in memory, even if the removal fails.
    let (_, task) = asked(cache.validate("k"));
    let step = cache.resume_at(task, Ok(entry(b"v", Some(99))), &at(100), &at(100));
    let (request, task) = asked(step);
    assert!(matches!(request, Request::Delete { key } if key == "k"));
    let done = cache.resume_at(task, Err(CacheError::MutexLockError), &at(100), &at(100));
    assert!(matches!(done.turn, Turn::Finished(Outcome::Validated)));
    assert!(matches!(cache.get_at("k", &at(100)).turn, Turn::Ask { .. }));

    // A missing row takes the value in memory with it.
    put(&mut cache, "k", b"v", None, 100);
    let (_, task) = asked(cache.validate("k"));
    let done = cache.resume_at(task, Ok(Rows::Entry(None)), &at(100), &at(100));
    assert!(matches!(done.turn, Turn::Finished(Outcome::Validated)));
    assert!(matches!(cache.get_at("k", &at(100)).turn, Turn::Ask { .. }));
}

#[test]
fn memory_usage_counts_keys_and_values() {
    let mut cache = small_cache(1);
    // Two entries of exactly the limit together stay; one byte more evicts the older one.
    put(&mut cache, "a", &vec![0u8; 524_287], None, 1);
    put(&mut cache, "b", &vec![0u8; 524_287], None, 1);
    cache.evict_if_memory_pressure();
    assert!(matches!(cache.get_at("a", &at(1)).turn, Turn::Finished(_)));
    assert!(matches!(cache.get_at("b", &at(1)).turn, Turn::Finished(_)));
    put(&mut cache, "a", &vec![0u8; 524_288], None, 1);
    cache.evict_if_memory_pressure();
    assert!(matches!(cache.get_at("b", &at(1)).turn, Turn::Ask { .. }));
    assert!(matches!(cache.get_at("a", &at(1)).turn, Turn::Finished(_)));
}

#[test]
fn memory_usage_saturates() {
    let mut cache = small_cache(1);
    put(&mut cache, "a", b"1", None, 1);
    put(&mut cache, "b", b"2", None, 1);
    cache.update_memory_usage(Some(usize::MAX), None);
    cache.evict_if_memory_pressure();
    assert!(matches!(cache.get_at("a", &at(1)).turn, Turn::Ask { .. }));
    assert!(matches!(cache.get_at("b", &at(1)).turn, Turn::Finished(_)));
    cache.update_memory_usage(None, Some(usize::MAX));
    put(&mut cache, "a", b"1", None, 1);
    cache.evict_if_memory_pressure();
    assert!(matches!(cache.get_at("b", &at(1)).turn, Turn::Finished(_)));
}

fn opening(turn: InitTurn<u8>) -> (u64, Init<u8>) {
    match turn {
        InitTurn::Act { delay_ms, init } => (delay_ms, init),
        other => panic!("{:?}", other),
    }
}

#[test]
fn an_existing_table_needs_no_migration() {
    let (delay, state) = opening(Init::begin());
    assert_eq!(delay, 0);
    assert!(matches!(state.stage, InitStage::Connect));
    assert!(state.search_statement().is_none());
    assert!(!state.can_take(&InitEvent::Searched(Ok(true))));
    let (_, state) = opening(init(state, InitEvent::Connected(Ok(9))));
    assert_eq!(
        state.search_statement().unwrap(),
        "SELECT name FROM sqlite_master WHERE type='table' AND name='cache'"
    );
    let turn = init(state, InitEvent::Searched(Ok(true)));
    assert!(matches!(turn, InitTurn::Finished(Ok(9))));
}

fn at_migration() -> Init<u8> {
    let (_, state) = opening(Init::begin());
    let (_, state) = opening(init(state, InitEvent::Connected(Ok(9))));
    let (_, state) = opening(init(state, InitEvent::Searched(Ok(false))));
    assert_eq!(
        state.search_statement().unwrap(),
        "SELECT name FROM sqlite_master WHERE type='table' AND name='_sqlx_migrations'"
    );
    let (_, state) = opening(init(state, InitEvent::Searched(Ok(false))));
    assert!(matches!(state.stage, InitStage::Migrate { .. }));
    state
}

#[test]
fn migrations_make_the_table() {
    let (_, state) = opening(init(at_migration(), InitEvent::Migrated(Ok(()))));
    assert!(matches!(state.stage, InitStage::VerifyTable { .. }));
    let turn = init(state, InitEvent::Searched(Ok(true)));
    assert!(matches!(turn, InitTurn::Finished(Ok(9))));

    let (_, state) = opening(init(at_migration(), InitEvent::Migrated(Ok(()))));
    let (delay, state) = opening(init(state, InitEvent::Searched(Ok(false))));
    assert_eq!(delay, 100);
    assert_eq!(state.init_retry_count, 1);
    assert!(matches!(state.stage, InitStage::Connect));
}

#[test]
fn a_violated_key_means_that_others_migrated() {
    let (delay, state) = opening(init(at_migration(), InitEvent::Migrated(Err(coded("1555")))));
    assert_eq!(delay, 200);
    assert!(matches!(state.stage, InitStage::FindTableAgain { .. }));
    let turn = init(state, InitEvent::Searched(Ok(true)));
    assert!(matches!(turn, InitTurn::Finished(Ok(9))));

    let (_, state) = opening(init(at_migration(), InitEvent::Migrated(Err(coded("1555")))));
    let (delay, state) = opening(init(state, InitEvent::Searched(Ok(false))));
    assert_eq!(delay, 100);
    assert!(matches!(state.stage, InitStage::Connect));

    for error in [busy(), coded("1"), sqlx::Error::RowNotFound] {
        let (delay, state) = opening(init(at_migration(), InitEvent::Migrated(Err(error))));
        assert_eq!(delay, 100);
        assert!(matches!(state.stage, InitStage::Connect));
    }
}

#[test]
fn a_failed_search_is_retried_only_when_busy() {
    let (_, state) = opening(Init::begin());
    let (_, state) = opening(init(state, InitEvent::Connected(Ok(9))));
    let (delay, state) = opening(init(state, InitEvent::Searched(Err(busy()))));
    assert_eq!(delay, 100);
    let (_, state) = opening(init(state, InitEvent::Connected(Ok(9))));
    let turn = init(state, InitEvent::Searched(Err(coded("1"))));
    assert!(matches!(turn, InitTurn::Finished(Err(DbError::Database(_)))));
}

#[test]
fn ten_failed_attempts_are_the_end() {
    let (_, mut state) = opening(Init::<u8>::begin());
    for attempt in 1..10 {
        let failure = InitEvent::Connected(Err(DbError::Pool("down".to_string())));
        let (delay, next) = opening(init(state, failure));
        assert_eq!(delay, 100 * attempt);
        state = next;
    }
    let turn = init(state, InitEvent::Connected(Err(DbError::Pool("down".to_string()))));
    assert!(matches!(turn, InitTurn::Finished(Err(DbError::Pool(text))) if text == "down"));

    let (_, mut state) = opening(Init::<u8>::begin());
    state.init_retry_count = 9;
    state.stage = InitStage::VerifyTable { pool: 1 };
    let turn = init(state, InitEvent::Searched(Ok(false)));
    assert!(matches!(
        turn,
        InitTurn::Finished(Err(DbError::Pool(text)))
            if text == "Migrations succeeded but cache table wasn't created"
    ));
}

fn setting_up(turn: SetupTurn<u8>) -> (u64, Setup<u8>) {
    match turn {
        SetupTurn::Act { delay_ms, setup } => (delay_ms, setup),
        other => panic!("{:?}", other),
    }
}

#[test]
fn a_connection_is_configured_with_four_settings() {
    assert_eq!(database_url("tests/db/x.sqlite"), "sqlite:tests/db/x.sqlite");
    let (_, setup) = setting_up(Setup::begin());
    assert!(!setup.can_take(&SetupEvent::DatabaseFound(Ok(true))));
    let (_, setup) = setting_up(setup_db_connection(setup, SetupEvent::ParentMissing(true)));
    assert!(matches!(setup.stage, SetupStage::CreateParent));
    let (_, setup) = setting_up(setup_db_connection(setup, SetupEvent::ParentCreated(Ok(()))));
    let missing = SetupEvent::DatabaseFound(Err(sqlx::Error::RowNotFound));
    let (_, setup) = setting_up(setup_db_connection(setup, missing));
    assert!(matches!(setup.stage, SetupStage::CreateDatabase));
    let (_, setup) = setting_up(setup_db_connection(setup, SetupEvent::DatabaseCreated(Ok(()))));
    let (_, mut setup) = setting_up(setup_db_connection(setup, SetupEvent::Connected(Ok(3))));
    let mut made = Vec::new();
    loop {
        let done = match &setup.stage {
            SetupStage::Configure { done, .. } => *done,
            other => panic!("{:?}", other),
        };
        made.push(pragma(done));
        match setup_db_connection(setup, SetupEvent::Configured(Ok(()))) {
            SetupTurn::Act { setup: next, .. } => setup = next,
            SetupTurn::Finished { delay_ms, result } => {
                assert_eq!(delay_ms, 0);
                assert!(matches!(result, Ok(3)));
                break;
            }
        }
    }
    assert_eq!(
        made,
        vec![
            "PRAGMA journal_mode = WAL;",
            "PRAGMA synchronous = NORMAL;",
            "PRAGMA cache_size = 1000;",
            "PRAGMA busy_timeout = 50;",
        ]
    );
}

fn at_stage(stage: SetupStage<u8>, retry_count: u32) -> Setup<u8> {
    Setup { retry_count, stage }
}

#[test]
fn a_busy_database_is_looked_for_again() {
    let creating = at_stage(SetupStage::CreateDatabase, 0);
    let (delay, setup) =
        setting_up(setup_db_connection(creating, SetupEvent::DatabaseCreated(Err(busy()))));
    assert_eq!(delay, 10);
    assert_eq!(setup.retry_count, 1);
    assert!(matches!(setup.stage, SetupStage::FindDatabaseAgain));
    let (_, setup) = setting_up(setup_db_connection(setup, SetupEvent::DatabaseFound(Ok(false))));
    assert!(matches!(setup.stage, SetupStage::FindDatabase));
    let (_, setup) = setting_up(setup_db_connection(setup, SetupEvent::DatabaseFound(Ok(true))));
    assert!(matches!(setup.stage, SetupStage::Connect));
    assert_eq!(setup.retry_count, 0);

    let last = at_stage(SetupStage::CreateDatabase, 9);
    let turn = setup_db_connection(last, SetupEvent::DatabaseCreated(Err(busy())));
    assert!(matches!(
        turn,
        SetupTurn::Finished { result: Err(DbError::Database(_)), .. }
    ));
    let other = at_stage(SetupStage::CreateDatabase, 0);
    let turn = setup_db_connection(other, SetupEvent::DatabaseCreated(Err(coded("1"))));
    assert!(matches!(
        turn,
        SetupTurn::Finished { result: Err(DbError::Database(_)), .. }
    ));
}

#[test]
fn connecting_is_given_up_with_a_text() {
    let turn = setup_db_connection(
        at_stage(SetupStage::Connect, 0),
        SetupEvent::Connected(Err(sqlx::Error::PoolClosed)),
    );
    assert!(matches!(
        turn,
        SetupTurn::Finished { delay_ms: 0, result: Err(DbError::Pool(text)) }
            if text == "attempted to acquire a connection on a closed pool"
    ));
    let turn = setup_with_text(
        at_stage(SetupStage::Connect, 0),
        SetupEvent::Connected(Err(sqlx::Error::PoolClosed)),
        "closed".to_string(),
    );
    assert!(matches!(
        turn,
        SetupTurn::Finished { result: Err(DbError::Pool(text)), .. } if text == "closed"
    ));
    let (delay, setup) = setting_up(setup_db_connection(
        at_stage(SetupStage::Connect, 8),
        SetupEvent::Connected(Err(busy())),
    ));
    assert_eq!((delay, setup.retry_count), (10, 9));
    let turn = setup_db_connection(setup, SetupEvent::Connected(Err(busy())));
    assert!(matches!(
        turn,
        SetupTurn::Finished { delay_ms: 10, result: Err(DbError::Pool(text)) }
            if text == "Failed to connect to database after 10 retries"
    ));
    let turn = setup_db_connection(
        at_stage(SetupStage::CreateParent, 0),
        SetupEvent::ParentCreated(Err(std::io::Error::other("full"))),
    );
    assert!(matches!(turn, SetupTurn::Finished { result: Err(DbError::Io(_)), .. }));
    let turn = setup_db_connection(
        at_stage(SetupStage::Configure { pool: 1, done: 2 }, 0),
        SetupEvent::Configured(Err(busy())),
    );
    assert!(matches!(turn, SetupTurn::Finished { result: Err(DbError::Database(_)), .. }));
}

#[test]
fn the_plain_connection_runs_straight_through() {
    let events: Vec<db_connection::Event<u8>> = vec![
        db_connection::Event::ParentMissing(true),
        db_connection::Event::ParentCreated(Ok(())),
        db_connection::Event::DatabaseFound(Ok(false)),
        db_connection::Event::DatabaseCreated(Ok(())),
        db_connection::Event::Connected(Ok(4)),
        db_connection::Event::MigrationRead(Ok("CREATE TABLE cache".to_string())),
    ];
    assert_eq!(
        db_connection::migration_path(),
        "migrations/20230101000000_create_cache_table/up.sql"
    );
    let mut stage = db_connection::Stage::FindParent;
    for event in events {
        assert!(stage.can_take(&event));
        stage = match db_connection::setup_db_connection(stage, event) {
            db_connection::ConnectionTurn::Act(next) => next,
            other => panic!("{:?}", other),
        };
    }
    assert!(matches!(
        &stage,
        db_connection::Stage::Migrate { sql, .. } if sql == "CREATE TABLE cache"
    ));
    let turn =
        db_connection::setup_db_connection(stage, db_connection::Event::Migrated(Ok(())));
    assert!(matches!(turn, db_connection::ConnectionTurn::Finished(Ok(4))));
}

#[test]
fn the_plain_connection_fails_with_its_own_errors() {
    let turn = db_connection::setup_db_connection(
        db_connection::Stage::ReadMigration { pool: 4u8 },
        db_connection::Event::MigrationRead(Err(std::io::Error::other("no file"))),
    );
    assert!(matches!(
        turn,
        db_connection::ConnectionTurn::Finished(Err(db_connection::DbError::MigrationError(text)))
            if text == "Failed to read migration file: no file"
    ));
    let turn = db_connection::setup_db_connection(
        db_connection::Stage::<u8>::Connect,
        db_connection::Event::Connected(Err(sqlx::Error::PoolClosed)),
    );
    assert!(matches!(
        turn,
        db_connection::ConnectionTurn::Finished(Err(db_connection::DbError::PoolError(text)))
            if text == "attempted to acquire a connection on a closed pool"
    ));
    let turn = db_connection::setup_with_text(
        db_connection::Stage::Migrate { pool: 4u8, sql: String::new() },
        db_connection::Event::Migrated(Err(busy())),
        "busy".to_string(),
    );
    assert!(matches!(
        turn,
        db_connection::ConnectionTurn::Finished(Err(db_connection::DbError::MigrationError(text)))
            if text == "busy"
    ));
    let turn = db_connection::setup_db_connection(
        db_connection::Stage::<u8>::CreateParent,
        db_connection::Event::ParentCreated(Err(std::io::Error::other("full"))),
    );
    assert!(matches!(
        turn,
        db_connection::ConnectionTurn::Finished(Err(db_connection::DbError::IoError(_)))
    ));
    let turn = db_connection::setup_db_connection(
        db_connection::Stage::<u8>::CreateDatabase,
        db_connection::Event::DatabaseCreated(Err(busy())),
    );
    assert!(matches!(
        turn,
        db_connection::ConnectionTurn::Finished(Err(db_connection::DbError::DatabaseError(_)))
    ));
}
