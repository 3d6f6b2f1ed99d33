//! The cache on an SQLite database in memory.
use dig_key_store::cleanup::{cleanup_due, cleanup_wait};
use dig_key_store::call::{Call, CallTurn, Request};
use dig_key_store::database::{Bind, CacheEntry, CacheKey, Fetch, KeyExistsResult, Statement};
use dig_key_store::error::CacheError;
use dig_key_store::memory::{Cache, CacheOptions};
use dig_key_store::operation::{Outcome, Step, Turn};
use dig_key_store::table::Rows;
use sqlx::sqlite::{SqlitePool, SqlitePoolOptions};
use sqlx::Row;
use std::future::Future;
use std::time::{Duration, Instant};
use tokio::time::sleep;

struct Client {
    cache: Cache,
    pool: SqlitePool,
    cleanup_interval_ms: Option<u64>,
}

async fn open_database() -> SqlitePool {
    let pool = SqlitePoolOptions::new()
        .max_connections(1)
        .connect("sqlite::memory:")
        .await
        .unwrap();
    sqlx::query(
        "CREATE TABLE cache (cache_key TEXT PRIMARY KEY NOT NULL, cache_value BLOB NOT NULL, \
         expires BIGINT, last_accessed BIGINT NOT NULL)",
    )
    .execute(&pool)
    .await
    .unwrap();
    pool
}

async fn send(pool: &SqlitePool, statement: &Statement) -> Result<Rows, sqlx::Error> {
    let mut query = sqlx::query(&statement.sql);
    for bind in &statement.binds {
        query = match bind {
            Bind::Text(text) => query.bind(text.as_str()),
            Bind::Blob(bytes) => query.bind(bytes.as_slice()),
            Bind::Integer(number) => query.bind(*number),
            Bind::Nullable(number) => query.bind(*number),
        };
    }
    match statement.fetch {
        Fetch::Nothing => {
            query.execute(pool).await?;
            Ok(Rows::Nothing)
        }
        Fetch::Exists => {
            let row = query.fetch_one(pool).await?;
            Ok(Rows::Exists(KeyExistsResult { exists: row.try_get("exists")? }))
        }
        Fetch::Entry => match query.fetch_optional(pool).await? {
            Some(row) => Ok(Rows::Entry(Some(CacheEntry {
                cache_value: row.try_get("cache_value")?,
                expires: row.try_get("expires")?,
            }))),
            None => Ok(Rows::Entry(None)),
        },
        Fetch::Keys => {
            let mut keys = Vec::new();
            for row in query.fetch_all(pool).await? {
                keys.push(CacheKey { cache_key: row.try_get("cache_key")? });
            }
            Ok(Rows::Keys(keys))
        }
    }
}

async fn fulfil(pool: &SqlitePool, request: Request) -> Result<Rows, CacheError> {
    let mut turn = Call::begin(request);
    loop {
        match turn {
            CallTurn::Finished(result) => return result,
            CallTurn::Send { delay_ms, call } => {
                sleep(Duration::from_millis(delay_ms)).await;
                let answer = send(pool, &call.statement()).await;
                assert!(call.accepts(&answer));
                turn = call.answer(answer);
            }
        }
    }
}

impl Client {
    async fn new(max_memory_mb: usize, pool: &SqlitePool) -> Client {
        Client::with_cleanup_interval(max_memory_mb, None, pool).await
    }

    async fn with_cleanup_interval(
        max_memory_mb: usize,
        cleanup_interval_ms: Option<u64>,
        pool: &SqlitePool,
    ) -> Client {
        let options = CacheOptions {
            max_memory_mb,
            db_path: "sqlite::memory:".to_string(),
            cleanup_interval_ms,
        };
        let cache = Cache::with_max_items(options, 100_000).unwrap();
        Client { cache, pool: pool.clone(), cleanup_interval_ms }
    }

    /// Lets time pass, with the cleanups that come due.
    async fn pass(&mut self, time: Duration) {
        let interval_ms = match self.cleanup_interval_ms {
            Some(interval_ms) => interval_ms,
            None => return sleep(time).await,
        };
        let start = Instant::now();
        let mut last_ms = 0;
        while start.elapsed() < time {
            let now_ms = start.elapsed().as_millis() as u64;
            if cleanup_due(last_ms, now_ms, interval_ms) {
                last_ms = now_ms;
                self.cleanup_expired_keys().await.unwrap();
            }
            sleep(Duration::from_millis(cleanup_wait(last_ms, now_ms, interval_ms))).await;
        }
    }

    async fn run(&mut self, first: Step) -> Outcome {
        let mut step = first;
        loop {
            if step.evict {
                self.cache.evict_if_memory_pressure();
            }
            match step.turn {
                Turn::Finished(outcome) => return outcome,
                Turn::Ask { request, task } => {
                    let reply = fulfil(&self.pool, request).await;
                    assert!(task.accepts(&reply));
                    step = self.cache.resume(task, reply);
                }
            }
        }
    }

    async fn set(
        &mut self,
        key: &str,
        value: &[u8],
        ttl: Option<Duration>,
    ) -> Result<(), CacheError> {
        let step = self.cache.set(key, value, ttl);
        match self.run(step).await {
            Outcome::Stored(result) => result,
            other => panic!("{:?}", other),
        }
    }

    async fn get(&mut self, key: &str) -> Result<Option<Vec<u8>>, CacheError> {
        let step = self.cache.get(key);
        let validate = step.validate;
        let found = match self.run(step).await {
            Outcome::Found(result) => result,
            other => panic!("{:?}", other),
        };
        if validate {
            let check = self.cache.validate(key);
            match self.run(check).await {
                Outcome::Validated => {}
                other => panic!("{:?}", other),
            }
        }
        found
    }

    async fn delete(&mut self, key: &str) -> Result<(), CacheError> {
        let step = self.cache.delete(key);
        match self.run(step).await {
            Outcome::Deleted(result) => result,
            other => panic!("{:?}", other),
        }
    }

    async fn cleanup_expired_keys(&mut self) -> Result<usize, CacheError> {
        let step = self.cache.cleanup_expired_keys();
        match self.run(step).await {
            Outcome::CleanedUp(result) => result,
            other => panic!("{:?}", other),
        }
    }

    /// Whether the next `get` of the key would be answered from memory.
    fn in_memory(&mut self, key: &str) -> bool {
        let step = self.cache.get(key);
        matches!(step.turn, Turn::Finished(Outcome::Found(Ok(Some(_)))))
    }
}

fn block_on<F: Future<Output = ()>>(test: F) {
    tokio::runtime::Builder::new_current_thread().enable_all().build().unwrap().block_on(test)
}

async fn last_accessed(pool: &SqlitePool, key: &str) -> Option<i64> {
    sqlx::query("SELECT last_accessed FROM cache WHERE cache_key = ?")
        .bind(key)
        .fetch_optional(pool)
        .await
        .unwrap()
        .map(|row| row.get("last_accessed"))
}

async fn rows(pool: &SqlitePool) -> i64 {
    sqlx::query("SELECT COUNT(*) AS n FROM cache").fetch_one(pool).await.unwrap().get("n")
}

#[test]
fn lib_test_cleanup_expired_entries() {
    block_on(async {
        let pool = open_database().await;
        let mut cache = Client::new(10, &pool).await;
        let key = "lib_rs_test_cleanup_expired_entries";
        let value = b"test_value";
        cache.set(key, value, Some(Duration::from_secs(1))).await.expect("Failed to set key in test");

        let result = cache.get(key).await.expect("Failed to get key in test");
        assert_eq!(result, Some(value.to_vec()));

        sleep(Duration::from_secs(2)).await;
        for _attempt in 1..=3 {
            let result = cache.get(key).await.expect("Failed to get key in test attempt");
            if result.is_none() {
                return;
            }
            sleep(Duration::from_millis(500)).await;
        }
        panic!("Value did not expire after multiple attempts");
    });
}

#[test]
fn test_manual_cleanup() {
    block_on(async {
        let pool = open_database().await;
        let mut cache = Client::new(10, &pool).await;
        for i in 0..5 {
            let key = format!("manual_cleanup_test_key_{}", i);
            let value = format!("value_{}", i).into_bytes();
            cache.set(&key, &value, Some(Duration::from_secs(2))).await.unwrap();
        }
        sleep(Duration::from_secs(3)).await;

        let cleaned_count = cache.cleanup_expired_keys().await.expect("Failed to run cleanup");
        assert_eq!(cleaned_count, 5, "Should have cleaned up 5 keys");

        for i in 0..5 {
            let key = format!("manual_cleanup_test_key_{}", i);
            let result = cache.get(&key).await.expect("Failed to get key in test");
            assert_eq!(result, None, "Key '{}' should have been removed by manual cleanup", key);
        }
    });
}

#[test]
fn tests_test_cleanup_expired_entries() {
    block_on(async {
        let pool = open_database().await;
        let mut cache = Client::with_cleanup_interval(10, Some(1_000), &pool).await;
        let key = "test_key";
        let value = b"test_value";
        cache.set(key, value, Some(Duration::from_secs(1))).await.unwrap();

        let result = cache.get(key).await.unwrap();
        assert_eq!(result, Some(value.to_vec()));

        cache.pass(Duration::from_secs(2)).await;
        cache.cleanup_expired_keys().await.unwrap();

        let result = cache.get(key).await.unwrap();
        assert_eq!(result, None);
    });
}

#[test]
fn cache_tests_test_set_get() {
    block_on(async {
        let pool = open_database().await;
        let mut cache = Client::with_cleanup_interval(10, Some(100), &pool).await;
        let key = "test_key";
        let value = b"test_value";
        cache.set(key, value, None).await.unwrap();
        let result = cache.get(key).await.unwrap();
        assert_eq!(result, Some(value.to_vec()));
    });
}

#[test]
fn cache_tests_test_delete() {
    block_on(async {
        let pool = open_database().await;
        let mut cache = Client::with_cleanup_interval(10, Some(100), &pool).await;
        let key = "test_key";
        let value = b"test_value";
        cache.set(key, value, None).await.unwrap();
        cache.delete(key).await.unwrap();
        let result = cache.get(key).await.unwrap();
        assert_eq!(result, None);
    });
}

#[test]
fn cache_tests_test_expiration() {
    block_on(async {
        let pool = open_database().await;
        let mut cache = Client::with_cleanup_interval(10, Some(100), &pool).await;
        let key = "test_key";
        let value = b"test_value";
        cache.set(key, value, Some(Duration::from_secs(1))).await.unwrap();
        let result = cache.get(key).await.unwrap();
        assert_eq!(result, Some(value.to_vec()));

        cache.pass(Duration::from_secs(2)).await;
        for _attempt in 1..=3 {
            let result = cache.get(key).await.unwrap();
            if result.is_none() {
                return;
            }
            cache.pass(Duration::from_millis(500)).await;
        }
        panic!("Value did not expire after multiple attempts");
    });
}

#[test]
fn tests_test_set_get() {
    block_on(async {
        let pool = open_database().await;
        let mut cache = Client::new(10, &pool).await;
        let key = "tests_rs_test_set_get_basic_operation";
        let value = b"test_value";
        cache.set(key, value, None).await.unwrap();
        let result = cache.get(key).await.unwrap();
        assert_eq!(result, Some(value.to_vec()));
    });
}

#[test]
fn tests_test_delete() {
    block_on(async {
        let pool = open_database().await;
        let mut cache = Client::new(10, &pool).await;
        let key = "tests_rs_test_delete_key_removal";
        let value = b"test_value";
        cache.set(key, value, None).await.unwrap();
        cache.delete(key).await.unwrap();
        let result = cache.get(key).await.unwrap();
        assert_eq!(result, None);
    });
}

#[test]
fn tests_test_expiration() {
    block_on(async {
        let pool = open_database().await;
        let mut cache = Client::new(10, &pool).await;
        let key = "tests_rs_test_expiration_ttl_check";
        let value = b"test_value";
        cache.set(key, value, Some(Duration::from_secs(1))).await.unwrap();
        let result = cache.get(key).await.unwrap();
        assert_eq!(result, Some(value.to_vec()));

        sleep(Duration::from_secs(2)).await;
        let result = cache.get(key).await.unwrap();
        assert_eq!(result, None, "Key should have been expired");
    });
}

#[test]
fn test_memory_pressure_eviction_miss_access() {
    block_on(async {
        let pool = open_database().await;
        let mut cache = Client::new(1, &pool).await;
        let first_key = "tests_rs_test_memory_pressure_eviction_first_key";
        let first_value = vec![1u8; 100_000];
        cache.set(first_key, &first_value, None).await.unwrap();
        let result = cache.get(first_key).await.unwrap();
        assert_eq!(result, Some(first_value.clone()));

        for i in 0..30 {
            let key = format!("tests_rs_test_memory_pressure_eviction_key_{}", i);
            let value = vec![i as u8; 100_000];
            cache.set(&key, &value, None).await.unwrap();
            if i % 2 == 0 {
                cache.get(first_key).await.unwrap();
            }
        }

        let large_key = "tests_rs_test_memory_pressure_eviction_large_key";
        let large_value = vec![0u8; 500_000];
        cache.set(large_key, &large_value, None).await.unwrap();

        let result = cache.get(first_key).await.unwrap();
        assert_eq!(
            result,
            Some(first_value),
            "First key should still be accessible from database"
        );

        for i in 0..20 {
            let key = format!("tests_rs_test_memory_pressure_eviction_key_{}", i);
            let expected_value = vec![i as u8; 100_000];
            let result = cache.get(&key).await.unwrap();
            assert_eq!(
                result,
                Some(expected_value),
                "Key {} should still be accessible from database",
                key
            );
        }
    });
}

#[test]
fn test_cross_layer_synchronization() {
    block_on(async {
        let pool = open_database().await;
        let mut cache1 = Client::new(10, &pool).await;
        let key = "tests_rs_test_cross_layer_synchronization_key";
        let value1 = b"value_from_cache1";
        cache1.set(key, value1, None).await.unwrap();

        let mut cache2 = Client::new(10, &pool).await;
        let result = cache2.get(key).await.unwrap();
        assert_eq!(
            result,
            Some(value1.to_vec()),
            "Second cache should retrieve value set by first cache"
        );

        cache1.delete(key).await.unwrap();
        let value2 = b"value_from_cache2";
        cache2.set(key, value2, None).await.unwrap();
        let result = cache1.get(key).await.unwrap();
        assert_eq!(
            result,
            Some(value2.to_vec()),
            "First cache should retrieve updated value from second cache"
        );

        cache1.delete(key).await.unwrap();
        cache2.get(key).await.unwrap();
        sleep(Duration::from_millis(1000)).await;
        let result = cache2.get(key).await.unwrap();
        assert_eq!(result, None, "Key should be deleted in second cache as well");
    });
}

async fn assert_eventual_delete(cache: &mut Client, key: &str) {
    cache.get(key).await.unwrap();
    sleep(Duration::from_millis(100)).await;
    let result = cache.get(key).await.unwrap();
    assert_eq!(result, None, "Cache did not converge on deletion for key {}", key);
}

#[test]
fn test_simulated_concurrent_access() {
    block_on(async {
        let pool = open_database().await;
        let num_clients = 5;
        let ops_per_client = 100;
        let mut caches = Vec::with_capacity(num_clients);
        for _i in 0..num_clients {
            caches.push(Client::new(10, &pool).await);
        }

        for op_id in 0..ops_per_client {
            for client_id in 0..num_clients {
                let key = format!(
                    "tests_rs_test_simulated_concurrent_access_key_{}_{}",
                    client_id, op_id
                );
                let value = format!("value_{}_{}", client_id, op_id).into_bytes();
                caches[client_id].set(&key, &value, None).await.unwrap();
                let result = caches[client_id].get(&key).await.unwrap();
                assert_eq!(
                    result,
                    Some(value.clone()),
                    "Client {} failed to get key {}",
                    client_id,
                    key
                );

                if op_id % 10 == 0 && client_id > 0 {
                    let other_client_id = (client_id - 1) % num_clients;
                    let other_key = format!(
                        "tests_rs_test_simulated_concurrent_access_key_{}_{}",
                        other_client_id, op_id
                    );
                    let result = caches[client_id].get(&other_key).await.unwrap();
                    if let Some(other_value) = result {
                        let expected_value =
                            format!("value_{}_{}", other_client_id, op_id).into_bytes();
                        assert_eq!(
                            other_value, expected_value,
                            "Client {} got incorrect value for key {}",
                            client_id, other_key
                        );
                    }
                }

                if op_id % 20 == 0 && op_id > 0 {
                    let delete_key = format!(
                        "tests_rs_test_simulated_concurrent_access_key_{}_{}",
                        client_id,
                        op_id - 10
                    );
                    caches[client_id].delete(&delete_key).await.unwrap();
                    let result = caches[client_id].get(&delete_key).await.unwrap();
                    assert_eq!(
                        result, None,
                        "Client {} failed to delete key {}",
                        client_id, delete_key
                    );
                    if client_id < num_clients - 1 {
                        let next_client_id = client_id + 1;
                        assert_eventual_delete(&mut caches[next_client_id], &delete_key).await;
                    }
                }
            }
        }
    });
}

#[test]
fn test_memory_limit_enforcement() {
    block_on(async {
        let pool = open_database().await;
        let mut cache = Client::new(1, &pool).await;
        for i in 0..10 {
            let key = format!("tests_rs_test_memory_limit_enforcement_small_key_{}", i);
            let value = vec![i as u8; 10_000];
            cache.set(&key, &value, None).await.unwrap();
        }
        for i in 0..5 {
            let key = format!("tests_rs_test_memory_limit_enforcement_medium_key_{}", i);
            let value = vec![i as u8; 100_000];
            cache.set(&key, &value, None).await.unwrap();
        }

        let large_key = "tests_rs_test_memory_limit_enforcement_large_key";
        let large_value = vec![0u8; 500_000];
        cache.set(large_key, &large_value, None).await.unwrap();
        let result = cache.get(large_key).await.unwrap();
        assert_eq!(result, Some(large_value.clone()), "Large key should be in the cache");

        let another_large_key = "tests_rs_test_memory_limit_enforcement_another_large_key";
        let another_large_value = vec![1u8; 500_000];
        cache.set(another_large_key, &another_large_value, None).await.unwrap();
        let result = cache.get(large_key).await.unwrap();
        assert_eq!(result, Some(large_value), "First large key should still be accessible");
        let result = cache.get(another_large_key).await.unwrap();
        assert_eq!(result, Some(another_large_value), "Second large key should be accessible");

        for i in 0..10 {
            let key = format!("tests_rs_test_memory_limit_enforcement_small_key_{}", i);
            let expected_value = vec![i as u8; 10_000];
            let result = cache.get(&key).await.unwrap();
            assert_eq!(result, Some(expected_value), "Small key {} should still be accessible", i);
        }
        for i in 0..5 {
            let key = format!("tests_rs_test_memory_limit_enforcement_medium_key_{}", i);
            let expected_value = vec![i as u8; 100_000];
            let result = cache.get(&key).await.unwrap();
            assert_eq!(result, Some(expected_value), "Medium key {} should still be accessible", i);
        }
    });
}

#[test]
fn eviction_makes_room_from_the_least_recently_used_end() {
    block_on(async {
        let pool = open_database().await;
        let mut cache = Client::new(1, &pool).await;
        cache.set("a", &vec![1u8; 500_000], None).await.unwrap();
        cache.set("b", &vec![2u8; 500_000], None).await.unwrap();
        // Using "a" makes "b" the least recently used key.
        assert!(cache.in_memory("a"));
        cache.set("c", &vec![3u8; 500_000], None).await.unwrap();
        assert!(!cache.in_memory("b"));
        assert!(cache.in_memory("a"));
        assert!(cache.in_memory("c"));
        assert_eq!(cache.get("b").await.unwrap(), Some(vec![2u8; 500_000]));
    });
}

#[test]
fn a_cache_of_full_size_stores_and_finds() {
    block_on(async {
        let pool = open_database().await;
        let options = CacheOptions {
            max_memory_mb: 100,
            db_path: "sqlite::memory:".to_string(),
            cleanup_interval_ms: None,
        };
        let mut cache = Client {
            cache: Cache::new(options, Ok(())).unwrap(),
            pool,
            cleanup_interval_ms: None,
        };
        cache.set("example_key", b"example_value", None).await.unwrap();
        assert!(cache.in_memory("example_key"));
        assert_eq!(cache.get("example_key").await.unwrap(), Some(b"example_value".to_vec()));
    });
}

#[test]
fn a_full_collection_drops_the_least_recently_used_entry() {
    block_on(async {
        let pool = open_database().await;
        let options = CacheOptions {
            max_memory_mb: 1,
            db_path: "sqlite::memory:".to_string(),
            cleanup_interval_ms: None,
        };
        let cache = Cache::with_max_items(options, 2).unwrap();
        let mut cache = Client { cache, pool, cleanup_interval_ms: None };
        cache.set("a", b"1", None).await.unwrap();
        cache.set("b", b"2", None).await.unwrap();
        cache.set("a", b"3", None).await.unwrap();
        cache.set("c", b"4", None).await.unwrap();
        assert!(!cache.in_memory("b"));
        assert!(cache.in_memory("a"));
        assert!(cache.in_memory("c"));
        assert_eq!(cache.get("b").await.unwrap(), Some(b"2".to_vec()));
        assert!(!cache.in_memory("a"));
    });
}

#[test]
fn a_single_entry_is_never_evicted() {
    block_on(async {
        let pool = open_database().await;
        let mut cache = Client::new(1, &pool).await;
        cache.set("huge", &vec![7u8; 3_000_000], None).await.unwrap();
        assert!(cache.in_memory("huge"));
        cache.set("small", b"x", None).await.unwrap();
        assert!(!cache.in_memory("huge"));
        assert!(cache.in_memory("small"));
    });
}

#[test]
fn replacing_a_value_counts_it_once() {
    block_on(async {
        let pool = open_database().await;
        let mut cache = Client::new(1, &pool).await;
        cache.set("other", b"stays", None).await.unwrap();
        for _round in 0..20 {
            cache.set("big", &vec![9u8; 600_000], None).await.unwrap();
        }
        assert!(cache.in_memory("other"));
        assert!(cache.in_memory("big"));
    });
}

#[test]
fn deleting_gives_memory_back() {
    block_on(async {
        let pool = open_database().await;
        let mut cache = Client::new(1, &pool).await;
        cache.set("other", b"stays", None).await.unwrap();
        for _round in 0..20 {
            cache.set("big", &vec![9u8; 600_000], None).await.unwrap();
            cache.delete("big").await.unwrap();
        }
        assert!(cache.in_memory("other"));
        assert_eq!(rows(&pool).await, 1);
    });
}

#[test]
fn a_set_overwrites_the_row_of_a_key() {
    block_on(async {
        let pool = open_database().await;
        let mut cache = Client::new(1, &pool).await;
        cache.set("key", b"first", None).await.unwrap();
        cache.set("key", b"second", Some(Duration::from_secs(60))).await.unwrap();
        assert_eq!(rows(&pool).await, 1);
        let mut other = Client::new(1, &pool).await;
        assert_eq!(other.get("key").await.unwrap(), Some(b"second".to_vec()));
    });
}

#[test]
fn validation_notes_the_use_of_a_value() {
    block_on(async {
        let pool = open_database().await;
        let mut cache = Client::new(1, &pool).await;
        cache.set("key", b"value", None).await.unwrap();
        sqlx::query("UPDATE cache SET last_accessed = 5").execute(&pool).await.unwrap();
        assert_eq!(last_accessed(&pool, "key").await, Some(5));
        cache.get("key").await.unwrap();
        assert!(last_accessed(&pool, "key").await.unwrap() > 5);
    });
}

#[test]
fn validation_drops_what_expired_in_the_database() {
    block_on(async {
        let pool = open_database().await;
        let mut cache = Client::new(1, &pool).await;
        cache.set("key", b"value", None).await.unwrap();
        sqlx::query("UPDATE cache SET expires = 5").execute(&pool).await.unwrap();
        assert_eq!(cache.get("key").await.unwrap(), Some(b"value".to_vec()));
        assert!(!cache.in_memory("key"));
        assert_eq!(rows(&pool).await, 0);
        assert_eq!(cache.get("key").await.unwrap(), None);
    });
}

#[test]
fn an_expired_row_is_removed_by_get() {
    block_on(async {
        let pool = open_database().await;
        let mut writer = Client::new(1, &pool).await;
        writer.set("key", b"value", None).await.unwrap();
        sqlx::query("UPDATE cache SET expires = 5").execute(&pool).await.unwrap();
        let mut reader = Client::new(1, &pool).await;
        assert_eq!(reader.get("key").await.unwrap(), None);
        assert_eq!(rows(&pool).await, 0);
    });
}

#[test]
fn cleanup_spares_what_has_not_expired() {
    block_on(async {
        let pool = open_database().await;
        let mut cache = Client::new(1, &pool).await;
        assert_eq!(cache.cleanup_expired_keys().await.unwrap(), 0);
        cache.set("stays", b"1", None).await.unwrap();
        cache.set("later", b"2", Some(Duration::from_secs(600))).await.unwrap();
        cache.set("gone", b"3", None).await.unwrap();
        sqlx::query("UPDATE cache SET expires = 5 WHERE cache_key = 'gone'")
            .execute(&pool)
            .await
            .unwrap();
        assert_eq!(cache.cleanup_expired_keys().await.unwrap(), 1);
        assert_eq!(rows(&pool).await, 2);
        assert!(cache.in_memory("stays"));
        assert!(cache.in_memory("later"));
        assert!(!cache.in_memory("gone"));
    });
}

#[test]
fn a_database_error_is_the_outcome_and_memory_stays() {
    block_on(async {
        let pool = open_database().await;
        let mut cache = Client::new(1, &pool).await;
        cache.set("key", b"old", None).await.unwrap();
        sqlx::query("ALTER TABLE cache RENAME TO hidden").execute(&pool).await.unwrap();
        let failed = cache.set("key", b"new", None).await;
        assert!(matches!(failed, Err(CacheError::DatabaseError(_))));
        // The old value is still in memory, and the database cannot contradict it.
        assert_eq!(cache.get("key").await.unwrap(), Some(b"old".to_vec()));
        assert!(matches!(cache.get("absent").await, Err(CacheError::DatabaseError(_))));
        assert!(matches!(cache.delete("key").await, Err(CacheError::DatabaseError(_))));
        assert!(!cache.in_memory("key"));
        assert!(matches!(cache.cleanup_expired_keys().await, Err(CacheError::DatabaseError(_))));
    });
}

#[test]
fn keys_and_values_of_any_kind_come_back() {
    block_on(async {
        let pool = open_database().await;
        let mut cache = Client::new(1, &pool).await;
        let pairs: Vec<(&str, Vec<u8>)> = vec![
            ("", vec![]),
            ("it's \"quoted\"; DROP TABLE cache", vec![0, 255, 39, 34]),
            ("\u{1F511} schl\u{00FC}ssel", b"bytes".to_vec()),
        ];
        for (key, value) in &pairs {
            cache.set(key, value, None).await.unwrap();
        }
        let mut other = Client::new(1, &pool).await;
        for (key, value) in &pairs {
            assert_eq!(other.get(key).await.unwrap(), Some(value.clone()));
            assert_eq!(cache.get(key).await.unwrap(), Some(value.clone()));
        }
    });
}

#[test]
fn a_value_is_read_back_after_anything_that_leaves_it_alone() {
    block_on(async {
        let pool = open_database().await;
        let mut cache = Client::new(1, &pool).await;
        cache.set("key", b"value", Some(Duration::from_secs(600))).await.unwrap();
        cache.set("large", &vec![1u8; 800_000], None).await.unwrap();
        cache.set("larger", &vec![2u8; 900_000], None).await.unwrap();
        assert!(!cache.in_memory("key"));
        assert_eq!(cache.get("key").await.unwrap(), Some(b"value".to_vec()));
        cache.delete("large").await.unwrap();
        assert_eq!(cache.cleanup_expired_keys().await.unwrap(), 0);
        let mut other = Client::new(1, &pool).await;
        other.set("foreign", b"x", None).await.unwrap();
        other.delete("larger").await.unwrap();
        assert_eq!(other.get("key").await.unwrap(), Some(b"value".to_vec()));
        assert_eq!(cache.get("larger").await.unwrap(), Some(vec![2u8; 900_000]));
        assert_eq!(cache.get("key").await.unwrap(), Some(b"value".to_vec()));
        assert_eq!(cache.get("key").await.unwrap(), Some(b"value".to_vec()));
    });
}

#[test]
fn expired_keys_are_cleaned_up_without_being_asked_for() {
    block_on(async {
        let pool = open_database().await;
        let mut cache = Client::with_cleanup_interval(10, Some(100), &pool).await;
        cache.set("gone", b"1", Some(Duration::from_secs(1))).await.unwrap();
        cache.set("stays", b"2", None).await.unwrap();
        cache.pass(Duration::from_secs(3)).await;
        assert_eq!(rows(&pool).await, 1);
        assert!(!cache.in_memory("gone"));
        assert!(cache.in_memory("stays"));
    });
}
