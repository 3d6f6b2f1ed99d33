//! A key-value cache with both in-memory and persistent storage.
//!
//! Values live in two layers: the most recently used ones in memory, all of them in an SQLite
//! database. They can be given a time to live. The crate holds everything that is decided on the
//! way: what is kept in memory and what is evicted, which statements are sent to the database,
//! when they are retried, and what each answer leads to. It never waits and never touches a file
//! itself; whoever uses it sends the statements and hands the answers back.
//!
//! - `memory`: the memory layer, over the collection in `lru_store` and its model in `recency`
//! - `operation`: setting, getting, deleting, cleaning up and validating, step by step
//! - `cleanup`: when expired keys are cleaned up unasked
//! - `call`, `retry`: a request to the database, retried while it is busy
//! - `database`, `sql`, `table`: the statements, and what they mean
//! - `init`, `connect`, `db_connection`: opening a database
//! - `clock`, `error`: expiration and errors
//! - `models`, `napi`: full rows, and what the Node.js binding hands over
//! - `laws`: what holds of the cache as a whole
pub mod call;
pub mod cleanup;
pub mod clock;
pub mod connect;
pub mod database;
pub mod db_connection;
pub mod error;
pub mod init;
pub mod laws;
pub mod lru_store;
pub mod memory;
pub mod models;
pub mod napi;
pub mod operation;
pub mod recency;
pub mod retry;
pub mod sql;
pub mod table;

pub use crate::clock::{expired, CacheData};
pub use crate::error::{is_sqlite_busy_error, CacheError};
pub use crate::memory::{Cache, CacheOptions};
pub use crate::retry::retry_on_busy;
