//! What holds of the cache as a whole.
pub mod calls;
pub mod history;
pub mod memory;
pub mod operations;
pub mod opening;
pub mod plain_connection;
pub mod statements;
