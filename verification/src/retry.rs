//! Retrying an operation while the database is busy.
use crate::error::{is_busy, is_sqlite_busy_error, CacheError};
use vstd::prelude::*;

verus! {

/// The pause between two attempts, in milliseconds.
pub const RETRY_DELAY_MS: u64 = 5;

/// What is to be done after an attempt.
#[derive(Debug)]
pub enum Retry<T> {
    /// Nothing more: this is the result.
    Finished(Result<T, CacheError>),
    /// Wait for `delay_ms` milliseconds and try again.
    Again {
        /// How long to wait, in milliseconds.
        delay_ms: u64,
    },
}

/// What is to be done after an attempt with this outcome, however many attempts came before it.
pub open spec fn retry<T>(outcome: Result<T, sqlx::Error>) -> Retry<T> {
    match outcome {
        Ok(value) => Retry::Finished(Ok(value)),
        Err(err) => if is_busy(err) {
            Retry::Again { delay_ms: RETRY_DELAY_MS }
        } else {
            Retry::Finished(Err(CacheError::DatabaseError(err)))
        },
    }
}

/// Decides after each attempt of a database operation: it is retried until it succeeds or
/// encounters a non-busy error.
pub fn retry_on_busy<T>(outcome: Result<T, sqlx::Error>) -> (next: Retry<T>)
    ensures
        next == retry(outcome),
{
    match outcome {
        Ok(value) => Retry::Finished(Ok(value)),
        Err(err) => {
            if is_sqlite_busy_error(&err) {
                Retry::Again { delay_ms: RETRY_DELAY_MS }
            } else {
                Retry::Finished(Err(CacheError::from(err)))
            }
        },
    }
}

} // verus!
