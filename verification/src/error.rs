//! The errors of the cache, and how the store's own errors are told apart.
use crate::database::{db_error_shown, db_error_text, DbError};
use vstd::prelude::*;
use vstd::string::to_string_from_display_ensures;

verus! {

/// The error type of sqlx, carried through unopened.
#[verifier::external_type_specification]
#[verifier::external_body]
pub struct ExSqlxError(sqlx::Error);

/// The input and output error of the standard library, carried through unopened.
#[verifier::external_type_specification]
#[verifier::external_body]
pub struct ExIoError(std::io::Error);

/// What the standard library answers when the clock stands before the Unix epoch.
#[verifier::external_type_specification]
#[verifier::external_body]
pub struct ExSystemTimeError(std::time::SystemTimeError);

/// Everything that can go wrong in the cache.
#[derive(Debug)]
pub enum CacheError {
    /// The database answered with an error.
    DatabaseError(sqlx::Error),
    /// There is no such key.
    KeyNotFound,
    /// The value has expired.
    ValueExpired,
    /// A migration failed.
    MigrationError(String),
    /// Reading or writing a file failed.
    IoError(std::io::Error),
    /// The connection pool failed.
    PoolError(String),
    /// The database could not be opened.
    DbConnectionError(DbError),
    /// The clock stands before the Unix epoch.
    SystemTimeError(std::time::SystemTimeError),
    /// A lock was poisoned.
    MutexLockError,
    /// A value cannot be used.
    InvalidValue(String),
    /// The current time plus the time to live is not less than 2^63 - 1 seconds.
    TtlValueOverflow,
}

/// The text of an error. `shown` is what the error that it carries is displayed as.
pub open spec fn cache_error_text(err: CacheError, shown: Seq<char>) -> Seq<char> {
    match err {
        CacheError::DatabaseError(_) => "Database error: "@ + shown,
        CacheError::KeyNotFound => "Key not found"@,
        CacheError::ValueExpired => "Value expired"@,
        CacheError::MigrationError(text) => "Migration error: "@ + text@,
        CacheError::IoError(_) => "IO error: "@ + shown,
        CacheError::PoolError(text) => "Pool error: "@ + text@,
        CacheError::DbConnectionError(err) => "DB connection error: "@ + db_error_text(err@, shown),
        CacheError::SystemTimeError(_) => "System time error: "@ + shown,
        CacheError::MutexLockError => "Mutex lock error"@,
        CacheError::InvalidValue(text) => "Invalid value: "@ + text@,
        CacheError::TtlValueOverflow =>
            "TTL value overflow. Current time (seconds) + TTL (seconds) must be less than (2^63)-1 seconds"@,
    }
}

/// Whether `shown` is what the error that `err` carries, if it carries one, is displayed as.
pub open spec fn cache_error_shown(err: CacheError, shown: String) -> bool {
    match err {
        CacheError::DatabaseError(err) => to_string_from_display_ensures::<sqlx::Error>(
            &err,
            shown,
        ),
        CacheError::IoError(err) => to_string_from_display_ensures::<std::io::Error>(&err, shown),
        CacheError::DbConnectionError(err) => db_error_shown(err, shown),
        CacheError::SystemTimeError(err) => to_string_from_display_ensures::<
            std::time::SystemTimeError,
        >(&err, shown),
        _ => true,
    }
}

impl CacheError {
    /// The text of the error, when the error that it carries is displayed as `shown`.
    pub fn message_with(&self, shown: &str) -> (text: String)
        ensures
            text@ == cache_error_text(*self, shown@),
    {
        match self {
            CacheError::DatabaseError(_) => "Database error: ".to_owned().concat(shown),
            CacheError::KeyNotFound => "Key not found".to_owned(),
            CacheError::ValueExpired => "Value expired".to_owned(),
            CacheError::MigrationError(text) => "Migration error: ".to_owned().concat(
                text.as_str(),
            ),
            CacheError::IoError(_) => "IO error: ".to_owned().concat(shown),
            CacheError::PoolError(text) => "Pool error: ".to_owned().concat(text.as_str()),
            CacheError::DbConnectionError(err) => {
                let inner = err.message_with(shown);
                "DB connection error: ".to_owned().concat(inner.as_str())
            },
            CacheError::SystemTimeError(_) => "System time error: ".to_owned().concat(shown),
            CacheError::MutexLockError => "Mutex lock error".to_owned(),
            CacheError::InvalidValue(text) => "Invalid value: ".to_owned().concat(text.as_str()),
            CacheError::TtlValueOverflow =>
                "TTL value overflow. Current time (seconds) + TTL (seconds) must be less than (2^63)-1 seconds".to_owned(),
        }
    }

    /// The text of the error.
    pub fn message(&self) -> (text: String)
        ensures
            exists|shown: String| #[trigger]
                cache_error_shown(*self, shown) && text@ == cache_error_text(*self, shown@),
    {
        let shown = match self {
            CacheError::DatabaseError(err) => err.to_string(),
            CacheError::IoError(err) => err.to_string(),
            CacheError::DbConnectionError(err) => err.shown(),
            CacheError::SystemTimeError(err) => err.to_string(),
            _ => String::new(),
        };
        assert(cache_error_shown(*self, shown));
        self.message_with(shown.as_str())
    }
}

impl From<sqlx::Error> for CacheError {
    fn from(err: sqlx::Error) -> (ret: Self) {
        CacheError::DatabaseError(err)
    }
}

impl vstd::std_specs::convert::FromSpecImpl<sqlx::Error> for CacheError {
    open spec fn obeys_from_spec() -> bool {
        true
    }

    open spec fn from_spec(err: sqlx::Error) -> Self {
        CacheError::DatabaseError(err)
    }
}

impl From<std::io::Error> for CacheError {
    fn from(err: std::io::Error) -> (ret: Self) {
        CacheError::IoError(err)
    }
}

impl vstd::std_specs::convert::FromSpecImpl<std::io::Error> for CacheError {
    open spec fn obeys_from_spec() -> bool {
        true
    }

    open spec fn from_spec(err: std::io::Error) -> Self {
        CacheError::IoError(err)
    }
}

impl From<DbError> for CacheError {
    fn from(err: DbError) -> (ret: Self) {
        CacheError::DbConnectionError(err)
    }
}

impl vstd::std_specs::convert::FromSpecImpl<DbError> for CacheError {
    open spec fn obeys_from_spec() -> bool {
        true
    }

    open spec fn from_spec(err: DbError) -> Self {
        CacheError::DbConnectionError(err)
    }
}

impl From<std::time::SystemTimeError> for CacheError {
    fn from(err: std::time::SystemTimeError) -> (ret: Self) {
        CacheError::SystemTimeError(err)
    }
}

impl vstd::std_specs::convert::FromSpecImpl<std::time::SystemTimeError> for CacheError {
    open spec fn obeys_from_spec() -> bool {
        true
    }

    open spec fn from_spec(err: std::time::SystemTimeError) -> Self {
        CacheError::SystemTimeError(err)
    }
}

/// The characters of a text that may be missing.
pub open spec fn optional_text(text: Option<String>) -> Option<Seq<char>> {
    match text {
        Some(text) => Some(text@),
        None => None,
    }
}

/// The code that the database gave with an error: what `DatabaseError::code` of sqlx answers for
/// the error that `sqlx::Error::Database` holds. Errors of any other kind have no code.
pub uninterp spec fn error_code(err: sqlx::Error) -> Option<Seq<char>>;

/// Calls `sqlx::error::DatabaseError::code` on the error that the database returned.
///
/// Claimed: the answer is the code that belongs to the error. The drivers of sqlx read the code out
/// of the error value, so that the same error always has the same code. Nothing is claimed of
/// which error has which code.
#[verifier::external_body]
fn database_error_code(err: &sqlx::Error) -> (code: Option<String>)
    ensures
        optional_text(code) == error_code(*err),
{
    match err {
        sqlx::Error::Database(db_err) => db_err.code().map(|code| code.into_owned()),
        _ => None,
    }
}

/// Whether a code says that the database is busy (5) or that a table is locked (6).
pub open spec fn busy_code(code: Option<Seq<char>>) -> bool {
    code == Some("5"@) || code == Some("6"@)
}

/// Whether a code says that a row with the same primary key is already there (1555).
pub open spec fn unique_code(code: Option<Seq<char>>) -> bool {
    code == Some("1555"@)
}

/// Whether an error says that the database is busy or locked.
pub open spec fn is_busy(err: sqlx::Error) -> bool {
    busy_code(error_code(err))
}

/// Whether an error says that a row with the same primary key is already there.
pub open spec fn is_unique_violation(err: sqlx::Error) -> bool {
    unique_code(error_code(err))
}

/// Checks a code for "busy" or "locked".
pub fn is_busy_code(code: &Option<String>) -> (busy: bool)
    ensures
        busy == busy_code(optional_text(*code)),
{
    match code {
        Some(code) => *code == "5".to_owned() || *code == "6".to_owned(),
        None => false,
    }
}

/// Checks a code for a violated primary key.
pub fn is_unique_code(code: &Option<String>) -> (unique: bool)
    ensures
        unique == unique_code(optional_text(*code)),
{
    match code {
        Some(code) => *code == "1555".to_owned(),
        None => false,
    }
}

/// Checks if the given error is an SQLite "busy" or "locked" error.
pub fn is_sqlite_busy_error(err: &sqlx::Error) -> (busy: bool)
    ensures
        busy == is_busy(*err),
{
    is_busy_code(&database_error_code(err))
}

/// Checks if the given error is an SQLite primary key violation.
pub fn is_sqlite_unique_error(err: &sqlx::Error) -> (unique: bool)
    ensures
        unique == is_unique_violation(*err),
{
    is_unique_code(&database_error_code(err))
}

} // verus!
