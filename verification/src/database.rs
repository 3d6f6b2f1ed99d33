//! The statements that the cache sends to its SQLite database, and the rows that come back.
//!
//! Each function builds the text of one statement and the values bound to its placeholders, in
//! the order of the placeholders.
use vstd::prelude::*;
use vstd::string::to_string_from_display_ensures;

verus! {

/// Why the database could not be opened.
#[derive(Debug)]
pub enum DbError {
    /// The database answered with an error.
    Database(sqlx::Error),
    /// Reading or writing a file failed.
    Io(std::io::Error),
    /// The connection pool failed.
    Pool(String),
}

/// The characters and errors that a `DbError` holds.
pub enum DbErrorView {
    Database(sqlx::Error),
    Io(std::io::Error),
    Pool(Seq<char>),
}

impl View for DbError {
    type V = DbErrorView;

    open spec fn view(&self) -> DbErrorView {
        match *self {
            DbError::Database(err) => DbErrorView::Database(err),
            DbError::Io(err) => DbErrorView::Io(err),
            DbError::Pool(text) => DbErrorView::Pool(text@),
        }
    }
}

/// The text of an error. `shown` is what the error that it carries is displayed as.
pub open spec fn db_error_text(err: DbErrorView, shown: Seq<char>) -> Seq<char> {
    match err {
        DbErrorView::Database(_) => "Database error: "@ + shown,
        DbErrorView::Io(_) => "IO error: "@ + shown,
        DbErrorView::Pool(text) => "Pool error: "@ + text,
    }
}

/// Whether `shown` is what the error that `err` carries, if it carries one, is displayed as.
pub open spec fn db_error_shown(err: DbError, shown: String) -> bool {
    match err {
        DbError::Database(err) => to_string_from_display_ensures::<sqlx::Error>(&err, shown),
        DbError::Io(err) => to_string_from_display_ensures::<std::io::Error>(&err, shown),
        DbError::Pool(_) => true,
    }
}

impl DbError {
    /// What the error that this one carries is displayed as, and nothing if it carries none.
    pub(crate) fn shown(&self) -> (shown: String)
        ensures
            db_error_shown(*self, shown),
    {
        match self {
            DbError::Database(err) => err.to_string(),
            DbError::Io(err) => err.to_string(),
            DbError::Pool(_) => String::new(),
        }
    }

    /// The text of the error, when the error that it carries is displayed as `shown`.
    pub fn message_with(&self, shown: &str) -> (text: String)
        ensures
            text@ == db_error_text(self@, shown@),
    {
        match self {
            DbError::Database(_) => "Database error: ".to_owned().concat(shown),
            DbError::Io(_) => "IO error: ".to_owned().concat(shown),
            DbError::Pool(text) => "Pool error: ".to_owned().concat(text.as_str()),
        }
    }

    /// The text of the error.
    pub fn message(&self) -> (text: String)
        ensures
            exists|shown: String| #[trigger]
                db_error_shown(*self, shown) && text@ == db_error_text(self@, shown@),
    {
        let shown = self.shown();
        self.message_with(shown.as_str())
    }
}

impl From<sqlx::Error> for DbError {
    fn from(err: sqlx::Error) -> (ret: Self) {
        DbError::Database(err)
    }
}

impl vstd::std_specs::convert::FromSpecImpl<sqlx::Error> for DbError {
    open spec fn obeys_from_spec() -> bool {
        true
    }

    open spec fn from_spec(err: sqlx::Error) -> Self {
        DbError::Database(err)
    }
}

impl From<std::io::Error> for DbError {
    fn from(err: std::io::Error) -> (ret: Self) {
        DbError::Io(err)
    }
}

impl vstd::std_specs::convert::FromSpecImpl<std::io::Error> for DbError {
    open spec fn obeys_from_spec() -> bool {
        true
    }

    open spec fn from_spec(err: std::io::Error) -> Self {
        DbError::Io(err)
    }
}

/// The row that answers whether a key is there.
#[derive(Debug, Clone, Copy, PartialEq, Eq)]
pub struct KeyExistsResult {
    /// Whether the key is there.
    pub exists: bool,
}

/// The row that holds a value.
#[derive(Debug, Clone)]
pub struct CacheEntry {
    /// The stored bytes.
    pub cache_value: Vec<u8>,
    /// The time of expiration in seconds since the Unix epoch, if there is one.
    pub expires: Option<i64>,
}

impl View for CacheEntry {
    type V = (Seq<u8>, Option<i64>);

    open spec fn view(&self) -> (Seq<u8>, Option<i64>) {
        (self.cache_value@, self.expires)
    }
}

/// The row that holds a key.
#[derive(Debug, Clone)]
pub struct CacheKey {
    /// The key.
    pub cache_key: String,
}

impl View for CacheKey {
    type V = Seq<char>;

    open spec fn view(&self) -> Seq<char> {
        self.cache_key@
    }
}

/// A value bound to a placeholder of a statement.
#[derive(Debug, Clone)]
pub enum Bind {
    /// A text.
    Text(String),
    /// A string of bytes.
    Blob(Vec<u8>),
    /// A number.
    Integer(i64),
    /// A number or NULL.
    Nullable(Option<i64>),
}

/// The mathematical value of a `Bind`.
pub enum BindView {
    Text(Seq<char>),
    Blob(Seq<u8>),
    Integer(i64),
    Nullable(Option<i64>),
}

impl View for Bind {
    type V = BindView;

    open spec fn view(&self) -> BindView {
        match *self {
            Bind::Text(text) => BindView::Text(text@),
            Bind::Blob(bytes) => BindView::Blob(bytes@),
            Bind::Integer(number) => BindView::Integer(number),
            Bind::Nullable(number) => BindView::Nullable(number),
        }
    }
}

/// Which rows a statement gives back.
#[derive(Debug, Clone, Copy, PartialEq, Eq, Structural)]
pub enum Fetch {
    /// No rows: the statement is executed for its effect.
    Nothing,
    /// One `KeyExistsResult`.
    Exists,
    /// At most one `CacheEntry`.
    Entry,
    /// Any number of `CacheKey`s.
    Keys,
}

/// A statement of SQL with the values of its placeholders.
#[derive(Debug, Clone)]
pub struct Statement {
    /// The text.
    pub sql: String,
    /// The values, in the order of the placeholders.
    pub binds: Vec<Bind>,
    /// The rows that come back.
    pub fetch: Fetch,
}

/// The mathematical value of a `Statement`.
#[verifier::ext_equal]
pub struct StatementView {
    pub sql: Seq<char>,
    pub binds: Seq<BindView>,
    pub fetch: Fetch,
}

impl View for Statement {
    type V = StatementView;

    open spec fn view(&self) -> StatementView {
        StatementView {
            sql: self.sql@,
            binds: self.binds@.map_values(|bind: Bind| bind@),
            fetch: self.fetch,
        }
    }
}

/// The statements that the cache knows, by what they ask for.
#[verifier::ext_equal]
pub enum Query {
    KeyExists { key: Seq<char> },
    Update { key: Seq<char>, value: Seq<u8>, expires: Option<i64>, last_accessed: i64 },
    Insert { key: Seq<char>, value: Seq<u8>, expires: Option<i64>, last_accessed: i64 },
    Get { key: Seq<char> },
    Touch { key: Seq<char>, last_accessed: i64 },
    Delete { key: Seq<char> },
    Expired { now: i64 },
    DeleteBatch { keys: Seq<Seq<char>> },
}

/// `n` question marks with commas between them.
pub open spec fn placeholders(n: nat) -> Seq<char>
    decreases n,
{
    if n == 0 {
        Seq::empty()
    } else if n == 1 {
        "?"@
    } else {
        placeholders((n - 1) as nat) + ",?"@
    }
}

impl Query {
    /// The statement in SQL.
    pub open spec fn statement(self) -> StatementView {
        match self {
            Query::KeyExists { key } => StatementView {
                sql: "SELECT EXISTS(SELECT 1 FROM cache WHERE cache_key = ?) as \"exists\""@,
                binds: seq![BindView::Text(key)],
                fetch: Fetch::Exists,
            },
            Query::Update { key, value, expires, last_accessed } => StatementView {
                sql:
                    "UPDATE cache SET cache_value = ?, expires = ?, last_accessed = ? WHERE cache_key = ?"@,
                binds: seq![
                    BindView::Blob(value),
                    BindView::Nullable(expires),
                    BindView::Integer(last_accessed),
                    BindView::Text(key),
                ],
                fetch: Fetch::Nothing,
            },
            Query::Insert { key, value, expires, last_accessed } => StatementView {
                sql:
                    "INSERT INTO cache (cache_key, cache_value, expires, last_accessed) VALUES (?, ?, ?, ?)"@,
                binds: seq![
                    BindView::Text(key),
                    BindView::Blob(value),
                    BindView::Nullable(expires),
                    BindView::Integer(last_accessed),
                ],
                fetch: Fetch::Nothing,
            },
            Query::Get { key } => StatementView {
                sql: "SELECT cache_value, expires FROM cache WHERE cache_key = ?"@,
                binds: seq![BindView::Text(key)],
                fetch: Fetch::Entry,
            },
            Query::Touch { key, last_accessed } => StatementView {
                sql: "UPDATE cache SET last_accessed = ? WHERE cache_key = ?"@,
                binds: seq![BindView::Integer(last_accessed), BindView::Text(key)],
                fetch: Fetch::Nothing,
            },
            Query::Delete { key } => StatementView {
                sql: "DELETE FROM cache WHERE cache_key = ?"@,
                binds: seq![BindView::Text(key)],
                fetch: Fetch::Nothing,
            },
            Query::Expired { now } => StatementView {
                sql: "SELECT cache_key FROM cache WHERE expires < ? AND expires IS NOT NULL"@,
                binds: seq![BindView::Integer(now)],
                fetch: Fetch::Keys,
            },
            Query::DeleteBatch { keys } => StatementView {
                sql: "DELETE FROM cache WHERE cache_key IN ("@ + placeholders(keys.len()) + ")"@,
                binds: keys.map_values(|key: Seq<char>| BindView::Text(key)),
                fetch: Fetch::Nothing,
            },
        }
    }
}

/// The keys in a list of strings.
pub open spec fn texts(keys: Seq<String>) -> Seq<Seq<char>> {
    keys.map_values(|key: String| key@)
}

/// Asks whether a key is there.
pub fn key_exists(key: &str) -> (statement: Statement)
    ensures
        statement@ == (Query::KeyExists { key: key@ }).statement(),
{
    let statement = Statement {
        sql: "SELECT EXISTS(SELECT 1 FROM cache WHERE cache_key = ?) as \"exists\"".to_owned(),
        binds: vec![Bind::Text(key.to_owned())],
        fetch: Fetch::Exists,
    };
    assert(statement@ =~= (Query::KeyExists { key: key@ }).statement());
    statement
}

/// Overwrites the value of a key that is there.
pub fn update_cache_entry(
    key: &str,
    value: &[u8],
    expires: Option<i64>,
    last_accessed: i64,
) -> (statement: Statement)
    ensures
        statement@ == (Query::Update {
            key: key@,
            value: value@,
            expires,
            last_accessed,
        }).statement(),
{
    let statement = Statement {
        sql: "UPDATE cache SET cache_value = ?, expires = ?, last_accessed = ? WHERE cache_key = ?".to_owned(),
        binds: vec![
            Bind::Blob(vstd::slice::slice_to_vec(value)),
            Bind::Nullable(expires),
            Bind::Integer(last_accessed),
            Bind::Text(key.to_owned()),
        ],
        fetch: Fetch::Nothing,
    };
    assert(statement@ =~= (Query::Update { key: key@, value: value@, expires, last_accessed }).statement());
    statement
}

/// Adds a key with its value.
pub fn insert_cache_entry(
    key: &str,
    value: &[u8],
    expires: Option<i64>,
    last_accessed: i64,
) -> (statement: Statement)
    ensures
        statement@ == (Query::Insert {
            key: key@,
            value: value@,
            expires,
            last_accessed,
        }).statement(),
{
    let statement = Statement {
        sql: "INSERT INTO cache (cache_key, cache_value, expires, last_accessed) VALUES (?, ?, ?, ?)".to_owned(),
        binds: vec![
            Bind::Text(key.to_owned()),
            Bind::Blob(vstd::slice::slice_to_vec(value)),
            Bind::Nullable(expires),
            Bind::Integer(last_accessed),
        ],
        fetch: Fetch::Nothing,
    };
    assert(statement@ =~= (Query::Insert { key: key@, value: value@, expires, last_accessed }).statement());
    statement
}

/// Reads the value of a key.
pub fn get_cache_entry(key: &str) -> (statement: Statement)
    ensures
        statement@ == (Query::Get { key: key@ }).statement(),
{
    let statement = Statement {
        sql: "SELECT cache_value, expires FROM cache WHERE cache_key = ?".to_owned(),
        binds: vec![Bind::Text(key.to_owned())],
        fetch: Fetch::Entry,
    };
    assert(statement@ =~= (Query::Get { key: key@ }).statement());
    statement
}

/// Notes when a key was last used.
pub fn update_last_accessed(key: &str, last_accessed: i64) -> (statement: Statement)
    ensures
        statement@ == (Query::Touch { key: key@, last_accessed }).statement(),
{
    let statement = Statement {
        sql: "UPDATE cache SET last_accessed = ? WHERE cache_key = ?".to_owned(),
        binds: vec![Bind::Integer(last_accessed), Bind::Text(key.to_owned())],
        fetch: Fetch::Nothing,
    };
    assert(statement@ =~= (Query::Touch { key: key@, last_accessed }).statement());
    statement
}

/// Removes a key.
pub fn delete_cache_entry(key: &str) -> (statement: Statement)
    ensures
        statement@ == (Query::Delete { key: key@ }).statement(),
{
    let statement = Statement {
        sql: "DELETE FROM cache WHERE cache_key = ?".to_owned(),
        binds: vec![Bind::Text(key.to_owned())],
        fetch: Fetch::Nothing,
    };
    assert(statement@ =~= (Query::Delete { key: key@ }).statement());
    statement
}

/// Asks for all keys whose time of expiration lies before `now`.
pub fn get_expired_keys(now: i64) -> (statement: Statement)
    ensures
        statement@ == (Query::Expired { now }).statement(),
{
    let statement = Statement {
        sql: "SELECT cache_key FROM cache WHERE expires < ? AND expires IS NOT NULL".to_owned(),
        binds: vec![Bind::Integer(now)],
        fetch: Fetch::Keys,
    };
    assert(statement@ =~= (Query::Expired { now }).statement());
    statement
}

/// Removes several keys at once. There is no statement to send if there are no keys.
///
/// SQLite has no array parameters, so that the statement has one placeholder for each key.
pub fn delete_keys_batch(keys: &Vec<String>) -> (statement: Option<Statement>)
    ensures
        statement is None <==> keys@.len() == 0,
        statement matches Some(statement) ==> statement@ == (Query::DeleteBatch {
            keys: texts(keys@),
        }).statement(),
{
    if keys.len() == 0 {
        return None;
    }
    let mut sql = "DELETE FROM cache WHERE cache_key IN (".to_owned();
    let mut binds: Vec<Bind> = Vec::new();
    let mut i: usize = 0;
    let ghost opening = sql@;
    while i < keys.len()
        invariant
            0 <= i <= keys@.len(),
            opening == "DELETE FROM cache WHERE cache_key IN ("@,
            sql@ == opening + placeholders(i as nat),
            binds@.len() == i,
            forall|j: int| 0 <= j < i ==> #[trigger] binds@[j]@ == BindView::Text(keys@[j]@),
        decreases keys@.len() - i,
    {
        if i == 0 {
            sql.append("?");
        } else {
            sql.append(",?");
        }
        assert(sql@ =~= opening + placeholders((i + 1) as nat));
        binds.push(Bind::Text(keys[i].clone()));
        i = i + 1;
    }
    sql.append(")");
    let statement = Statement { sql, binds, fetch: Fetch::Nothing };
    assert(statement@ =~= (Query::DeleteBatch { keys: texts(keys@) }).statement());
    Some(statement)
}

} // verus!
