//! Setting up a connection pool with a cache table made from a migration file.
//!
//! A plainer way to open a database than the one in `init`: nothing is retried. Whoever sets the
//! pool up does what the stage says and hands the result back. `P` is the type of a connection
//! pool.
use vstd::prelude::*;
use vstd::string::to_string_from_display_ensures;

verus! {

/// How many connections a pool may hold.
pub const MAX_CONNECTIONS: u32 = 10;

/// How long to wait for a connection, in seconds.
pub const ACQUIRE_TIMEOUT_SECS: u64 = 10;

/// Why the database could not be opened.
#[derive(Debug)]
pub enum DbError {
    /// The database answered with an error.
    DatabaseError(sqlx::Error),
    /// A migration failed.
    MigrationError(String),
    /// Reading or writing a file failed.
    IoError(std::io::Error),
    /// The connection pool failed.
    PoolError(String),
}

/// The characters and errors that a `DbError` holds.
pub enum DbErrorView {
    DatabaseError(sqlx::Error),
    MigrationError(Seq<char>),
    IoError(std::io::Error),
    PoolError(Seq<char>),
}

impl View for DbError {
    type V = DbErrorView;

    open spec fn view(&self) -> DbErrorView {
        match *self {
            DbError::DatabaseError(err) => DbErrorView::DatabaseError(err),
            DbError::MigrationError(text) => DbErrorView::MigrationError(text@),
            DbError::IoError(err) => DbErrorView::IoError(err),
            DbError::PoolError(text) => DbErrorView::PoolError(text@),
        }
    }
}

impl From<sqlx::Error> for DbError {
    fn from(err: sqlx::Error) -> (ret: Self) {
        DbError::DatabaseError(err)
    }
}

impl vstd::std_specs::convert::FromSpecImpl<sqlx::Error> for DbError {
    open spec fn obeys_from_spec() -> bool {
        true
    }

    open spec fn from_spec(err: sqlx::Error) -> Self {
        DbError::DatabaseError(err)
    }
}

impl From<std::io::Error> for DbError {
    fn from(err: std::io::Error) -> (ret: Self) {
        DbError::IoError(err)
    }
}

impl vstd::std_specs::convert::FromSpecImpl<std::io::Error> for DbError {
    open spec fn obeys_from_spec() -> bool {
        true
    }

    open spec fn from_spec(err: std::io::Error) -> Self {
        DbError::IoError(err)
    }
}

/// What is to be done next.
#[derive(Debug)]
pub enum Stage<P> {
    /// Find out whether the directory of the database is missing.
    FindParent,
    /// Create the directory of the database.
    CreateParent,
    /// Find out whether the database exists.
    FindDatabase,
    /// Create the database.
    CreateDatabase,
    /// Connect to the database, with `MAX_CONNECTIONS` and `ACQUIRE_TIMEOUT_SECS`.
    Connect,
    /// Read the migration file.
    ReadMigration {
        /// The connection.
        pool: P,
    },
    /// Execute the migration.
    Migrate {
        /// The connection.
        pool: P,
        /// The text of the migration.
        sql: String,
    },
}

/// The mathematical value of a `Stage`.
#[verifier::ext_equal]
pub enum StageView<P> {
    FindParent,
    CreateParent,
    FindDatabase,
    CreateDatabase,
    Connect,
    ReadMigration { pool: P },
    Migrate { pool: P, sql: Seq<char> },
}

impl<P> View for Stage<P> {
    type V = StageView<P>;

    open spec fn view(&self) -> StageView<P> {
        match *self {
            Stage::FindParent => StageView::FindParent,
            Stage::CreateParent => StageView::CreateParent,
            Stage::FindDatabase => StageView::FindDatabase,
            Stage::CreateDatabase => StageView::CreateDatabase,
            Stage::Connect => StageView::Connect,
            Stage::ReadMigration { pool } => StageView::ReadMigration { pool },
            Stage::Migrate { pool, sql } => StageView::Migrate { pool, sql: sql@ },
        }
    }
}

/// What came of it.
#[derive(Debug)]
pub enum Event<P> {
    /// The database has a directory that does not exist (`true`), or not.
    ParentMissing(bool),
    /// The directory was created, or was not.
    ParentCreated(Result<(), std::io::Error>),
    /// The database exists (`true`) or not, or nothing could be found out.
    DatabaseFound(Result<bool, sqlx::Error>),
    /// The database was created, or was not.
    DatabaseCreated(Result<(), sqlx::Error>),
    /// The connection was made, or was not.
    Connected(Result<P, sqlx::Error>),
    /// The migration file was read, or was not.
    MigrationRead(Result<String, std::io::Error>),
    /// The migration was executed, or was not.
    Migrated(Result<(), sqlx::Error>),
}

/// How the setting up goes on.
#[derive(Debug)]
pub enum ConnectionTurn<P> {
    /// Do what the stage says.
    Act(Stage<P>),
    /// Nothing more: this is the result.
    Finished(Result<P, DbError>),
}

/// The mathematical value of a `ConnectionTurn`.
#[verifier::ext_equal]
pub enum ConnectionTurnView<P> {
    Act(StageView<P>),
    Finished(Result<P, DbErrorView>),
}

impl<P> View for ConnectionTurn<P> {
    type V = ConnectionTurnView<P>;

    open spec fn view(&self) -> ConnectionTurnView<P> {
        match *self {
            ConnectionTurn::Act(stage) => ConnectionTurnView::Act(stage@),
            ConnectionTurn::Finished(Ok(pool)) => ConnectionTurnView::Finished(Ok(pool)),
            ConnectionTurn::Finished(Err(err)) => ConnectionTurnView::Finished(Err(err@)),
        }
    }
}

/// Where the migration stands.
pub open spec fn migration_path_text() -> Seq<char> {
    "migrations/20230101000000_create_cache_table/up.sql"@
}

/// Whether `text` is what the error that the event brings is displayed as, if the error is one of
/// those that become part of a text.
pub open spec fn event_text<P>(event: Event<P>, text: String) -> bool {
    match event {
        Event::Connected(Err(err)) => to_string_from_display_ensures::<sqlx::Error>(&err, text),
        Event::MigrationRead(Err(err)) => to_string_from_display_ensures::<std::io::Error>(
            &err,
            text,
        ),
        Event::Migrated(Err(err)) => to_string_from_display_ensures::<sqlx::Error>(&err, text),
        _ => true,
    }
}

impl<P> StageView<P> {
    /// Whether an event is one that the stage can bring about.
    pub open spec fn accepts(self, event: Event<P>) -> bool {
        match self {
            StageView::FindParent => event is ParentMissing,
            StageView::CreateParent => event is ParentCreated,
            StageView::FindDatabase => event is DatabaseFound,
            StageView::CreateDatabase => event is DatabaseCreated,
            StageView::Connect => event is Connected,
            StageView::ReadMigration { .. } => event is MigrationRead,
            StageView::Migrate { .. } => event is Migrated,
        }
    }

    /// How the setting up goes on after an event. `text` is what the error that it brings is
    /// displayed as.
    pub open spec fn next(self, event: Event<P>, text: Seq<char>) -> ConnectionTurnView<P> {
        match self {
            StageView::FindParent => ConnectionTurnView::Act(
                if event->ParentMissing_0 {
                    StageView::CreateParent
                } else {
                    StageView::FindDatabase
                },
            ),
            StageView::CreateParent => match event->ParentCreated_0 {
                Ok(()) => ConnectionTurnView::Act(StageView::FindDatabase),
                Err(err) => ConnectionTurnView::Finished(Err(DbErrorView::IoError(err))),
            },
            StageView::FindDatabase => ConnectionTurnView::Act(
                if event->DatabaseFound_0 == Ok::<bool, sqlx::Error>(true) {
                    StageView::Connect
                } else {
                    StageView::CreateDatabase
                },
            ),
            StageView::CreateDatabase => match event->DatabaseCreated_0 {
                Ok(()) => ConnectionTurnView::Act(StageView::Connect),
                Err(err) => ConnectionTurnView::Finished(Err(DbErrorView::DatabaseError(err))),
            },
            StageView::Connect => match event->Connected_0 {
                Ok(pool) => ConnectionTurnView::Act(StageView::ReadMigration { pool }),
                Err(_) => ConnectionTurnView::Finished(Err(DbErrorView::PoolError(text))),
            },
            StageView::ReadMigration { pool } => match event->MigrationRead_0 {
                Ok(sql) => ConnectionTurnView::Act(StageView::Migrate { pool, sql: sql@ }),
                Err(_) => ConnectionTurnView::Finished(
                    Err(DbErrorView::MigrationError("Failed to read migration file: "@ + text)),
                ),
            },
            StageView::Migrate { pool, .. } => match event->Migrated_0 {
                Ok(()) => ConnectionTurnView::Finished(Ok(pool)),
                Err(_) => ConnectionTurnView::Finished(Err(DbErrorView::MigrationError(text))),
            },
        }
    }
}

impl<P> Stage<P> {
    /// Whether an event is one that the stage can bring about.
    pub fn can_take(&self, event: &Event<P>) -> (taken: bool)
        ensures
            taken == self@.accepts(*event),
    {
        match self {
            Stage::FindParent => matches!(event, Event::ParentMissing(_)),
            Stage::CreateParent => matches!(event, Event::ParentCreated(_)),
            Stage::FindDatabase => matches!(event, Event::DatabaseFound(_)),
            Stage::CreateDatabase => matches!(event, Event::DatabaseCreated(_)),
            Stage::Connect => matches!(event, Event::Connected(_)),
            Stage::ReadMigration { .. } => matches!(event, Event::MigrationRead(_)),
            Stage::Migrate { .. } => matches!(event, Event::Migrated(_)),
        }
    }
}

/// Where the migration stands.
pub fn migration_path() -> (path: String)
    ensures
        path@ == migration_path_text(),
{
    "migrations/20230101000000_create_cache_table/up.sql".to_owned()
}

/// Decides after each stage how the setting up of a connection goes on, when the error that the
/// event brings is displayed as `text`.
pub fn setup_with_text<P>(stage: Stage<P>, event: Event<P>, text: String) -> (turn: ConnectionTurn<
    P,
>)
    requires
        stage@.accepts(event),
    ensures
        turn@ == stage@.next(event, text@),
{
    match (stage, event) {
        (Stage::FindParent, Event::ParentMissing(missing)) => if missing {
            ConnectionTurn::Act(Stage::CreateParent)
        } else {
            ConnectionTurn::Act(Stage::FindDatabase)
        },
        (Stage::CreateParent, Event::ParentCreated(result)) => match result {
            Ok(()) => ConnectionTurn::Act(Stage::FindDatabase),
            Err(err) => ConnectionTurn::Finished(Err(DbError::from(err))),
        },
        (Stage::FindDatabase, Event::DatabaseFound(result)) => match result {
            Ok(true) => ConnectionTurn::Act(Stage::Connect),
            _ => ConnectionTurn::Act(Stage::CreateDatabase),
        },
        (Stage::CreateDatabase, Event::DatabaseCreated(result)) => match result {
            Ok(()) => ConnectionTurn::Act(Stage::Connect),
            Err(err) => ConnectionTurn::Finished(Err(DbError::from(err))),
        },
        (Stage::Connect, Event::Connected(result)) => match result {
            Ok(pool) => ConnectionTurn::Act(Stage::ReadMigration { pool }),
            Err(_) => ConnectionTurn::Finished(Err(DbError::PoolError(text))),
        },
        (Stage::ReadMigration { pool }, Event::MigrationRead(result)) => match result {
            Ok(sql) => ConnectionTurn::Act(Stage::Migrate { pool, sql }),
            Err(_) => ConnectionTurn::Finished(
                Err(
                    DbError::MigrationError(
                        "Failed to read migration file: ".to_owned().concat(text.as_str()),
                    ),
                ),
            ),
        },
        (Stage::Migrate { pool, .. }, Event::Migrated(result)) => match result {
            Ok(()) => ConnectionTurn::Finished(Ok(pool)),
            Err(_) => ConnectionTurn::Finished(Err(DbError::MigrationError(text))),
        },
        _ => {
            assert(false);
            vstd::pervasive::unreached()
        },
    }
}

/// Decides after each stage how the setting up of a connection goes on. It begins with
/// `Stage::FindParent`.
pub fn setup_db_connection<P>(stage: Stage<P>, event: Event<P>) -> (turn: ConnectionTurn<P>)
    requires
        stage@.accepts(event),
    ensures
        exists|text: String| #[trigger]
            event_text(event, text) && turn@ == stage@.next(event, text@),
{
    let text = match &event {
        Event::Connected(Err(err)) => err.to_string(),
        Event::MigrationRead(Err(err)) => err.to_string(),
        Event::Migrated(Err(err)) => err.to_string(),
        _ => String::new(),
    };
    let ghost shown = text;
    assert(event_text(event, shown));
    setup_with_text(stage, event, text)
}

} // verus!
