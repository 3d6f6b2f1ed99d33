//! Setting up a connection pool for a database that may have to be created first.
//!
//! Whoever sets it up does what the stage says, waits as told, and hands the result back. `P` is
//! the type of a connection pool.
use crate::database::{DbError, DbErrorView};
use crate::error::{is_busy, is_sqlite_busy_error};
use vstd::prelude::*;
use vstd::string::to_string_from_display_ensures;

verus! {

/// How often creating the database and connecting to it are attempted.
pub const MAX_CONNECT_RETRIES: u32 = 10;

/// The pause between two attempts, in milliseconds.
pub const CONNECT_DELAY_MS: u64 = 10;

/// How many connections a pool may hold.
pub const MAX_CONNECTIONS: u32 = 5;

/// How long to wait for a connection, in seconds.
pub const ACQUIRE_TIMEOUT_SECS: u64 = 10;

/// How many settings are made on a new connection.
pub const PRAGMA_COUNT: u32 = 4;

/// What is to be done next.
#[derive(Debug)]
pub enum SetupStage<P> {
    /// Find out whether the directory of the database is missing.
    FindParent,
    /// Create the directory of the database.
    CreateParent,
    /// Find out whether the database exists.
    FindDatabase,
    /// Create the database.
    CreateDatabase,
    /// Find out whether another process has created the database.
    FindDatabaseAgain,
    /// Connect to the database, with `MAX_CONNECTIONS` and `ACQUIRE_TIMEOUT_SECS`.
    Connect,
    /// Make a setting on the new connection.
    Configure {
        /// The connection.
        pool: P,
        /// How many settings have been made.
        done: u32,
    },
}

/// The setting up of a connection under way.
#[derive(Debug)]
pub struct Setup<P> {
    /// How many attempts have failed.
    pub retry_count: u32,
    /// What is to be done next.
    pub stage: SetupStage<P>,
}

/// What came of it.
#[derive(Debug)]
pub enum SetupEvent<P> {
    /// The database has a directory that does not exist (`true`), or not.
    ParentMissing(bool),
    /// The directory was created, or was not.
    ParentCreated(Result<(), std::io::Error>),
    /// The database exists (`true`) or not, or nothing could be found out.
    DatabaseFound(Result<bool, sqlx::Error>),
    /// The database was created, or was not.
    DatabaseCreated(Result<(), sqlx::Error>),
    /// The connection was made, or was not.
    Connected(Result<P, sqlx::Error>),
    /// The setting was made, or was not.
    Configured(Result<(), sqlx::Error>),
}

/// How the setting up goes on.
#[derive(Debug)]
pub enum SetupTurn<P> {
    /// Wait for `delay_ms` milliseconds, then do what the stage of `setup` says.
    Act {
        /// How long to wait, in milliseconds.
        delay_ms: u64,
        /// The setting up to go on with.
        setup: Setup<P>,
    },
    /// Wait for `delay_ms` milliseconds; then there is nothing more to do.
    Finished {
        /// How long to wait, in milliseconds.
        delay_ms: u64,
        /// The result.
        result: Result<P, DbError>,
    },
}

/// The mathematical value of a `SetupTurn`.
#[verifier::ext_equal]
pub enum SetupTurnView<P> {
    Act { delay_ms: u64, setup: Setup<P> },
    Finished { delay_ms: u64, result: Result<P, DbErrorView> },
}

impl<P> View for SetupTurn<P> {
    type V = SetupTurnView<P>;

    open spec fn view(&self) -> SetupTurnView<P> {
        match *self {
            SetupTurn::Act { delay_ms, setup } => SetupTurnView::Act { delay_ms, setup },
            SetupTurn::Finished { delay_ms, result } => SetupTurnView::Finished {
                delay_ms,
                result: match result {
                    Ok(pool) => Ok(pool),
                    Err(err) => Err(err@),
                },
            },
        }
    }
}

/// How the setting up begins.
pub open spec fn setup_begin<P>() -> SetupTurnView<P> {
    proceed(SetupStage::FindParent, 0, 0)
}

/// Goes on to a stage.
pub open spec fn proceed<P>(stage: SetupStage<P>, retry_count: u32, delay_ms: u64) -> SetupTurnView<
    P,
> {
    SetupTurnView::Act { delay_ms, setup: Setup { retry_count, stage } }
}

/// Ends with an error.
pub open spec fn give_up<P>(err: DbErrorView) -> SetupTurnView<P> {
    SetupTurnView::Finished { delay_ms: 0, result: Err(err) }
}

/// The settings, in the order in which they are made.
pub open spec fn pragma_text(done: u32) -> Seq<char> {
    if done == 0 {
        "PRAGMA journal_mode = WAL;"@
    } else if done == 1 {
        "PRAGMA synchronous = NORMAL;"@
    } else if done == 2 {
        "PRAGMA cache_size = 1000;"@
    } else {
        "PRAGMA busy_timeout = 50;"@
    }
}

/// The address of a database.
pub open spec fn url_text(db_path: Seq<char>) -> Seq<char> {
    "sqlite:"@ + db_path
}

/// Whether `text` is what the error that the event brings, if it is one of connecting, is
/// displayed as.
pub open spec fn connect_text<P>(event: SetupEvent<P>, text: String) -> bool {
    event matches SetupEvent::Connected(Err(err)) ==> to_string_from_display_ensures::<sqlx::Error>(
        &err,
        text,
    )
}

impl<P> Setup<P> {
    /// Attempts and settings are left.
    pub open spec fn wf(self) -> bool {
        &&& self.retry_count < MAX_CONNECT_RETRIES
        &&& self.stage matches SetupStage::Configure { done, .. } ==> done < PRAGMA_COUNT
    }

    /// Whether an event is one that the stage can bring about.
    pub open spec fn accepts(self, event: SetupEvent<P>) -> bool {
        match self.stage {
            SetupStage::FindParent => event is ParentMissing,
            SetupStage::CreateParent => event is ParentCreated,
            SetupStage::FindDatabase | SetupStage::FindDatabaseAgain => event is DatabaseFound,
            SetupStage::CreateDatabase => event is DatabaseCreated,
            SetupStage::Connect => event is Connected,
            SetupStage::Configure { .. } => event is Configured,
        }
    }

    /// How the setting up goes on after an event. `text` is what an error of connecting is
    /// displayed as.
    pub open spec fn next(self, event: SetupEvent<P>, text: Seq<char>) -> SetupTurnView<P> {
        let failed = (self.retry_count + 1) as u32;
        match self.stage {
            SetupStage::FindParent => if event->ParentMissing_0 {
                proceed(SetupStage::CreateParent, 0, 0)
            } else {
                proceed(SetupStage::FindDatabase, 0, 0)
            },
            SetupStage::CreateParent => match event->ParentCreated_0 {
                Ok(()) => proceed(SetupStage::FindDatabase, 0, 0),
                Err(err) => give_up(DbErrorView::Io(err)),
            },
            SetupStage::FindDatabase => if event->DatabaseFound_0 == Ok::<bool, sqlx::Error>(true) {
                proceed(SetupStage::Connect, 0, 0)
            } else {
                proceed(SetupStage::CreateDatabase, self.retry_count, 0)
            },
            SetupStage::CreateDatabase => match event->DatabaseCreated_0 {
                Ok(()) => proceed(SetupStage::Connect, 0, 0),
                Err(err) => if is_busy(err) && failed < MAX_CONNECT_RETRIES {
                    proceed(SetupStage::FindDatabaseAgain, failed, CONNECT_DELAY_MS)
                } else {
                    give_up(DbErrorView::Database(err))
                },
            },
            SetupStage::FindDatabaseAgain => if event->DatabaseFound_0 == Ok::<bool, sqlx::Error>(
                true,
            ) {
                proceed(SetupStage::Connect, 0, 0)
            } else {
                proceed(SetupStage::FindDatabase, self.retry_count, 0)
            },
            SetupStage::Connect => match event->Connected_0 {
                Ok(pool) => proceed(SetupStage::Configure { pool, done: 0 }, 0, 0),
                Err(err) => if !is_busy(err) {
                    give_up(DbErrorView::Pool(text))
                } else if failed < MAX_CONNECT_RETRIES {
                    proceed(SetupStage::Connect, failed, CONNECT_DELAY_MS)
                } else {
                    SetupTurnView::Finished {
                        delay_ms: CONNECT_DELAY_MS,
                        result: Err(
                            DbErrorView::Pool("Failed to connect to database after 10 retries"@),
                        ),
                    }
                },
            },
            SetupStage::Configure { pool, done } => match event->Configured_0 {
                Ok(()) => if done + 1 < PRAGMA_COUNT {
                    proceed(SetupStage::Configure { pool, done: (done + 1) as u32 }, 0, 0)
                } else {
                    SetupTurnView::Finished { delay_ms: 0, result: Ok(pool) }
                },
                Err(err) => give_up(DbErrorView::Database(err)),
            },
        }
    }

    /// Begins to set up a connection.
    pub fn begin() -> (turn: SetupTurn<P>)
        ensures
            turn@ == setup_begin::<P>(),
            turn matches SetupTurn::Act { setup, .. } ==> setup.wf(),
    {
        act(SetupStage::FindParent, 0, 0)
    }

    /// Whether an event is one that the stage can bring about.
    pub fn can_take(&self, event: &SetupEvent<P>) -> (taken: bool)
        ensures
            taken == self.accepts(*event),
    {
        match &self.stage {
            SetupStage::FindParent => matches!(event, SetupEvent::ParentMissing(_)),
            SetupStage::CreateParent => matches!(event, SetupEvent::ParentCreated(_)),
            SetupStage::FindDatabase => matches!(event, SetupEvent::DatabaseFound(_)),
            SetupStage::FindDatabaseAgain => matches!(event, SetupEvent::DatabaseFound(_)),
            SetupStage::CreateDatabase => matches!(event, SetupEvent::DatabaseCreated(_)),
            SetupStage::Connect => matches!(event, SetupEvent::Connected(_)),
            SetupStage::Configure { .. } => matches!(event, SetupEvent::Configured(_)),
        }
    }
}

/// The address of a database.
pub fn database_url(db_path: &str) -> (url: String)
    ensures
        url@ == url_text(db_path@),
{
    "sqlite:".to_owned().concat(db_path)
}

/// The setting to make when `done` have been made.
pub fn pragma(done: u32) -> (sql: String)
    requires
        done < PRAGMA_COUNT,
    ensures
        sql@ == pragma_text(done),
{
    if done == 0 {
        "PRAGMA journal_mode = WAL;".to_owned()
    } else if done == 1 {
        "PRAGMA synchronous = NORMAL;".to_owned()
    } else if done == 2 {
        "PRAGMA cache_size = 1000;".to_owned()
    } else {
        "PRAGMA busy_timeout = 50;".to_owned()
    }
}

fn act<P>(stage: SetupStage<P>, retry_count: u32, delay_ms: u64) -> (turn: SetupTurn<P>)
    ensures
        turn@ == proceed(stage, retry_count, delay_ms),
        turn == (SetupTurn::Act { delay_ms, setup: Setup { retry_count, stage } }),
{
    SetupTurn::Act { delay_ms, setup: Setup { retry_count, stage } }
}

fn finish<P>(err: DbError) -> (turn: SetupTurn<P>)
    ensures
        turn@ == give_up::<P>(err@),
        turn is Finished,
{
    SetupTurn::Finished { delay_ms: 0, result: Err(err) }
}

/// Decides after each stage how the setting up of a connection goes on, when an error of
/// connecting is displayed as `text`.
pub fn setup_with_text<P>(setup: Setup<P>, event: SetupEvent<P>, text: String) -> (turn: SetupTurn<
    P,
>)
    requires
        setup.wf(),
        setup.accepts(event),
    ensures
        turn@ == setup.next(event, text@),
        turn matches SetupTurn::Act { setup, .. } ==> setup.wf(),
{
    let retry_count = setup.retry_count;
    match (setup.stage, event) {
        (SetupStage::FindParent, SetupEvent::ParentMissing(missing)) => if missing {
            act(SetupStage::CreateParent, 0, 0)
        } else {
            act(SetupStage::FindDatabase, 0, 0)
        },
        (SetupStage::CreateParent, SetupEvent::ParentCreated(result)) => match result {
            Ok(()) => act(SetupStage::FindDatabase, 0, 0),
            Err(err) => finish(DbError::from(err)),
        },
        (SetupStage::FindDatabase, SetupEvent::DatabaseFound(result)) => match result {
            Ok(true) => act(SetupStage::Connect, 0, 0),
            _ => act(SetupStage::CreateDatabase, retry_count, 0),
        },
        (SetupStage::CreateDatabase, SetupEvent::DatabaseCreated(result)) => match result {
            Ok(()) => act(SetupStage::Connect, 0, 0),
            Err(err) => {
                if is_sqlite_busy_error(&err) && retry_count + 1 < MAX_CONNECT_RETRIES {
                    act(SetupStage::FindDatabaseAgain, retry_count + 1, CONNECT_DELAY_MS)
                } else {
                    finish(DbError::from(err))
                }
            },
        },
        (SetupStage::FindDatabaseAgain, SetupEvent::DatabaseFound(result)) => match result {
            Ok(true) => act(SetupStage::Connect, 0, 0),
            _ => act(SetupStage::FindDatabase, retry_count, 0),
        },
        (SetupStage::Connect, SetupEvent::Connected(result)) => match result {
            Ok(pool) => act(SetupStage::Configure { pool, done: 0 }, 0, 0),
            Err(err) => {
                if !is_sqlite_busy_error(&err) {
                    finish(DbError::Pool(text))
                } else if retry_count + 1 < MAX_CONNECT_RETRIES {
                    act(SetupStage::Connect, retry_count + 1, CONNECT_DELAY_MS)
                } else {
                    SetupTurn::Finished {
                        delay_ms: CONNECT_DELAY_MS,
                        result: Err(
                            DbError::Pool(
                                "Failed to connect to database after 10 retries".to_owned(),
                            ),
                        ),
                    }
                }
            },
        },
        (SetupStage::Configure { pool, done }, SetupEvent::Configured(result)) => match result {
            Ok(()) => if done + 1 < PRAGMA_COUNT {
                act(SetupStage::Configure { pool, done: done + 1 }, 0, 0)
            } else {
                SetupTurn::Finished { delay_ms: 0, result: Ok(pool) }
            },
            Err(err) => finish(DbError::from(err)),
        },
        _ => {
            assert(false);
            vstd::pervasive::unreached()
        },
    }
}

/// Decides after each stage how the setting up of a connection goes on.
pub fn setup_db_connection<P>(setup: Setup<P>, event: SetupEvent<P>) -> (turn: SetupTurn<P>)
    requires
        setup.wf(),
        setup.accepts(event),
    ensures
        exists|text: String| #[trigger]
            connect_text(event, text) && turn@ == setup.next(event, text@),
        turn matches SetupTurn::Act { setup, .. } ==> setup.wf(),
{
    let text = match &event {
        SetupEvent::Connected(Err(err)) => err.to_string(),
        _ => String::new(),
    };
    let ghost shown = text;
    assert(connect_text(event, shown));
    setup_with_text(setup, event, text)
}

} // verus!
