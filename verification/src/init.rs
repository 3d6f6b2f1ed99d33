//! Opening the database: connecting to it and making sure that the cache table is there.
//!
//! Whoever opens the database does what the stage says, waits as told, and hands the result back.
//! `P` is the type of a connection pool.
use crate::database::{DbError, DbErrorView};
use crate::error::{is_busy, is_sqlite_busy_error, is_sqlite_unique_error, is_unique_violation};
use vstd::prelude::*;

verus! {

/// How often the entire initialization is attempted.
pub const MAX_INIT_RETRIES: u32 = 10;

/// How long to wait before the entire initialization is attempted again, in milliseconds, for
/// each attempt that failed.
pub const INIT_RETRY_DELAY_MS: u64 = 100;

/// How long to wait for concurrent migrations to finish, in milliseconds.
pub const MIGRATION_DELAY_MS: u64 = 200;

/// What is to be done next.
#[derive(Debug)]
pub enum InitStage<P> {
    /// Set up a connection.
    Connect,
    /// Look for the cache table.
    FindTable {
        /// The connection.
        pool: P,
    },
    /// Look for the table of migrations.
    FindMigrations {
        /// The connection.
        pool: P,
    },
    /// Run the migrations.
    Migrate {
        /// The connection.
        pool: P,
    },
    /// Look for the cache table, which the migrations should have made.
    VerifyTable {
        /// The connection.
        pool: P,
    },
    /// Look for the cache table, which concurrent migrations may have made.
    FindTableAgain {
        /// The connection.
        pool: P,
        /// The error that the migrations met.
        error: sqlx::Error,
    },
}

/// The opening of a database under way.
#[derive(Debug)]
pub struct Init<P> {
    /// How many attempts have failed.
    pub init_retry_count: u32,
    /// What is to be done next.
    pub stage: InitStage<P>,
}

/// What came of it.
#[derive(Debug)]
pub enum InitEvent<P> {
    /// The connection was set up, or was not.
    Connected(Result<P, DbError>),
    /// The table was found (`true`) or was not, or the search failed.
    Searched(Result<bool, sqlx::Error>),
    /// The migrations ran, or failed.
    Migrated(Result<(), sqlx::Error>),
}

/// How the opening goes on.
#[derive(Debug)]
pub enum InitTurn<P> {
    /// Wait for `delay_ms` milliseconds, then do what the stage of `init` says.
    Act {
        /// How long to wait, in milliseconds.
        delay_ms: u64,
        /// The opening to go on with.
        init: Init<P>,
    },
    /// Nothing more: this is the result.
    Finished(Result<P, DbError>),
}

/// The mathematical value of an `InitTurn`.
#[verifier::ext_equal]
pub enum InitTurnView<P> {
    Act { delay_ms: u64, init: Init<P> },
    Finished(Result<P, DbErrorView>),
}

impl<P> View for InitTurn<P> {
    type V = InitTurnView<P>;

    open spec fn view(&self) -> InitTurnView<P> {
        match *self {
            InitTurn::Act { delay_ms, init } => InitTurnView::Act { delay_ms, init },
            InitTurn::Finished(Ok(pool)) => InitTurnView::Finished(Ok(pool)),
            InitTurn::Finished(Err(err)) => InitTurnView::Finished(Err(err@)),
        }
    }
}

/// How an opening begins.
pub open spec fn init_begin<P>() -> InitTurnView<P> {
    InitTurnView::Act { delay_ms: 0, init: Init { init_retry_count: 0, stage: InitStage::Connect } }
}

/// Whether a stage is one at which a table is looked for.
pub open spec fn searching<P>(stage: InitStage<P>) -> bool {
    match stage {
        InitStage::Connect | InitStage::Migrate { .. } => false,
        _ => true,
    }
}

/// The statement with which a table is looked for.
pub open spec fn search_text<P>(stage: InitStage<P>) -> Seq<char> {
    if stage is FindMigrations {
        "SELECT name FROM sqlite_master WHERE type='table' AND name='_sqlx_migrations'"@
    } else {
        "SELECT name FROM sqlite_master WHERE type='table' AND name='cache'"@
    }
}

impl<P> Init<P> {
    /// Attempts are left.
    pub open spec fn wf(self) -> bool {
        self.init_retry_count < MAX_INIT_RETRIES
    }

    /// Whether an event is one that the stage can bring about.
    pub open spec fn accepts(self, event: InitEvent<P>) -> bool {
        match self.stage {
            InitStage::Connect => event is Connected,
            InitStage::Migrate { .. } => event is Migrated,
            _ => event is Searched,
        }
    }

    /// Goes on to another stage of the same attempt.
    pub open spec fn proceed(self, stage: InitStage<P>, delay_ms: u64) -> InitTurnView<P> {
        InitTurnView::Act { delay_ms, init: Init { stage, ..self } }
    }

    /// The attempt failed: the next one begins after a pause that grows with each failure, or,
    /// if it was the last, its error is the result.
    pub open spec fn fail(self, err: DbErrorView) -> InitTurnView<P> {
        let failed = self.init_retry_count + 1;
        if failed >= MAX_INIT_RETRIES {
            InitTurnView::Finished(Err(err))
        } else {
            InitTurnView::Act {
                delay_ms: (INIT_RETRY_DELAY_MS * failed) as u64,
                init: Init { init_retry_count: failed as u32, stage: InitStage::Connect },
            }
        }
    }

    /// A search failed: if the database was busy the attempt has failed, otherwise the error is
    /// the result.
    pub open spec fn fail_search(self, err: sqlx::Error) -> InitTurnView<P> {
        if is_busy(err) {
            self.fail(DbErrorView::Database(err))
        } else {
            InitTurnView::Finished(Err(DbErrorView::Database(err)))
        }
    }

    /// How the opening goes on after an event.
    pub open spec fn next(self, event: InitEvent<P>) -> InitTurnView<P> {
        match self.stage {
            InitStage::Connect => match event->Connected_0 {
                Ok(pool) => self.proceed(InitStage::FindTable { pool }, 0),
                Err(err) => self.fail(err@),
            },
            InitStage::FindTable { pool } => match event->Searched_0 {
                Ok(true) => InitTurnView::Finished(Ok(pool)),
                Ok(false) => self.proceed(InitStage::FindMigrations { pool }, 0),
                Err(err) => self.fail_search(err),
            },
            InitStage::FindMigrations { pool } => match event->Searched_0 {
                Ok(_) => self.proceed(InitStage::Migrate { pool }, 0),
                Err(err) => self.fail_search(err),
            },
            InitStage::Migrate { pool } => match event->Migrated_0 {
                Ok(()) => self.proceed(InitStage::VerifyTable { pool }, 0),
                Err(error) => if !is_busy(error) && is_unique_violation(error) {
                    self.proceed(InitStage::FindTableAgain { pool, error }, MIGRATION_DELAY_MS)
                } else {
                    self.fail(DbErrorView::Database(error))
                },
            },
            InitStage::VerifyTable { pool } => match event->Searched_0 {
                Ok(true) => InitTurnView::Finished(Ok(pool)),
                Ok(false) => self.fail(
                    DbErrorView::Pool("Migrations succeeded but cache table wasn't created"@),
                ),
                Err(err) => self.fail_search(err),
            },
            InitStage::FindTableAgain { pool, error } => match event->Searched_0 {
                Ok(true) => InitTurnView::Finished(Ok(pool)),
                Ok(false) => self.fail(DbErrorView::Database(error)),
                Err(err) => self.fail_search(err),
            },
        }
    }

    /// Begins to open a database.
    pub fn begin() -> (turn: InitTurn<P>)
        ensures
            turn@ == init_begin::<P>(),
            turn matches InitTurn::Act { init, .. } ==> init.wf(),
    {
        InitTurn::Act { delay_ms: 0, init: Init { init_retry_count: 0, stage: InitStage::Connect } }
    }

    /// The statement to send, if a table is to be looked for. The table is there if it gives back
    /// a row.
    pub fn search_statement(&self) -> (sql: Option<String>)
        ensures
            sql is Some <==> searching(self.stage),
            sql matches Some(sql) ==> sql@ == search_text(self.stage),
    {
        match &self.stage {
            InitStage::Connect => None,
            InitStage::Migrate { .. } => None,
            InitStage::FindMigrations { .. } => Some(
                "SELECT name FROM sqlite_master WHERE type='table' AND name='_sqlx_migrations'".to_owned(),
            ),
            _ => Some(
                "SELECT name FROM sqlite_master WHERE type='table' AND name='cache'".to_owned(),
            ),
        }
    }

    /// Whether an event is one that the stage can bring about.
    pub fn can_take(&self, event: &InitEvent<P>) -> (taken: bool)
        ensures
            taken == self.accepts(*event),
    {
        match &self.stage {
            InitStage::Connect => matches!(event, InitEvent::Connected(_)),
            InitStage::Migrate { .. } => matches!(event, InitEvent::Migrated(_)),
            _ => matches!(event, InitEvent::Searched(_)),
        }
    }
}

/// The attempt failed with an error.
fn attempt_failed<P>(init_retry_count: u32, err: DbError) -> (turn: InitTurn<P>)
    requires
        init_retry_count < MAX_INIT_RETRIES,
    ensures
        turn@ == (Init::<P> { init_retry_count, stage: InitStage::Connect }).fail(err@),
        turn matches InitTurn::Act { init, .. } ==> init.wf(),
{
    let failed: u32 = init_retry_count + 1;
    if failed >= MAX_INIT_RETRIES {
        return InitTurn::Finished(Err(err));
    }
    InitTurn::Act {
        delay_ms: INIT_RETRY_DELAY_MS * failed as u64,
        init: Init { init_retry_count: failed, stage: InitStage::Connect },
    }
}

/// A search failed with an error.
fn search_failed<P>(init_retry_count: u32, err: sqlx::Error) -> (turn: InitTurn<P>)
    requires
        init_retry_count < MAX_INIT_RETRIES,
    ensures
        turn@ == (Init::<P> { init_retry_count, stage: InitStage::Connect }).fail_search(err),
        turn matches InitTurn::Act { init, .. } ==> init.wf(),
{
    if is_sqlite_busy_error(&err) {
        attempt_failed(init_retry_count, DbError::from(err))
    } else {
        InitTurn::Finished(Err(DbError::from(err)))
    }
}

/// Decides after each stage how the opening of a database goes on.
pub fn init<P>(opening: Init<P>, event: InitEvent<P>) -> (turn: InitTurn<P>)
    requires
        opening.wf(),
        opening.accepts(event),
    ensures
        turn@ == opening.next(event),
        turn matches InitTurn::Act { init, .. } ==> init.wf(),
{
    let init_retry_count = opening.init_retry_count;
    match (opening.stage, event) {
        (InitStage::Connect, InitEvent::Connected(result)) => match result {
            Ok(pool) => InitTurn::Act {
                delay_ms: 0,
                init: Init { init_retry_count, stage: InitStage::FindTable { pool } },
            },
            Err(err) => attempt_failed(init_retry_count, err),
        },
        (InitStage::FindTable { pool }, InitEvent::Searched(result)) => match result {
            Ok(true) => InitTurn::Finished(Ok(pool)),
            Ok(false) => InitTurn::Act {
                delay_ms: 0,
                init: Init { init_retry_count, stage: InitStage::FindMigrations { pool } },
            },
            Err(err) => search_failed(init_retry_count, err),
        },
        (InitStage::FindMigrations { pool }, InitEvent::Searched(result)) => match result {
            Ok(_) => InitTurn::Act {
                delay_ms: 0,
                init: Init { init_retry_count, stage: InitStage::Migrate { pool } },
            },
            Err(err) => search_failed(init_retry_count, err),
        },
        (InitStage::Migrate { pool }, InitEvent::Migrated(result)) => match result {
            Ok(()) => InitTurn::Act {
                delay_ms: 0,
                init: Init { init_retry_count, stage: InitStage::VerifyTable { pool } },
            },
            Err(error) => {
                if is_sqlite_busy_error(&error) {
                    return attempt_failed(init_retry_count, DbError::from(error));
                }
                if is_sqlite_unique_error(&error) {
                    return InitTurn::Act {
                        delay_ms: MIGRATION_DELAY_MS,
                        init: Init {
                            init_retry_count,
                            stage: InitStage::FindTableAgain { pool, error },
                        },
                    };
                }
                attempt_failed(init_retry_count, DbError::from(error))
            },
        },
        (InitStage::VerifyTable { pool }, InitEvent::Searched(result)) => match result {
            Ok(true) => InitTurn::Finished(Ok(pool)),
            Ok(false) => attempt_failed(
                init_retry_count,
                DbError::Pool("Migrations succeeded but cache table wasn't created".to_owned()),
            ),
            Err(err) => search_failed(init_retry_count, err),
        },
        (InitStage::FindTableAgain { pool, error }, InitEvent::Searched(result)) => match result {
            Ok(true) => InitTurn::Finished(Ok(pool)),
            Ok(false) => attempt_failed(init_retry_count, DbError::from(error)),
            Err(err) => search_failed(init_retry_count, err),
        },
        _ => {
            assert(false);
            vstd::pervasive::unreached()
        },
    }
}

} // verus!
