//! What holds of the plain way to set up a connection.
use crate::db_connection::{ConnectionTurnView, DbErrorView, Event, StageView};
use vstd::prelude::*;

verus! {

/// Whether these events, each with what its error is displayed as, are how the setting up of a
/// connection runs from `turn` to its end.
pub open spec fn passed<P>(turn: ConnectionTurnView<P>, events: Seq<(Event<P>, Seq<char>)>) -> bool
    decreases events.len(),
{
    match turn {
        ConnectionTurnView::Finished(_) => events.len() == 0,
        ConnectionTurnView::Act(stage) => {
            &&& events.len() > 0
            &&& stage.accepts(events[0].0)
            &&& passed(stage.next(events[0].0, events[0].1), events.drop_first())
        },
    }
}

/// The result of a setting up that ran through these events.
pub open spec fn result_of<P>(
    turn: ConnectionTurnView<P>,
    events: Seq<(Event<P>, Seq<char>)>,
) -> Result<P, DbErrorView>
    decreases events.len(),
{
    match turn {
        ConnectionTurnView::Finished(result) => result,
        ConnectionTurnView::Act(stage) => if events.len() == 0 {
            arbitrary()
        } else {
            result_of(stage.next(events[0].0, events[0].1), events.drop_first())
        },
    }
}

/// Whether an event says that the database exists.
pub open spec fn database_there<P>(event: Event<P>) -> bool {
    match event {
        Event::DatabaseFound(result) => result matches Ok(found) && found,
        Event::DatabaseCreated(result) => result is Ok,
        _ => false,
    }
}

/// How many stages can still follow.
spec fn stages_left<P>(stage: StageView<P>) -> int {
    match stage {
        StageView::FindParent => 7,
        StageView::CreateParent => 6,
        StageView::FindDatabase => 5,
        StageView::CreateDatabase => 4,
        StageView::Connect => 3,
        StageView::ReadMigration { .. } => 2,
        StageView::Migrate { .. } => 1,
    }
}

/// What is known of the run from a stage on.
spec fn goes_well<P>(stage: StageView<P>, events: Seq<(Event<P>, Seq<char>)>, pool: P) -> bool {
    let n = events.len() as int;
    &&& events[n - 1].0 matches Event::Migrated(Ok(_))
    &&& match stage {
        StageView::Migrate { pool: made, .. } => pool == made && n == 1,
        StageView::ReadMigration { pool: made } => {
            &&& pool == made
            &&& n == 2
            &&& events[0].0 matches Event::MigrationRead(Ok(_))
        },
        _ => {
            &&& n >= 3
            &&& events[n - 2].0 matches Event::MigrationRead(Ok(_))
            &&& events[n - 3].0 == Event::Connected(Ok(pool))
            &&& if stage is Connect {
                n == 3
            } else {
                n > 3 && database_there(events[n - 4].0)
            }
        },
    }
}

/// Whether `err` is what an event, with what its error is displayed as, gives as the reason to give
/// up.
pub open spec fn reason_of<P>(event: (Event<P>, Seq<char>), err: DbErrorView) -> bool {
    match event.0 {
        Event::ParentCreated(Err(reason)) => err == DbErrorView::IoError(reason),
        Event::DatabaseCreated(Err(reason)) => err == DbErrorView::DatabaseError(reason),
        Event::Connected(Err(_)) => err == DbErrorView::PoolError(event.1),
        Event::MigrationRead(Err(_)) => err == DbErrorView::MigrationError(
            "Failed to read migration file: "@ + event.1,
        ),
        Event::Migrated(Err(_)) => err == DbErrorView::MigrationError(event.1),
        _ => false,
    }
}

proof fn lemma_run<P>(stage: StageView<P>, events: Seq<(Event<P>, Seq<char>)>)
    requires
        passed(ConnectionTurnView::Act(stage), events),
    ensures
        0 < events.len() <= stages_left(stage),
        match result_of(ConnectionTurnView::Act(stage), events) {
            Ok(pool) => goes_well(stage, events, pool),
            Err(err) => reason_of(events.last(), err),
        },
    decreases events.len(),
{
    let turn = stage.next(events[0].0, events[0].1);
    let rest = events.drop_first();
    assert(passed(turn, rest));
    assert(result_of(ConnectionTurnView::Act(stage), events) == result_of(turn, rest));
    match turn {
        ConnectionTurnView::Act(next) => {
            lemma_run(next, rest);
            assert(rest.last() == events.last());
            assert(forall|i: int| 0 < i < events.len() ==> #[trigger] events[i] == rest[i - 1]);
        },
        ConnectionTurnView::Finished(_) => {
            assert(events.last() == events[0]);
        },
    }
}

/// The setting up ends after at most seven stages. It fails only with its last event, whose error
/// it returns. Otherwise the result is the connection that was made to a database that had been
/// found or created just before, and after that the migration was read and executed on it.
pub proof fn law_plain_connection_is_migrated<P>(events: Seq<(Event<P>, Seq<char>)>)
    requires
        passed(ConnectionTurnView::Act(StageView::FindParent), events),
    ensures
        0 < events.len() <= 7,
        match result_of(ConnectionTurnView::Act(StageView::<P>::FindParent), events) {
            Ok(pool) => {
                let n = events.len() as int;
                &&& n >= 4
                &&& database_there(events[n - 4].0)
                &&& events[n - 3].0 == Event::Connected(Ok(pool))
                &&& events[n - 2].0 matches Event::MigrationRead(Ok(_))
                &&& events[n - 1].0 matches Event::Migrated(Ok(_))
            },
            Err(err) => reason_of(events.last(), err),
        },
{
    lemma_run(StageView::FindParent, events);
}

proof fn lemma_order<P>(stage: StageView<P>, events: Seq<(Event<P>, Seq<char>)>)
    requires
        passed(ConnectionTurnView::Act(stage), events),
    ensures
        forall|i: int|
            0 < i < events.len() && (#[trigger] events[i]).0 is Connected ==> database_there(
                events[i - 1].0,
            ),
        forall|i: int|
            0 <= i < events.len() && (#[trigger] events[i]).0 is DatabaseFound && !database_there(
                events[i].0,
            ) ==> i + 1 < events.len() && events[i + 1].0 is DatabaseCreated,
    decreases events.len(),
{
    let turn = stage.next(events[0].0, events[0].1);
    let rest = events.drop_first();
    assert(passed(turn, rest));
    if let ConnectionTurnView::Act(next) = turn {
        lemma_order(next, rest);
        assert(next.accepts(rest[0].0));
        assert(rest[0] == events[1]);
        assert forall|i: int|
            0 < i < events.len() && (#[trigger] events[i]).0 is Connected implies database_there(
            events[i - 1].0,
        ) by {
            assert(rest[i - 1] == events[i]);
            if i > 1 {
                assert(rest[i - 2] == events[i - 1]);
            }
        }
        assert forall|i: int|
            0 <= i < events.len() && (#[trigger] events[i]).0 is DatabaseFound && !database_there(
                events[i].0,
            ) implies i + 1 < events.len() && events[i + 1].0 is DatabaseCreated by {
            if i > 0 {
                assert(rest[i - 1] == events[i]);
                assert(rest[i] == events[i + 1]);
            }
        }
    }
}

/// A connection is only attempted to a database that exists: it was found or created just before. A
/// database that was not found is created next. The directory comes first, and is created if it is
/// missing, and only then.
pub proof fn law_plain_database_exists_before_it_is_connected_to<P>(
    events: Seq<(Event<P>, Seq<char>)>,
)
    requires
        passed(ConnectionTurnView::Act(StageView::FindParent), events),
    ensures
        forall|i: int|
            0 <= i < events.len() && (#[trigger] events[i]).0 is Connected ==> i > 0
                && database_there(events[i - 1].0),
        forall|i: int|
            0 <= i < events.len() && (#[trigger] events[i]).0 is DatabaseFound && !database_there(
                events[i].0,
            ) ==> i + 1 < events.len() && events[i + 1].0 is DatabaseCreated,
        events.len() >= 2,
        events[0].0 matches Event::ParentMissing(missing) && if missing {
            events[1].0 is ParentCreated
        } else {
            events[1].0 is DatabaseFound
        },
{
    reveal_with_fuel(passed, 3);
    lemma_order(StageView::FindParent, events);
    assert(events.drop_first()[0] == events[1]);
}

/// What is executed is what was read.
pub proof fn law_plain_migration_is_the_one_that_was_read<P>(pool: P, sql: String, text: Seq<char>)
    ensures
        (StageView::ReadMigration { pool }).next(Event::MigrationRead(Ok(sql)), text)
            == ConnectionTurnView::Act(StageView::Migrate { pool, sql: sql@ }),
{
}

} // verus!
