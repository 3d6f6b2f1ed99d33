//! What holds of the opening of a database.
use crate::connect::{
    setup_begin, url_text, Setup, SetupEvent, SetupStage, SetupTurnView, MAX_CONNECT_RETRIES,
    PRAGMA_COUNT,
};
use crate::database::DbErrorView;
use crate::error::is_busy;
use crate::init::{
    init_begin, search_text, searching, Init, InitEvent, InitStage, InitTurnView, MAX_INIT_RETRIES,
};
use crate::table::Table;
use vstd::prelude::*;

verus! {

/// Whether these events are how the opening of a database runs from `turn` to its end.
pub open spec fn opened<P>(turn: InitTurnView<P>, events: Seq<InitEvent<P>>) -> bool
    decreases events.len(),
{
    match turn {
        InitTurnView::Finished(_) => events.len() == 0,
        InitTurnView::Act { init, .. } => {
            &&& events.len() > 0
            &&& init.accepts(events[0])
            &&& opened(init.next(events[0]), events.drop_first())
        },
    }
}

/// The result of an opening that ran through these events.
pub open spec fn opening_result<P>(turn: InitTurnView<P>, events: Seq<InitEvent<P>>) -> Result<
    P,
    DbErrorView,
>
    decreases events.len(),
{
    match turn {
        InitTurnView::Finished(result) => result,
        InitTurnView::Act { init, .. } => if events.len() == 0 {
            arbitrary()
        } else {
            opening_result(init.next(events[0]), events.drop_first())
        },
    }
}

/// How many attempts these events belong to: each begins with a connection.
pub open spec fn attempts<P>(events: Seq<InitEvent<P>>) -> nat
    decreases events.len(),
{
    if events.len() == 0 {
        0
    } else {
        attempts(events.drop_first()) + (if events[0] is Connected {
            1nat
        } else {
            0
        })
    }
}

/// How many stages an attempt can still take.
spec fn stages_left<P>(stage: InitStage<P>) -> int {
    match stage {
        InitStage::Connect => 5,
        InitStage::FindTable { .. } => 4,
        InitStage::FindMigrations { .. } => 3,
        InitStage::Migrate { .. } => 2,
        _ => 1,
    }
}

proof fn lemma_opening_bounded<P>(init: Init<P>, delay_ms: u64, events: Seq<InitEvent<P>>)
    requires
        init.wf(),
        opened(InitTurnView::Act { delay_ms, init }, events),
    ensures
        events.len() <= 5 * (MAX_INIT_RETRIES - 1 - init.init_retry_count) + stages_left(init.stage),
        attempts(events) <= MAX_INIT_RETRIES - init.init_retry_count - (if init.stage is Connect {
            0int
        } else {
            1
        }),
    decreases events.len(),
{
    let turn = init.next(events[0]);
    let rest = events.drop_first();
    assert(opened(turn, rest));
    match turn {
        InitTurnView::Act { delay_ms, init: next } => {
            lemma_opening_bounded(next, delay_ms, rest);
        },
        InitTurnView::Finished(_) => {
            assert(attempts(rest) == 0);
        },
    }
}

/// The opening of a database comes to its end: there are at most ten attempts, with at most five
/// times as many stages in all.
pub proof fn law_opening_is_bounded<P>(events: Seq<InitEvent<P>>)
    requires
        opened(init_begin(), events),
    ensures
        attempts(events) <= MAX_INIT_RETRIES,
        events.len() <= 5 * MAX_INIT_RETRIES,
{
    lemma_opening_bounded(
        Init::<P> { init_retry_count: 0, stage: InitStage::Connect },
        0,
        events,
    );
}

/// The connection that a stage works with.
spec fn pool_of<P>(stage: InitStage<P>) -> Option<P> {
    match stage {
        InitStage::Connect => None,
        InitStage::FindTable { pool } => Some(pool),
        InitStage::FindMigrations { pool } => Some(pool),
        InitStage::Migrate { pool } => Some(pool),
        InitStage::VerifyTable { pool } => Some(pool),
        InitStage::FindTableAgain { pool, .. } => Some(pool),
    }
}

/// Whether `pool` is the connection that was made last among these events.
pub open spec fn connected_last<P>(events: Seq<InitEvent<P>>, pool: P) -> bool {
    exists|i: int|
        {
            &&& 0 <= i < events.len()
            &&& #[trigger] events[i] == InitEvent::Connected(Ok(pool))
            &&& forall|j: int| i < j < events.len() ==> !(#[trigger] events[j] is Connected)
        }
}

proof fn lemma_opening_found<P>(init: Init<P>, delay_ms: u64, events: Seq<InitEvent<P>>)
    requires
        opened(InitTurnView::Act { delay_ms, init }, events),
    ensures
        opening_result(InitTurnView::Act { delay_ms, init }, events) matches Ok(pool) ==> {
            &&& events.last() == InitEvent::<P>::Searched(Ok(true))
            &&& connected_last(events, pool) || (pool_of(init.stage) == Some(pool) && forall|j: int|
                0 <= j < events.len() ==> !(#[trigger] events[j] is Connected))
        },
    decreases events.len(),
{
    let turn = init.next(events[0]);
    let rest = events.drop_first();
    assert(opened(turn, rest));
    if let InitTurnView::Act { delay_ms, init: next } = turn {
        lemma_opening_found(next, delay_ms, rest);
        if let Ok(pool) = opening_result(turn, rest) {
            assert(rest.last() == events.last());
            if connected_last(rest, pool) {
                let i = choose|i: int|
                    {
                        &&& 0 <= i < rest.len()
                        &&& #[trigger] rest[i] == InitEvent::Connected(Ok(pool))
                        &&& forall|j: int| i < j < rest.len() ==> !(#[trigger] rest[j] is Connected)
                    };
                assert(events[i + 1] == InitEvent::Connected(Ok(pool)));
                assert forall|j: int| i + 1 < j < events.len() implies !(
                #[trigger] events[j] is Connected) by {
                    assert(rest[j - 1] == events[j]);
                }
                assert(connected_last(events, pool));
            } else {
                assert forall|j: int| 0 < j < events.len() implies !(
                #[trigger] events[j] is Connected) by {
                    assert(rest[j - 1] == events[j]);
                }
                if init.stage is Connect {
                    assert(events[0] == InitEvent::Connected(Ok(pool)));
                    assert(connected_last(events, pool));
                } else {
                    assert(!(events[0] is Connected));
                }
            }
        }
    }
}

/// A database counts as open only if the cache table was found in it, and what is returned is the
/// connection on which it was found.
pub proof fn law_open_means_table_found<P>(events: Seq<InitEvent<P>>)
    requires
        opened(init_begin(), events),
    ensures
        opening_result(init_begin(), events) matches Ok(pool) ==> {
            &&& events.last() == InitEvent::<P>::Searched(Ok(true))
            &&& connected_last(events, pool)
        },
{
    lemma_opening_found(
        Init::<P> { init_retry_count: 0, stage: InitStage::Connect },
        0,
        events,
    );
}

/// Whether `err` is what the last of these events gives as the reason to give up.
pub open spec fn reason_of<P>(events: Seq<InitEvent<P>>, err: DbErrorView) -> bool {
    match events.last() {
        InitEvent::Connected(result) => result matches Err(reason) && err == reason@,
        InitEvent::Migrated(result) => result matches Err(reason) && err == DbErrorView::Database(
            reason,
        ),
        InitEvent::Searched(Err(reason)) => err == DbErrorView::Database(reason),
        InitEvent::Searched(Ok(found)) => {
            &&& !found
            &&& match events[events.len() - 2] {
                InitEvent::Migrated(Ok(_)) => err == DbErrorView::Pool(
                    "Migrations succeeded but cache table wasn't created"@,
                ),
                InitEvent::Migrated(Err(reason)) => err == DbErrorView::Database(reason),
                _ => false,
            }
        },
    }
}

/// What a stage remembers of the event before it.
spec fn remembers<P>(stage: InitStage<P>, event: InitEvent<P>) -> bool {
    match stage {
        InitStage::VerifyTable { .. } => event matches InitEvent::Migrated(Ok(_)),
        InitStage::FindTableAgain { error, .. } => event == InitEvent::<P>::Migrated(Err(error)),
        _ => true,
    }
}

proof fn lemma_opening_failed<P>(
    init: Init<P>,
    delay_ms: u64,
    before: InitEvent<P>,
    events: Seq<InitEvent<P>>,
)
    requires
        init.wf(),
        remembers(init.stage, before),
        opened(InitTurnView::Act { delay_ms, init }, events),
    ensures
        opening_result(InitTurnView::Act { delay_ms, init }, events) matches Err(err) ==> {
            &&& reason_of(seq![before] + events, err)
            &&& {
                ||| attempts(events) == MAX_INIT_RETRIES - init.init_retry_count - (
                if init.stage is Connect {
                    0int
                } else {
                    1
                })
                ||| events.last() matches InitEvent::Searched(Err(reason)) && !is_busy(reason)
            }
        },
    decreases events.len(),
{
    let turn = init.next(events[0]);
    let rest = events.drop_first();
    assert(opened(turn, rest));
    assert(opening_result(InitTurnView::Act { delay_ms, init }, events) == opening_result(
        turn,
        rest,
    ));
    match turn {
        InitTurnView::Act { delay_ms, init: next } => {
            lemma_opening_failed(next, delay_ms, events[0], rest);
            assert(rest.last() == events.last());
            let long = seq![before] + events;
            let short = seq![events[0]] + rest;
            assert(short =~= events);
            assert(long.last() == short.last());
            assert(long[long.len() - 2] == short[short.len() - 2]);
        },
        InitTurnView::Finished(_) => {
            assert(attempts(rest) == 0);
            assert(events.last() == events[0]);
            assert((seq![before] + events).len() == 2);
        },
    }
}

/// A database is given up only after ten attempts, or when looking for a table failed for another
/// reason than a busy database. The error is that of the stage that came last, or, if the cache
/// table was still missing, that of the migrations or that they did not make it.
pub proof fn law_opening_gives_up_for_a_reason<P>(events: Seq<InitEvent<P>>)
    requires
        opened(init_begin(), events),
    ensures
        opening_result(init_begin(), events) matches Err(err) ==> {
            &&& reason_of(events, err)
            &&& {
                ||| attempts(events) == MAX_INIT_RETRIES
                ||| events.last() matches InitEvent::Searched(Err(reason)) && !is_busy(reason)
                    && err == DbErrorView::Database(reason)
            }
        },
{
    let before = events[0];
    lemma_opening_failed(
        Init::<P> { init_retry_count: 0, stage: InitStage::Connect },
        0,
        before,
        events,
    );
    let long = seq![before] + events;
    assert(long.last() == events.last());
    if events.len() > 1 {
        assert(long[long.len() - 2] == events[events.len() - 2]);
    } else {
        assert(events[0] is Connected);
    }
}

/// The pauses of an opening: between two attempts a tenth of a second for each one that failed, a
/// fifth of a second before looking whether another process has migrated, and none otherwise.
pub proof fn law_opening_pauses<P>(init: Init<P>, event: InitEvent<P>)
    requires
        init.wf(),
        init.accepts(event),
    ensures
        init.next(event) matches InitTurnView::Act { delay_ms, init: next } ==> {
            if next.init_retry_count == init.init_retry_count {
                delay_ms == (if next.stage is FindTableAgain {
                    200int
                } else {
                    0
                })
            } else {
                &&& next.init_retry_count == init.init_retry_count + 1
                &&& next.stage is Connect
                &&& delay_ms == 100 * next.init_retry_count
            }
        },
{
}

/// Whenever the cache table is looked for, the same statement is sent, and another one for the
/// table of migrations.
pub proof fn law_searches_name_their_table<P>(init: Init<P>)
    ensures
        searching(init.stage) ==> search_text(init.stage)
            == "SELECT name FROM sqlite_master WHERE type='table' AND name='"@ + (
        if init.stage is FindMigrations {
            "_sqlx_migrations"@
        } else {
            "cache"@
        }) + "'"@,
{
    reveal_strlit("SELECT name FROM sqlite_master WHERE type='table' AND name='");
    reveal_strlit("_sqlx_migrations");
    reveal_strlit("cache");
    reveal_strlit("'");
    reveal_strlit("SELECT name FROM sqlite_master WHERE type='table' AND name='_sqlx_migrations'");
    reveal_strlit("SELECT name FROM sqlite_master WHERE type='table' AND name='cache'");
    assert("SELECT name FROM sqlite_master WHERE type='table' AND name='_sqlx_migrations'"@
        =~= "SELECT name FROM sqlite_master WHERE type='table' AND name='"@ + "_sqlx_migrations"@
        + "'"@);
    assert("SELECT name FROM sqlite_master WHERE type='table' AND name='cache'"@
        =~= "SELECT name FROM sqlite_master WHERE type='table' AND name='"@ + "cache"@ + "'"@);
}

/// Opening a database that already has its cache table takes two stages and runs no migration: the
/// connection is made, the table is found, and the connection is the result.
pub proof fn law_found_table_ends_opening<P>(events: Seq<InitEvent<P>>, pool: P)
    requires
        opened(init_begin(), events),
        events[0] == InitEvent::Connected(Ok(pool)),
        events[1] == InitEvent::<P>::Searched(Ok(true)),
    ensures
        events.len() == 2,
        opening_result(init_begin(), events) == Ok::<P, DbErrorView>(pool),
        forall|i: int| 0 <= i < events.len() ==> !(#[trigger] events[i] is Migrated),
{
    reveal_with_fuel(opened, 3);
    reveal_with_fuel(opening_result, 3);
    assert(events.drop_first()[0] == events[1]);
    assert(events.drop_first().drop_first().len() == events.len() - 2);
}

/// A stage of an opening that was gone through: what came of it, and the cache table afterwards, if
/// there is one.
pub struct Passed<P> {
    pub event: InitEvent<P>,
    pub after: Option<Table>,
}

/// Whether a search for the cache table, if it was answered, was answered truly.
pub open spec fn answered_truly<P>(
    stage: InitStage<P>,
    event: InitEvent<P>,
    table: Option<Table>,
) -> bool {
    !(stage is FindMigrations) ==> (event matches InitEvent::Searched(Ok(found)) ==> found
        == table is Some)
}

/// Whether these stages are how an opening runs from `turn` to its end on a database whose cache
/// table, if there is one, is `table`. Connecting to the database and searching it change no table;
/// what migrations do is left open. Nobody else uses the database meanwhile.
pub open spec fn opened_on<P>(
    turn: InitTurnView<P>,
    table: Option<Table>,
    stages: Seq<Passed<P>>,
) -> bool
    decreases stages.len(),
{
    match turn {
        InitTurnView::Finished(_) => stages.len() == 0,
        InitTurnView::Act { init, .. } => {
            &&& stages.len() > 0
            &&& init.accepts(stages[0].event)
            &&& !(init.stage is Migrate) ==> stages[0].after == table
            &&& answered_truly(init.stage, stages[0].event, table)
            &&& opened_on(init.next(stages[0].event), stages[0].after, stages.drop_first())
        },
    }
}

/// The events of these stages.
pub open spec fn events_of<P>(stages: Seq<Passed<P>>) -> Seq<InitEvent<P>> {
    stages.map_values(|passed: Passed<P>| passed.event)
}

/// The cache table after these stages, if there is one.
pub open spec fn table_after_opening<P>(table: Option<Table>, stages: Seq<Passed<P>>) -> Option<
    Table,
> {
    if stages.len() == 0 {
        table
    } else {
        stages.last().after
    }
}

/// Whether an event is a failure.
pub open spec fn failure<P>(event: InitEvent<P>) -> bool {
    match event {
        InitEvent::Connected(result) => result is Err,
        InitEvent::Searched(result) => result is Err,
        InitEvent::Migrated(result) => result is Err,
    }
}

proof fn lemma_opened_has_table<P>(
    init: Init<P>,
    delay_ms: u64,
    table: Option<Table>,
    stages: Seq<Passed<P>>,
)
    requires
        opened_on(InitTurnView::Act { delay_ms, init }, table, stages),
    ensures
        opened(InitTurnView::Act { delay_ms, init }, events_of(stages)),
        opening_result(InitTurnView::Act { delay_ms, init }, events_of(stages)) is Ok
            ==> table_after_opening(table, stages) is Some,
    decreases stages.len(),
{
    let turn = init.next(stages[0].event);
    let rest = stages.drop_first();
    let events = events_of(stages);
    assert(opened_on(turn, stages[0].after, rest));
    assert(events.drop_first() =~= events_of(rest));
    assert(events[0] == stages[0].event);
    if let InitTurnView::Act { delay_ms, init: next } = turn {
        lemma_opened_has_table(next, delay_ms, stages[0].after, rest);
        assert(rest.last() == stages.last());
    }
    assert(opened(turn, events_of(rest)));
    assert(opening_result(InitTurnView::Act { delay_ms, init }, events) == opening_result(
        turn,
        events_of(rest),
    ));
}

/// A database that was opened has its cache table.
pub proof fn law_opened_database_has_its_table<P>(table: Option<Table>, stages: Seq<Passed<P>>)
    requires
        opened_on(init_begin(), table, stages),
        opening_result(init_begin(), events_of(stages)) is Ok,
    ensures
        table_after_opening(table, stages) is Some,
{
    lemma_opened_has_table(
        Init::<P> { init_retry_count: 0, stage: InitStage::Connect },
        0,
        table,
        stages,
    );
}

/// Opening a database again changes nothing: if it has its cache table and nothing fails, the first
/// attempt succeeds with the connection that it makes, no migration is run, and the table holds
/// exactly the rows that it held.
pub proof fn law_opening_again_changes_nothing<P>(rows: Table, stages: Seq<Passed<P>>)
    requires
        opened_on(init_begin(), Some(rows), stages),
        forall|i: int| 0 <= i < stages.len() ==> !failure(#[trigger] stages[i].event),
    ensures
        stages.len() == 2,
        stages[0].event matches InitEvent::Connected(Ok(pool)) && opening_result(
            init_begin(),
            events_of(stages),
        ) == Ok::<P, DbErrorView>(pool),
        attempts(events_of(stages)) == 1,
        forall|i: int| 0 <= i < stages.len() ==> !(#[trigger] stages[i].event is Migrated),
        table_after_opening(Some(rows), stages) == Some(rows),
{
    reveal_with_fuel(opened_on, 3);
    let events = events_of(stages);
    lemma_opened_has_table(
        Init::<P> { init_retry_count: 0, stage: InitStage::Connect },
        0,
        Some(rows),
        stages,
    );
    assert(!failure(stages[0].event));
    assert(stages.drop_first()[0] == stages[1]);
    assert(!failure(stages[1].event));
    assert(events[0] == stages[0].event && events[1] == stages[1].event);
    law_found_table_ends_opening(events, stages[0].event->Connected_0->Ok_0);
    reveal_with_fuel(attempts, 3);
    assert(events.drop_first()[0] == events[1]);
}

/// Opening a database that has no cache table yet makes one: if nothing fails and the migrations
/// make the table, the first attempt succeeds with the connection that it makes, after running the
/// migrations once.
pub proof fn law_opening_makes_the_table<P>(stages: Seq<Passed<P>>)
    requires
        opened_on(init_begin(), None, stages),
        forall|i: int| 0 <= i < stages.len() ==> !failure(#[trigger] stages[i].event),
        forall|i: int|
            0 <= i < stages.len() && #[trigger] stages[i].event is Migrated ==> stages[i].after
                is Some,
    ensures
        stages.len() == 5,
        stages[3].event is Migrated,
        forall|i: int|
            0 <= i < stages.len() && i != 3 ==> !(#[trigger] stages[i].event is Migrated),
        stages[0].event matches InitEvent::Connected(Ok(pool)) && opening_result(
            init_begin(),
            events_of(stages),
        ) == Ok::<P, DbErrorView>(pool),
        table_after_opening(None, stages) == stages[3].after,
{
    reveal_with_fuel(opened_on, 6);
    reveal_with_fuel(opening_result, 6);
    let events = events_of(stages);
    assert(!failure(stages[0].event));
    let rest = stages.drop_first();
    assert(rest[0] == stages[1] && !failure(stages[1].event));
    assert(rest.drop_first()[0] == stages[2] && !failure(stages[2].event));
    assert(rest.drop_first().drop_first()[0] == stages[3] && !failure(stages[3].event));
    assert(rest.drop_first().drop_first().drop_first()[0] == stages[4] && !failure(
        stages[4].event,
    ));
    assert(stages.len() == 5);
    assert(events[0] == stages[0].event);
    assert(events.drop_first()[0] == stages[1].event);
    assert(events.drop_first().drop_first()[0] == stages[2].event);
    assert(events.drop_first().drop_first().drop_first()[0] == stages[3].event);
    assert(events.drop_first().drop_first().drop_first().drop_first()[0] == stages[4].event);
}

/// Whether these events, each with what its error is displayed as, are how the setting up of a
/// connection runs from `turn` to its end.
pub open spec fn set_up<P>(turn: SetupTurnView<P>, events: Seq<(SetupEvent<P>, Seq<char>)>) -> bool
    decreases events.len(),
{
    match turn {
        SetupTurnView::Finished { .. } => events.len() == 0,
        SetupTurnView::Act { setup, .. } => {
            &&& events.len() > 0
            &&& setup.accepts(events[0].0)
            &&& set_up(setup.next(events[0].0, events[0].1), events.drop_first())
        },
    }
}

/// The result of a setting up that ran through these events.
pub open spec fn setup_result<P>(
    turn: SetupTurnView<P>,
    events: Seq<(SetupEvent<P>, Seq<char>)>,
) -> Result<P, DbErrorView>
    decreases events.len(),
{
    match turn {
        SetupTurnView::Finished { result, .. } => result,
        SetupTurnView::Act { setup, .. } => if events.len() == 0 {
            arbitrary()
        } else {
            setup_result(setup.next(events[0].0, events[0].1), events.drop_first())
        },
    }
}

/// How often creating the database was attempted.
pub open spec fn creations<P>(events: Seq<(SetupEvent<P>, Seq<char>)>) -> nat
    decreases events.len(),
{
    if events.len() == 0 {
        0
    } else {
        creations(events.drop_first()) + (if events[0].0 is DatabaseCreated {
            1nat
        } else {
            0
        })
    }
}

/// How often connecting to the database was attempted.
pub open spec fn connections<P>(events: Seq<(SetupEvent<P>, Seq<char>)>) -> nat
    decreases events.len(),
{
    if events.len() == 0 {
        0
    } else {
        connections(events.drop_first()) + (if events[0].0 is Connected {
            1nat
        } else {
            0
        })
    }
}

/// How often creating the database can still be attempted.
spec fn creations_left<P>(setup: Setup<P>) -> int {
    match setup.stage {
        SetupStage::FindParent | SetupStage::CreateParent => MAX_CONNECT_RETRIES as int,
        SetupStage::Connect | SetupStage::Configure { .. } => 0,
        _ => MAX_CONNECT_RETRIES - setup.retry_count,
    }
}

/// How often connecting to the database can still be attempted.
spec fn connections_left<P>(setup: Setup<P>) -> int {
    match setup.stage {
        SetupStage::Connect => MAX_CONNECT_RETRIES - setup.retry_count,
        SetupStage::Configure { .. } => 0,
        _ => MAX_CONNECT_RETRIES as int,
    }
}

/// How many stages can still follow.
spec fn setup_left<P>(setup: Setup<P>) -> int {
    let retries = MAX_CONNECT_RETRIES - setup.retry_count;
    let connecting = MAX_CONNECT_RETRIES + PRAGMA_COUNT;
    match setup.stage {
        SetupStage::FindParent => 2 + 3 * MAX_CONNECT_RETRIES + connecting,
        SetupStage::CreateParent => 1 + 3 * MAX_CONNECT_RETRIES + connecting,
        SetupStage::FindDatabase => 3 * retries + connecting,
        SetupStage::CreateDatabase => 3 * retries - 1 + connecting,
        SetupStage::FindDatabaseAgain => 3 * retries + 1 + connecting,
        SetupStage::Connect => retries + PRAGMA_COUNT,
        SetupStage::Configure { done, .. } => PRAGMA_COUNT - done,
    }
}

proof fn lemma_setup_bounded<P>(
    setup: Setup<P>,
    delay_ms: u64,
    events: Seq<(SetupEvent<P>, Seq<char>)>,
)
    requires
        setup.wf(),
        set_up(SetupTurnView::Act { delay_ms, setup }, events),
    ensures
        events.len() <= setup_left(setup),
        creations(events) <= creations_left(setup),
        connections(events) <= connections_left(setup),
    decreases events.len(),
{
    let turn = setup.next(events[0].0, events[0].1);
    let rest = events.drop_first();
    assert(set_up(turn, rest));
    match turn {
        SetupTurnView::Act { delay_ms, setup: next } => {
            lemma_setup_bounded(next, delay_ms, rest);
        },
        SetupTurnView::Finished { .. } => {
            assert(creations(rest) == 0);
            assert(connections(rest) == 0);
        },
    }
}

/// The setting up of a connection comes to its end: creating the database and connecting to it
/// are attempted at most ten times each.
pub proof fn law_setup_is_bounded<P>(events: Seq<(SetupEvent<P>, Seq<char>)>)
    requires
        set_up(setup_begin(), events),
    ensures
        creations(events) <= MAX_CONNECT_RETRIES,
        connections(events) <= MAX_CONNECT_RETRIES,
        events.len() <= 2 + 3 * MAX_CONNECT_RETRIES + MAX_CONNECT_RETRIES + PRAGMA_COUNT,
{
    lemma_setup_bounded(
        Setup::<P> { retry_count: 0, stage: SetupStage::FindParent },
        0,
        events,
    );
}

proof fn lemma_setup_configured<P>(
    setup: Setup<P>,
    delay_ms: u64,
    events: Seq<(SetupEvent<P>, Seq<char>)>,
)
    requires
        setup.wf(),
        set_up(SetupTurnView::Act { delay_ms, setup }, events),
    ensures
        setup_result(SetupTurnView::Act { delay_ms, setup }, events) matches Ok(pool) ==> match setup.stage {
            SetupStage::Configure { pool: made, done } => {
                &&& pool == made
                &&& events.len() == PRAGMA_COUNT - done
                &&& forall|i: int|
                    0 <= i < events.len() ==> (#[trigger] events[i]).0 matches SetupEvent::Configured(Ok(_))
            },
            _ => {
                let at = events.len() - PRAGMA_COUNT - 1;
                &&& at >= 0
                &&& events[at].0 == SetupEvent::Connected(Ok(pool))
                &&& forall|i: int|
                    at < i < events.len() ==> (#[trigger] events[i]).0 matches SetupEvent::Configured(Ok(_))
            },
        },
    decreases events.len(),
{
    let turn = setup.next(events[0].0, events[0].1);
    let rest = events.drop_first();
    assert(set_up(turn, rest));
    assert(setup_result(SetupTurnView::Act { delay_ms, setup }, events) == setup_result(turn, rest));
    if let SetupTurnView::Act { delay_ms, setup: next } = turn {
        lemma_setup_configured(next, delay_ms, rest);
        assert(forall|i: int| 0 < i < events.len() ==> #[trigger] events[i] == rest[i - 1]);
    }
}

/// A connection that is returned is one that was made, with all four settings made on it after
/// that.
pub proof fn law_connection_is_configured<P>(events: Seq<(SetupEvent<P>, Seq<char>)>)
    requires
        set_up(setup_begin(), events),
    ensures
        setup_result(setup_begin(), events) matches Ok(pool) ==> {
            let at = events.len() - PRAGMA_COUNT - 1;
            &&& at >= 0
            &&& events[at].0 == SetupEvent::Connected(Ok(pool))
            &&& forall|i: int|
                at < i < events.len() ==> (#[trigger] events[i]).0 matches SetupEvent::Configured(Ok(_))
        },
{
    lemma_setup_configured(
        Setup::<P> { retry_count: 0, stage: SetupStage::FindParent },
        0,
        events,
    );
}

/// Whether an event says that the database exists.
pub open spec fn database_there<P>(event: SetupEvent<P>) -> bool {
    match event {
        SetupEvent::DatabaseFound(result) => result matches Ok(found) && found,
        SetupEvent::DatabaseCreated(result) => result is Ok,
        _ => false,
    }
}

/// Whether an event says that the database was looked for and not found.
pub open spec fn database_missing<P>(event: SetupEvent<P>) -> bool {
    event is DatabaseFound && !database_there(event)
}

/// Whether an event before the `i`th says that the database exists.
pub open spec fn there_before<P>(events: Seq<(SetupEvent<P>, Seq<char>)>, i: int) -> bool {
    exists|j: int| 0 <= j < i && database_there(#[trigger] events[j].0)
}

proof fn lemma_connects_to_what_exists<P>(
    setup: Setup<P>,
    delay_ms: u64,
    events: Seq<(SetupEvent<P>, Seq<char>)>,
)
    requires
        set_up(SetupTurnView::Act { delay_ms, setup }, events),
    ensures
        !(setup.stage is Connect || setup.stage is Configure) ==> forall|i: int|
            0 <= i < events.len() && (#[trigger] events[i]).0 is Connected ==> there_before(
                events,
                i,
            ),
    decreases events.len(),
{
    let turn = setup.next(events[0].0, events[0].1);
    let rest = events.drop_first();
    assert(set_up(turn, rest));
    if let SetupTurnView::Act { delay_ms, setup: next } = turn {
        lemma_connects_to_what_exists(next, delay_ms, rest);
        if !(setup.stage is Connect || setup.stage is Configure) {
            assert forall|i: int|
                0 <= i < events.len() && (#[trigger] events[i]).0 is Connected implies there_before(
                events,
                i,
            ) by {
                assert(i > 0);
                assert(rest[i - 1] == events[i]);
                if next.stage is Connect {
                    assert(database_there(events[0].0));
                } else {
                    assert(there_before(rest, i - 1));
                    let j = choose|j: int| 0 <= j < i - 1 && database_there(#[trigger] rest[j].0);
                    assert(events[j + 1] == rest[j]);
                }
            }
        }
    }
}

proof fn lemma_missing_is_created<P>(
    setup: Setup<P>,
    delay_ms: u64,
    events: Seq<(SetupEvent<P>, Seq<char>)>,
)
    requires
        set_up(SetupTurnView::Act { delay_ms, setup }, events),
    ensures
        forall|i: int|
            0 <= i < events.len() && database_missing((#[trigger] events[i]).0) ==> {
                &&& i + 1 < events.len()
                &&& events[i + 1].0 is DatabaseCreated || (events[i + 1].0 is DatabaseFound && (
                if i == 0 {
                    setup.stage is FindDatabaseAgain
                } else {
                    events[i - 1].0 matches SetupEvent::DatabaseCreated(Err(_))
                }))
            },
    decreases events.len(),
{
    let turn = setup.next(events[0].0, events[0].1);
    let rest = events.drop_first();
    assert(set_up(turn, rest));
    if let SetupTurnView::Act { delay_ms, setup: next } = turn {
        lemma_missing_is_created(next, delay_ms, rest);
        assert forall|i: int|
            0 <= i < events.len() && database_missing((#[trigger] events[i]).0) implies {
            &&& i + 1 < events.len()
            &&& events[i + 1].0 is DatabaseCreated || (events[i + 1].0 is DatabaseFound && (
            if i == 0 {
                setup.stage is FindDatabaseAgain
            } else {
                events[i - 1].0 matches SetupEvent::DatabaseCreated(Err(_))
            }))
        } by {
            if i > 0 {
                assert(rest[i - 1] == events[i]);
                assert(database_missing(rest[i - 1].0));
                assert(rest[i] == events[i + 1]);
                if i > 1 {
                    assert(rest[i - 2] == events[i - 1]);
                }
            } else {
                assert(next.accepts(rest[0].0));
                assert(rest[0] == events[1]);
            }
        }
    }
}

/// A connection is only attempted to a database that exists: before the first attempt it was found,
/// or created. A database that was looked for and not found is created next; only after a failed
/// creation it is looked for once more.
pub proof fn law_database_exists_before_it_is_connected_to<P>(
    events: Seq<(SetupEvent<P>, Seq<char>)>,
)
    requires
        set_up(setup_begin(), events),
    ensures
        forall|i: int|
            0 <= i < events.len() && (#[trigger] events[i]).0 is Connected ==> there_before(
                events,
                i,
            ),
        forall|i: int|
            0 <= i < events.len() && database_missing((#[trigger] events[i]).0) ==> {
                &&& i + 1 < events.len()
                &&& events[i + 1].0 is DatabaseCreated || (events[i + 1].0 is DatabaseFound
                    && events[i - 1].0 matches SetupEvent::DatabaseCreated(Err(_)))
            },
{
    let setup = Setup::<P> { retry_count: 0, stage: SetupStage::FindParent };
    lemma_connects_to_what_exists(setup, 0, events);
    lemma_missing_is_created(setup, 0, events);
}

/// The directory of the database comes first: it is created if it is missing, and only then.
pub proof fn law_directory_is_created_first<P>(events: Seq<(SetupEvent<P>, Seq<char>)>)
    requires
        set_up(setup_begin(), events),
    ensures
        events.len() >= 2,
        events[0].0 matches SetupEvent::ParentMissing(missing) && if missing {
            &&& events[1].0 is ParentCreated
            &&& events[1].0 matches SetupEvent::ParentCreated(Ok(_)) ==> events.len() > 2
                && events[2].0 is DatabaseFound
        } else {
            events[1].0 is DatabaseFound
        },
{
    reveal_with_fuel(set_up, 4);
    assert(events.drop_first()[0] == events[1]);
    if events.len() > 2 {
        assert(events.drop_first().drop_first()[0] == events[2]);
    }
}

proof fn lemma_setup_failed<P>(
    setup: Setup<P>,
    delay_ms: u64,
    events: Seq<(SetupEvent<P>, Seq<char>)>,
)
    requires
        setup.wf(),
        set_up(SetupTurnView::Act { delay_ms, setup }, events),
    ensures
        setup_result(SetupTurnView::Act { delay_ms, setup }, events) matches Err(err) ==> match events.last().0 {
            SetupEvent::ParentCreated(Err(reason)) => err == DbErrorView::Io(reason),
            SetupEvent::DatabaseCreated(Err(reason)) => {
                &&& err == DbErrorView::Database(reason)
                &&& is_busy(reason) ==> creations(events) == creations_left(setup)
                &&& !(setup.stage is Connect || setup.stage is Configure)
            },
            SetupEvent::Connected(Err(reason)) => {
                &&& !(setup.stage is Configure)
                &&& if is_busy(reason) {
                    &&& err == DbErrorView::Pool("Failed to connect to database after 10 retries"@)
                    &&& connections(events) == connections_left(setup)
                } else {
                    err == DbErrorView::Pool(events.last().1)
                }
            },
            SetupEvent::Configured(Err(reason)) => err == DbErrorView::Database(reason),
            _ => false,
        },
    decreases events.len(),
{
    let turn = setup.next(events[0].0, events[0].1);
    let rest = events.drop_first();
    assert(set_up(turn, rest));
    assert(setup_result(SetupTurnView::Act { delay_ms, setup }, events) == setup_result(
        turn,
        rest,
    ));
    match turn {
        SetupTurnView::Act { delay_ms, setup: next } => {
            lemma_setup_failed(next, delay_ms, rest);
            assert(rest.last() == events.last());
        },
        SetupTurnView::Finished { .. } => {
            assert(events.last() == events[0]);
            assert(creations(rest) == 0);
            assert(connections(rest) == 0);
        },
    }
}

/// The setting up of a connection fails only with its last event, and only because the directory
/// could not be created, a setting could not be made, or the database could not be created or
/// connected to: at once for another reason than a busy database, and otherwise after ten attempts.
/// If nothing fails, a connection is returned.
pub proof fn law_setup_gives_up_for_a_reason<P>(events: Seq<(SetupEvent<P>, Seq<char>)>)
    requires
        set_up(setup_begin(), events),
    ensures
        setup_result(setup_begin(), events) matches Err(err) ==> match events.last().0 {
            SetupEvent::ParentCreated(Err(reason)) => err == DbErrorView::Io(reason),
            SetupEvent::DatabaseCreated(Err(reason)) => {
                &&& err == DbErrorView::Database(reason)
                &&& is_busy(reason) ==> creations(events) == MAX_CONNECT_RETRIES
            },
            SetupEvent::Connected(Err(reason)) => if is_busy(reason) {
                &&& err == DbErrorView::Pool("Failed to connect to database after 10 retries"@)
                &&& connections(events) == MAX_CONNECT_RETRIES
            } else {
                err == DbErrorView::Pool(events.last().1)
            },
            SetupEvent::Configured(Err(reason)) => err == DbErrorView::Database(reason),
            _ => false,
        },
{
    lemma_setup_failed(
        Setup::<P> { retry_count: 0, stage: SetupStage::FindParent },
        0,
        events,
    );
}

/// The pauses of a setting up: ten milliseconds after a busy database, and none otherwise. An error
/// other than "busy" is never retried.
pub proof fn law_setup_pauses<P>(setup: Setup<P>, event: SetupEvent<P>, text: Seq<char>)
    requires
        setup.wf(),
        setup.accepts(event),
    ensures
        ({
            let busy = match event {
                SetupEvent::DatabaseCreated(Err(reason)) => is_busy(reason),
                SetupEvent::Connected(Err(reason)) => is_busy(reason),
                _ => false,
            };
            let failed = match event {
                SetupEvent::ParentCreated(result) => result is Err,
                SetupEvent::DatabaseCreated(result) => result is Err,
                SetupEvent::Connected(result) => result is Err,
                SetupEvent::Configured(result) => result is Err,
                _ => false,
            };
            &&& failed && !busy ==> setup.next(event, text) is Finished
            &&& setup.next(event, text) matches SetupTurnView::Act { delay_ms, .. } ==> delay_ms
                == (if busy {
                10int
            } else {
                0
            })
        }),
{
}

/// The address of a database is its path behind the name of the driver.
pub proof fn law_address_names_the_path(db_path: Seq<char>)
    ensures
        url_text(db_path).take(7) == "sqlite:"@,
        url_text(db_path).skip(7) == db_path,
{
    reveal_strlit("sqlite:");
    assert(url_text(db_path).take(7) =~= "sqlite:"@);
    assert(url_text(db_path).skip(7) =~= db_path);
}

} // verus!
