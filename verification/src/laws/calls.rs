//! What holds of a call from its first statement to its result.
use crate::call::{call_begin, CallTurnView, CallView, RequestView};
use crate::error::{busy_code, is_busy, unique_code, CacheError};
use crate::table::{RowsView, Table};
use vstd::prelude::*;

verus! {

/// A statement that was sent: what the database answered, and the table afterwards.
pub struct Exchange {
    pub answer: Result<RowsView, sqlx::Error>,
    pub after: Table,
}

/// Whether these exchanges are how a call runs from `turn` to its end on a database that performs
/// each statement that it answers with rows, and leaves the table alone when it answers with an
/// error. Nobody else writes to the table meanwhile.
pub open spec fn served(turn: CallTurnView, table: Table, exchanges: Seq<Exchange>) -> bool
    decreases exchanges.len(),
{
    match turn {
        CallTurnView::Finished(_) => exchanges.len() == 0,
        CallTurnView::Send { call, .. } => {
            let exchange = exchanges[0];
            &&& exchanges.len() > 0
            &&& match exchange.answer {
                Ok(rows) => call.query().performed(table, exchange.after, rows),
                Err(_) => exchange.after == table,
            }
            &&& served(call.answered(exchange.answer), exchange.after, exchanges.drop_first())
        },
    }
}

/// The table after the last exchange.
pub open spec fn table_after(table: Table, exchanges: Seq<Exchange>) -> Table {
    if exchanges.len() == 0 {
        table
    } else {
        exchanges.last().after
    }
}

/// The result of a call that ran through these exchanges.
pub open spec fn result_after(turn: CallTurnView, exchanges: Seq<Exchange>) -> Result<
    RowsView,
    CacheError,
>
    decreases exchanges.len(),
{
    match turn {
        CallTurnView::Finished(result) => result,
        CallTurnView::Send { call, .. } => if exchanges.len() == 0 {
            arbitrary()
        } else {
            result_after(call.answered(exchanges[0].answer), exchanges.drop_first())
        },
    }
}

/// How many exchanges ended in an error.
pub open spec fn failures(exchanges: Seq<Exchange>) -> nat {
    exchanges.filter(|exchange: Exchange| exchange.answer is Err).len()
}

/// What a call knows about the table is true.
spec fn informed(call: CallView, table: Table) -> bool {
    &&& call.wf()
    &&& call.existing matches Some(existing) ==> call.request matches RequestView::Store {
        key,
        ..
    } && existing == table.contains_key(key)
}

proof fn lemma_performed(call: CallView, table: Table, exchanges: Seq<Exchange>)
    requires
        informed(call, table),
        served(CallTurnView::Send { delay_ms: 0, call }, table, exchanges),
    ensures
        match result_after(CallTurnView::Send { delay_ms: 0, call }, exchanges) {
            Ok(rows) => call.request.performed(table, table_after(table, exchanges), rows),
            Err(_) => table_after(table, exchanges) == table,
        },
    decreases exchanges.len(),
{
    let exchange = exchanges[0];
    let rest = exchanges.drop_first();
    let turn = call.answered(exchange.answer);
    assert(served(turn, exchange.after, rest));
    match turn {
        CallTurnView::Finished(_) => {
            assert(result_after(turn, rest) == turn->Finished_0);
            assert(exchanges.last() == exchange);
        },
        CallTurnView::Send { delay_ms, call: next } => {
            assert(served(CallTurnView::Send { delay_ms: 0, call: next }, exchange.after, rest));
            assert(exchange.after == table);
            lemma_performed(next, exchange.after, rest);
            assert(result_after(CallTurnView::Send { delay_ms: 0, call: next }, rest)
                == result_after(turn, rest));
            assert(rest.last() == exchanges.last());
        },
    }
}

/// A call that succeeds has had its request performed, however often the database was busy in
/// between, and nothing else. A call that fails has left the table as it was.
pub proof fn law_call_is_performed_once(
    request: RequestView,
    table: Table,
    exchanges: Seq<Exchange>,
)
    requires
        served(call_begin(request), table, exchanges),
    ensures
        match result_after(call_begin(request), exchanges) {
            Ok(rows) => request.performed(table, table_after(table, exchanges), rows),
            Err(_) => table_after(table, exchanges) == table,
        },
{
    match call_begin(request) {
        CallTurnView::Finished(_) => {
            let keys = request->keys;
            assert(table.remove_keys(keys.to_set()) =~= table) by {
                assert forall|key: Seq<char>| #[trigger] keys.to_set().contains(key) implies false by {
                    assert(keys.contains(key));
                }
            }
        },
        CallTurnView::Send { call, .. } => {
            lemma_performed(call, table, exchanges);
        },
    }
}

proof fn lemma_failures_step(exchanges: Seq<Exchange>)
    requires
        exchanges.len() > 0,
    ensures
        failures(exchanges) == failures(exchanges.drop_first()) + (if exchanges[0].answer is Err {
            1nat
        } else {
            0
        }),
{
    reveal_with_fuel(Seq::filter, 2);
    let failed = |exchange: Exchange| exchange.answer is Err;
    let first = seq![exchanges[0]];
    Seq::filter_distributes_over_add(first, exchanges.drop_first(), failed);
    assert(first + exchanges.drop_first() =~= exchanges);
    assert(first.drop_last() =~= Seq::<Exchange>::empty());
    assert(exchanges.filter(failed).len() == first.filter(failed).len()
        + exchanges.drop_first().filter(failed).len());
}

/// The most exchanges that a call can take in which the database answers with `failed` errors.
pub open spec fn exchanges_for(request: RequestView, failed: nat) -> nat {
    if request is Store {
        2 * (failed + 1)
    } else {
        failed + 1
    }
}

proof fn lemma_ends(call: CallView, table: Table, exchanges: Seq<Exchange>)
    requires
        call.wf(),
        served(CallTurnView::Send { delay_ms: 0, call }, table, exchanges),
    ensures
        exchanges.len() <= exchanges_for(call.request, failures(exchanges)) - (
        if call.existing is Some {
            1int
        } else {
            0
        }),
    decreases exchanges.len(),
{
    let exchange = exchanges[0];
    let rest = exchanges.drop_first();
    let turn = call.answered(exchange.answer);
    assert(served(turn, exchange.after, rest));
    lemma_failures_step(exchanges);
    if let CallTurnView::Send { call: next, .. } = turn {
        assert(served(CallTurnView::Send { delay_ms: 0, call: next }, exchange.after, rest));
        lemma_ends(next, exchange.after, rest);
    }
}

/// A call comes to its end once the database is no longer busy: storing a value takes at most two
/// statements for the first attempt and for each one that failed, and every other request takes at
/// most one.
pub proof fn law_call_ends_once_not_busy(
    request: RequestView,
    table: Table,
    exchanges: Seq<Exchange>,
)
    requires
        served(call_begin(request), table, exchanges),
    ensures
        exchanges.len() <= exchanges_for(request, failures(exchanges)),
{
    if let CallTurnView::Send { call, .. } = call_begin(request) {
        lemma_ends(call, table, exchanges);
    }
}

proof fn lemma_gives_up(call: CallView, table: Table, exchanges: Seq<Exchange>)
    requires
        call.wf(),
        served(CallTurnView::Send { delay_ms: 0, call }, table, exchanges),
    ensures
        forall|i: int|
            0 <= i < exchanges.len() - 1 ==> (#[trigger] exchanges[i].answer matches Err(err)
                ==> is_busy(err)),
        match result_after(CallTurnView::Send { delay_ms: 0, call }, exchanges) {
            Ok(_) => exchanges.last().answer is Ok,
            Err(err) => {
                &&& exchanges.last().answer matches Err(last)
                &&& err == CacheError::DatabaseError(last)
                &&& !is_busy(last)
            },
        },
    decreases exchanges.len(),
{
    let exchange = exchanges[0];
    let rest = exchanges.drop_first();
    let turn = call.answered(exchange.answer);
    assert(served(turn, exchange.after, rest));
    match turn {
        CallTurnView::Finished(_) => {
            assert(exchanges.last() == exchange);
        },
        CallTurnView::Send { delay_ms, call: next } => {
            assert(served(CallTurnView::Send { delay_ms: 0, call: next }, exchange.after, rest));
            lemma_gives_up(next, exchange.after, rest);
            assert(result_after(CallTurnView::Send { delay_ms: 0, call: next }, rest)
                == result_after(turn, rest));
            assert(rest.last() == exchanges.last());
            assert forall|i: int| 0 <= i < exchanges.len() - 1 implies (
            #[trigger] exchanges[i].answer matches Err(err) ==> is_busy(err)) by {
                if i > 0 {
                    assert(rest[i - 1] == exchanges[i]);
                }
            }
        },
    }
}

/// A call is retried until it succeeds or meets a non-busy error: every error before the last
/// answer is "busy", and a call that fails does so with the last answer, which is not.
pub proof fn law_call_gives_up_for_a_reason(
    request: RequestView,
    table: Table,
    exchanges: Seq<Exchange>,
)
    requires
        served(call_begin(request), table, exchanges),
    ensures
        forall|i: int|
            0 <= i < exchanges.len() - 1 ==> (#[trigger] exchanges[i].answer matches Err(err)
                ==> is_busy(err)),
        exchanges.len() > 0 && exchanges.last().answer is Ok ==> result_after(
            call_begin(request),
            exchanges,
        ) is Ok,
        result_after(call_begin(request), exchanges) matches Err(err) ==> {
            &&& exchanges.len() > 0
            &&& exchanges.last().answer matches Err(last)
            &&& err == CacheError::DatabaseError(last)
            &&& !is_busy(last)
        },
{
    if let CallTurnView::Send { call, .. } = call_begin(request) {
        lemma_gives_up(call, table, exchanges);
    }
}

/// An attempt that the database was too busy for is repeated from the start, after a pause: what it
/// found out about the table is forgotten, since others may have written meanwhile.
pub proof fn law_retry_starts_over(call: CallView, err: sqlx::Error)
    requires
        call.wf(),
        is_busy(err),
    ensures
        call.answered(Err(err)) matches CallTurnView::Send { delay_ms, call: next } && delay_ms == 5
            && call_begin(call.request) == (CallTurnView::Send { delay_ms: 0, call: next }),
{
}

/// The codes for "busy" and "locked" are 5 and 6, and that of a violated primary key is 1555. No
/// other text, and no missing one, is taken for any of them.
pub proof fn law_codes_are_told_apart(code: Seq<char>)
    ensures
        busy_code(Some(code)) <==> code.len() == 1 && (code[0] == '5' || code[0] == '6'),
        unique_code(Some(code)) <==> code == seq!['1', '5', '5', '5'],
        !busy_code(None),
        !unique_code(None),
{
    reveal_strlit("5");
    reveal_strlit("6");
    reveal_strlit("1555");
    assert("1555"@ =~= seq!['1', '5', '5', '5']);
    if code.len() == 1 {
        assert(code[0] == '5' ==> code =~= "5"@);
        assert(code[0] == '6' ==> code =~= "6"@);
    }
}

} // verus!
