//! What holds of the statements that are sent to the database.
use crate::database::{placeholders, Fetch, Query};
use crate::recency::Datum;
use crate::sql::{
    any_selected, arity_of, datum_selected, hold, join, marks, put_all, selected, sql_of, text_of, values_of, Column, Condition,
    Sql, Value,
};
use crate::table::{row_expired, Row, RowsView, Table};
use vstd::prelude::*;

verus! {

proof fn lemma_placeholders(n: nat)
    ensures
        placeholders(n) == join(marks(n), ","@),
    decreases n,
{
    if n > 1 {
        lemma_placeholders((n - 1) as nat);
        assert(marks(n).drop_last() =~= marks((n - 1) as nat));
        reveal_strlit(",?");
        reveal_strlit(",");
        reveal_strlit("?");
        assert(",?"@ =~= ","@ + "?"@);
        assert(placeholders(n) =~= join(marks(n), ","@));
    }
}

/// One condition alone.
proof fn lemma_one_condition(condition: Condition, values: Seq<Value>, key: Seq<char>, row: Row)
    requires
        values.len() == condition.arity(),
    ensures
        arity_of(seq![condition]) == condition.arity(),
        text_of(seq![condition]) == condition.text(),
        hold(seq![condition], values, key, row) == condition.holds(values, key, row),
{
    reveal_with_fuel(arity_of, 2);
    reveal_with_fuel(hold, 2);
    assert(seq![condition].drop_last() =~= Seq::<Condition>::empty());
    assert(values.skip(0) =~= values);
    assert(seq![condition].map_values(|condition: Condition| condition.text())[0]
        == condition.text());
}

/// The rows that `cache_key = ?` selects.
proof fn lemma_this_key(key: Seq<char>, values: Seq<Value>, other: Seq<char>, row: Row)
    requires
        values =~= seq![Value::Text(key)],
    ensures
        arity_of(seq![Condition::Equals(Column::CacheKey)]) == 1,
        text_of(seq![Condition::Equals(Column::CacheKey)]) == "cache_key"@ + " = ?"@,
        hold(seq![Condition::Equals(Column::CacheKey)], values, other, row) == (other == key),
{
    lemma_one_condition(Condition::Equals(Column::CacheKey), values, other, row);
}

/// The texts of the statements are those of the statements that they are read as.
proof fn lemma_texts(query: Query)
    ensures
        query.statement().sql == sql_of(query).text(),
{
    let key_text = Seq::new(1, |i: int| Value::Text(Seq::<char>::empty()));
    let row = Row { datum: (Seq::empty(), None), last_accessed: 0 };
    lemma_this_key(Seq::empty(), key_text, Seq::empty(), row);
    reveal_strlit("cache_key");
    reveal_strlit("cache_value");
    reveal_strlit("expires");
    reveal_strlit("last_accessed");
    reveal_strlit(" = ?");
    reveal_strlit(", ");
    reveal_strlit("?");
    reveal_strlit(")");
    reveal_strlit(" WHERE ");
    reveal_with_fuel(join, 5);
    let name = |column: Column| column.name();
    match query {
        Query::KeyExists { .. } => {
            reveal_strlit("SELECT EXISTS(SELECT 1 FROM cache WHERE cache_key = ?) as \"exists\"");
            reveal_strlit("SELECT EXISTS(SELECT 1 FROM cache WHERE ");
            reveal_strlit(") as \"exists\"");
            assert(query.statement().sql =~= sql_of(query).text());
        },
        Query::Update { .. } => {
            let columns = seq![Column::CacheValue, Column::Expires, Column::LastAccessed];
            let parts = columns.map_values(|column: Column| column.name() + " = ?"@);
            reveal_strlit(
                "UPDATE cache SET cache_value = ?, expires = ?, last_accessed = ? WHERE cache_key = ?",
            );
            reveal_strlit("UPDATE cache SET ");
            assert(parts.drop_last().drop_last() =~= seq![parts[0]]);
            assert(join(parts, ", "@) == parts[0] + ", "@ + parts[1] + ", "@ + parts[2]);
            assert(query.statement().sql =~= sql_of(query).text());
        },
        Query::Insert { .. } => {
            let columns = seq![
                Column::CacheKey,
                Column::CacheValue,
                Column::Expires,
                Column::LastAccessed,
            ];
            let parts = columns.map_values(name);
            let four = marks(4);
            reveal_strlit(
                "INSERT INTO cache (cache_key, cache_value, expires, last_accessed) VALUES (?, ?, ?, ?)",
            );
            reveal_strlit("INSERT INTO cache (");
            reveal_strlit(") VALUES (");
            assert(parts.drop_last().drop_last().drop_last() =~= seq![parts[0]]);
            assert(join(parts, ", "@) == parts[0] + ", "@ + parts[1] + ", "@ + parts[2] + ", "@
                + parts[3]);
            assert(join(four, ", "@) == "?"@ + ", "@ + "?"@ + ", "@ + "?"@ + ", "@ + "?"@);
            assert(query.statement().sql =~= sql_of(query).text());
        },
        Query::Get { .. } => {
            let columns = seq![Column::CacheValue, Column::Expires];
            let parts = columns.map_values(name);
            reveal_strlit("SELECT cache_value, expires FROM cache WHERE cache_key = ?");
            reveal_strlit("SELECT ");
            reveal_strlit(" FROM cache WHERE ");
            assert(parts.drop_last() =~= seq![parts[0]]);
            assert(join(parts, ", "@) == parts[0] + ", "@ + parts[1]);
            assert(query.statement().sql =~= sql_of(query).text());
        },
        Query::Touch { .. } => {
            let columns = seq![Column::LastAccessed];
            let parts = columns.map_values(|column: Column| column.name() + " = ?"@);
            reveal_strlit("UPDATE cache SET last_accessed = ? WHERE cache_key = ?");
            reveal_strlit("UPDATE cache SET ");
            assert(join(parts, ", "@) == parts[0]);
            assert(query.statement().sql =~= sql_of(query).text());
        },
        Query::Delete { .. } => {
            reveal_strlit("DELETE FROM cache WHERE cache_key = ?");
            reveal_strlit("DELETE FROM cache WHERE ");
            assert(query.statement().sql =~= sql_of(query).text());
        },
        Query::Expired { .. } => {
            let columns = seq![Column::CacheKey];
            let parts = columns.map_values(name);
            let conditions = seq![
                Condition::Less(Column::Expires),
                Condition::NotNull(Column::Expires),
            ];
            let texts = conditions.map_values(|condition: Condition| condition.text());
            reveal_strlit("SELECT cache_key FROM cache WHERE expires < ? AND expires IS NOT NULL");
            reveal_strlit("SELECT ");
            reveal_strlit(" FROM cache WHERE ");
            reveal_strlit(" < ?");
            reveal_strlit(" AND ");
            reveal_strlit(" IS NOT NULL");
            assert(join(parts, ", "@) == parts[0]);
            assert(texts.drop_last() =~= seq![texts[0]]);
            assert(text_of(conditions) == texts[0] + " AND "@ + texts[1]);
            assert(query.statement().sql =~= sql_of(query).text());
        },
        Query::DeleteBatch { keys } => {
            let condition = Condition::Among { column: Column::CacheKey, n: keys.len() };
            lemma_one_condition(
                condition,
                Seq::new(keys.len(), |i: int| Value::Null),
                Seq::empty(),
                row,
            );
            lemma_placeholders(keys.len());
            reveal_strlit("DELETE FROM cache WHERE cache_key IN (");
            reveal_strlit("DELETE FROM cache WHERE ");
            reveal_strlit(" IN (");
            assert("DELETE FROM cache WHERE cache_key IN ("@ =~= "DELETE FROM cache WHERE "@
                + "cache_key"@ + " IN ("@);
            assert(query.statement().sql =~= sql_of(query).text());
        },
    }
}

/// Executing the statements that assign columns.
proof fn lemma_writes(query: Query, before: Table, after: Table, rows: RowsView)
    requires
        query is Update || query is Insert || query is Touch,
    ensures
        sql_of(query).executed(values_of(query.statement().binds), before, after, rows)
            <==> query.performed(before, after, rows),
{
    let values = values_of(query.statement().binds);
    reveal_with_fuel(put_all, 5);
    match query {
        Query::Update { key, value, expires, last_accessed } => {
            let columns = seq![Column::CacheValue, Column::Expires, Column::LastAccessed];
            let new = Row { datum: (value, expires), last_accessed };
            let assigned = values.take(3);
            assert forall|row: Row| #[trigger] put_all(row, columns, assigned) == new by {
                assert(columns.drop_last().drop_last().drop_last().len() == 0);
            }
            assert forall|other: Seq<char>, row: Row| #[trigger]
                hold(
                    seq![Condition::Equals(Column::CacheKey)],
                    values.skip(3),
                    other,
                    row,
                ) == (other == key) by {
                lemma_this_key(key, values.skip(3), other, row);
            }
            if before.contains_key(key) {
                if after.dom() == before.dom() && (forall|other: Seq<char>| #[trigger]
                    before.contains_key(other) ==> after[other] == (if other == key {
                        new
                    } else {
                        before[other]
                    })) {
                    assert(after =~= before.insert(key, new));
                }
                assert(before.insert(key, new).dom() =~= before.dom());
            } else if after.dom() == before.dom() && (forall|other: Seq<char>| #[trigger]
                before.contains_key(other) ==> after[other] == before[other]) {
                assert(after =~= before);
            }
        },
        Query::Touch { key, last_accessed } => {
            let columns = seq![Column::LastAccessed];
            let assigned = values.take(1);
            assert forall|row: Row| #[trigger]
                put_all(row, columns, assigned) == (Row { last_accessed, ..row }) by {
                assert(columns.drop_last().len() == 0);
            }
            assert forall|other: Seq<char>, row: Row| #[trigger]
                hold(
                    seq![Condition::Equals(Column::CacheKey)],
                    values.skip(1),
                    other,
                    row,
                ) == (other == key) by {
                lemma_this_key(key, values.skip(1), other, row);
            }
            if before.contains_key(key) {
                let new = Row { last_accessed, ..before[key] };
                if after.dom() == before.dom() && (forall|other: Seq<char>| #[trigger]
                    before.contains_key(other) ==> after[other] == (if other == key {
                        new
                    } else {
                        before[other]
                    })) {
                    assert(after =~= before.insert(key, new));
                }
                assert(before.insert(key, new).dom() =~= before.dom());
            } else if after.dom() == before.dom() && (forall|other: Seq<char>| #[trigger]
                before.contains_key(other) ==> after[other] == before[other]) {
                assert(after =~= before);
            }
        },
        Query::Insert { key, value, expires, last_accessed } => {
            let columns = seq![
                Column::CacheKey,
                Column::CacheValue,
                Column::Expires,
                Column::LastAccessed,
            ];
            let empty = Row { datum: (Seq::empty(), None), last_accessed: 0 };
            assert(columns[0] == Column::CacheKey);
            assert(columns[1] == Column::CacheValue);
            assert(columns[3] == Column::LastAccessed);
            assert(columns.index_of(Column::CacheKey) == 0);
            assert(columns.drop_last().drop_last().drop_last().drop_last().len() == 0);
            assert(put_all(empty, columns, values) == Row {
                datum: (value, expires),
                last_accessed,
            });
        },
        _ => {},
    }
}

/// Asking whether there are rows, where the conditions select those of one key.
proof fn lemma_exists(
    conditions: Seq<Condition>,
    values: Seq<Value>,
    key: Seq<char>,
    before: Table,
    after: Table,
    rows: RowsView,
)
    requires
        forall|other: Seq<char>| #[trigger]
            selected(before, conditions, values, other) == (other == key && before.contains_key(
                key,
            )),
    ensures
        (Sql::Exists { conditions }).executed(values, before, after, rows) <==> {
            &&& after == before
            &&& rows == RowsView::Exists(before.contains_key(key))
        },
{
    assert(selected(before, conditions, values, key) == before.contains_key(key));
    assert(any_selected(before, conditions, values) == before.contains_key(key));
}

/// Reading values, where the conditions select the rows of one key.
proof fn lemma_select(
    conditions: Seq<Condition>,
    values: Seq<Value>,
    key: Seq<char>,
    before: Table,
    after: Table,
    rows: RowsView,
)
    requires
        forall|other: Seq<char>| #[trigger]
            selected(before, conditions, values, other) == (other == key && before.contains_key(
                key,
            )),
    ensures
        (Sql::Select {
            columns: seq![Column::CacheValue, Column::Expires],
            conditions,
        }).executed(values, before, after, rows) <==> {
            &&& after == before
            &&& rows == RowsView::Entry(
                if before.contains_key(key) {
                    Some(before[key].datum)
                } else {
                    None
                },
            )
        },
{
    assert(seq![Column::CacheValue, Column::Expires].len() != seq![Column::CacheKey].len());
    assert(selected(before, conditions, values, key) == before.contains_key(key));
    assert(any_selected(before, conditions, values) == before.contains_key(key));
    assert forall|datum: Datum| #[trigger]
        datum_selected(before, conditions, values, datum) == (before.contains_key(key)
        && before[key].datum == datum) by {}
}

/// Executing the statements that read or remove rows.
proof fn lemma_reads_and_removes(query: Query, before: Table, after: Table, rows: RowsView)
    requires
        !(query is Update || query is Insert || query is Touch),
    ensures
        sql_of(query).executed(values_of(query.statement().binds), before, after, rows)
            <==> query.performed(before, after, rows),
{
    let values = values_of(query.statement().binds);
    let this_key = seq![Condition::Equals(Column::CacheKey)];
    match query {
        Query::KeyExists { key } => {
            assert forall|other: Seq<char>, row: Row| #[trigger]
                hold(this_key, values, other, row) == (other == key) by {
                lemma_this_key(key, values, other, row);
            }
            assert forall|other: Seq<char>| #[trigger]
                selected(before, this_key, values, other) == (other == key
                && before.contains_key(key)) by {}
            lemma_exists(this_key, values, key, before, after, rows);
        },
        Query::Get { key } => {
            assert forall|other: Seq<char>, row: Row| #[trigger]
                hold(this_key, values, other, row) == (other == key) by {
                lemma_this_key(key, values, other, row);
            }
            assert forall|other: Seq<char>| #[trigger]
                selected(before, this_key, values, other) == (other == key
                && before.contains_key(key)) by {}
            lemma_select(this_key, values, key, before, after, rows);
        },
        Query::Delete { key } => {
            assert forall|other: Seq<char>, row: Row| #[trigger]
                hold(this_key, values, other, row) == (other == key) by {
                lemma_this_key(key, values, other, row);
            }
            if sql_of(query).executed(values, before, after, rows) {
                assert(after =~= before.remove(key));
            }
        },
        Query::Expired { now } => {
            let conditions = seq![
                Condition::Less(Column::Expires),
                Condition::NotNull(Column::Expires),
            ];
            assert forall|other: Seq<char>, row: Row| #[trigger]
                hold(conditions, values, other, row) == row_expired(row, now) by {
                reveal_with_fuel(hold, 3);
                assert(conditions.drop_last().drop_last().len() == 0);
                assert(values.take(1) =~= values);
                assert(values.skip(0) =~= values);
            }
            assert(seq![Column::CacheKey] == seq![Column::CacheKey]);
        },
        Query::DeleteBatch { keys } => {
            let condition = Condition::Among { column: Column::CacheKey, n: keys.len() };
            assert forall|other: Seq<char>, row: Row| #[trigger]
                hold(seq![condition], values, other, row) == keys.to_set().contains(other) by {
                lemma_one_condition(condition, values, other, row);
                if keys.contains(other) {
                    let i = choose|i: int| 0 <= i < keys.len() && keys[i] == other;
                    assert(values[i] == Value::Text(other));
                }
                if values.contains(Value::Text(other)) {
                    let i = choose|i: int|
                        0 <= i < values.len() && values[i] == Value::Text(other);
                    assert(keys[i] == other);
                }
            }
            if sql_of(query).executed(values, before, after, rows) {
                assert(after =~= before.remove_keys(keys.to_set()));
            }
        },
        _ => {},
    }
}

/// The kind of rows.
pub open spec fn kind_of(rows: RowsView) -> Fetch {
    match rows {
        RowsView::Nothing => Fetch::Nothing,
        RowsView::Exists(_) => Fetch::Exists,
        RowsView::Entry(_) => Fetch::Entry,
        RowsView::Keys(_) => Fetch::Keys,
    }
}

/// The rows that are accepted for a statement are those of the kind that it says it gives back, and
/// whatever the database gives back for it is accepted.
pub proof fn law_rows_are_accepted(query: Query, before: Table, after: Table, rows: RowsView)
    ensures
        query.accepts(rows) <==> kind_of(rows) == query.statement().fetch,
        query.performed(before, after, rows) ==> query.accepts(rows),
{
}

/// A statement does what it is sent for. Its text is a statement of SQL with one placeholder for
/// each bound value; executed with those values, it selects the rows, assigns the columns and gives
/// back the rows that the cache goes by. In particular an overwritten value gets the new time of
/// expiration, and none if there is none.
pub proof fn law_statements_do_what_they_are_sent_for(
    query: Query,
    before: Table,
    after: Table,
    rows: RowsView,
)
    ensures
        ({
            let statement = query.statement();
            let sql = sql_of(query);
            &&& statement.sql == sql.text()
            &&& statement.fetch == sql.fetch()
            &&& statement.binds.len() == sql.arity()
            &&& sql.executed(values_of(statement.binds), before, after, rows) <==> query.performed(
                before,
                after,
                rows,
            )
        }),
{
    lemma_texts(query);
    reveal_with_fuel(arity_of, 3);
    assert(sql_of(query).fetch() == query.statement().fetch) by {
        assert(seq![Column::CacheKey][0] == Column::CacheKey);
    }
    if query is Update || query is Insert || query is Touch {
        lemma_writes(query, before, after, rows);
    } else {
        lemma_reads_and_removes(query, before, after, rows);
    }
}

} // verus!
