//! What a statement of SQL does, read off its text.
//!
//! The part of SQL that the cache uses: statements on the table `cache`, with a placeholder for
//! every value. Placeholders take the bound values in the order in which they stand in the text.
use crate::database::{BindView, Fetch, Query};
use crate::recency::Datum;
use crate::table::{Row, RowsView, Table};
use vstd::prelude::*;

verus! {

/// A column of the table.
pub enum Column {
    CacheKey,
    CacheValue,
    Expires,
    LastAccessed,
}

/// A value in a column, or bound to a placeholder.
#[verifier::ext_equal]
pub enum Value {
    Null,
    Integer(i64),
    Text(Seq<char>),
    Blob(Seq<u8>),
}

/// What a bound value is in SQL.
pub open spec fn value_of(bind: BindView) -> Value {
    match bind {
        BindView::Text(text) => Value::Text(text),
        BindView::Blob(bytes) => Value::Blob(bytes),
        BindView::Integer(number) => Value::Integer(number),
        BindView::Nullable(Some(number)) => Value::Integer(number),
        BindView::Nullable(None) => Value::Null,
    }
}

/// What bound values are in SQL.
pub open spec fn values_of(binds: Seq<BindView>) -> Seq<Value> {
    binds.map_values(|bind: BindView| value_of(bind))
}

/// Texts with a separator between them.
pub open spec fn join(parts: Seq<Seq<char>>, separator: Seq<char>) -> Seq<char>
    decreases parts.len(),
{
    if parts.len() == 0 {
        Seq::empty()
    } else if parts.len() == 1 {
        parts[0]
    } else {
        join(parts.drop_last(), separator) + separator + parts.last()
    }
}

/// `n` placeholders.
pub open spec fn marks(n: nat) -> Seq<Seq<char>> {
    Seq::new(n, |i: int| "?"@)
}

impl Column {
    /// The name of the column.
    pub open spec fn name(self) -> Seq<char> {
        match self {
            Column::CacheKey => "cache_key"@,
            Column::CacheValue => "cache_value"@,
            Column::Expires => "expires"@,
            Column::LastAccessed => "last_accessed"@,
        }
    }

    /// What stands in the column for a row of the table.
    pub open spec fn cell(self, key: Seq<char>, row: Row) -> Value {
        match self {
            Column::CacheKey => Value::Text(key),
            Column::CacheValue => Value::Blob(row.datum.0),
            Column::Expires => match row.datum.1 {
                Some(expiration) => Value::Integer(expiration),
                None => Value::Null,
            },
            Column::LastAccessed => Value::Integer(row.last_accessed),
        }
    }

    /// The row with another value in the column. The key is not part of a row.
    pub open spec fn put(self, row: Row, value: Value) -> Row {
        match (self, value) {
            (Column::CacheKey, _) => row,
            (Column::CacheValue, Value::Blob(bytes)) => Row { datum: (bytes, row.datum.1), ..row },
            (Column::Expires, Value::Integer(number)) => Row {
                datum: (row.datum.0, Some(number)),
                ..row
            },
            (Column::Expires, Value::Null) => Row { datum: (row.datum.0, None), ..row },
            (Column::LastAccessed, Value::Integer(number)) => Row { last_accessed: number, ..row },
            _ => arbitrary(),
        }
    }
}

/// The row with other values in several columns, one value for each.
pub open spec fn put_all(row: Row, columns: Seq<Column>, values: Seq<Value>) -> Row
    decreases columns.len(),
{
    if columns.len() == 0 {
        row
    } else {
        columns.last().put(
            put_all(row, columns.drop_last(), values.drop_last()),
            values.last(),
        )
    }
}

/// A condition on one column.
pub enum Condition {
    /// `column = ?`
    Equals(Column),
    /// `column < ?`
    Less(Column),
    /// `column IN (?,?,?)`
    Among { column: Column, n: nat },
    /// `column IS NOT NULL`
    NotNull(Column),
}

impl Condition {
    /// How many placeholders the condition has.
    pub open spec fn arity(self) -> nat {
        match self {
            Condition::Equals(_) | Condition::Less(_) => 1,
            Condition::Among { n, .. } => n,
            Condition::NotNull(_) => 0,
        }
    }

    /// The text of the condition.
    pub open spec fn text(self) -> Seq<char> {
        match self {
            Condition::Equals(column) => column.name() + " = ?"@,
            Condition::Less(column) => column.name() + " < ?"@,
            Condition::Among { column, n } => column.name() + " IN ("@ + join(marks(n), ","@)
                + ")"@,
            Condition::NotNull(column) => column.name() + " IS NOT NULL"@,
        }
    }

    /// Whether the condition is true of a row. A comparison with NULL is never true.
    pub open spec fn holds(self, values: Seq<Value>, key: Seq<char>, row: Row) -> bool {
        match self {
            Condition::Equals(column) => {
                &&& !(column.cell(key, row) is Null)
                &&& column.cell(key, row) == values[0]
            },
            Condition::Less(column) => match (column.cell(key, row), values[0]) {
                (Value::Integer(number), Value::Integer(bound)) => number < bound,
                _ => false,
            },
            Condition::Among { column, .. } => {
                &&& !(column.cell(key, row) is Null)
                &&& values.contains(column.cell(key, row))
            },
            Condition::NotNull(column) => !(column.cell(key, row) is Null),
        }
    }
}

/// How many placeholders several conditions have.
pub open spec fn arity_of(conditions: Seq<Condition>) -> nat
    decreases conditions.len(),
{
    if conditions.len() == 0 {
        0
    } else {
        arity_of(conditions.drop_last()) + conditions.last().arity()
    }
}

/// The text of several conditions that all have to be true.
pub open spec fn text_of(conditions: Seq<Condition>) -> Seq<char> {
    join(conditions.map_values(|condition: Condition| condition.text()), " AND "@)
}

/// Whether several conditions are all true of a row.
pub open spec fn hold(
    conditions: Seq<Condition>,
    values: Seq<Value>,
    key: Seq<char>,
    row: Row,
) -> bool
    decreases conditions.len(),
{
    conditions.len() > 0 ==> {
        let at = values.len() - conditions.last().arity();
        &&& conditions.last().holds(values.skip(at), key, row)
        &&& hold(conditions.drop_last(), values.take(at), key, row)
    }
}

/// Whether a key has a row in the table of which several conditions are all true.
pub open spec fn selected(
    table: Table,
    conditions: Seq<Condition>,
    values: Seq<Value>,
    key: Seq<char>,
) -> bool {
    table.contains_key(key) && hold(conditions, values, key, table[key])
}

/// Whether several conditions are all true of some row of the table.
pub open spec fn any_selected(
    table: Table,
    conditions: Seq<Condition>,
    values: Seq<Value>,
) -> bool {
    exists|key: Seq<char>| #[trigger] selected(table, conditions, values, key)
}

/// Whether `datum` is what some row holds of which several conditions are all true.
pub open spec fn datum_selected(
    table: Table,
    conditions: Seq<Condition>,
    values: Seq<Value>,
    datum: Datum,
) -> bool {
    exists|key: Seq<char>| #[trigger]
        selected(table, conditions, values, key) && table[key].datum == datum
}

/// A statement.
pub enum Sql {
    /// `SELECT EXISTS(SELECT 1 FROM cache WHERE ..) as "exists"`
    Exists { conditions: Seq<Condition> },
    /// `SELECT .. FROM cache WHERE ..`
    Select { columns: Seq<Column>, conditions: Seq<Condition> },
    /// `UPDATE cache SET .. WHERE ..`
    Update { columns: Seq<Column>, conditions: Seq<Condition> },
    /// `INSERT INTO cache (..) VALUES (..)`
    Insert { columns: Seq<Column> },
    /// `DELETE FROM cache WHERE ..`
    Delete { conditions: Seq<Condition> },
}

impl Sql {
    /// How many placeholders the statement has.
    pub open spec fn arity(self) -> nat {
        match self {
            Sql::Exists { conditions } => arity_of(conditions),
            Sql::Select { conditions, .. } => arity_of(conditions),
            Sql::Update { columns, conditions } => columns.len() + arity_of(conditions),
            Sql::Insert { columns } => columns.len(),
            Sql::Delete { conditions } => arity_of(conditions),
        }
    }

    /// The text of the statement.
    pub open spec fn text(self) -> Seq<char> {
        let names = |columns: Seq<Column>|
            join(columns.map_values(|column: Column| column.name()), ", "@);
        match self {
            Sql::Exists { conditions } => "SELECT EXISTS(SELECT 1 FROM cache WHERE "@ + text_of(
                conditions,
            ) + ") as \"exists\""@,
            Sql::Select { columns, conditions } => "SELECT "@ + names(columns)
                + " FROM cache WHERE "@ + text_of(conditions),
            Sql::Update { columns, conditions } => "UPDATE cache SET "@ + join(
                columns.map_values(|column: Column| column.name() + " = ?"@),
                ", "@,
            ) + " WHERE "@ + text_of(conditions),
            Sql::Insert { columns } => "INSERT INTO cache ("@ + names(columns) + ") VALUES ("@
                + join(marks(columns.len()), ", "@) + ")"@,
            Sql::Delete { conditions } => "DELETE FROM cache WHERE "@ + text_of(conditions),
        }
    }

    /// Which rows the statement gives back.
    pub open spec fn fetch(self) -> Fetch {
        match self {
            Sql::Exists { .. } => Fetch::Exists,
            Sql::Select { columns, .. } => if columns.contains(Column::CacheKey) {
                Fetch::Keys
            } else {
                Fetch::Entry
            },
            _ => Fetch::Nothing,
        }
    }

    /// Whether the database may turn the table `before` into `after` and give back `rows` when it
    /// executes the statement with these values for its placeholders.
    pub open spec fn executed(
        self,
        values: Seq<Value>,
        before: Table,
        after: Table,
        rows: RowsView,
    ) -> bool {
        match self {
            Sql::Exists { conditions } => {
                &&& after == before
                &&& rows == RowsView::Exists(any_selected(before, conditions, values))
            },
            Sql::Select { columns, conditions } => {
                &&& after == before
                &&& if columns == seq![Column::CacheKey] {
                    &&& rows matches RowsView::Keys(keys)
                    &&& keys.no_duplicates()
                    &&& forall|key: Seq<char>| #[trigger]
                        keys.contains(key) <==> selected(before, conditions, values, key)
                } else {
                    &&& columns == seq![Column::CacheValue, Column::Expires]
                    &&& rows matches RowsView::Entry(found)
                    &&& match found {
                        Some(datum) => datum_selected(before, conditions, values, datum),
                        None => !any_selected(before, conditions, values),
                    }
                }
            },
            Sql::Update { columns, conditions } => {
                let assigned = values.take(columns.len() as int);
                let compared = values.skip(columns.len() as int);
                &&& rows == RowsView::Nothing
                &&& !columns.contains(Column::CacheKey)
                &&& after.dom() == before.dom()
                &&& forall|key: Seq<char>| #[trigger]
                    before.contains_key(key) ==> after[key] == (if selected(
                        before,
                        conditions,
                        compared,
                        key,
                    ) {
                        put_all(before[key], columns, assigned)
                    } else {
                        before[key]
                    })
            },
            Sql::Insert { columns } => {
                let empty = Row { datum: (Seq::empty(), None), last_accessed: 0 };
                &&& rows == RowsView::Nothing
                &&& columns.no_duplicates()
                &&& columns.contains(Column::CacheKey)
                &&& columns.contains(Column::CacheValue)
                &&& columns.contains(Column::LastAccessed)
                &&& values[columns.index_of(Column::CacheKey)] matches Value::Text(key)
                &&& !before.contains_key(key)
                &&& after == before.insert(key, put_all(empty, columns, values))
            },
            Sql::Delete { conditions } => {
                &&& rows == RowsView::Nothing
                &&& forall|key: Seq<char>| #[trigger]
                    after.contains_key(key) <==> before.contains_key(key) && !selected(
                        before,
                        conditions,
                        values,
                        key,
                    )
                &&& forall|key: Seq<char>| #[trigger]
                    after.contains_key(key) ==> after[key] == before[key]
            },
        }
    }
}

/// How each statement of the cache is read.
pub open spec fn sql_of(query: Query) -> Sql {
    let this_key = seq![Condition::Equals(Column::CacheKey)];
    match query {
        Query::KeyExists { .. } => Sql::Exists { conditions: this_key },
        Query::Update { .. } => Sql::Update {
            columns: seq![Column::CacheValue, Column::Expires, Column::LastAccessed],
            conditions: this_key,
        },
        Query::Insert { .. } => Sql::Insert {
            columns: seq![
                Column::CacheKey,
                Column::CacheValue,
                Column::Expires,
                Column::LastAccessed,
            ],
        },
        Query::Get { .. } => Sql::Select {
            columns: seq![Column::CacheValue, Column::Expires],
            conditions: this_key,
        },
        Query::Touch { .. } => Sql::Update {
            columns: seq![Column::LastAccessed],
            conditions: this_key,
        },
        Query::Delete { .. } => Sql::Delete { conditions: this_key },
        Query::Expired { .. } => Sql::Select {
            columns: seq![Column::CacheKey],
            conditions: seq![
                Condition::Less(Column::Expires),
                Condition::NotNull(Column::Expires),
            ],
        },
        Query::DeleteBatch { keys } => Sql::Delete {
            conditions: seq![Condition::Among { column: Column::CacheKey, n: keys.len() }],
        },
    }
}

} // verus!
