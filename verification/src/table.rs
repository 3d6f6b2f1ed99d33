//! What the statements of the cache mean: the database table as a mathematical map.
use crate::clock::{expired_at, Reading};
use crate::database::{CacheEntry, CacheKey, KeyExistsResult, Query};
use crate::recency::Datum;
use vstd::prelude::*;

verus! {

/// What the database gives back for a statement.
#[derive(Debug)]
pub enum Rows {
    /// Nothing: the statement was executed for its effect.
    Nothing,
    /// Whether the key is there.
    Exists(KeyExistsResult),
    /// The value of the key, if it is there.
    Entry(Option<CacheEntry>),
    /// The keys that were asked for.
    Keys(Vec<CacheKey>),
}

/// The mathematical value of `Rows`.
#[verifier::ext_equal]
pub enum RowsView {
    Nothing,
    Exists(bool),
    Entry(Option<Datum>),
    Keys(Seq<Seq<char>>),
}

/// The keys in a list of rows.
pub open spec fn row_keys(rows: Seq<CacheKey>) -> Seq<Seq<char>> {
    rows.map_values(|row: CacheKey| row@)
}

impl View for Rows {
    type V = RowsView;

    open spec fn view(&self) -> RowsView {
        match *self {
            Rows::Nothing => RowsView::Nothing,
            Rows::Exists(row) => RowsView::Exists(row.exists),
            Rows::Entry(None) => RowsView::Entry(None),
            Rows::Entry(Some(row)) => RowsView::Entry(Some(row@)),
            Rows::Keys(rows) => RowsView::Keys(row_keys(rows@)),
        }
    }
}

/// A row of the table, apart from its key.
pub struct Row {
    pub datum: Datum,
    pub last_accessed: i64,
}

/// The table: at most one row for each key.
pub type Table = Map<Seq<char>, Row>;

/// Whether a row expires before `now`, as the database sees it: its time of expiration is not
/// NULL and lies before `now`.
pub open spec fn row_expired(row: Row, now: i64) -> bool {
    match row.datum.1 {
        Some(expiration) => expiration < now,
        None => false,
    }
}

/// The value that a reader of the table gets when the clock shows `now`: none if the key is
/// missing or its row has expired.
pub open spec fn readable(table: Table, key: Seq<char>, now: Reading) -> Option<Seq<u8>> {
    if table.contains_key(key) && !expired_at(table[key].datum.1, now) {
        Some(table[key].datum.0)
    } else {
        None
    }
}

impl Query {
    /// Whether rows are of the kind that the statement asks for.
    pub open spec fn accepts(self, rows: RowsView) -> bool {
        match self {
            Query::KeyExists { .. } => rows is Exists,
            Query::Get { .. } => rows is Entry,
            Query::Expired { .. } => rows is Keys,
            _ => rows is Nothing,
        }
    }

    /// Whether the database may turn the table `before` into `after` and give back `rows` when it
    /// executes the statement.
    ///
    /// The order in which expired keys come is left open. A key that is there cannot be inserted.
    pub open spec fn performed(self, before: Table, after: Table, rows: RowsView) -> bool {
        match self {
            Query::KeyExists { key } => {
                &&& after == before
                &&& rows == RowsView::Exists(before.contains_key(key))
            },
            Query::Update { key, value, expires, last_accessed } => {
                &&& rows == RowsView::Nothing
                &&& after == (if before.contains_key(key) {
                    before.insert(key, Row { datum: (value, expires), last_accessed })
                } else {
                    before
                })
            },
            Query::Insert { key, value, expires, last_accessed } => {
                &&& rows == RowsView::Nothing
                &&& !before.contains_key(key)
                &&& after == before.insert(key, Row { datum: (value, expires), last_accessed })
            },
            Query::Get { key } => {
                &&& after == before
                &&& rows == RowsView::Entry(
                    if before.contains_key(key) {
                        Some(before[key].datum)
                    } else {
                        None
                    },
                )
            },
            Query::Touch { key, last_accessed } => {
                &&& rows == RowsView::Nothing
                &&& after == (if before.contains_key(key) {
                    before.insert(key, Row { last_accessed, ..before[key] })
                } else {
                    before
                })
            },
            Query::Delete { key } => {
                &&& rows == RowsView::Nothing
                &&& after == before.remove(key)
            },
            Query::Expired { now } => {
                &&& after == before
                &&& rows matches RowsView::Keys(keys)
                &&& keys.no_duplicates()
                &&& forall|key: Seq<char>| #[trigger]
                    keys.contains(key) <==> before.contains_key(key) && row_expired(
                        before[key],
                        now,
                    )
            },
            Query::DeleteBatch { keys } => {
                &&& rows == RowsView::Nothing
                &&& after == before.remove_keys(keys.to_set())
            },
        }
    }
}

} // verus!
