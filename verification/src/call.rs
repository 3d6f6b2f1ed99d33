//! One operation on the database, from its first statement to its result.
//!
//! A call is one of the operations that the cache retries as a whole while the database is busy.
//! Whoever runs it sends the statements, waits as told, and hands the answers back.
use crate::database::{
    delete_cache_entry, delete_keys_batch, get_cache_entry, get_expired_keys, insert_cache_entry,
    key_exists, texts, update_cache_entry, update_last_accessed, Query, Statement,
};
use crate::error::CacheError;
use crate::retry::{retry, retry_on_busy, Retry};
use crate::table::{Row, Rows, RowsView, Table};
use vstd::prelude::*;

verus! {

/// What the cache asks of the database.
#[derive(Debug)]
pub enum Request {
    /// Stores a value under a key, whether or not the key is there.
    Store {
        /// The key.
        key: String,
        /// The value.
        value: Vec<u8>,
        /// The time of expiration in seconds, if there is one.
        expires: Option<i64>,
        /// The current time in seconds.
        last_accessed: i64,
    },
    /// Reads the value of a key.
    Get {
        /// The key.
        key: String,
    },
    /// Notes when a key was last used.
    Touch {
        /// The key.
        key: String,
        /// The current time in seconds.
        last_accessed: i64,
    },
    /// Removes a key.
    Delete {
        /// The key.
        key: String,
    },
    /// Lists the keys that have expired.
    Expired {
        /// The current time in seconds.
        now: i64,
    },
    /// Removes several keys.
    DeleteBatch {
        /// The keys.
        keys: Vec<String>,
    },
}

/// The mathematical value of a `Request`.
#[verifier::ext_equal]
pub enum RequestView {
    Store { key: Seq<char>, value: Seq<u8>, expires: Option<i64>, last_accessed: i64 },
    Get { key: Seq<char> },
    Touch { key: Seq<char>, last_accessed: i64 },
    Delete { key: Seq<char> },
    Expired { now: i64 },
    DeleteBatch { keys: Seq<Seq<char>> },
}

impl View for Request {
    type V = RequestView;

    open spec fn view(&self) -> RequestView {
        match *self {
            Request::Store { key, value, expires, last_accessed } => RequestView::Store {
                key: key@,
                value: value@,
                expires,
                last_accessed,
            },
            Request::Get { key } => RequestView::Get { key: key@ },
            Request::Touch { key, last_accessed } => RequestView::Touch {
                key: key@,
                last_accessed,
            },
            Request::Delete { key } => RequestView::Delete { key: key@ },
            Request::Expired { now } => RequestView::Expired { now },
            Request::DeleteBatch { keys } => RequestView::DeleteBatch { keys: texts(keys@) },
        }
    }
}

impl RequestView {
    /// Whether rows are of the kind that the request asks for.
    pub open spec fn accepts(self, rows: RowsView) -> bool {
        match self {
            RequestView::Get { .. } => rows is Entry,
            RequestView::Expired { .. } => rows is Keys,
            _ => rows is Nothing,
        }
    }

    /// Whether the database may turn the table `before` into `after` and give back `rows` when
    /// it fulfils the request.
    pub open spec fn performed(self, before: Table, after: Table, rows: RowsView) -> bool {
        match self {
            RequestView::Store { key, value, expires, last_accessed } => {
                &&& rows == RowsView::Nothing
                &&& after == before.insert(key, Row { datum: (value, expires), last_accessed })
            },
            RequestView::Get { key } => (Query::Get { key }).performed(before, after, rows),
            RequestView::Touch { key, last_accessed } => (Query::Touch {
                key,
                last_accessed,
            }).performed(before, after, rows),
            RequestView::Delete { key } => (Query::Delete { key }).performed(before, after, rows),
            RequestView::Expired { now } => (Query::Expired { now }).performed(before, after, rows),
            RequestView::DeleteBatch { keys } => (Query::DeleteBatch { keys }).performed(
                before,
                after,
                rows,
            ),
        }
    }
}

/// A request under way.
#[derive(Debug)]
pub struct Call {
    request: Request,
    existing: Option<bool>,
}

/// The mathematical value of a `Call`: the request and, for a value that is being stored, whether
/// its key was found in the current attempt.
#[verifier::ext_equal]
pub struct CallView {
    pub request: RequestView,
    pub existing: Option<bool>,
}

impl View for Call {
    type V = CallView;

    closed spec fn view(&self) -> CallView {
        CallView { request: self.request@, existing: self.existing }
    }
}

/// What is to be done for a call.
#[derive(Debug)]
pub enum CallTurn {
    /// Wait for `delay_ms` milliseconds, then send the statement of `call`.
    Send {
        /// How long to wait, in milliseconds.
        delay_ms: u64,
        /// The call to go on with.
        call: Call,
    },
    /// Nothing more: this is the result.
    Finished(Result<Rows, CacheError>),
}

/// The mathematical value of a `CallTurn`.
#[verifier::ext_equal]
pub enum CallTurnView {
    Send { delay_ms: u64, call: CallView },
    Finished(Result<RowsView, CacheError>),
}

impl View for CallTurn {
    type V = CallTurnView;

    open spec fn view(&self) -> CallTurnView {
        match *self {
            CallTurn::Send { delay_ms, call } => CallTurnView::Send { delay_ms, call: call@ },
            CallTurn::Finished(Ok(rows)) => CallTurnView::Finished(Ok(rows@)),
            CallTurn::Finished(Err(err)) => CallTurnView::Finished(Err(err)),
        }
    }
}

/// An answer of the database, its rows taken as mathematical values.
pub open spec fn answer_view(answer: Result<Rows, sqlx::Error>) -> Result<RowsView, sqlx::Error> {
    match answer {
        Ok(rows) => Ok(rows@),
        Err(err) => Err(err),
    }
}

/// How a call begins. Removing no keys at all takes no statement.
pub open spec fn call_begin(request: RequestView) -> CallTurnView {
    if request matches RequestView::DeleteBatch { keys } && keys.len() == 0 {
        CallTurnView::Finished(Ok(RowsView::Nothing))
    } else {
        CallTurnView::Send { delay_ms: 0, call: CallView { request, existing: None } }
    }
}

impl CallView {
    /// The statement that the call has to send next. To store a value the key is looked up first;
    /// then it is overwritten if it is there, and added if it is not.
    pub open spec fn query(self) -> Query {
        match self.request {
            RequestView::Store { key, value, expires, last_accessed } => match self.existing {
                None => Query::KeyExists { key },
                Some(true) => Query::Update { key, value, expires, last_accessed },
                Some(false) => Query::Insert { key, value, expires, last_accessed },
            },
            RequestView::Get { key } => Query::Get { key },
            RequestView::Touch { key, last_accessed } => Query::Touch { key, last_accessed },
            RequestView::Delete { key } => Query::Delete { key },
            RequestView::Expired { now } => Query::Expired { now },
            RequestView::DeleteBatch { keys } => Query::DeleteBatch { keys },
        }
    }

    /// Whether the call is one that asks the database for something.
    pub open spec fn wf(self) -> bool {
        &&& self.request matches RequestView::DeleteBatch { keys } ==> keys.len() > 0
        &&& self.existing is Some ==> self.request is Store
    }

    /// How the call goes on when its statement was answered. An attempt that failed because the
    /// database was busy is repeated from its first statement.
    pub open spec fn answered(self, answer: Result<RowsView, sqlx::Error>) -> CallTurnView {
        if self.query() is KeyExists && answer is Ok {
            CallTurnView::Send {
                delay_ms: 0,
                call: CallView { existing: Some(answer->Ok_0->Exists_0), ..self },
            }
        } else {
            match retry(answer) {
                Retry::Finished(result) => CallTurnView::Finished(result),
                Retry::Again { delay_ms } => CallTurnView::Send {
                    delay_ms,
                    call: CallView { request: self.request, existing: None },
                },
            }
        }
    }
}

impl Call {
    /// Begins a call.
    pub fn begin(request: Request) -> (turn: CallTurn)
        ensures
            turn@ == call_begin(request@),
            turn matches CallTurn::Send { call, .. } ==> call@.wf(),
    {
        if let Request::DeleteBatch { keys } = &request {
            if keys.len() == 0 {
                return CallTurn::Finished(Ok(Rows::Nothing));
            }
        }
        CallTurn::Send { delay_ms: 0, call: Call { request, existing: None } }
    }

    /// The statement to send.
    pub fn statement(&self) -> (statement: Statement)
        requires
            self@.wf(),
        ensures
            statement@ == self@.query().statement(),
    {
        match &self.request {
            Request::Store { key, value, expires, last_accessed } => match self.existing {
                None => key_exists(key.as_str()),
                Some(true) => update_cache_entry(
                    key.as_str(),
                    value.as_slice(),
                    *expires,
                    *last_accessed,
                ),
                Some(false) => insert_cache_entry(
                    key.as_str(),
                    value.as_slice(),
                    *expires,
                    *last_accessed,
                ),
            },
            Request::Get { key } => get_cache_entry(key.as_str()),
            Request::Touch { key, last_accessed } => update_last_accessed(
                key.as_str(),
                *last_accessed,
            ),
            Request::Delete { key } => delete_cache_entry(key.as_str()),
            Request::Expired { now } => get_expired_keys(*now),
            Request::DeleteBatch { keys } => delete_keys_batch(keys).unwrap(),
        }
    }

    /// Whether an answer is of the kind that the statement asks for. An error always is.
    pub fn accepts(&self, answer: &Result<Rows, sqlx::Error>) -> (accepted: bool)
        ensures
            accepted == (answer_view(*answer) matches Ok(rows) ==> self@.query().accepts(rows)),
    {
        match answer {
            Err(_) => true,
            Ok(rows) => match &self.request {
                Request::Store { .. } => match self.existing {
                    None => matches!(rows, Rows::Exists(_)),
                    Some(_) => matches!(rows, Rows::Nothing),
                },
                Request::Get { .. } => matches!(rows, Rows::Entry(_)),
                Request::Expired { .. } => matches!(rows, Rows::Keys(_)),
                _ => matches!(rows, Rows::Nothing),
            },
        }
    }

    /// Goes on with the answer to the statement.
    pub fn answer(self, answer: Result<Rows, sqlx::Error>) -> (turn: CallTurn)
        requires
            self@.wf(),
            answer_view(answer) matches Ok(rows) ==> self@.query().accepts(rows),
        ensures
            turn@ == self@.answered(answer_view(answer)),
            turn matches CallTurn::Send { call, .. } ==> call@.wf(),
    {
        let looking = matches!(&self.request, Request::Store { .. }) && self.existing.is_none();
        if looking {
            if let Ok(Rows::Exists(row)) = &answer {
                let existing = Some(row.exists);
                return CallTurn::Send {
                    delay_ms: 0,
                    call: Call { request: self.request, existing },
                };
            }
        }
        match retry_on_busy(answer) {
            Retry::Finished(result) => CallTurn::Finished(result),
            Retry::Again { delay_ms } => CallTurn::Send {
                delay_ms,
                call: Call { request: self.request, existing: None },
            },
        }
    }
}

} // verus!
