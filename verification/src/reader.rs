//! Searching the index, on a connection that only reads.

use crate::rows;
use crate::statement;
use crate::statement::{Statement, StatementView, Value, ValueView};
use vstd::prelude::*;

verus! {

/// How long, in seconds, a reader waits for a lock.
pub const READ_BUSY_TIMEOUT_SECS: u64 = 5;

/// How a connection for reading is set up.
#[derive(Debug, PartialEq, Eq)]
pub struct ReadSetup {
    /// How long to wait for a lock. Whether this can be set does not matter.
    pub busy_timeout_secs: u64,
    /// What to run first. It makes the connection read-only.
    pub script: Statement,
}

/// An entry that a search found. `R` is the type of its rank.
#[derive(Debug, Clone, PartialEq, Eq)]
pub struct FtsResult<R> {
    pub archive_id: String,
    pub tool: String,
    pub command: String,
    pub snippet: String,
    pub rank: R,
}

/// How to set up a connection for reading, where the database file exists. There
/// is no connection where it does not: reading must not create it.
pub fn open_read_db(file_exists: bool) -> (setup: Option<ReadSetup>)
    ensures
        match setup {
            Some(setup) => file_exists && setup.busy_timeout_secs == READ_BUSY_TIMEOUT_SECS
                && setup.script@ == (StatementView {
                sql: statement::READ_SCRIPT@,
                params: Seq::empty(),
            }),
            None => !file_exists,
        },
{
    if file_exists {
        Some(
            ReadSetup {
                busy_timeout_secs: READ_BUSY_TIMEOUT_SECS,
                script: statement::plain(statement::READ_SCRIPT),
            },
        )
    } else {
        None
    }
}

/// The connection `conn`, where the script of its set-up has run. Where the script
/// has failed, the connection might write, and is refused.
pub fn accept_reader<C>(conn: C, script_ran: bool) -> (accepted: Option<C>)
    ensures
        accepted == if script_ran {
            Some(conn)
        } else {
            None
        },
{
    if script_ran {
        Some(conn)
    } else {
        None
    }
}

/// What to run to find up to `limit` entries that match `query`.
pub fn search_statement(query: &str, limit: usize) -> (run: Statement)
    ensures
        run@ == (StatementView {
            sql: statement::SEARCH_SQL@,
            params: seq![ValueView::Text(query@), ValueView::Integer((limit as i64) as int)],
        }),
        run.params@.len() == 2,
        run.params@[0] matches Value::Text(text) && text@ == query@,
        limit <= i64::MAX ==> run.params@[1] == Value::Integer(limit as i64),
{
    statement::with_two(
        statement::SEARCH_SQL,
        Value::Text(query.to_owned()),
        Value::Integer(limit as i64),
    )
}

/// The entries that a search found, best first. `reply` is the rows that it gave,
/// each `None` where it could not be read, or `None` where there is no
/// connection or the search failed.
pub fn search<R>(reply: Option<Vec<Option<FtsResult<R>>>>) -> (results: Vec<FtsResult<R>>)
    ensures
        results@ == match reply {
            Some(found) => rows::present(found@),
            None => Seq::empty(),
        },
        reply is None ==> results@.len() == 0,
        reply matches Some(found) ==> (forall|i: int|
            0 <= i < found@.len() ==> #[trigger] found@[i] is Some) ==> results@.len()
            == found@.len() && forall|i: int|
            0 <= i < found@.len() ==> found@[i] == Some(#[trigger] results@[i]),
{
    match reply {
        Some(found) => rows::keep_present(found),
        None => Vec::new(),
    }
}

/// What to run to count the entries.
pub fn entry_count_statement() -> (run: Statement)
    ensures
        run@ == (StatementView { sql: statement::COUNT_SQL@, params: Seq::empty() }),
{
    statement::plain(statement::COUNT_SQL)
}

/// The number of entries. `reply` is the number that the count gave, or `None`
/// where there is no connection or the count failed.
pub fn entry_count(reply: Option<i64>) -> (count: usize)
    ensures
        count == match reply {
            Some(n) => n as usize,
            None => 0,
        },
        reply matches Some(n) ==> 0 <= n <= usize::MAX ==> count == n,
{
    match reply {
        Some(n) => n as usize,
        None => 0,
    }
}

} // verus!
