//! The statements and scripts that are run on the database.

use vstd::prelude::*;

verus! {

/// Run on a new connection of the writer.
///
/// `busy_timeout` lets a checkpoint wait for a concurrent reader, and
/// `wal_autocheckpoint` keeps the write-ahead log bounded where several
/// processes hold the database open.
pub const OPEN_SCRIPT: &'static str =
    "PRAGMA journal_mode=WAL;
PRAGMA synchronous=NORMAL;
PRAGMA busy_timeout=5000;
PRAGMA wal_autocheckpoint=1000;
CREATE TABLE IF NOT EXISTS archive_meta (
    archive_id TEXT PRIMARY KEY,
    tool TEXT NOT NULL,
    command TEXT NOT NULL,
    created_at TEXT NOT NULL
);
CREATE VIRTUAL TABLE IF NOT EXISTS archive_fts USING fts5(
    tool,
    command,
    content,
    archive_id UNINDEXED
);";

/// Run on a new connection of a reader. It leaves the journal mode alone: the
/// database file records it.
pub const READ_SCRIPT: &'static str = "PRAGMA query_only=ON;";

/// Gives a row where the entry `?1` is in the index.
pub const FIND_ENTRY_SQL: &'static str = "SELECT 1 FROM archive_meta WHERE archive_id = ?1";

/// Adds what is known of an entry, unless it is there.
pub const INSERT_META_SQL: &'static str =
    "INSERT OR IGNORE INTO archive_meta (archive_id, tool, command, created_at) VALUES (?1, ?2, ?3, ?4)";

/// Adds the searchable text of an entry.
pub const INSERT_CONTENT_SQL: &'static str =
    "INSERT INTO archive_fts (archive_id, tool, command, content) VALUES (?1, ?2, ?3, ?4)";

/// Gives the number of entries.
pub const COUNT_SQL: &'static str = "SELECT COUNT(*) FROM archive_meta";

/// Gives up to `?1` entries, oldest first.
pub const SELECT_OLDEST_SQL: &'static str =
    "SELECT archive_id FROM archive_meta ORDER BY created_at ASC LIMIT ?1";

/// Deletes what is known of the entry `?1`.
pub const DELETE_META_SQL: &'static str = "DELETE FROM archive_meta WHERE archive_id = ?1";

/// Deletes the searchable text of the entry `?1`.
pub const DELETE_CONTENT_SQL: &'static str = "DELETE FROM archive_fts WHERE archive_id = ?1";

/// Moves the write-ahead log into the database and empties it.
pub const TRUNCATE_WAL_SCRIPT: &'static str = "PRAGMA wal_checkpoint(TRUNCATE);";

/// Gives the space of deleted rows back to the file system.
pub const RECLAIM_SCRIPT: &'static str = "PRAGMA wal_checkpoint(TRUNCATE); VACUUM;";

/// Gives up to `?2` entries that match `?1`, best first.
pub const SEARCH_SQL: &'static str =
    "SELECT archive_id, tool, command, snippet(archive_fts, 2, '\u{bb}', '\u{ab}', '\u{2026}', 40), rank
FROM archive_fts
WHERE archive_fts MATCH ?1
ORDER BY rank
LIMIT ?2";

/// A value bound to a parameter of a statement.
#[derive(Debug, PartialEq, Eq)]
pub enum Value {
    Text(String),
    Integer(i64),
}

/// A value bound to a parameter, as mathematics sees it.
pub enum ValueView {
    Text(Seq<char>),
    Integer(int),
}

impl View for Value {
    type V = ValueView;

    open spec fn view(&self) -> ValueView {
        match self {
            Value::Text(text) => ValueView::Text(text@),
            Value::Integer(n) => ValueView::Integer(*n as int),
        }
    }
}

/// A statement, or a script of several, with the values of `?1`, `?2` and so on.
#[derive(Debug, PartialEq, Eq)]
pub struct Statement {
    pub sql: String,
    pub params: Vec<Value>,
}

/// A statement as mathematics sees it.
#[verifier::ext_equal]
pub struct StatementView {
    pub sql: Seq<char>,
    pub params: Seq<ValueView>,
}

impl View for Statement {
    type V = StatementView;

    open spec fn view(&self) -> StatementView {
        StatementView {
            sql: self.sql@,
            params: self.params@.map_values(|value: Value| value@),
        }
    }
}

impl Statement {
    /// Whether the statement is `sql` with the text `first` for its one parameter.
    pub open spec fn binds_one(&self, sql: Seq<char>, first: Seq<char>) -> bool {
        &&& self.sql@ == sql
        &&& self.params@.len() == 1
        &&& self.params@[0] matches Value::Text(text) && text@ == first
    }

    /// Whether the statement is `sql` with four texts for its parameters.
    pub open spec fn binds_four(
        &self,
        sql: Seq<char>,
        a: Seq<char>,
        b: Seq<char>,
        c: Seq<char>,
        d: Seq<char>,
    ) -> bool {
        &&& self.sql@ == sql
        &&& self.params@.len() == 4
        &&& self.params@[0] matches Value::Text(text) && text@ == a
        &&& self.params@[1] matches Value::Text(text) && text@ == b
        &&& self.params@[2] matches Value::Text(text) && text@ == c
        &&& self.params@[3] matches Value::Text(text) && text@ == d
    }
}

/// A statement without parameters.
pub(crate) fn plain(sql: &str) -> (statement: Statement)
    ensures
        statement@ == (StatementView { sql: sql@, params: Seq::empty() }),
        statement.sql@ == sql@,
        statement.params@.len() == 0,
{
    let statement = Statement { sql: sql.to_owned(), params: Vec::new() };
    assert(statement@.params =~= Seq::<ValueView>::empty());
    statement
}

/// A statement with one parameter.
pub(crate) fn with_one(sql: &str, first: Value) -> (statement: Statement)
    ensures
        statement@ == (StatementView { sql: sql@, params: seq![first@] }),
        statement.sql@ == sql@,
        statement.params@ == seq![first],
{
    let mut params: Vec<Value> = Vec::new();
    params.push(first);
    let statement = Statement { sql: sql.to_owned(), params };
    assert(statement@.params =~= seq![first@]);
    statement
}

/// A statement with two parameters.
pub(crate) fn with_two(sql: &str, first: Value, second: Value) -> (statement: Statement)
    ensures
        statement@ == (StatementView { sql: sql@, params: seq![first@, second@] }),
        statement.sql@ == sql@,
        statement.params@ == seq![first, second],
{
    let mut params: Vec<Value> = Vec::new();
    params.push(first);
    params.push(second);
    let statement = Statement { sql: sql.to_owned(), params };
    assert(statement@.params =~= seq![first@, second@]);
    statement
}

/// A statement with four text parameters.
pub(crate) fn with_texts(sql: &str, a: &str, b: &str, c: &str, d: &str) -> (statement: Statement)
    ensures
        statement@ == (StatementView {
            sql: sql@,
            params: seq![
                ValueView::Text(a@),
                ValueView::Text(b@),
                ValueView::Text(c@),
                ValueView::Text(d@),
            ],
        }),
        statement.sql@ == sql@,
        statement.params@.len() == 4,
        statement.params@[0] matches Value::Text(text) && text@ == a@,
        statement.params@[1] matches Value::Text(text) && text@ == b@,
        statement.params@[2] matches Value::Text(text) && text@ == c@,
        statement.params@[3] matches Value::Text(text) && text@ == d@,
{
    let mut params: Vec<Value> = Vec::new();
    params.push(Value::Text(a.to_owned()));
    params.push(Value::Text(b.to_owned()));
    params.push(Value::Text(c.to_owned()));
    params.push(Value::Text(d.to_owned()));
    let statement = Statement { sql: sql.to_owned(), params };
    assert(statement@.params =~= seq![
        ValueView::Text(a@),
        ValueView::Text(b@),
        ValueView::Text(c@),
        ValueView::Text(d@),
    ]);
    statement
}

} // verus!
