//! What the writer asks to be done, and what it is told in reply.

use crate::budget;
use crate::rows;
use crate::statement;
use crate::statement::{Statement, StatementView, Value, ValueView};
use std::collections::VecDeque;
use vstd::prelude::*;

verus! {

/// The environment variable that holds the size limit in mebibytes.
pub const CAP_SETTING: &'static str = "LEAN_CTX_ARCHIVE_DB_MAX_MB";

/// Something that the writer asks to be done.
#[derive(Debug, PartialEq, Eq)]
pub enum Action {
    /// Create the directory of the database file. The reply does not matter.
    CreateParent,
    /// Open a connection to the database file. The reply is an outcome.
    Connect,
    /// Run the set-up script on the new connection, and drop the connection
    /// where that fails. The reply is an outcome.
    Prepare,
    /// Wait. The reply does not matter.
    Sleep { millis: u64 },
    /// Wait until a command is sent. The reply does not matter.
    AwaitCommand,
    /// See whether an entry is in the index. The reply is whether a row came.
    FindEntry { archive_id: String },
    /// Add what is known of an entry. The reply does not matter.
    InsertMeta { archive_id: String, tool: String, command: String, created_at: String },
    /// Add the searchable text of an entry. The reply does not matter.
    InsertContent { archive_id: String, tool: String, command: String, content: String },
    /// Count the entries. The reply is a count.
    CountEntries,
    /// Give the oldest entries. The reply is a list of identifiers.
    SelectOldest { limit: i64 },
    /// Delete what is known of an entry. The reply does not matter.
    DeleteMeta { archive_id: String },
    /// Delete the searchable text of an entry. The reply does not matter.
    DeleteContent { archive_id: String },
    /// Remove the files that an entry was archived in. The reply does not matter.
    RemoveFiles { archive_id: String },
    /// Cut the write-ahead log back. The reply does not matter.
    TruncateWal,
    /// Give the space of deleted rows back. The reply does not matter.
    Reclaim,
    /// Read the setting of the size limit. The reply is a setting.
    ReadCapSetting,
    /// Measure the files of the database. The reply is their lengths.
    MeasureDb,
    /// Measure the write-ahead log. The reply is its length.
    MeasureWal,
}

/// An action as mathematics sees it.
pub enum ActionView {
    CreateParent,
    Connect,
    Prepare,
    Sleep { millis: u64 },
    AwaitCommand,
    FindEntry { archive_id: Seq<char> },
    InsertMeta {
        archive_id: Seq<char>,
        tool: Seq<char>,
        command: Seq<char>,
        created_at: Seq<char>,
    },
    InsertContent {
        archive_id: Seq<char>,
        tool: Seq<char>,
        command: Seq<char>,
        content: Seq<char>,
    },
    CountEntries,
    SelectOldest { limit: int },
    DeleteMeta { archive_id: Seq<char> },
    DeleteContent { archive_id: Seq<char> },
    RemoveFiles { archive_id: Seq<char> },
    TruncateWal,
    Reclaim,
    ReadCapSetting,
    MeasureDb,
    MeasureWal,
}

impl View for Action {
    type V = ActionView;

    open spec fn view(&self) -> ActionView {
        match self {
            Action::CreateParent => ActionView::CreateParent,
            Action::Connect => ActionView::Connect,
            Action::Prepare => ActionView::Prepare,
            Action::Sleep { millis } => ActionView::Sleep { millis: *millis },
            Action::AwaitCommand => ActionView::AwaitCommand,
            Action::FindEntry { archive_id } => ActionView::FindEntry { archive_id: archive_id@ },
            Action::InsertMeta { archive_id, tool, command, created_at } => ActionView::InsertMeta {
                archive_id: archive_id@,
                tool: tool@,
                command: command@,
                created_at: created_at@,
            },
            Action::InsertContent { archive_id, tool, command, content } => {
                ActionView::InsertContent {
                    archive_id: archive_id@,
                    tool: tool@,
                    command: command@,
                    content: content@,
                }
            },
            Action::CountEntries => ActionView::CountEntries,
            Action::SelectOldest { limit } => ActionView::SelectOldest { limit: *limit as int },
            Action::DeleteMeta { archive_id } => ActionView::DeleteMeta { archive_id: archive_id@ },
            Action::DeleteContent { archive_id } => ActionView::DeleteContent {
                archive_id: archive_id@,
            },
            Action::RemoveFiles { archive_id } => ActionView::RemoveFiles {
                archive_id: archive_id@,
            },
            Action::TruncateWal => ActionView::TruncateWal,
            Action::Reclaim => ActionView::Reclaim,
            Action::ReadCapSetting => ActionView::ReadCapSetting,
            Action::MeasureDb => ActionView::MeasureDb,
            Action::MeasureWal => ActionView::MeasureWal,
        }
    }
}

impl ActionView {
    /// What is run on the database for the action, where it goes to the database.
    pub open spec fn statement(self) -> Option<StatementView> {
        match self {
            ActionView::Prepare => Some(
                StatementView { sql: statement::OPEN_SCRIPT@, params: Seq::empty() },
            ),
            ActionView::FindEntry { archive_id } => Some(
                StatementView {
                    sql: statement::FIND_ENTRY_SQL@,
                    params: seq![ValueView::Text(archive_id)],
                },
            ),
            ActionView::InsertMeta { archive_id, tool, command, created_at } => Some(
                StatementView {
                    sql: statement::INSERT_META_SQL@,
                    params: seq![
                        ValueView::Text(archive_id),
                        ValueView::Text(tool),
                        ValueView::Text(command),
                        ValueView::Text(created_at),
                    ],
                },
            ),
            ActionView::InsertContent { archive_id, tool, command, content } => Some(
                StatementView {
                    sql: statement::INSERT_CONTENT_SQL@,
                    params: seq![
                        ValueView::Text(archive_id),
                        ValueView::Text(tool),
                        ValueView::Text(command),
                        ValueView::Text(content),
                    ],
                },
            ),
            ActionView::CountEntries => Some(
                StatementView { sql: statement::COUNT_SQL@, params: Seq::empty() },
            ),
            ActionView::SelectOldest { limit } => Some(
                StatementView {
                    sql: statement::SELECT_OLDEST_SQL@,
                    params: seq![ValueView::Integer(limit)],
                },
            ),
            ActionView::DeleteMeta { archive_id } => Some(
                StatementView {
                    sql: statement::DELETE_META_SQL@,
                    params: seq![ValueView::Text(archive_id)],
                },
            ),
            ActionView::DeleteContent { archive_id } => Some(
                StatementView {
                    sql: statement::DELETE_CONTENT_SQL@,
                    params: seq![ValueView::Text(archive_id)],
                },
            ),
            ActionView::TruncateWal => Some(
                StatementView { sql: statement::TRUNCATE_WAL_SCRIPT@, params: Seq::empty() },
            ),
            ActionView::Reclaim => Some(
                StatementView { sql: statement::RECLAIM_SCRIPT@, params: Seq::empty() },
            ),
            _ => None,
        }
    }
}

impl Action {
    /// What to run on the database for the action, where it goes to the database.
    pub fn statement(&self) -> (result: Option<Statement>)
        ensures
            match result {
                Some(run) => self@.statement() == Some(run@),
                None => self@.statement() is None,
            },
            match self {
                Action::FindEntry { archive_id } => result matches Some(run) && run.binds_one(
                    "SELECT 1 FROM archive_meta WHERE archive_id = ?1"@,
                    archive_id@,
                ),
                Action::InsertMeta { archive_id, tool, command, created_at } => result matches Some(
                    run,
                ) && run.binds_four(
                    "INSERT OR IGNORE INTO archive_meta (archive_id, tool, command, created_at) VALUES (?1, ?2, ?3, ?4)"@,
                    archive_id@,
                    tool@,
                    command@,
                    created_at@,
                ),
                Action::InsertContent { archive_id, tool, command, content } => result matches Some(
                    run,
                ) && run.binds_four(
                    "INSERT INTO archive_fts (archive_id, tool, command, content) VALUES (?1, ?2, ?3, ?4)"@,
                    archive_id@,
                    tool@,
                    command@,
                    content@,
                ),
                Action::CountEntries => result matches Some(run) && run.sql@
                    == "SELECT COUNT(*) FROM archive_meta"@ && run.params@.len() == 0,
                Action::SelectOldest { limit } => result matches Some(run) && run.sql@
                    == "SELECT archive_id FROM archive_meta ORDER BY created_at ASC LIMIT ?1"@
                    && run.params@ == seq![Value::Integer(*limit)],
                Action::DeleteMeta { archive_id } => result matches Some(run) && run.binds_one(
                    "DELETE FROM archive_meta WHERE archive_id = ?1"@,
                    archive_id@,
                ),
                Action::DeleteContent { archive_id } => result matches Some(run) && run.binds_one(
                    "DELETE FROM archive_fts WHERE archive_id = ?1"@,
                    archive_id@,
                ),
                _ => true,
            },
    {
        match self {
            Action::Prepare => Some(statement::plain(statement::OPEN_SCRIPT)),
            Action::FindEntry { archive_id } => Some(
                statement::with_one(statement::FIND_ENTRY_SQL, Value::Text(archive_id.clone())),
            ),
            Action::InsertMeta { archive_id, tool, command, created_at } => Some(
                statement::with_texts(
                    statement::INSERT_META_SQL,
                    archive_id.as_str(),
                    tool.as_str(),
                    command.as_str(),
                    created_at.as_str(),
                ),
            ),
            Action::InsertContent { archive_id, tool, command, content } => Some(
                statement::with_texts(
                    statement::INSERT_CONTENT_SQL,
                    archive_id.as_str(),
                    tool.as_str(),
                    command.as_str(),
                    content.as_str(),
                ),
            ),
            Action::CountEntries => Some(statement::plain(statement::COUNT_SQL)),
            Action::SelectOldest { limit } => Some(
                statement::with_one(statement::SELECT_OLDEST_SQL, Value::Integer(*limit)),
            ),
            Action::DeleteMeta { archive_id } => Some(
                statement::with_one(statement::DELETE_META_SQL, Value::Text(archive_id.clone())),
            ),
            Action::DeleteContent { archive_id } => Some(
                statement::with_one(statement::DELETE_CONTENT_SQL, Value::Text(archive_id.clone())),
            ),
            Action::TruncateWal => Some(statement::plain(statement::TRUNCATE_WAL_SCRIPT)),
            Action::Reclaim => Some(statement::plain(statement::RECLAIM_SCRIPT)),
            _ => None,
        }
    }
}

/// What came of an action.
#[derive(Debug, PartialEq, Eq)]
pub enum Event {
    /// It is over, with whatever result.
    Done,
    /// Whether it succeeded.
    Outcome(bool),
    /// Whether the query gave a row.
    Found(bool),
    /// The number that the query gave (`None` where it failed).
    Count(Option<i64>),
    /// The identifiers that the query gave (`None` where it failed), each `None`
    /// where its row could not be read.
    Ids(Option<Vec<Option<String>>>),
    /// The value of the setting (`None` where it has none).
    Setting(Option<String>),
    /// The lengths of the files of the database (`None` for one that is not there).
    Lengths(Vec<Option<u64>>),
    /// The length of a file (`None` where it is not there).
    Length(Option<u64>),
}

/// What came of an action, as mathematics sees it.
pub enum EventView {
    Done,
    Outcome(bool),
    Found(bool),
    Count(Option<i64>),
    Ids(Option<Seq<Option<Seq<char>>>>),
    Setting(Option<Seq<char>>),
    Lengths(Seq<Option<u64>>),
    Length(Option<u64>),
}

impl View for Event {
    type V = EventView;

    open spec fn view(&self) -> EventView {
        match self {
            Event::Done => EventView::Done,
            Event::Outcome(ok) => EventView::Outcome(*ok),
            Event::Found(row) => EventView::Found(*row),
            Event::Count(count) => EventView::Count(*count),
            Event::Ids(Some(ids)) => EventView::Ids(Some(rows::texts_of(ids@))),
            Event::Ids(None) => EventView::Ids(None),
            Event::Setting(value) => EventView::Setting(rows::text_of(*value)),
            Event::Lengths(lengths) => EventView::Lengths(lengths@),
            Event::Length(length) => EventView::Length(*length),
        }
    }
}

impl EventView {
    /// Whether the action is known to have succeeded.
    pub open spec fn succeeded(self) -> bool {
        self == EventView::Outcome(true)
    }

    /// Whether the query is known to have given a row.
    pub open spec fn found(self) -> bool {
        self == EventView::Found(true)
    }

    /// The number that the query gave, or zero.
    pub open spec fn count(self) -> i64 {
        match self {
            EventView::Count(Some(n)) => n,
            _ => 0,
        }
    }

    /// The identifiers that could be read, in order.
    pub open spec fn ids(self) -> Seq<Seq<char>> {
        match self {
            EventView::Ids(Some(ids)) => rows::present(ids),
            _ => Seq::empty(),
        }
    }

    /// The size limit in bytes.
    pub open spec fn cap(self) -> u64 {
        match self {
            EventView::Setting(value) => budget::cap_bytes(value),
            _ => budget::cap_bytes(None),
        }
    }

    /// The size of the database in bytes.
    pub open spec fn size(self) -> u64 {
        match self {
            EventView::Lengths(lengths) => budget::saturated(budget::total_length(lengths) as int),
            _ => 0,
        }
    }

    /// The size of the write-ahead log in bytes.
    pub open spec fn wal(self) -> u64 {
        match self {
            EventView::Length(length) => budget::length_or_zero(length),
            _ => 0,
        }
    }
}

impl Event {
    /// Whether the action is known to have succeeded.
    pub fn succeeded(&self) -> (ok: bool)
        ensures
            ok == self@.succeeded(),
    {
        match self {
            Event::Outcome(ok) => *ok,
            _ => false,
        }
    }

    /// Whether the query is known to have given a row.
    pub fn found(&self) -> (row: bool)
        ensures
            row == self@.found(),
    {
        match self {
            Event::Found(row) => *row,
            _ => false,
        }
    }

    /// The number that the query gave, or zero.
    pub fn count(&self) -> (n: i64)
        ensures
            n == self@.count(),
    {
        match self {
            Event::Count(Some(n)) => *n,
            _ => 0,
        }
    }

    /// The identifiers that could be read, in order.
    pub fn into_ids(self) -> (ids: VecDeque<String>)
        ensures
            rows::texts(ids@) == self@.ids(),
    {
        match self {
            Event::Ids(Some(ids)) => rows::keep_texts(ids),
            _ => {
                let ids: VecDeque<String> = VecDeque::new();
                assert(rows::texts(ids@) =~= Seq::<Seq<char>>::empty());
                ids
            },
        }
    }

    /// The size limit in bytes.
    pub fn cap(&self) -> (bytes: u64)
        ensures
            bytes == self@.cap(),
    {
        match self {
            Event::Setting(Some(value)) => budget::max_db_bytes(Some(value.as_str())),
            _ => budget::max_db_bytes(None),
        }
    }

    /// The size of the database in bytes.
    pub fn size(&self) -> (bytes: u64)
        ensures
            bytes == self@.size(),
    {
        match self {
            Event::Lengths(lengths) => budget::db_size_bytes(lengths),
            _ => 0,
        }
    }

    /// The size of the write-ahead log in bytes.
    pub fn wal(&self) -> (bytes: u64)
        ensures
            bytes == self@.wal(),
    {
        match self {
            Event::Length(length) => budget::wal_bytes(*length),
            _ => 0,
        }
    }
}

} // verus!
