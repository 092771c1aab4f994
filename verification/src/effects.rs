//! What the statements do to the tables, by their text and the values of their
//! parameters, and that this is what the model says of the writer's actions.

use crate::action::{ActionView, EventView};
use crate::index::EntryView;
use crate::model;
use crate::model::{MetaRow, Store};
use crate::statement;
use crate::statement::{StatementView, ValueView};
use vstd::prelude::*;

verus! {

/// The text of the `n`-th parameter of a statement, counted from zero.
pub open spec fn text_at(run: StatementView, n: int) -> Seq<char> {
    match run.params[n] {
        ValueView::Text(text) => text,
        ValueView::Integer(_) => Seq::empty(),
    }
}

/// The tables after a statement has run, where it succeeds. Inserting what is known
/// of an entry leaves one that is there as it is. Deleting takes out every row that
/// has the identifier. Any other statement leaves the tables as they are.
pub open spec fn ran(store: Store, run: StatementView) -> Store {
    if run.sql
        == "INSERT OR IGNORE INTO archive_meta (archive_id, tool, command, created_at) VALUES (?1, ?2, ?3, ?4)"@ {
        if store.meta.dom().contains(text_at(run, 0)) {
            store
        } else {
            Store {
                meta: store.meta.insert(
                    text_at(run, 0),
                    MetaRow {
                        tool: text_at(run, 1),
                        command: text_at(run, 2),
                        created_at: text_at(run, 3),
                    },
                ),
                content: store.content,
                files: store.files,
            }
        }
    } else if run.sql
        == "INSERT INTO archive_fts (archive_id, tool, command, content) VALUES (?1, ?2, ?3, ?4)"@ {
        Store {
            meta: store.meta,
            content: store.content.push(
                EntryView {
                    archive_id: text_at(run, 0),
                    tool: text_at(run, 1),
                    command: text_at(run, 2),
                    content: text_at(run, 3),
                },
            ),
            files: store.files,
        }
    } else if run.sql == "DELETE FROM archive_meta WHERE archive_id = ?1"@ {
        Store {
            meta: store.meta.remove(text_at(run, 0)),
            content: store.content,
            files: store.files,
        }
    } else if run.sql == "DELETE FROM archive_fts WHERE archive_id = ?1"@ {
        Store {
            meta: store.meta,
            content: store.content.filter(|row: EntryView| row.archive_id != text_at(run, 0)),
            files: store.files,
        }
    } else {
        store
    }
}

/// Whether `event` is what a query gives.
pub open spec fn gives(store: Store, run: StatementView, event: EventView) -> bool {
    if run.sql == "SELECT 1 FROM archive_meta WHERE archive_id = ?1"@ {
        event == EventView::Found(store.meta.dom().contains(text_at(run, 0)))
    } else if run.sql == "SELECT COUNT(*) FROM archive_meta"@ {
        event matches EventView::Count(Some(n)) && n == store.meta.dom().len()
    } else if run.sql == "SELECT archive_id FROM archive_meta ORDER BY created_at ASC LIMIT ?1"@ {
        run.params[0] matches ValueView::Integer(limit) && event is Ids && model::lists_oldest(
            store.meta,
            limit,
            event.ids(),
        )
    } else {
        false
    }
}

/// The store after an action has been performed: its statement is run, or the files
/// of an entry are removed.
pub open spec fn performed(store: Store, action: ActionView) -> Store {
    match action {
        ActionView::RemoveFiles { archive_id } => Store {
            meta: store.meta,
            content: store.content,
            files: store.files.remove(archive_id),
        },
        _ => match action.statement() {
            Some(run) => ran(store, run),
            None => store,
        },
    }
}

/// The texts of the statements differ.
proof fn lemma_texts_differ()
    ensures
        ({
            let meta =
                "INSERT OR IGNORE INTO archive_meta (archive_id, tool, command, created_at) VALUES (?1, ?2, ?3, ?4)"@;
            let content =
                "INSERT INTO archive_fts (archive_id, tool, command, content) VALUES (?1, ?2, ?3, ?4)"@;
            let forget = "DELETE FROM archive_meta WHERE archive_id = ?1"@;
            let erase = "DELETE FROM archive_fts WHERE archive_id = ?1"@;
            let find = "SELECT 1 FROM archive_meta WHERE archive_id = ?1"@;
            let count = "SELECT COUNT(*) FROM archive_meta"@;
            let oldest = "SELECT archive_id FROM archive_meta ORDER BY created_at ASC LIMIT ?1"@;
            let truncate = "PRAGMA wal_checkpoint(TRUNCATE);"@;
            let reclaim = "PRAGMA wal_checkpoint(TRUNCATE); VACUUM;"@;
            &&& meta.len() > 20 && content.len() > 20 && forget.len() > 20 && erase.len() > 20
            &&& meta[0] == 'I' && meta[7] == 'O' && content[0] == 'I' && content[7] == 'I'
            &&& forget[0] == 'D' && forget[20] == 'm' && erase[0] == 'D' && erase[20] == 'f'
            &&& find.len() > 8 && find[0] == 'S' && find[7] == '1'
            &&& count.len() > 8 && count[0] == 'S' && count[7] == 'C'
            &&& oldest.len() > 8 && oldest[0] == 'S' && oldest[7] == 'a'
            &&& truncate.len() == 32 && truncate[0] == 'P'
            &&& reclaim.len() == 40 && reclaim[0] == 'P'
            &&& statement::OPEN_SCRIPT@.len() > 40 && statement::OPEN_SCRIPT@[0] == 'P'
        }),
{
    reveal_strlit(
        "INSERT OR IGNORE INTO archive_meta (archive_id, tool, command, created_at) VALUES (?1, ?2, ?3, ?4)",
    );
    reveal_strlit(
        "INSERT INTO archive_fts (archive_id, tool, command, content) VALUES (?1, ?2, ?3, ?4)",
    );
    reveal_strlit("DELETE FROM archive_meta WHERE archive_id = ?1");
    reveal_strlit("DELETE FROM archive_fts WHERE archive_id = ?1");
    reveal_strlit("SELECT 1 FROM archive_meta WHERE archive_id = ?1");
    reveal_strlit("SELECT COUNT(*) FROM archive_meta");
    reveal_strlit("SELECT archive_id FROM archive_meta ORDER BY created_at ASC LIMIT ?1");
    reveal_strlit("PRAGMA wal_checkpoint(TRUNCATE);");
    reveal_strlit("PRAGMA wal_checkpoint(TRUNCATE); VACUUM;");
    reveal_strlit(
        "PRAGMA journal_mode=WAL;
PRAGMA synchronous=NORMAL;
PRAGMA busy_timeout=5000;
PRAGMA wal_autocheckpoint=1000;
CREATE TABLE IF NOT EXISTS archive_meta (
    archive_id TEXT PRIMARY KEY,
    tool TEXT NOT NULL,
    command TEXT NOT NULL,
    created_at TEXT NOT NULL
);
CREATE VIRTUAL TABLE IF NOT EXISTS archive_fts USING fts5(
    tool,
    command,
    content,
    archive_id UNINDEXED
);",
    );
}

/// **Leaving entries out keeps the other rows.** Of the searchable rows those stay, in
/// order, whose identifier is none of those left out.
pub proof fn law_leaving_out_keeps_the_other_rows(rows: Seq<EntryView>, gone: Set<Seq<char>>)
    ensures
        model::rows_without(rows, gone) == rows.filter(
            |row: EntryView| !gone.contains(row.archive_id),
        ),
    decreases rows.len(),
{
    reveal(Seq::filter);
    if rows.len() > 0 {
        law_leaving_out_keeps_the_other_rows(rows.drop_last(), gone);
    }
}

/// Two conditions that agree keep the same rows.
pub(crate) proof fn lemma_same_filter(
    rows: Seq<EntryView>,
    first: spec_fn(EntryView) -> bool,
    second: spec_fn(EntryView) -> bool,
)
    requires
        forall|row: EntryView| #[trigger] first(row) == second(row),
    ensures
        rows.filter(first) == rows.filter(second),
    decreases rows.len(),
{
    reveal(Seq::filter);
    if rows.len() > 0 {
        lemma_same_filter(rows.drop_last(), first, second);
        assert(first(rows.last()) == second(rows.last()));
    }
}

/// **What is run is what is meant.** Running the statement of an action, with the
/// values that it binds, does to the tables what the model says of the action,
/// whatever the identifiers and texts are; and an action without a statement does
/// nothing to the tables.
pub proof fn law_statements_do_what_the_actions_mean(store: Store, action: ActionView)
    ensures
        performed(store, action) == store.after(action),
{
    lemma_texts_differ();
    if let ActionView::DeleteContent { archive_id } = action {
        let gone = set![archive_id];
        law_leaving_out_keeps_the_other_rows(store.content, gone);
        let run = action.statement().unwrap();
        lemma_same_filter(
            store.content,
            |row: EntryView| !gone.contains(row.archive_id),
            |row: EntryView| row.archive_id != text_at(run, 0),
        );
    }
}

/// **What is asked is what is answered.** The reply that a query's statement gives,
/// with the values that it binds, is the one that the model takes for faithful.
pub proof fn law_queries_give_what_the_actions_ask(
    store: Store,
    action: ActionView,
    event: EventView,
)
    requires
        action is FindEntry || action is CountEntries || action is SelectOldest,
    ensures
        action.statement() is Some,
        gives(store, action.statement().unwrap(), event) <==> store.answers(action, event),
{
    lemma_texts_differ();
}

/// **A statement tells its action.** Two actions that run the same text with the same
/// values are the same action: nothing of an identifier, of a text or of a limit is
/// left out of what is run.
pub proof fn law_a_statement_tells_its_action(first: ActionView, second: ActionView)
    requires
        first.statement() is Some,
        first.statement() == second.statement(),
    ensures
        first == second,
{
    lemma_texts_differ();
    let a = first.statement().unwrap();
    let b = second.statement().unwrap();
    assert(a.sql == b.sql);
    assert(a.params == b.params);
    match first {
        ActionView::InsertMeta { .. } | ActionView::InsertContent { .. } => {
            assert(a.params[0] == b.params[0] && a.params[1] == b.params[1]);
            assert(a.params[2] == b.params[2] && a.params[3] == b.params[3]);
        },
        ActionView::FindEntry { .. }
        | ActionView::SelectOldest { .. }
        | ActionView::DeleteMeta { .. }
        | ActionView::DeleteContent { .. } => {
            assert(a.params[0] == b.params[0]);
        },
        _ => {},
    }
}

/// **The scripts.** The set-up of the writer's connection turns the write-ahead log
/// on, bounds it, waits for locks and creates the two tables; the log is cut back by
/// a truncating checkpoint; and the space of deleted rows is given back by one and a
/// vacuum.
pub proof fn law_the_scripts_that_are_run()
    ensures
        ActionView::Prepare.statement() == Some(
            StatementView {
                sql:
                    "PRAGMA journal_mode=WAL;
PRAGMA synchronous=NORMAL;
PRAGMA busy_timeout=5000;
PRAGMA wal_autocheckpoint=1000;
CREATE TABLE IF NOT EXISTS archive_meta (
    archive_id TEXT PRIMARY KEY,
    tool TEXT NOT NULL,
    command TEXT NOT NULL,
    created_at TEXT NOT NULL
);
CREATE VIRTUAL TABLE IF NOT EXISTS archive_fts USING fts5(
    tool,
    command,
    content,
    archive_id UNINDEXED
);"@,
                params: Seq::empty(),
            },
        ),
        ActionView::TruncateWal.statement() == Some(
            StatementView { sql: "PRAGMA wal_checkpoint(TRUNCATE);"@, params: Seq::empty() },
        ),
        ActionView::Reclaim.statement() == Some(
            StatementView { sql: "PRAGMA wal_checkpoint(TRUNCATE); VACUUM;"@, params: Seq::empty() },
        ),
        statement::READ_SCRIPT@ == "PRAGMA query_only=ON;"@,
        statement::COUNT_SQL@ == "SELECT COUNT(*) FROM archive_meta"@,
        statement::SEARCH_SQL@
            == "SELECT archive_id, tool, command, snippet(archive_fts, 2, '\u{bb}', '\u{ab}', '\u{2026}', 40), rank
FROM archive_fts
WHERE archive_fts MATCH ?1
ORDER BY rank
LIMIT ?2"@,
{
}

} // verus!
