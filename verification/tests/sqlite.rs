use archive_fts::action::{Action, Event, CAP_SETTING};
use archive_fts::paths::{db_files, WAL_SUFFIX};
use archive_fts::reader::{
    accept_reader, entry_count, entry_count_statement, open_read_db, search, search_statement,
    FtsResult,
};
use archive_fts::statement::{Statement, Value};
use archive_fts::writer::{enforce_cap, index_entry, remove_entry, writer, WriterHandle};
use rusqlite::{params_from_iter, Connection, Row};
use std::collections::VecDeque;
use std::path::{Path, PathBuf};

fn bound(run: &Statement) -> Vec<rusqlite::types::Value> {
    let mut values = Vec::new();
    for value in &run.params {
        values.push(match value {
            Value::Text(text) => rusqlite::types::Value::Text(text.clone()),
            Value::Integer(n) => rusqlite::types::Value::Integer(*n),
        });
    }
    values
}

fn length(path: &Path) -> Option<u64> {
    path.metadata().ok().map(|meta| meta.len())
}

fn beside(path: &Path, suffix: &str) -> PathBuf {
    let mut name = path.as_os_str().to_owned();
    name.push(suffix);
    PathBuf::from(name)
}

/// A database on disk, and what the writer asked of it.
struct Bench {
    _dir: tempfile::TempDir,
    path: PathBuf,
    conn: Option<Connection>,
    slot: Option<WriterHandle>,
    setting: Option<String>,
    /// Lengths to report in place of those on disk.
    lengths: VecDeque<u64>,
    wal: Option<u64>,
    removed: Vec<String>,
    asked: Vec<Action>,
}

impl Bench {
    fn new() -> Bench {
        let dir = tempfile::tempdir().unwrap();
        let path = dir.path().join("index.db");
        Bench {
            _dir: dir,
            path,
            conn: None,
            slot: None,
            setting: None,
            lengths: VecDeque::new(),
            wal: None,
            removed: Vec::new(),
            asked: Vec::new(),
        }
    }

    fn opened() -> Bench {
        let mut bench = Bench::new();
        bench.run();
        bench
    }

    fn conn(&self) -> &Connection {
        self.conn.as_ref().unwrap()
    }

    fn measure(&mut self) -> Vec<Option<u64>> {
        if let Some(n) = self.lengths.pop_front() {
            return vec![Some(n), None, None];
        }
        db_files().iter().map(|suffix| length(&beside(&self.path, suffix))).collect()
    }

    fn perform(&mut self, action: &Action) -> Event {
        let run = action.statement();
        match action {
            Action::CreateParent | Action::Sleep { .. } | Action::AwaitCommand => Event::Done,
            Action::Connect => {
                self.conn = Connection::open(&self.path).ok();
                Event::Outcome(self.conn.is_some())
            }
            Action::Prepare => {
                Event::Outcome(self.conn().execute_batch(&run.unwrap().sql).is_ok())
            }
            Action::FindEntry { .. } => {
                let run = run.unwrap();
                let row = self.conn().query_row(&run.sql, params_from_iter(bound(&run)), |_| Ok(true));
                Event::Found(row.unwrap_or(false))
            }
            Action::InsertMeta { .. }
            | Action::InsertContent { .. }
            | Action::DeleteMeta { .. }
            | Action::DeleteContent { .. } => {
                let run = run.unwrap();
                self.conn().execute(&run.sql, params_from_iter(bound(&run))).unwrap();
                Event::Done
            }
            Action::CountEntries => {
                Event::Count(self.conn().query_row(&run.unwrap().sql, [], |row| row.get(0)).ok())
            }
            Action::SelectOldest { .. } => {
                let run = run.unwrap();
                let mut stmt = self.conn().prepare(&run.sql).unwrap();
                let ids = stmt
                    .query_map(params_from_iter(bound(&run)), |row| row.get::<_, String>(0))
                    .unwrap()
                    .map(|row| row.ok())
                    .collect();
                Event::Ids(Some(ids))
            }
            Action::RemoveFiles { archive_id } => {
                self.removed.push(archive_id.clone());
                Event::Done
            }
            Action::TruncateWal | Action::Reclaim => {
                self.conn().execute_batch(&run.unwrap().sql).unwrap();
                Event::Done
            }
            Action::ReadCapSetting => Event::Setting(self.setting.clone()),
            Action::MeasureDb => Event::Lengths(self.measure()),
            Action::MeasureWal => {
                Event::Length(self.wal.or(length(&beside(&self.path, WAL_SUFFIX))))
            }
        }
    }

    /// Lets the writer work until no command is left.
    fn run(&mut self) {
        loop {
            let handle = writer(&mut self.slot);
            let action = handle.action();
            if action == Action::AwaitCommand && !handle.has_command() {
                return;
            }
            let event = self.perform(&action);
            self.asked.push(action);
            writer(&mut self.slot).advance(event);
        }
    }

    fn index(&mut self, archive_id: &str, content: &str) {
        index_entry(&mut self.slot, archive_id, "shell", "git log", content);
        self.run();
    }

    fn texts(&self, sql: &str) -> Vec<String> {
        let mut stmt = self.conn().prepare(sql).unwrap();
        let rows = stmt.query_map([], |row| row.get(0)).unwrap();
        rows.map(|row| row.unwrap()).collect()
    }

    fn meta_ids(&self) -> Vec<String> {
        self.texts("SELECT archive_id FROM archive_meta ORDER BY archive_id")
    }

    fn content_ids(&self) -> Vec<String> {
        self.texts("SELECT archive_id FROM archive_fts ORDER BY archive_id")
    }

    /// Puts in `n` entries whose times follow one another, the last the oldest.
    fn fill(&mut self, n: usize) {
        for i in 0..n {
            let id = format!("e{i:04}");
            let created = format!("2026-01-01T00:00:00.{:03}+00:00", n - i);
            self.conn()
                .execute(
                    "INSERT INTO archive_meta (archive_id, tool, command, created_at) VALUES (?1, 'shell', 'ls', ?2)",
                    [&id, &created],
                )
                .unwrap();
            self.conn()
                .execute(
                    "INSERT INTO archive_fts (archive_id, tool, command, content) VALUES (?1, 'shell', 'ls', 'word')",
                    [&id],
                )
                .unwrap();
        }
    }

    fn search(&self, query: &str, limit: usize) -> Vec<FtsResult<f64>> {
        let run = search_statement(query, limit);
        let mut stmt = self.conn().prepare(&run.sql).unwrap();
        let reply = stmt
            .query_map(params_from_iter(bound(&run)), |row: &Row| {
                Ok(FtsResult {
                    archive_id: row.get(0)?,
                    tool: row.get(1)?,
                    command: row.get(2)?,
                    snippet: row.get(3)?,
                    rank: row.get::<_, f64>(4)?,
                })
            })
            .ok()
            .map(|rows| rows.map(|row| row.ok()).collect());
        search(reply)
    }

    fn count(&self) -> usize {
        entry_count(self.conn().query_row(&entry_count_statement().sql, [], |row| row.get(0)).ok())
    }
}

#[test]
fn fts_roundtrip() {
    let bench = Bench::opened();
    let conn = bench.conn();
    conn.execute(
        "INSERT INTO archive_meta (archive_id, tool, command, created_at) VALUES ('t1', 'shell', 'git log', '2026-01-01')",
        [],
    )
    .unwrap();
    conn.execute(
        "INSERT INTO archive_fts (archive_id, tool, command, content) VALUES ('t1', 'shell', 'git log', 'commit abc refactored the parser module')",
        [],
    )
    .unwrap();

    let mut stmt = conn
        .prepare("SELECT archive_id FROM archive_fts WHERE archive_fts MATCH 'parser'")
        .unwrap();
    let ids: Vec<String> = stmt
        .query_map([], |row| row.get(0))
        .unwrap()
        .flatten()
        .collect();
    assert_eq!(ids, vec!["t1"]);
}

#[test]
fn open_db_bounds_the_wal() {
    let bench = Bench::opened();
    let conn = bench.conn();

    let journal_mode: String = conn
        .query_row("PRAGMA journal_mode;", [], |row| row.get(0))
        .unwrap();
    assert_eq!(journal_mode.to_lowercase(), "wal");

    let autocheckpoint: i64 = conn
        .query_row("PRAGMA wal_autocheckpoint;", [], |row| row.get(0))
        .unwrap();
    assert_eq!(autocheckpoint, 1000);
}

#[test]
fn an_indexed_entry_is_found() {
    let mut bench = Bench::opened();
    bench.index("t1", "commit abc refactored the parser module");
    bench.index("t2", "nothing of note");
    let found = bench.search("parser", 10);
    assert_eq!(found.len(), 1);
    assert_eq!(found[0].archive_id, "t1");
    assert_eq!(found[0].tool, "shell");
    assert_eq!(found[0].command, "git log");
    assert_eq!(
        found[0].snippet,
        "commit abc refactored the \u{bb}parser\u{ab} module"
    );
    assert!(found[0].rank < 0.0);
    assert_eq!(bench.count(), 2);
    assert_eq!(bench.search("shell", 1).len(), 1);
    assert_eq!(bench.search("shell", usize::MAX).len(), 2);
}

#[test]
fn the_first_entry_of_an_identifier_stays() {
    let mut bench = Bench::opened();
    bench.index("t1", "first");
    bench.index("t1", "second");
    assert_eq!(bench.meta_ids(), vec!["t1"]);
    assert_eq!(bench.texts("SELECT content FROM archive_fts"), vec!["first"]);
}

#[test]
fn an_entry_carries_the_time() {
    let mut bench = Bench::opened();
    let before = chrono::Utc::now();
    bench.index("t1", "text");
    let after = chrono::Utc::now();
    let stamps = bench.texts("SELECT created_at FROM archive_meta");
    let moment = chrono::DateTime::parse_from_rfc3339(&stamps[0]).unwrap();
    assert!(before <= moment && moment <= after);
}

#[test]
fn a_removed_entry_is_gone_from_both_tables() {
    let mut bench = Bench::opened();
    bench.index("t1", "text");
    bench.index("t2", "text");
    remove_entry(&mut bench.slot, "t1");
    bench.run();
    assert_eq!(bench.meta_ids(), vec!["t2"]);
    assert_eq!(bench.content_ids(), vec!["t2"]);
    assert_eq!(bench.removed, Vec::<String>::new());
}

#[test]
fn commands_sent_before_opening_are_carried_out() {
    let mut bench = Bench::new();
    index_entry(&mut bench.slot, "t1", "shell", "ls", "one");
    index_entry(&mut bench.slot, "t2", "shell", "ls", "two");
    remove_entry(&mut bench.slot, "t1");
    bench.run();
    assert_eq!(bench.meta_ids(), vec!["t2"]);
    assert_eq!(bench.content_ids(), vec!["t2"]);
}

#[test]
fn enforcement_deletes_the_oldest() {
    let mut bench = Bench::opened();
    bench.fill(120);
    bench.setting = Some("1".to_string());
    bench.lengths = VecDeque::from([2_000_000, 2_000_000, 1_000]);
    enforce_cap(&mut bench.slot, &vec![]);
    bench.run();
    let kept: Vec<String> = (0..20).map(|i| format!("e{i:04}")).collect();
    assert_eq!(bench.meta_ids(), kept);
    assert_eq!(bench.content_ids(), kept);
    let gone: Vec<String> = (20..120).rev().map(|i| format!("e{i:04}")).collect();
    assert_eq!(bench.removed, gone);
}

#[test]
fn enforcement_leaves_a_small_database() {
    let mut bench = Bench::opened();
    bench.fill(60);
    enforce_cap(&mut bench.slot, &vec![]);
    bench.run();
    assert_eq!(bench.count(), 60);
    assert!(bench.removed.is_empty());
}

#[test]
fn enforcement_can_empty_the_database() {
    let mut bench = Bench::opened();
    bench.fill(60);
    bench.setting = Some("1".to_string());
    bench.lengths = VecDeque::from([u64::MAX, u64::MAX, u64::MAX, u64::MAX]);
    enforce_cap(&mut bench.slot, &vec![]);
    bench.run();
    assert_eq!(bench.count(), 0);
    assert_eq!(bench.content_ids(), Vec::<String>::new());
    assert_eq!(bench.removed.len(), 60);
}

#[test]
fn the_two_hundredth_entry_calls_for_enforcement() {
    let mut bench = Bench::opened();
    bench.fill(199);
    bench.setting = Some("1".to_string());
    bench.lengths = VecDeque::from([u64::MAX, 0]);
    bench.index("new", "text");
    assert!(bench.asked.contains(&Action::SelectOldest { limit: 50 }));
    assert_eq!(bench.count(), 150);
    assert!(bench.meta_ids().contains(&"new".to_string()));
    bench.asked.clear();
    bench.index("newer", "text");
    assert!(!bench.asked.contains(&Action::ReadCapSetting));
}

#[test]
fn a_large_log_is_emptied() {
    let mut bench = Bench::opened();
    bench.wal = Some(40_000_000);
    bench.index("t1", "text");
    assert_eq!(bench.asked.last(), Some(&Action::TruncateWal));
    assert_eq!(length(&beside(&bench.path, WAL_SUFFIX)), Some(0));
}

#[test]
fn a_removal_empties_a_large_log() {
    let mut bench = Bench::opened();
    bench.index("t1", "text");
    assert!(length(&beside(&bench.path, WAL_SUFFIX)) > Some(0));
    bench.wal = Some(33_554_433);
    remove_entry(&mut bench.slot, "t1");
    bench.run();
    assert_eq!(bench.asked.last(), Some(&Action::TruncateWal));
    assert_eq!(length(&beside(&bench.path, WAL_SUFFIX)), Some(0));
    assert_eq!(bench.count(), 0);
}

#[test]
fn a_reader_cannot_write() {
    let mut bench = Bench::opened();
    bench.index("t1", "text");
    let setup = open_read_db(bench.path.exists()).unwrap();
    let conn = Connection::open(&bench.path).unwrap();
    let ran = conn.execute_batch(&setup.script.sql).is_ok();
    let conn = accept_reader(conn, ran).unwrap();
    assert!(conn.execute("DELETE FROM archive_meta", []).is_err());
    let missing = bench.path.with_file_name("missing.db");
    assert!(open_read_db(missing.exists()).is_none());
}

#[test]
fn the_setting_has_its_name() {
    assert_eq!(CAP_SETTING, "LEAN_CTX_ARCHIVE_DB_MAX_MB");
}

#[test]
fn a_removal_undoes_an_addition() {
    let mut bench = Bench::opened();
    bench.index("t1", "text");
    let stamps = bench.texts("SELECT created_at FROM archive_meta");
    bench.index("t2", "more text");
    remove_entry(&mut bench.slot, "t2");
    bench.run();
    assert_eq!(bench.meta_ids(), vec!["t1"]);
    assert_eq!(bench.texts("SELECT created_at FROM archive_meta"), stamps);
    assert_eq!(bench.texts("SELECT content FROM archive_fts"), vec!["text"]);
}

#[test]
fn a_search_gives_no_removed_entry() {
    let mut bench = Bench::opened();
    bench.index("t1", "parser one");
    bench.index("t2", "parser two");
    remove_entry(&mut bench.slot, "t1");
    bench.run();
    let found = bench.search("parser", 10);
    assert_eq!(found.len(), 1);
    assert_eq!(found[0].archive_id, "t2");
}

#[test]
fn enforcement_goes_on_for_as_long_as_it_takes() {
    let mut bench = Bench::opened();
    bench.fill(2_800);
    bench.setting = Some("1".to_string());
    bench.lengths = VecDeque::from(vec![u64::MAX; 60]);
    enforce_cap(&mut bench.slot, &vec![]);
    bench.run();
    assert_eq!(bench.count(), 0);
    assert_eq!(bench.content_ids(), Vec::<String>::new());
    assert_eq!(bench.removed.len(), 2_800);
}

#[test]
fn both_tables_give_the_same_tool_and_command() {
    let mut bench = Bench::opened();
    index_entry(&mut bench.slot, "t1", "shell", "git log", "one");
    index_entry(&mut bench.slot, "t1", "editor", "open", "two");
    index_entry(&mut bench.slot, "t2", "editor", "open", "three");
    bench.run();
    let sql = "SELECT archive_id || ' ' || tool || ' ' || command FROM ";
    let meta = bench.texts(&format!("{sql} archive_meta ORDER BY archive_id"));
    let content = bench.texts(&format!("{sql} archive_fts ORDER BY archive_id"));
    assert_eq!(meta, vec!["t1 shell git log", "t2 editor open"]);
    assert_eq!(content, meta);
}
