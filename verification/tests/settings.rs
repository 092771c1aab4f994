use archive_fts::budget::{
    batch_size, db_size_bytes, max_db_bytes, next_backoff, wal_bytes, OPEN_BACKOFF_MAX_MS,
    OPEN_BACKOFF_START_MS,
};
use archive_fts::clock::{stamp_now, stamp_of};
use archive_fts::paths::{db_files, db_path, Base, WAL_FILE, WAL_SUFFIX};
use archive_fts::reader::{
    accept_reader, entry_count, entry_count_statement, open_read_db, search, search_statement,
    FtsResult,
};
use archive_fts::statement::Value;
use archive_fts::text::{is_white_space, parse_u64};

#[test]
fn white_space_is_that_of_unicode() {
    for n in 0..=0x10ffffu32 {
        if let Some(c) = char::from_u32(n) {
            assert_eq!(is_white_space(c), c.is_whitespace(), "{n:x}");
        }
    }
}

#[test]
fn numbers_are_read_as_by_the_standard_library() {
    let texts = [
        "", " ", "+", "-", "0", "7", "+7", "-0", "-7", "++7", "+-7", " 7 ", "\t7\n", "7 7", "0x7",
        "007", "1_000", "7.0", "18446744073709551615", "18446744073709551616",
        "184467440737095516150", "\u{3000}12\u{a0}", "\u{661}", "12x", "x12", "+ 7",
        "00000000000000000000000000012", "\u{85}+5\u{2028}", "99999999999999999999x",
    ];
    for text in texts {
        assert_eq!(parse_u64(text), text.trim().parse::<u64>().ok(), "{text:?}");
    }
}

#[test]
fn limit_is_read_from_the_setting() {
    assert_eq!(max_db_bytes(None), 524_288_000);
    assert_eq!(max_db_bytes(Some("1")), 1_048_576);
    assert_eq!(max_db_bytes(Some(" 64\n")), 67_108_864);
    assert_eq!(max_db_bytes(Some("0")), 524_288_000);
    assert_eq!(max_db_bytes(Some("-3")), 524_288_000);
    assert_eq!(max_db_bytes(Some("many")), 524_288_000);
    assert_eq!(max_db_bytes(Some("")), 524_288_000);
    assert_eq!(max_db_bytes(Some("18446744073709551615")), u64::MAX);
    assert_eq!(max_db_bytes(Some("17592186044415")), 18_446_744_073_708_503_040);
    assert_eq!(max_db_bytes(Some("17592186044416")), u64::MAX);
}

#[test]
fn size_is_the_sum_of_the_files() {
    assert_eq!(db_size_bytes(&vec![]), 0);
    assert_eq!(db_size_bytes(&vec![Some(4096), Some(100), None]), 4196);
    assert_eq!(db_size_bytes(&vec![None, None, None]), 0);
    assert_eq!(db_size_bytes(&vec![Some(u64::MAX), Some(1), Some(1)]), u64::MAX);
    assert_eq!(wal_bytes(Some(12)), 12);
    assert_eq!(wal_bytes(None), 0);
}

#[test]
fn a_batch_is_a_tenth_but_at_least_fifty() {
    assert_eq!(batch_size(i64::MIN), 50);
    assert_eq!(batch_size(-600), 50);
    assert_eq!(batch_size(1), 50);
    assert_eq!(batch_size(509), 50);
    assert_eq!(batch_size(510), 51);
    assert_eq!(batch_size(12_345), 1_234);
    assert_eq!(batch_size(i64::MAX), i64::MAX / 10);
}

#[test]
fn waits_double_up_to_three_minutes() {
    let mut waits = Vec::new();
    let mut wait = OPEN_BACKOFF_START_MS;
    for _ in 0..12 {
        waits.push(wait);
        wait = next_backoff(wait);
    }
    assert_eq!(
        waits,
        vec![
            200, 400, 800, 1_600, 3_200, 6_400, 12_800, 25_600, 51_200, 102_400, 180_000, 180_000
        ]
    );
    assert_eq!(OPEN_BACKOFF_MAX_MS, 180_000);
    assert_eq!(next_backoff(90_000), 180_000);
    assert_eq!(next_backoff(90_001), 180_000);
    assert_eq!(next_backoff(u64::MAX), 180_000);
}

#[test]
fn a_moment_has_its_text() {
    assert_eq!(stamp_of(0, 0).as_deref(), Some("1970-01-01T00:00:00+00:00"));
    assert_eq!(
        stamp_of(1_431_648_000, 5_000_000).as_deref(),
        Some("2015-05-15T00:00:00.005+00:00")
    );
    assert_eq!(
        stamp_of(1_431_648_000, 1).as_deref(),
        Some("2015-05-15T00:00:00.000000001+00:00")
    );
    assert_eq!(stamp_of(0, 2_000_000_000), None);
    assert_eq!(stamp_of(i64::MAX, 0), None);
}

#[test]
fn the_present_moment_lies_between_two_readings() {
    let before = chrono::Utc::now();
    let text = stamp_now();
    let after = chrono::Utc::now();
    let moment = chrono::DateTime::parse_from_rfc3339(&text).unwrap();
    assert!(before <= moment && moment <= after);
    assert!(moment.timestamp() >= 0 && moment.timestamp_subsec_nanos() < 1_000_000_000);
    assert_eq!(moment.offset().local_minus_utc(), 0);
    assert_eq!(moment.with_timezone(&chrono::Utc).to_rfc3339(), text);
}

#[test]
fn the_database_lies_in_the_data_directory() {
    let path = db_path(Some("/home/me/data"));
    assert_eq!(path.base, Base::DataDir("/home/me/data"));
    assert_eq!(path.names, vec!["archives".to_string(), "index.db".to_string()]);
    let path = db_path::<&str>(None);
    assert_eq!(path.base, Base::Named(".lean-ctx".to_string()));
    assert_eq!(path.names, vec!["archives".to_string(), "index.db".to_string()]);
}

#[test]
fn the_database_has_three_files() {
    assert_eq!(db_files(), vec!["".to_string(), "-wal".to_string(), "-shm".to_string()]);
    assert_eq!(db_files()[WAL_FILE], WAL_SUFFIX);
    assert_eq!(WAL_SUFFIX, "-wal");
}

#[test]
fn the_log_is_part_of_the_database() {
    for lengths in [
        vec![Some(4096), Some(33_554_433), Some(32_768)],
        vec![None, Some(7), None],
        vec![Some(u64::MAX), Some(u64::MAX), None],
        vec![Some(1), None, None],
    ] {
        assert!(wal_bytes(lengths[WAL_FILE]) <= db_size_bytes(&lengths));
    }
}

#[test]
fn a_reader_that_might_write_is_refused() {
    assert_eq!(accept_reader("connection", true), Some("connection"));
    assert_eq!(accept_reader("connection", false), None);
}

#[test]
fn a_reader_needs_a_database_file() {
    assert_eq!(open_read_db(false), None);
    let setup = open_read_db(true).unwrap();
    assert_eq!(setup.busy_timeout_secs, 5);
    assert_eq!(setup.script.sql, "PRAGMA query_only=ON;");
    assert_eq!(setup.script.params, vec![]);
}

#[test]
fn a_search_binds_the_query_and_the_limit() {
    let run = search_statement("parser", 7);
    assert_eq!(run.params, vec![Value::Text("parser".to_string()), Value::Integer(7)]);
    let run = search_statement("parser", usize::MAX);
    assert_eq!(run.params[1], Value::Integer(-1));
}

fn result(archive_id: &str, rank: f64) -> FtsResult<f64> {
    FtsResult {
        archive_id: archive_id.to_string(),
        tool: "shell".to_string(),
        command: "git log".to_string(),
        snippet: String::new(),
        rank,
    }
}

#[test]
fn a_search_skips_rows_that_cannot_be_read() {
    let found = search(Some(vec![None, Some(result("a", -2.5)), None, Some(result("b", -1.0))]));
    assert_eq!(found, vec![result("a", -2.5), result("b", -1.0)]);
    assert_eq!(search::<f64>(Some(vec![])), vec![]);
    assert_eq!(search::<f64>(None), vec![]);
}

#[test]
fn no_count_is_zero() {
    assert_eq!(entry_count(None), 0);
    assert_eq!(entry_count(Some(0)), 0);
    assert_eq!(entry_count(Some(1_234)), 1_234);
    assert_eq!(entry_count(Some(-1)), usize::MAX);
    assert_eq!(entry_count_statement().sql, "SELECT COUNT(*) FROM archive_meta");
}
