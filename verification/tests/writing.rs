use archive_fts::action::{Action, Event};
use archive_fts::budget::MAX_STALLED_ROUNDS;
use archive_fts::enforce::{enforce_cap_locked, EnforceJob};
use archive_fts::index::{index_entry_locked, remove_entry_locked, Entry, IndexJob};
use archive_fts::open::{open_db, OpenJob};
use archive_fts::writer::{
    enforce_cap, index_entry, remove_entry, writer, DbCommand, WriterHandle,
};

fn entry(archive_id: &str) -> Entry {
    Entry {
        archive_id: archive_id.to_string(),
        tool: "shell".to_string(),
        command: "git log".to_string(),
        content: "commit abc".to_string(),
    }
}

fn id(archive_id: &str) -> String {
    archive_id.to_string()
}

/// Answers an opening until the database is open.
fn open(handle: &mut WriterHandle) {
    assert_eq!(handle.action(), Action::CreateParent);
    handle.advance(Event::Done);
    assert_eq!(handle.action(), Action::Connect);
    handle.advance(Event::Outcome(true));
    assert_eq!(handle.action(), Action::Prepare);
    handle.advance(Event::Outcome(true));
    assert_eq!(handle.action(), Action::AwaitCommand);
}

#[test]
fn opening_needs_a_connection_and_the_script() {
    let job = open_db().advance(&Event::Done).unwrap();
    assert_eq!(job.action(), Action::Connect);
    let job = job.advance(&Event::Outcome(false)).unwrap();
    assert_eq!(job.action(), Action::Sleep { millis: 200 });
    let job = job.advance(&Event::Done).unwrap();
    assert_eq!(job.action(), Action::CreateParent);
    let job: OpenJob = job.advance(&Event::Done).unwrap();
    let job = job.advance(&Event::Outcome(true)).unwrap();
    assert_eq!(job.action(), Action::Prepare);
    let failed = job.advance(&Event::Outcome(false)).unwrap();
    assert_eq!(failed.action(), Action::Sleep { millis: 400 });
    assert_eq!(job.advance(&Event::Outcome(true)), None);
}

#[test]
fn waits_stop_growing_at_three_minutes() {
    let mut job = open_db();
    let mut waits = Vec::new();
    for _ in 0..12 {
        job = job.advance(&Event::Done).unwrap();
        job = job.advance(&Event::Outcome(false)).unwrap();
        if let Action::Sleep { millis } = job.action() {
            waits.push(millis);
        }
        job = job.advance(&Event::Done).unwrap();
    }
    assert_eq!(
        waits,
        vec![
            200, 400, 800, 1_600, 3_200, 6_400, 12_800, 25_600, 51_200, 102_400, 180_000, 180_000
        ]
    );
}

#[test]
fn commands_wait_until_the_database_is_open_and_come_in_order() {
    let mut slot: Option<WriterHandle> = None;
    remove_entry(&mut slot, "a");
    let handle = writer(&mut slot);
    handle.advance(Event::Done);
    handle.advance(Event::Outcome(false));
    assert_eq!(handle.action(), Action::Sleep { millis: 200 });
    index_entry(&mut slot, "b", "shell", "git log", "commit abc");
    assert_eq!(enforce_cap(&mut slot, &vec![Some(5), None, Some(7)]), 12);
    let handle = writer(&mut slot);
    assert!(handle.has_command());
    handle.advance(Event::Done);
    open(handle);
    handle.advance(Event::Done);
    assert_eq!(handle.action(), Action::DeleteMeta { archive_id: id("a") });
    handle.advance(Event::Done);
    assert_eq!(handle.action(), Action::DeleteContent { archive_id: id("a") });
    handle.advance(Event::Done);
    assert_eq!(handle.action(), Action::MeasureWal);
    handle.advance(Event::Length(None));
    assert_eq!(handle.action(), Action::AwaitCommand);
    handle.advance(Event::Done);
    assert_eq!(handle.action(), Action::FindEntry { archive_id: id("b") });
    handle.advance(Event::Found(true));
    assert_eq!(handle.action(), Action::AwaitCommand);
    handle.advance(Event::Done);
    assert_eq!(handle.action(), Action::ReadCapSetting);
    assert!(!handle.has_command());
}

#[test]
fn a_writer_without_commands_keeps_waiting() {
    let mut handle = WriterHandle::new();
    open(&mut handle);
    handle.advance(Event::Done);
    assert_eq!(handle.action(), Action::AwaitCommand);
    assert!(!handle.has_command());
}

#[test]
fn a_writer_that_is_gone_loses_its_commands() {
    let mut handle = WriterHandle::new();
    handle.send(DbCommand::EnforceCap);
    handle.disconnect();
    assert!(!handle.has_command());
    handle.send(DbCommand::EnforceCap);
    assert!(!handle.has_command());
    handle.advance(Event::Done);
    assert_eq!(handle.action(), Action::AwaitCommand);
}

#[test]
fn the_slot_keeps_its_writer() {
    let mut slot: Option<WriterHandle> = None;
    open(writer(&mut slot));
    assert_eq!(writer(&mut slot).action(), Action::AwaitCommand);
}

fn step(job: IndexJob, event: Event) -> IndexJob {
    job.advance(event, String::new()).unwrap()
}

#[test]
fn an_entry_that_is_there_is_left() {
    let job = index_entry_locked(entry("a"));
    assert_eq!(job.action(), Action::FindEntry { archive_id: id("a") });
    assert!(!job.needs_stamp(&Event::Found(true)));
    assert!(job.advance(Event::Found(true), String::new()).is_none());
}

#[test]
fn a_new_entry_goes_into_both_tables() {
    let job = index_entry_locked(entry("a"));
    assert!(job.needs_stamp(&Event::Found(false)));
    let job = job.advance(Event::Found(false), "2026-01-01".to_string()).unwrap();
    assert_eq!(
        job.action(),
        Action::InsertMeta {
            archive_id: id("a"),
            tool: "shell".to_string(),
            command: "git log".to_string(),
            created_at: "2026-01-01".to_string(),
        }
    );
    let job = step(job, Event::Done);
    assert_eq!(
        job.action(),
        Action::InsertContent {
            archive_id: id("a"),
            tool: "shell".to_string(),
            command: "git log".to_string(),
            content: "commit abc".to_string(),
        }
    );
    let job = step(job, Event::Done);
    assert_eq!(job.action(), Action::CountEntries);
    let job = step(job, Event::Count(Some(199)));
    assert_eq!(job.action(), Action::MeasureWal);
    assert!(job.advance(Event::Length(Some(33_554_432)), String::new()).is_none());
}

/// An addition that waits for the number of entries.
fn counting() -> IndexJob {
    let job = step(index_entry_locked(entry("a")), Event::Found(false));
    step(step(job, Event::Done), Event::Done)
}

#[test]
fn a_large_log_is_cut_back() {
    let job = step(counting(), Event::Count(Some(1)));
    let job = step(job, Event::Length(Some(33_554_433)));
    assert_eq!(job.action(), Action::TruncateWal);
    assert!(job.advance(Event::Done, String::new()).is_none());
    let job = step(counting(), Event::Count(Some(1)));
    assert!(job.advance(Event::Length(None), String::new()).is_none());
}

#[test]
fn the_limit_is_looked_at_every_two_hundred_entries() {
    for (count, due) in [(Some(1), false), (Some(200), true), (Some(201), false), (Some(400), true)] {
        let job = step(counting(), Event::Count(count));
        assert_eq!(job.action() == Action::ReadCapSetting, due);
    }
    // A count that failed reads as no entries, of which two hundred is a divisor.
    let job = step(counting(), Event::Count(None));
    assert_eq!(job.action(), Action::ReadCapSetting);
    let job = step(job, Event::Setting(None));
    assert_eq!(job.action(), Action::MeasureDb);
    let job = step(job, Event::Lengths(vec![Some(524_288_000), None, None]));
    assert_eq!(job.action(), Action::MeasureWal);
}

#[test]
fn a_removal_deletes_both_rows() {
    let job = remove_entry_locked(id("a"));
    assert_eq!(job.action(), Action::DeleteMeta { archive_id: id("a") });
    let job = job.advance(Event::Done).unwrap();
    assert_eq!(job.action(), Action::DeleteContent { archive_id: id("a") });
    let job = job.advance(Event::Done).unwrap();
    assert_eq!(job.action(), Action::MeasureWal);
    assert!(job.advance(Event::Length(Some(33_554_432))).is_none());
}

#[test]
fn a_removal_cuts_a_large_log_back() {
    let job = remove_entry_locked(id("a")).advance(Event::Done).unwrap();
    let job = job.advance(Event::Done).unwrap().advance(Event::Length(Some(33_554_433))).unwrap();
    assert_eq!(job.action(), Action::TruncateWal);
    assert!(job.advance(Event::Done).is_none());
}

/// An enforcement under a limit of one mebibyte that has found the database too large.
fn over_limit() -> EnforceJob {
    let job = enforce_cap_locked().advance(Event::Setting(Some("1".to_string()))).unwrap();
    job.advance(Event::Lengths(vec![Some(1_048_576), Some(1), None])).unwrap()
}

/// Takes an enforcement through a round that finds 700 entries and deletes one.
fn evict(job: EnforceJob, archive_id: &str) -> EnforceJob {
    evict_of(job, archive_id, 700)
}

/// Takes an enforcement through a round that finds `found` entries and deletes one.
fn evict_of(job: EnforceJob, archive_id: &str, found: i64) -> EnforceJob {
    assert_eq!(job.action(), Action::CountEntries);
    let job = job.advance(Event::Count(Some(found))).unwrap();
    assert_eq!(job.action(), Action::SelectOldest { limit: found / 10 });
    let job = job.advance(Event::Ids(Some(vec![None, Some(id(archive_id))]))).unwrap();
    assert_eq!(job.action(), Action::DeleteMeta { archive_id: id(archive_id) });
    let job = job.advance(Event::Done).unwrap();
    assert_eq!(job.action(), Action::DeleteContent { archive_id: id(archive_id) });
    let job = job.advance(Event::Done).unwrap();
    assert_eq!(job.action(), Action::RemoveFiles { archive_id: id(archive_id) });
    let job = job.advance(Event::Done).unwrap();
    assert_eq!(job.action(), Action::Reclaim);
    let job = job.advance(Event::Done).unwrap();
    assert_eq!(job.action(), Action::MeasureDb);
    job
}

#[test]
fn within_the_limit_nothing_is_deleted() {
    let job = enforce_cap_locked().advance(Event::Setting(Some("1".to_string()))).unwrap();
    assert!(job.advance(Event::Lengths(vec![Some(1_048_575), Some(1), None])).is_none());
}

#[test]
fn enforcement_ends_within_the_limit() {
    let job = evict(over_limit(), "a");
    let job = job.advance(Event::Lengths(vec![Some(1_048_577), None, None])).unwrap();
    let job = evict_of(job, "b", 690);
    assert!(job.advance(Event::Lengths(vec![Some(1_048_576), None, None])).is_none());
}

#[test]
fn enforcement_ends_without_entries() {
    assert!(over_limit().advance(Event::Count(Some(0))).is_none());
    assert!(over_limit().advance(Event::Count(None)).is_none());
    let selecting = over_limit().advance(Event::Count(Some(3))).unwrap();
    assert_eq!(selecting.action(), Action::SelectOldest { limit: 50 });
    assert!(selecting.advance(Event::Ids(None)).is_none());
    let selecting = over_limit().advance(Event::Count(Some(3))).unwrap();
    assert!(selecting.advance(Event::Ids(Some(vec![None, None]))).is_none());
}

#[test]
fn enforcement_goes_on_while_entries_get_fewer() {
    let mut job = over_limit();
    for found in (1..=120).rev() {
        let selecting = job.advance(Event::Count(Some(found))).unwrap();
        assert_eq!(selecting.action(), Action::SelectOldest { limit: 50 });
        let mut evicting = selecting.advance(Event::Ids(Some(vec![Some(id("a"))]))).unwrap();
        while evicting.action() != Action::MeasureDb {
            evicting = evicting.advance(Event::Done).unwrap();
        }
        job = evicting.advance(Event::Lengths(vec![Some(u64::MAX), Some(9), None])).unwrap();
    }
    assert!(job.advance(Event::Count(Some(0))).is_none());
}

/// Takes an enforcement through rounds that find `found` entries each and leave the
/// database too large.
fn stall(job: EnforceJob, found: i64, rounds: u32) -> EnforceJob {
    let mut job = job;
    for _ in 0..rounds {
        job = evict_of(job, "a", found)
            .advance(Event::Lengths(vec![Some(u64::MAX), None, None]))
            .unwrap();
    }
    assert_eq!(job.action(), Action::CountEntries);
    job
}

#[test]
fn enforcement_ends_without_progress() {
    assert_eq!(MAX_STALLED_ROUNDS, 50);
    for found in [700, 701, i64::MAX] {
        let job = stall(over_limit(), 700, 50);
        assert!(job.advance(Event::Count(Some(found))).is_none());
    }
    let job = stall(over_limit(), 700, 49);
    assert!(job.advance(Event::Count(Some(700))).is_some());
    let selecting = over_limit().advance(Event::Count(Some(i64::MAX)));
    assert!(selecting.is_some());
}

#[test]
fn progress_starts_the_count_of_stalled_rounds_again() {
    let job = stall(over_limit(), 700, 50);
    let job = stall(job, 699, 50);
    assert!(job.advance(Event::Count(Some(699))).is_none());
    let job = stall(stall(over_limit(), 700, 50), 690, 49);
    assert_eq!(evict_of(job, "b", 800).action(), Action::MeasureDb);
}

#[test]
fn going_back_up_is_no_progress() {
    let mut job = over_limit();
    for _ in 0..25 {
        job = stall(stall(job, 700, 1), 800, 1);
    }
    assert!(job.advance(Event::Count(Some(700))).is_none());
}

#[test]
fn stalled_rounds_still_end_within_the_limit() {
    let job = evict(stall(over_limit(), 700, 30), "a");
    assert!(job.advance(Event::Lengths(vec![Some(1_048_576), None, None])).is_none());
    let job = stall(over_limit(), 700, 30);
    assert!(job.advance(Event::Count(Some(0))).is_none());
}

#[test]
fn a_batch_is_evicted_in_order() {
    let job = over_limit().advance(Event::Count(Some(2))).unwrap();
    let mut job = job.advance(Event::Ids(Some(vec![Some(id("x")), Some(id("y"))])));
    let mut asked = Vec::new();
    for _ in 0..7 {
        let now = job.unwrap();
        asked.push(now.action());
        job = now.advance(Event::Done);
    }
    assert_eq!(
        asked,
        vec![
            Action::DeleteMeta { archive_id: id("x") },
            Action::DeleteContent { archive_id: id("x") },
            Action::RemoveFiles { archive_id: id("x") },
            Action::DeleteMeta { archive_id: id("y") },
            Action::DeleteContent { archive_id: id("y") },
            Action::RemoveFiles { archive_id: id("y") },
            Action::Reclaim,
        ]
    );
}

#[test]
fn a_command_ends_whatever_the_replies_are() {
    for kind in 0..6 {
        let mut handle = WriterHandle::new();
        open(&mut handle);
        handle.send(DbCommand::Index(entry("a")));
        handle.advance(Event::Done);
        let mut replies = 0;
        while handle.action() != Action::AwaitCommand {
            handle.advance(match kind {
                0 => Event::Done,
                1 => Event::Outcome(false),
                2 => Event::Count(Some(-1)),
                3 => Event::Ids(Some(vec![Some(id("x")), None])),
                4 => Event::Lengths(vec![Some(u64::MAX)]),
                _ => Event::Length(Some(u64::MAX)),
            });
            replies += 1;
            assert!(replies < 100);
        }
    }
}

#[test]
fn an_attempt_needs_both_to_succeed() {
    for (connected, prepared) in [(false, false), (false, true), (true, false), (true, true)] {
        let job = open_db().advance(&Event::Done).unwrap();
        let job = job.advance(&Event::Outcome(connected)).unwrap();
        let next = if connected {
            job.advance(&Event::Outcome(prepared))
        } else {
            Some(job)
        };
        assert_eq!(next.is_none(), connected && prepared);
        if let Some(waiting) = next {
            assert_eq!(waiting.action(), Action::Sleep { millis: 200 });
        }
    }
}
