//! Size limits of the database, and the pace of opening it and of cutting it back.

use crate::text;
use vstd::prelude::*;

verus! {

/// First wait, in milliseconds, after the database could not be opened. The
/// cause is often a lock that a stale process is about to give up.
pub const OPEN_BACKOFF_START_MS: u64 = 200;

/// Longest wait, in milliseconds, between two attempts to open the database:
/// three minutes, so that a broken database does not keep a core busy.
pub const OPEN_BACKOFF_MAX_MS: u64 = 180_000;

/// Size limit of the database in mebibytes where no setting gives one.
pub const DEFAULT_MAX_DB_MB: u64 = 500;

/// Bytes in a mebibyte.
pub const MEBIBYTE: u64 = 1_048_576;

/// The size limit is looked at whenever the number of entries is a multiple of this.
pub const ENFORCE_EVERY_N_INSERTS: usize = 200;

/// Size of the write-ahead log, in bytes, above which it is cut back after a write.
pub const WAL_TRUNCATE_THRESHOLD_BYTES: u64 = 33_554_432;

/// Rounds of deletion in a row that leave no fewer entries than were found before,
/// after which an enforcement of the size limit gives up.
pub const MAX_STALLED_ROUNDS: u32 = 50;

/// Fewest entries that a round of deletion asks for.
pub const MIN_BATCH: i64 = 50;

/// The nearest `u64` to the natural number `n`.
pub open spec fn saturated(n: int) -> u64 {
    if n > u64::MAX {
        u64::MAX
    } else {
        n as u64
    }
}

/// The limit in mebibytes that `setting` asks for: a positive number with white
/// space round it, or else the default.
pub open spec fn cap_megabytes(setting: Option<Seq<char>>) -> u64 {
    match setting {
        Some(value) => match text::parsed(text::trimmed(value)) {
            Some(mb) => if mb > 0 {
                mb
            } else {
                DEFAULT_MAX_DB_MB
            },
            None => DEFAULT_MAX_DB_MB,
        },
        None => DEFAULT_MAX_DB_MB,
    }
}

/// The limit in bytes that `setting` asks for.
pub open spec fn cap_bytes(setting: Option<Seq<char>>) -> u64 {
    saturated(cap_megabytes(setting) * MEBIBYTE)
}

/// The number of bytes in the files whose lengths are known.
pub open spec fn total_length(lengths: Seq<Option<u64>>) -> nat
    decreases lengths.len(),
{
    if lengths.len() == 0 {
        0
    } else {
        total_length(lengths.drop_last()) + length_or_zero(lengths.last()) as nat
    }
}

/// The length of a file, or zero where there is none.
pub open spec fn length_or_zero(length: Option<u64>) -> u64 {
    match length {
        Some(n) => n,
        None => 0,
    }
}

/// How many of the oldest entries a round of deletion asks for: a tenth of
/// `count` entries, but never fewer than `MIN_BATCH`.
pub open spec fn batch_of(count: int) -> int {
    if count / 10 > MIN_BATCH {
        count / 10
    } else {
        MIN_BATCH as int
    }
}

/// The wait that follows a wait of `millis`: twice as long, up to the longest.
pub open spec fn doubled_wait(millis: u64) -> u64 {
    if 2 * millis > OPEN_BACKOFF_MAX_MS {
        OPEN_BACKOFF_MAX_MS
    } else {
        (2 * millis) as u64
    }
}

/// The size limit in bytes, from the setting `LEAN_CTX_ARCHIVE_DB_MAX_MB` as it
/// was found (`None` where it is not set).
pub fn max_db_bytes(setting: Option<&str>) -> (bytes: u64)
    ensures
        bytes == cap_bytes(
            match setting {
                Some(value) => Some(value@),
                None => None,
            },
        ),
        setting is None ==> bytes == 524_288_000,
{
    let mut mb: u64 = DEFAULT_MAX_DB_MB;
    if let Some(value) = setting {
        if let Some(parsed) = text::parse_u64(value) {
            if parsed > 0 {
                mb = parsed;
            }
        }
    }
    match mb.checked_mul(MEBIBYTE) {
        Some(bytes) => bytes,
        None => u64::MAX,
    }
}

/// The size of the database on disk, from the lengths of its files (`None` for
/// one that is not there): their sum, or `u64::MAX` where it is larger.
pub fn db_size_bytes(lengths: &Vec<Option<u64>>) -> (bytes: u64)
    ensures
        bytes == saturated(total_length(lengths@) as int),
        lengths@.len() == 3 ==> ({
            let main = if lengths@[0] is Some { lengths@[0].unwrap() as int } else { 0 };
            let log = if lengths@[1] is Some { lengths@[1].unwrap() as int } else { 0 };
            let index = if lengths@[2] is Some { lengths@[2].unwrap() as int } else { 0 };
            bytes == if main + log + index <= u64::MAX {
                main + log + index
            } else {
                u64::MAX as int
            }
        }),
{
    let mut total: u64 = 0;
    let mut i: usize = 0;
    while i < lengths.len()
        invariant
            i <= lengths@.len(),
            total == saturated(total_length(lengths@.take(i as int)) as int),
        decreases lengths@.len() - i,
    {
        assert(lengths@.take(i + 1).drop_last() =~= lengths@.take(i as int));
        let length: u64 = match lengths[i] {
            Some(n) => n,
            None => 0,
        };
        total = total.saturating_add(length);
        i = i + 1;
    }
    assert(lengths@.take(i as int) =~= lengths@);
    proof {
        reveal_with_fuel(total_length, 4);
    }
    total
}

/// The size of the write-ahead log, from the length of its file.
pub fn wal_bytes(length: Option<u64>) -> (bytes: u64)
    ensures
        bytes == length_or_zero(length),
        length is Some ==> bytes == length.unwrap(),
        length is None ==> bytes == 0,
{
    match length {
        Some(n) => n,
        None => 0,
    }
}

/// How many of the oldest entries to delete in one round, of `count` entries.
pub fn batch_size(count: i64) -> (batch: i64)
    ensures
        batch == batch_of(count as int),
        count >= 510 ==> 10 * batch <= count < 10 * (batch + 1),
        count < 510 ==> batch == 50,
{
    if count > 0 {
        let tenth: i64 = (count as u64 / 10) as i64;
        if tenth > MIN_BATCH {
            return tenth;
        }
    }
    MIN_BATCH
}

/// The wait after one of `millis`.
pub fn next_backoff(millis: u64) -> (next: u64)
    ensures
        next == doubled_wait(millis),
        millis <= 90_000 ==> next == 2 * millis,
        millis > 90_000 ==> next == 180_000,
{
    if millis > OPEN_BACKOFF_MAX_MS / 2 {
        OPEN_BACKOFF_MAX_MS
    } else {
        millis * 2
    }
}

} // verus!
