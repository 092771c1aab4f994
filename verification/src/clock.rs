//! The time at which an entry is indexed.

use crate::readings::Readings;
use vstd::prelude::*;

verus! {

/// The RFC 3339 text, in UTC, of the moment `secs` seconds and `nanos`
/// nanoseconds after the Unix epoch, where that moment can be represented: what
/// `chrono::DateTime::<chrono::Utc>::to_rfc3339` gives for it.
pub uninterp spec fn rfc3339_text(secs: i64, nanos: u32) -> Option<Seq<char>>;

/// Whether `text` is the RFC 3339 text of some moment that is not before the Unix
/// epoch and is no leap second.
pub open spec fn is_stamp(text: Seq<char>) -> bool {
    exists|secs: i64, nanos: u32|
        secs >= 0 && nanos < 1_000_000_000 && #[trigger] rfc3339_text(secs, nanos) == Some(text)
}

/// Calls `chrono::Utc::now`. The result is the moment in seconds and
/// nanoseconds after the Unix epoch (`timestamp` and `timestamp_subsec_nanos`,
/// which `from_timestamp` is guaranteed to take back). It is not before the epoch,
/// and no leap second: `chrono::Utc::now` makes it from the time that has passed
/// since the epoch, in whole seconds and the nanoseconds beyond them. Of a reading
/// of the clock nothing more can be said. The moment is what `readings` gains: it
/// records that the clock was read once, and what it gave. Where the system clock
/// stands before the epoch, or beyond the years that a date can have,
/// `chrono::Utc::now` panics.
#[verifier::external_body]
fn utc_now(readings: &mut Readings) -> (moment: (i64, u32))
    ensures
        final(readings)@ == old(readings)@.push(moment),
        moment.0 >= 0,
        moment.1 < 1_000_000_000,
        rfc3339_text(moment.0, moment.1) is Some,
{
    let now = chrono::Utc::now();
    (now.timestamp(), now.timestamp_subsec_nanos())
}

/// Calls `chrono::DateTime::<chrono::Utc>::to_rfc3339` on the moment `secs`
/// seconds and `nanos` nanoseconds after the Unix epoch, as
/// `chrono::DateTime::from_timestamp` makes it. The text depends on the moment
/// alone; there is none where the moment cannot be represented.
#[verifier::external_body]
fn to_rfc3339(secs: i64, nanos: u32) -> (text: Option<String>)
    ensures
        match text {
            Some(text) => rfc3339_text(secs, nanos) == Some(text@),
            None => rfc3339_text(secs, nanos) is None,
        },
{
    Some(chrono::DateTime::<chrono::Utc>::from_timestamp(secs, nanos)?.to_rfc3339())
}

/// The text of a moment given in seconds and nanoseconds after the Unix epoch.
pub fn stamp_of(secs: i64, nanos: u32) -> (text: Option<String>)
    ensures
        match text {
            Some(text) => rfc3339_text(secs, nanos) == Some(text@),
            None => rfc3339_text(secs, nanos) is None,
        },
{
    to_rfc3339(secs, nanos)
}

/// Reads the clock and gives the text of the moment that it gave, which is what
/// `readings` gains. Where the system clock stands before the Unix epoch, or beyond
/// the years that a date can have, it panics.
pub fn stamp(readings: &mut Readings) -> (text: String)
    ensures
        final(readings)@.len() == old(readings)@.len() + 1,
        final(readings)@.drop_last() == old(readings)@,
        final(readings)@.last().0 >= 0,
        final(readings)@.last().1 < 1_000_000_000,
        rfc3339_text(final(readings)@.last().0, final(readings)@.last().1) == Some(text@),
        is_stamp(text@),
{
    let moment = utc_now(readings);
    assert(readings@.drop_last() =~= old(readings)@);
    match stamp_of(moment.0, moment.1) {
        Some(text) => text,
        None => {
            assert(false);
            String::new()
        },
    }
}

/// The text of the present moment. Where the system clock stands before the Unix
/// epoch, or beyond the years that a date can have, it panics.
pub fn stamp_now() -> (text: String)
    ensures
        is_stamp(text@),
{
    let mut readings = Readings::new();
    stamp(&mut readings)
}

} // verus!
