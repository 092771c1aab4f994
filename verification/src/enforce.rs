//! Keeping the database within its size limit.

use crate::action::{Action, ActionView, Event, EventView};
use crate::budget;
use crate::rows;
use std::collections::VecDeque;
use vstd::prelude::*;

verus! {

/// The part of an entry that is removed next.
#[derive(Debug, Clone, Copy, PartialEq, Eq, Structural)]
pub enum Part {
    /// What is known of it.
    Meta,
    /// Its searchable text.
    Content,
    /// The files that it was archived in, which are much larger than its rows.
    Files,
}

/// How the rounds of an enforcement have fared.
#[derive(Debug, Clone, Copy, PartialEq, Eq, Structural)]
pub struct Pace {
    /// The fewest entries that a round has found.
    pub fewest: i64,
    /// The rounds in a row, up to the last, that have found no fewer.
    pub stalled: u32,
}

impl Pace {
    /// How the rounds have fared where one more finds `found` entries, after those
    /// that have fared as `before` says; nothing where it is one too many without
    /// progress.
    pub open spec fn kept(before: Option<Pace>, found: i64) -> Option<Pace> {
        match before {
            None => Some(Pace { fewest: found, stalled: 0 }),
            Some(pace) => if found < pace.fewest {
                Some(Pace { fewest: found, stalled: 0 })
            } else if pace.stalled + 1 < budget::MAX_STALLED_ROUNDS {
                Some(Pace { stalled: (pace.stalled + 1) as u32, ..pace })
            } else {
                None
            },
        }
    }

    /// How the rounds have fared where one more finds `found` entries.
    fn keep(before: Option<Pace>, found: i64) -> (pace: Option<Pace>)
        ensures
            pace == Pace::kept(before, found),
    {
        match before {
            None => Some(Pace { fewest: found, stalled: 0 }),
            Some(pace) => {
                if found < pace.fewest {
                    Some(Pace { fewest: found, stalled: 0 })
                } else if pace.stalled < budget::MAX_STALLED_ROUNDS - 1 {
                    Some(Pace { fewest: pace.fewest, stalled: pace.stalled + 1 })
                } else {
                    None
                }
            },
        }
    }
}

/// An enforcement of the size limit, by what it waits for.
///
/// It deletes the oldest entries in batches until the database is within its
/// limit again or no entry is left, and gives their space back after each batch.
/// It also ends where no entry is listed, and after `MAX_STALLED_ROUNDS` batches in
/// a row that have left no fewer entries than were found before. Where every
/// statement succeeds and nothing else writes to the database, each batch leaves
/// fewer, so that neither happens. Where statements fail for a while, or another
/// process adds entries meanwhile, it goes on until that many batches in a row
/// have come to nothing.
#[derive(Debug)]
pub enum EnforceJob {
    /// The setting of the size limit.
    ReadSetting,
    /// The size of the database before anything is deleted.
    Measure { cap: u64 },
    /// The number of entries; `before` is how the rounds before have fared.
    Count { cap: u64, before: Option<Pace> },
    /// The oldest entries.
    Select { cap: u64, pace: Pace, batch: i64 },
    /// The removal of a part of an entry; `rest` is what follows in the batch.
    Evict { cap: u64, pace: Pace, part: Part, archive_id: String, rest: VecDeque<String> },
    /// The return of the space.
    Reclaim { cap: u64, pace: Pace },
    /// The size of the database after a batch.
    Remeasure { cap: u64, pace: Pace },
}

/// An enforcement of the size limit, as mathematics sees it.
pub enum EnforceView {
    ReadSetting,
    Measure { cap: u64 },
    Count { cap: u64, before: Option<Pace> },
    Select { cap: u64, pace: Pace, batch: int },
    Evict { cap: u64, pace: Pace, part: Part, archive_id: Seq<char>, rest: Seq<Seq<char>> },
    Reclaim { cap: u64, pace: Pace },
    Remeasure { cap: u64, pace: Pace },
}

impl View for EnforceJob {
    type V = EnforceView;

    open spec fn view(&self) -> EnforceView {
        match self {
            EnforceJob::ReadSetting => EnforceView::ReadSetting,
            EnforceJob::Measure { cap } => EnforceView::Measure { cap: *cap },
            EnforceJob::Count { cap, before } => EnforceView::Count { cap: *cap, before: *before },
            EnforceJob::Select { cap, pace, batch } => EnforceView::Select {
                cap: *cap,
                pace: *pace,
                batch: *batch as int,
            },
            EnforceJob::Evict { cap, pace, part, archive_id, rest } => EnforceView::Evict {
                cap: *cap,
                pace: *pace,
                part: *part,
                archive_id: archive_id@,
                rest: rows::texts(rest@),
            },
            EnforceJob::Reclaim { cap, pace } => EnforceView::Reclaim { cap: *cap, pace: *pace },
            EnforceJob::Remeasure { cap, pace } => EnforceView::Remeasure {
                cap: *cap,
                pace: *pace,
            },
        }
    }
}

impl EnforceView {
    /// What is asked for.
    pub open spec fn action(self) -> ActionView {
        match self {
            EnforceView::ReadSetting => ActionView::ReadCapSetting,
            EnforceView::Measure { .. } => ActionView::MeasureDb,
            EnforceView::Count { .. } => ActionView::CountEntries,
            EnforceView::Select { batch, .. } => ActionView::SelectOldest { limit: batch },
            EnforceView::Evict { part: Part::Meta, archive_id, .. } => ActionView::DeleteMeta {
                archive_id,
            },
            EnforceView::Evict { part: Part::Content, archive_id, .. } => {
                ActionView::DeleteContent { archive_id }
            },
            EnforceView::Evict { part: Part::Files, archive_id, .. } => ActionView::RemoveFiles {
                archive_id,
            },
            EnforceView::Reclaim { .. } => ActionView::Reclaim,
            EnforceView::Remeasure { .. } => ActionView::MeasureDb,
        }
    }

    /// The eviction of the entries `ids`, or, where there are none, `otherwise`.
    pub open spec fn evict(
        cap: u64,
        pace: Pace,
        ids: Seq<Seq<char>>,
        otherwise: Option<Self>,
    ) -> Option<Self> {
        if ids.len() == 0 {
            otherwise
        } else {
            Some(
                EnforceView::Evict {
                    cap,
                    pace,
                    part: Part::Meta,
                    archive_id: ids.first(),
                    rest: ids.drop_first(),
                },
            )
        }
    }

    /// What follows a reply: the job as it goes on, or nothing where it is over.
    pub open spec fn advance(self, event: EventView) -> Option<EnforceView> {
        match self {
            EnforceView::ReadSetting => Some(EnforceView::Measure { cap: event.cap() }),
            EnforceView::Measure { cap } => if event.size() <= cap {
                None
            } else {
                Some(EnforceView::Count { cap, before: None })
            },
            EnforceView::Count { cap, before } => if event.count() == 0 {
                None
            } else {
                match Pace::kept(before, event.count()) {
                    Some(pace) => Some(
                        EnforceView::Select {
                            cap,
                            pace,
                            batch: budget::batch_of(event.count() as int),
                        },
                    ),
                    None => None,
                }
            },
            EnforceView::Select { cap, pace, .. } => Self::evict(cap, pace, event.ids(), None),
            EnforceView::Evict { cap, pace, part: Part::Meta, archive_id, rest } => Some(
                EnforceView::Evict { cap, pace, part: Part::Content, archive_id, rest },
            ),
            EnforceView::Evict { cap, pace, part: Part::Content, archive_id, rest } => Some(
                EnforceView::Evict { cap, pace, part: Part::Files, archive_id, rest },
            ),
            EnforceView::Evict { cap, pace, part: Part::Files, rest, .. } => Self::evict(
                cap,
                pace,
                rest,
                Some(EnforceView::Reclaim { cap, pace }),
            ),
            EnforceView::Reclaim { cap, pace } => Some(EnforceView::Remeasure { cap, pace }),
            EnforceView::Remeasure { cap, pace } => if event.size() <= cap {
                None
            } else {
                Some(EnforceView::Count { cap, before: Some(pace) })
            },
        }
    }

    /// The job that an optional job stands for.
    pub open spec fn of(job: Option<EnforceJob>) -> Option<EnforceView> {
        match job {
            Some(job) => Some(job@),
            None => None,
        }
    }
}

/// Starts an enforcement of the size limit.
pub fn enforce_cap_locked() -> (job: EnforceJob)
    ensures
        job@ == EnforceView::ReadSetting,
{
    EnforceJob::ReadSetting
}

/// The eviction of the entries `ids`, or, where there are none, `otherwise`.
fn evict(cap: u64, pace: Pace, ids: VecDeque<String>, otherwise: Option<EnforceJob>) -> (next:
    Option<EnforceJob>)
    ensures
        EnforceView::of(next) == EnforceView::evict(
            cap,
            pace,
            rows::texts(ids@),
            EnforceView::of(otherwise),
        ),
{
    let mut rest = ids;
    match rest.pop_front() {
        None => otherwise,
        Some(archive_id) => {
            assert(rows::texts(rest@) =~= rows::texts(ids@).drop_first());
            Some(EnforceJob::Evict { cap, pace, part: Part::Meta, archive_id, rest })
        },
    }
}

impl EnforceJob {
    /// What is asked for.
    pub fn action(&self) -> (action: Action)
        ensures
            action@ == self@.action(),
    {
        match self {
            EnforceJob::ReadSetting => Action::ReadCapSetting,
            EnforceJob::Measure { .. } => Action::MeasureDb,
            EnforceJob::Count { .. } => Action::CountEntries,
            EnforceJob::Select { batch, .. } => Action::SelectOldest { limit: *batch },
            EnforceJob::Evict { part, archive_id, .. } => match part {
                Part::Meta => Action::DeleteMeta { archive_id: archive_id.clone() },
                Part::Content => Action::DeleteContent { archive_id: archive_id.clone() },
                Part::Files => Action::RemoveFiles { archive_id: archive_id.clone() },
            },
            EnforceJob::Reclaim { .. } => Action::Reclaim,
            EnforceJob::Remeasure { .. } => Action::MeasureDb,
        }
    }

    /// Takes the reply to what was asked for. The result is the job as it goes
    /// on, or `None` where it is over.
    pub fn advance(self, event: Event) -> (next: Option<EnforceJob>)
        ensures
            EnforceView::of(next) == self@.advance(event@),
    {
        match self {
            EnforceJob::ReadSetting => Some(EnforceJob::Measure { cap: event.cap() }),
            EnforceJob::Measure { cap } => {
                if event.size() <= cap {
                    None
                } else {
                    Some(EnforceJob::Count { cap, before: None })
                }
            },
            EnforceJob::Count { cap, before } => {
                let count: i64 = event.count();
                if count == 0 {
                    return None;
                }
                match Pace::keep(before, count) {
                    Some(pace) => Some(
                        EnforceJob::Select { cap, pace, batch: budget::batch_size(count) },
                    ),
                    None => None,
                }
            },
            EnforceJob::Select { cap, pace, .. } => evict(cap, pace, event.into_ids(), None),
            EnforceJob::Evict { cap, pace, part, archive_id, rest } => match part {
                Part::Meta => Some(
                    EnforceJob::Evict { cap, pace, part: Part::Content, archive_id, rest },
                ),
                Part::Content => Some(
                    EnforceJob::Evict { cap, pace, part: Part::Files, archive_id, rest },
                ),
                Part::Files => evict(cap, pace, rest, Some(EnforceJob::Reclaim { cap, pace })),
            },
            EnforceJob::Reclaim { cap, pace } => Some(EnforceJob::Remeasure { cap, pace }),
            EnforceJob::Remeasure { cap, pace } => {
                if event.size() <= cap {
                    None
                } else {
                    Some(EnforceJob::Count { cap, before: Some(pace) })
                }
            },
        }
    }
}

} // verus!
