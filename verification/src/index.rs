//! Adding an entry to the index, and taking one out.

use crate::action::{Action, ActionView, Event, EventView};
use crate::budget;
use crate::enforce;
use crate::enforce::{EnforceJob, EnforceView};
use vstd::prelude::*;

verus! {

/// An archived piece of tool output.
#[derive(Debug, PartialEq, Eq)]
pub struct Entry {
    pub archive_id: String,
    pub tool: String,
    pub command: String,
    pub content: String,
}

/// An archived piece of tool output, as mathematics sees it.
#[verifier::ext_equal]
pub struct EntryView {
    pub archive_id: Seq<char>,
    pub tool: Seq<char>,
    pub command: Seq<char>,
    pub content: Seq<char>,
}

impl View for Entry {
    type V = EntryView;

    open spec fn view(&self) -> EntryView {
        EntryView {
            archive_id: self.archive_id@,
            tool: self.tool@,
            command: self.command@,
            content: self.content@,
        }
    }
}

/// What an addition waits for.
#[derive(Debug)]
pub enum IndexStep {
    /// Whether the entry is in the index.
    Find,
    /// The addition of what is known of it.
    InsertMeta { created_at: String },
    /// The addition of its searchable text.
    InsertContent,
    /// The number of entries.
    Count,
    /// An enforcement of the size limit.
    Enforce(EnforceJob),
    /// The size of the write-ahead log.
    MeasureWal,
    /// The cutting back of the write-ahead log.
    TruncateWal,
}

/// What an addition waits for, as mathematics sees it.
pub enum IndexStepView {
    Find,
    InsertMeta { created_at: Seq<char> },
    InsertContent,
    Count,
    Enforce(EnforceView),
    MeasureWal,
    TruncateWal,
}

impl View for IndexStep {
    type V = IndexStepView;

    open spec fn view(&self) -> IndexStepView {
        match self {
            IndexStep::Find => IndexStepView::Find,
            IndexStep::InsertMeta { created_at } => IndexStepView::InsertMeta {
                created_at: created_at@,
            },
            IndexStep::InsertContent => IndexStepView::InsertContent,
            IndexStep::Count => IndexStepView::Count,
            IndexStep::Enforce(job) => IndexStepView::Enforce(job@),
            IndexStep::MeasureWal => IndexStepView::MeasureWal,
            IndexStep::TruncateWal => IndexStepView::TruncateWal,
        }
    }
}

/// An addition of an entry to the index.
///
/// An entry that is there is left as it is. After an addition the size limit is
/// enforced where the number of entries calls for it, and the write-ahead log is
/// cut back where it has grown too large.
#[derive(Debug)]
pub struct IndexJob {
    pub entry: Entry,
    pub step: IndexStep,
}

/// An addition of an entry, as mathematics sees it.
pub struct IndexView {
    pub entry: EntryView,
    pub step: IndexStepView,
}

impl View for IndexJob {
    type V = IndexView;

    open spec fn view(&self) -> IndexView {
        IndexView { entry: self.entry@, step: self.step@ }
    }
}

/// Whether `count` entries call for a look at the size limit.
pub open spec fn due_for_enforcement(count: i64) -> bool {
    (count as usize) % budget::ENFORCE_EVERY_N_INSERTS == 0
}

impl IndexView {
    /// The same addition at another step.
    pub open spec fn at(self, step: IndexStepView) -> IndexView {
        IndexView { step, ..self }
    }

    /// What is asked for.
    pub open spec fn action(self) -> ActionView {
        match self.step {
            IndexStepView::Find => ActionView::FindEntry { archive_id: self.entry.archive_id },
            IndexStepView::InsertMeta { created_at } => ActionView::InsertMeta {
                archive_id: self.entry.archive_id,
                tool: self.entry.tool,
                command: self.entry.command,
                created_at,
            },
            IndexStepView::InsertContent => ActionView::InsertContent {
                archive_id: self.entry.archive_id,
                tool: self.entry.tool,
                command: self.entry.command,
                content: self.entry.content,
            },
            IndexStepView::Count => ActionView::CountEntries,
            IndexStepView::Enforce(job) => job.action(),
            IndexStepView::MeasureWal => ActionView::MeasureWal,
            IndexStepView::TruncateWal => ActionView::TruncateWal,
        }
    }

    /// Whether the reply `event` makes the addition ask what time it is.
    pub open spec fn needs_stamp(self, event: EventView) -> bool {
        self.step is Find && !event.found()
    }

    /// What follows a reply that comes at the time `now`: the job as it goes on,
    /// or nothing where it is over.
    pub open spec fn advance(self, event: EventView, now: Seq<char>) -> Option<IndexView> {
        match self.step {
            IndexStepView::Find => if event.found() {
                None
            } else {
                Some(self.at(IndexStepView::InsertMeta { created_at: now }))
            },
            IndexStepView::InsertMeta { .. } => Some(self.at(IndexStepView::InsertContent)),
            IndexStepView::InsertContent => Some(self.at(IndexStepView::Count)),
            IndexStepView::Count => if due_for_enforcement(event.count()) {
                Some(self.at(IndexStepView::Enforce(EnforceView::ReadSetting)))
            } else {
                Some(self.at(IndexStepView::MeasureWal))
            },
            IndexStepView::Enforce(job) => match job.advance(event) {
                Some(next) => Some(self.at(IndexStepView::Enforce(next))),
                None => Some(self.at(IndexStepView::MeasureWal)),
            },
            IndexStepView::MeasureWal => if event.wal() > budget::WAL_TRUNCATE_THRESHOLD_BYTES {
                Some(self.at(IndexStepView::TruncateWal))
            } else {
                None
            },
            IndexStepView::TruncateWal => None,
        }
    }

    /// The job that an optional job stands for.
    pub open spec fn of(job: Option<IndexJob>) -> Option<IndexView> {
        match job {
            Some(job) => Some(job@),
            None => None,
        }
    }
}

/// Starts the addition of an entry.
pub fn index_entry_locked(entry: Entry) -> (job: IndexJob)
    ensures
        job@ == (IndexView { entry: entry@, step: IndexStepView::Find }),
{
    IndexJob { entry, step: IndexStep::Find }
}

impl IndexJob {
    /// What is asked for.
    pub fn action(&self) -> (action: Action)
        ensures
            action@ == self@.action(),
    {
        match &self.step {
            IndexStep::Find => Action::FindEntry { archive_id: self.entry.archive_id.clone() },
            IndexStep::InsertMeta { created_at } => Action::InsertMeta {
                archive_id: self.entry.archive_id.clone(),
                tool: self.entry.tool.clone(),
                command: self.entry.command.clone(),
                created_at: created_at.clone(),
            },
            IndexStep::InsertContent => Action::InsertContent {
                archive_id: self.entry.archive_id.clone(),
                tool: self.entry.tool.clone(),
                command: self.entry.command.clone(),
                content: self.entry.content.clone(),
            },
            IndexStep::Count => Action::CountEntries,
            IndexStep::Enforce(job) => job.action(),
            IndexStep::MeasureWal => Action::MeasureWal,
            IndexStep::TruncateWal => Action::TruncateWal,
        }
    }

    /// Whether the reply `event` makes the addition ask what time it is.
    pub fn needs_stamp(&self, event: &Event) -> (needed: bool)
        ensures
            needed == self@.needs_stamp(event@),
    {
        match &self.step {
            IndexStep::Find => !event.found(),
            _ => false,
        }
    }

    /// Takes the reply to what was asked for, at the time `now`. The result is
    /// the job as it goes on, or `None` where it is over.
    pub fn advance(self, event: Event, now: String) -> (next: Option<IndexJob>)
        ensures
            IndexView::of(next) == self@.advance(event@, now@),
    {
        let entry = self.entry;
        match self.step {
            IndexStep::Find => {
                if event.found() {
                    None
                } else {
                    Some(IndexJob { entry, step: IndexStep::InsertMeta { created_at: now } })
                }
            },
            IndexStep::InsertMeta { .. } => Some(
                IndexJob { entry, step: IndexStep::InsertContent },
            ),
            IndexStep::InsertContent => Some(IndexJob { entry, step: IndexStep::Count }),
            IndexStep::Count => {
                let count: i64 = event.count();
                if count as usize % budget::ENFORCE_EVERY_N_INSERTS == 0 {
                    Some(IndexJob { entry, step: IndexStep::Enforce(enforce::enforce_cap_locked()) })
                } else {
                    Some(IndexJob { entry, step: IndexStep::MeasureWal })
                }
            },
            IndexStep::Enforce(job) => match job.advance(event) {
                Some(next) => Some(IndexJob { entry, step: IndexStep::Enforce(next) }),
                None => Some(IndexJob { entry, step: IndexStep::MeasureWal }),
            },
            IndexStep::MeasureWal => {
                if event.wal() > budget::WAL_TRUNCATE_THRESHOLD_BYTES {
                    Some(IndexJob { entry, step: IndexStep::TruncateWal })
                } else {
                    None
                }
            },
            IndexStep::TruncateWal => None,
        }
    }
}

/// A removal of an entry from the index: first what is known of it, then its
/// searchable text. After that the write-ahead log is cut back where it has grown
/// too large.
#[derive(Debug)]
pub enum RemoveJob {
    /// The deletion of what is known of the entry.
    Meta { archive_id: String },
    /// The deletion of its searchable text.
    Content { archive_id: String },
    /// The size of the write-ahead log.
    MeasureWal,
    /// The cutting back of the write-ahead log.
    TruncateWal,
}

/// A removal of an entry, as mathematics sees it.
pub enum RemoveView {
    Meta { archive_id: Seq<char> },
    Content { archive_id: Seq<char> },
    MeasureWal,
    TruncateWal,
}

impl View for RemoveJob {
    type V = RemoveView;

    open spec fn view(&self) -> RemoveView {
        match self {
            RemoveJob::Meta { archive_id } => RemoveView::Meta { archive_id: archive_id@ },
            RemoveJob::Content { archive_id } => RemoveView::Content { archive_id: archive_id@ },
            RemoveJob::MeasureWal => RemoveView::MeasureWal,
            RemoveJob::TruncateWal => RemoveView::TruncateWal,
        }
    }
}

impl RemoveView {
    /// What is asked for.
    pub open spec fn action(self) -> ActionView {
        match self {
            RemoveView::Meta { archive_id } => ActionView::DeleteMeta { archive_id },
            RemoveView::Content { archive_id } => ActionView::DeleteContent { archive_id },
            RemoveView::MeasureWal => ActionView::MeasureWal,
            RemoveView::TruncateWal => ActionView::TruncateWal,
        }
    }

    /// What follows a reply: the job as it goes on, or nothing where it is over.
    pub open spec fn advance(self, event: EventView) -> Option<RemoveView> {
        match self {
            RemoveView::Meta { archive_id } => Some(RemoveView::Content { archive_id }),
            RemoveView::Content { .. } => Some(RemoveView::MeasureWal),
            RemoveView::MeasureWal => if event.wal() > budget::WAL_TRUNCATE_THRESHOLD_BYTES {
                Some(RemoveView::TruncateWal)
            } else {
                None
            },
            RemoveView::TruncateWal => None,
        }
    }

    /// The job that an optional job stands for.
    pub open spec fn of(job: Option<RemoveJob>) -> Option<RemoveView> {
        match job {
            Some(job) => Some(job@),
            None => None,
        }
    }
}

/// Starts the removal of an entry.
pub fn remove_entry_locked(archive_id: String) -> (job: RemoveJob)
    ensures
        job@ == (RemoveView::Meta { archive_id: archive_id@ }),
{
    RemoveJob::Meta { archive_id }
}

impl RemoveJob {
    /// What is asked for.
    pub fn action(&self) -> (action: Action)
        ensures
            action@ == self@.action(),
    {
        match self {
            RemoveJob::Meta { archive_id } => Action::DeleteMeta { archive_id: archive_id.clone() },
            RemoveJob::Content { archive_id } => Action::DeleteContent {
                archive_id: archive_id.clone(),
            },
            RemoveJob::MeasureWal => Action::MeasureWal,
            RemoveJob::TruncateWal => Action::TruncateWal,
        }
    }

    /// Takes the reply to what was asked for. The result is the job as it goes
    /// on, or `None` where it is over.
    pub fn advance(self, event: Event) -> (next: Option<RemoveJob>)
        ensures
            RemoveView::of(next) == self@.advance(event@),
    {
        match self {
            RemoveJob::Meta { archive_id } => Some(RemoveJob::Content { archive_id }),
            RemoveJob::Content { .. } => Some(RemoveJob::MeasureWal),
            RemoveJob::MeasureWal => {
                if event.wal() > budget::WAL_TRUNCATE_THRESHOLD_BYTES {
                    Some(RemoveJob::TruncateWal)
                } else {
                    None
                }
            },
            RemoveJob::TruncateWal => None,
        }
    }
}

} // verus!
