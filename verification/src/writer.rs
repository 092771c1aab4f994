//! The writer: a queue of commands, and what it does with the first of them.

use crate::action::{Action, ActionView, Event, EventView};
use crate::budget;
use crate::clock;
use crate::enforce;
use crate::enforce::{EnforceJob, EnforceView};
use crate::index;
use crate::index::{
    Entry, EntryView, IndexJob, IndexStepView, IndexView, RemoveJob, RemoveView,
};
use crate::open;
use crate::open::{OpenJob, OpenStep};
use crate::readings::Readings;
use std::collections::VecDeque;
use vstd::prelude::*;

verus! {

/// A command to the writer.
#[derive(Debug, PartialEq, Eq)]
pub enum DbCommand {
    /// Add an entry.
    Index(Entry),
    /// Remove an entry.
    Remove { archive_id: String },
    /// Enforce the size limit.
    EnforceCap,
}

/// A command as mathematics sees it.
pub enum CommandView {
    Index(EntryView),
    Remove { archive_id: Seq<char> },
    EnforceCap,
}

impl View for DbCommand {
    type V = CommandView;

    open spec fn view(&self) -> CommandView {
        match self {
            DbCommand::Index(entry) => CommandView::Index(entry@),
            DbCommand::Remove { archive_id } => CommandView::Remove { archive_id: archive_id@ },
            DbCommand::EnforceCap => CommandView::EnforceCap,
        }
    }
}

/// What the writer is doing.
#[derive(Debug)]
pub enum Phase {
    /// It opens the database.
    Opening(OpenJob),
    /// It waits for a command.
    Idle,
    /// It adds an entry.
    Indexing(IndexJob),
    /// It removes an entry.
    Removing(RemoveJob),
    /// It enforces the size limit.
    Enforcing(EnforceJob),
    /// Nothing serves the queue any more.
    Gone,
}

/// What the writer is doing, as mathematics sees it.
pub enum PhaseView {
    Opening(OpenJob),
    Idle,
    Indexing(IndexView),
    Removing(RemoveView),
    Enforcing(EnforceView),
    Gone,
}

impl View for Phase {
    type V = PhaseView;

    open spec fn view(&self) -> PhaseView {
        match self {
            Phase::Opening(job) => PhaseView::Opening(*job),
            Phase::Idle => PhaseView::Idle,
            Phase::Indexing(job) => PhaseView::Indexing(job@),
            Phase::Removing(job) => PhaseView::Removing(job@),
            Phase::Enforcing(job) => PhaseView::Enforcing(job@),
            Phase::Gone => PhaseView::Gone,
        }
    }
}

impl PhaseView {
    /// What the writer does to carry `command` out.
    pub open spec fn start(command: CommandView) -> PhaseView {
        match command {
            CommandView::Index(entry) => PhaseView::Indexing(
                IndexView { entry, step: IndexStepView::Find },
            ),
            CommandView::Remove { archive_id } => PhaseView::Removing(
                RemoveView::Meta { archive_id },
            ),
            CommandView::EnforceCap => PhaseView::Enforcing(EnforceView::ReadSetting),
        }
    }

    /// What is asked for.
    pub open spec fn action(self) -> ActionView {
        match self {
            PhaseView::Opening(job) => job.asks(),
            PhaseView::Idle => ActionView::AwaitCommand,
            PhaseView::Indexing(job) => job.action(),
            PhaseView::Removing(job) => job.action(),
            PhaseView::Enforcing(job) => job.action(),
            PhaseView::Gone => ActionView::AwaitCommand,
        }
    }

    /// What follows a reply that comes at the time `now`, where no command is
    /// started. A job that is over leaves the writer waiting for a command.
    pub open spec fn advance(self, event: EventView, now: Seq<char>) -> PhaseView {
        match self {
            PhaseView::Opening(job) => match job.after(event) {
                Some(next) => PhaseView::Opening(next),
                None => PhaseView::Idle,
            },
            PhaseView::Indexing(job) => match job.advance(event, now) {
                Some(next) => PhaseView::Indexing(next),
                None => PhaseView::Idle,
            },
            PhaseView::Removing(job) => match job.advance(event) {
                Some(next) => PhaseView::Removing(next),
                None => PhaseView::Idle,
            },
            PhaseView::Enforcing(job) => match job.advance(event) {
                Some(next) => PhaseView::Enforcing(next),
                None => PhaseView::Idle,
            },
            PhaseView::Idle => PhaseView::Idle,
            PhaseView::Gone => PhaseView::Gone,
        }
    }
}

/// The writer: commands that wait, first in first out, and what it is doing.
///
/// Commands wait for as long as the database cannot be opened; none is dropped.
pub struct WriterHandle {
    queue: VecDeque<DbCommand>,
    phase: Phase,
    readings: Readings,
}

/// The writer as mathematics sees it.
#[verifier::ext_equal]
pub struct WriterView {
    pub queue: Seq<CommandView>,
    pub phase: PhaseView,
}

impl View for WriterHandle {
    type V = WriterView;

    closed spec fn view(&self) -> WriterView {
        WriterView {
            queue: self.queue@.map_values(|command: DbCommand| command@),
            phase: self.phase@,
        }
    }
}

impl WriterView {
    /// A writer that has been told nothing.
    pub open spec fn fresh() -> WriterView {
        WriterView {
            queue: Seq::empty(),
            phase: PhaseView::Opening(
                OpenJob {
                    step: OpenStep::CreateParent,
                    backoff_ms: budget::OPEN_BACKOFF_START_MS,
                },
            ),
        }
    }

    /// The writer that `slot` holds, or else a fresh one.
    pub open spec fn held(slot: Option<WriterHandle>) -> WriterView {
        match slot {
            Some(handle) => handle@,
            None => WriterView::fresh(),
        }
    }

    /// The writer after `command` was sent to it. Where nothing serves the queue
    /// any more the command is lost.
    pub open spec fn send(self, command: CommandView) -> WriterView {
        if self.phase is Gone {
            self
        } else {
            WriterView { queue: self.queue.push(command), ..self }
        }
    }

    /// The writer after a reply that comes at the time `now`. A waiting writer
    /// starts on the first command of the queue.
    pub open spec fn advance(self, event: EventView, now: Seq<char>) -> WriterView {
        if self.phase is Idle && self.queue.len() > 0 {
            WriterView {
                queue: self.queue.drop_first(),
                phase: PhaseView::start(self.queue.first()),
            }
        } else {
            WriterView { phase: self.phase.advance(event, now), ..self }
        }
    }

    /// Whether the reply `event` makes the writer ask what time it is.
    pub open spec fn needs_stamp(self, event: EventView) -> bool {
        self.phase matches PhaseView::Indexing(job) && job.needs_stamp(event)
    }
}

impl WriterHandle {
    /// What the writer has read the clock as, reading after reading.
    pub closed spec fn readings(&self) -> Seq<(i64, u32)> {
        self.readings@
    }

    /// A writer that has been told nothing.
    pub fn new() -> (handle: Self)
        ensures
            handle@ == WriterView::fresh(),
            handle.readings() == Seq::<(i64, u32)>::empty(),
    {
        let handle = WriterHandle {
            queue: VecDeque::new(),
            phase: Phase::Opening(open::open_db()),
            readings: Readings::new(),
        };
        assert(handle@.queue =~= Seq::<CommandView>::empty());
        handle
    }

    /// Puts `cmd` at the end of the queue. It never waits for the database.
    pub fn send(&mut self, cmd: DbCommand)
        ensures
            final(self)@ == old(self)@.send(cmd@),
            final(self).readings() == old(self).readings(),
    {
        match self.phase {
            Phase::Gone => {},
            _ => {
                self.queue.push_back(cmd);
                assert(self@.queue =~= old(self)@.queue.push(cmd@));
            },
        }
    }

    /// Drops the commands that wait and loses those that are still to come:
    /// nothing serves the queue any more.
    pub fn disconnect(&mut self)
        ensures
            final(self)@ == (WriterView { queue: Seq::empty(), phase: PhaseView::Gone }),
            final(self).readings() == old(self).readings(),
    {
        self.queue = VecDeque::new();
        self.phase = Phase::Gone;
        assert(self@.queue =~= Seq::<CommandView>::empty());
    }

    /// Whether a command waits.
    pub fn has_command(&self) -> (waits: bool)
        ensures
            waits == (self@.queue.len() > 0),
    {
        self.queue.len() > 0
    }

    /// What the writer asks for.
    pub fn action(&self) -> (action: Action)
        ensures
            action@ == self@.phase.action(),
    {
        match &self.phase {
            Phase::Opening(job) => job.action(),
            Phase::Idle => Action::AwaitCommand,
            Phase::Indexing(job) => job.action(),
            Phase::Removing(job) => job.action(),
            Phase::Enforcing(job) => job.action(),
            Phase::Gone => Action::AwaitCommand,
        }
    }

    /// Takes the reply to what was asked for, at the time `now`.
    pub fn advance_at(&mut self, event: Event, now: String)
        ensures
            final(self)@ == old(self)@.advance(event@, now@),
            final(self).readings() == old(self).readings(),
    {
        let mut phase = Phase::Idle;
        core::mem::swap(&mut self.phase, &mut phase);
        let next: Phase = match phase {
            Phase::Opening(job) => match job.advance(&event) {
                Some(next) => Phase::Opening(next),
                None => Phase::Idle,
            },
            Phase::Idle => match self.queue.pop_front() {
                Some(DbCommand::Index(entry)) => Phase::Indexing(index::index_entry_locked(entry)),
                Some(DbCommand::Remove { archive_id }) => Phase::Removing(
                    index::remove_entry_locked(archive_id),
                ),
                Some(DbCommand::EnforceCap) => Phase::Enforcing(enforce::enforce_cap_locked()),
                None => Phase::Idle,
            },
            Phase::Indexing(job) => match job.advance(event, now) {
                Some(next) => Phase::Indexing(next),
                None => Phase::Idle,
            },
            Phase::Removing(job) => match job.advance(event) {
                Some(next) => Phase::Removing(next),
                None => Phase::Idle,
            },
            Phase::Enforcing(job) => match job.advance(event) {
                Some(next) => Phase::Enforcing(next),
                None => Phase::Idle,
            },
            Phase::Gone => Phase::Gone,
        };
        self.phase = next;
        proof {
            if old(self)@.phase is Idle && old(self)@.queue.len() > 0 {
                assert(self@.queue =~= old(self)@.queue.drop_first());
            } else {
                assert(self@.queue =~= old(self)@.queue);
            }
        }
    }

    /// Takes the reply to what was asked for, now. Where it has to ask for the time it
    /// reads the clock once, and goes by the moment that this reading gives; else it
    /// does not read the clock. Where it reads the clock, and the system clock stands
    /// before the Unix epoch or beyond the years that a date can have, it panics.
    pub fn advance(&mut self, event: Event)
        ensures
            exists|now: Seq<char>|
                #![trigger old(self)@.advance(event@, now)]
                final(self)@ == old(self)@.advance(event@, now) && (old(self)@.needs_stamp(event@)
                    ==> clock::is_stamp(now)),
            old(self)@.needs_stamp(event@) ==> {
                let read = final(self).readings().last();
                &&& final(self).readings() == old(self).readings().push(read)
                &&& read.0 >= 0
                &&& read.1 < 1_000_000_000
                &&& clock::rfc3339_text(read.0, read.1) is Some
                &&& final(self)@ == old(self)@.advance(
                    event@,
                    clock::rfc3339_text(read.0, read.1).unwrap(),
                )
            },
            !old(self)@.needs_stamp(event@) ==> final(self).readings() == old(self).readings()
                && forall|now: Seq<char>|
                final(self)@ == #[trigger] old(self)@.advance(event@, now),
    {
        let mut needed: bool = false;
        if let Phase::Indexing(job) = &self.phase {
            needed = job.needs_stamp(&event);
        }
        let now: String = if needed {
            clock::stamp(&mut self.readings)
        } else {
            String::new()
        };
        self.advance_at(event, now);
    }
}

/// The writer that `slot` holds; a fresh one is put there first where it holds none.
pub fn writer(slot: &mut Option<WriterHandle>) -> (handle: &mut WriterHandle)
    ensures
        *old(slot) matches Some(held) ==> *handle == held,
        handle@ == WriterView::held(*old(slot)),
        *final(slot) == Some(*final(handle)),
{
    slot.get_or_insert(WriterHandle::new())
}

/// Adds an archived piece of tool output to the index. The addition is put into
/// the writer's queue, and the caller goes on at once.
pub fn index_entry(
    slot: &mut Option<WriterHandle>,
    archive_id: &str,
    tool: &str,
    command: &str,
    content: &str,
)
    ensures
        *final(slot) is Some,
        WriterView::held(*final(slot)) == WriterView::held(*old(slot)).send(
            CommandView::Index(
                EntryView {
                    archive_id: archive_id@,
                    tool: tool@,
                    command: command@,
                    content: content@,
                },
            ),
        ),
{
    let entry = Entry {
        archive_id: archive_id.to_owned(),
        tool: tool.to_owned(),
        command: command.to_owned(),
        content: content.to_owned(),
    };
    writer(slot).send(DbCommand::Index(entry));
}

/// Removes an entry from the index. The removal is put into the writer's queue,
/// and the caller goes on at once.
pub fn remove_entry(slot: &mut Option<WriterHandle>, archive_id: &str)
    ensures
        *final(slot) is Some,
        WriterView::held(*final(slot)) == WriterView::held(*old(slot)).send(
            CommandView::Remove { archive_id: archive_id@ },
        ),
{
    writer(slot).send(DbCommand::Remove { archive_id: archive_id.to_owned() });
}

/// Enforces the size limit. The enforcement is put into the writer's queue, and
/// the caller goes on at once, with the size of the database by the lengths of
/// its files, which may not show the clean-up yet.
pub fn enforce_cap(slot: &mut Option<WriterHandle>, lengths: &Vec<Option<u64>>) -> (bytes: u64)
    ensures
        *final(slot) is Some,
        WriterView::held(*final(slot)) == WriterView::held(*old(slot)).send(
            CommandView::EnforceCap,
        ),
        bytes == budget::saturated(budget::total_length(lengths@) as int),
        lengths@.len() == 3 ==> ({
            let main = if lengths@[0] is Some { lengths@[0].unwrap() as int } else { 0 };
            let log = if lengths@[1] is Some { lengths@[1].unwrap() as int } else { 0 };
            let index = if lengths@[2] is Some { lengths@[2].unwrap() as int } else { 0 };
            bytes == if main + log + index <= u64::MAX {
                main + log + index
            } else {
                u64::MAX as int
            }
        }),
{
    writer(slot).send(DbCommand::EnforceCap);
    budget::db_size_bytes(lengths)
}

} // verus!
