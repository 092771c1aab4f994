//! That what goes into the library and comes out of it is seen whole by the contracts:
//! nothing of a command, an action, a reply or a statement is left out or changed.

use crate::action::{Action, ActionView, Event, EventView};
use crate::enforce::{EnforceJob, EnforceView};
use crate::index::{
    Entry, IndexJob, IndexStep, IndexStepView, IndexView, RemoveJob, RemoveView,
};
use crate::rows;
use crate::statement::{Statement, Value, ValueView};
use crate::writer::{CommandView, DbCommand, Phase, PhaseView, WriterHandle, WriterView};
use vstd::prelude::*;

verus! {

/// **An entry and a command are seen whole.** They are told by the texts that they hold.
pub proof fn law_commands_are_seen_whole(entry: Entry, archive_id: String)
    ensures
        entry@.archive_id == entry.archive_id@,
        entry@.tool == entry.tool@,
        entry@.command == entry.command@,
        entry@.content == entry.content@,
        DbCommand::Index(entry)@ == CommandView::Index(entry@),
        (DbCommand::Remove { archive_id })@ == (CommandView::Remove { archive_id: archive_id@ }),
        DbCommand::EnforceCap@ == CommandView::EnforceCap,
{
}

/// **A reply is seen whole.** It is told by what it holds; a list of rows by as many
/// rows, each by its text where it could be read.
pub proof fn law_replies_are_seen_whole(event: Event, i: int)
    ensures
        match event {
            Event::Done => event@ == EventView::Done,
            Event::Outcome(ok) => event@ == EventView::Outcome(ok),
            Event::Found(row) => event@ == EventView::Found(row),
            Event::Count(count) => event@ == EventView::Count(count),
            Event::Ids(Some(ids)) => {
                &&& event@ matches EventView::Ids(Some(seen))
                &&& seen.len() == ids@.len()
                &&& 0 <= i < ids@.len() ==> match ids@[i] {
                    Some(id) => seen[i] == Some(id@),
                    None => seen[i] is None,
                }
            },
            Event::Ids(None) => event@ == EventView::Ids(None),
            Event::Setting(Some(value)) => event@ == EventView::Setting(Some(value@)),
            Event::Setting(None) => event@ == EventView::Setting(None),
            Event::Lengths(lengths) => event@ == EventView::Lengths(lengths@),
            Event::Length(length) => event@ == EventView::Length(length),
        },
{
}

/// **An action is seen whole.** It is told by its texts and numbers.
pub proof fn law_actions_are_seen_whole(action: Action)
    ensures
        match action {
            Action::CreateParent => action@ is CreateParent,
            Action::Connect => action@ is Connect,
            Action::Prepare => action@ is Prepare,
            Action::Sleep { millis } => action@ == (ActionView::Sleep { millis }),
            Action::AwaitCommand => action@ is AwaitCommand,
            Action::FindEntry { archive_id } => action@ == (ActionView::FindEntry {
                archive_id: archive_id@,
            }),
            Action::InsertMeta { archive_id, tool, command, created_at } => action@ == (
            ActionView::InsertMeta {
                archive_id: archive_id@,
                tool: tool@,
                command: command@,
                created_at: created_at@,
            }),
            Action::InsertContent { archive_id, tool, command, content } => action@ == (
            ActionView::InsertContent {
                archive_id: archive_id@,
                tool: tool@,
                command: command@,
                content: content@,
            }),
            Action::CountEntries => action@ is CountEntries,
            Action::SelectOldest { limit } => action@ == (ActionView::SelectOldest {
                limit: limit as int,
            }),
            Action::DeleteMeta { archive_id } => action@ == (ActionView::DeleteMeta {
                archive_id: archive_id@,
            }),
            Action::DeleteContent { archive_id } => action@ == (ActionView::DeleteContent {
                archive_id: archive_id@,
            }),
            Action::RemoveFiles { archive_id } => action@ == (ActionView::RemoveFiles {
                archive_id: archive_id@,
            }),
            Action::TruncateWal => action@ is TruncateWal,
            Action::Reclaim => action@ is Reclaim,
            Action::ReadCapSetting => action@ is ReadCapSetting,
            Action::MeasureDb => action@ is MeasureDb,
            Action::MeasureWal => action@ is MeasureWal,
        },
{
}

/// **A statement is seen whole.** It is told by its text and by as many values as it
/// binds, each by its text or number.
pub proof fn law_statements_are_seen_whole(statement: Statement, i: int)
    ensures
        statement@.sql == statement.sql@,
        statement@.params.len() == statement.params@.len(),
        0 <= i < statement.params@.len() ==> match statement.params@[i] {
            Value::Text(text) => statement@.params[i] == ValueView::Text(text@),
            Value::Integer(n) => statement@.params[i] == ValueView::Integer(n as int),
        },
{
}

/// **Texts are seen whole.** As many texts come as there are strings, each that of its
/// string.
pub proof fn law_texts_are_seen_whole(strings: Seq<String>, i: int)
    ensures
        rows::texts(strings).len() == strings.len(),
        0 <= i < strings.len() ==> rows::texts(strings)[i] == strings[i]@,
{
}

/// **A job is seen whole.** A job that goes on is told by what it waits for and by the
/// texts and numbers that it holds, and one that is over by nothing.
pub proof fn law_jobs_are_seen_whole(
    enforcing: EnforceJob,
    indexing: IndexJob,
    removing: RemoveJob,
)
    ensures
        EnforceView::of(Some(enforcing)) == Some(enforcing@),
        EnforceView::of(None) is None,
        IndexView::of(Some(indexing)) == Some(indexing@),
        IndexView::of(None) is None,
        RemoveView::of(Some(removing)) == Some(removing@),
        RemoveView::of(None) is None,
        indexing@.entry == indexing.entry@,
        match indexing.step {
            IndexStep::Find => indexing@.step is Find,
            IndexStep::InsertMeta { created_at } => indexing@.step == (IndexStepView::InsertMeta {
                created_at: created_at@,
            }),
            IndexStep::InsertContent => indexing@.step is InsertContent,
            IndexStep::Count => indexing@.step is Count,
            IndexStep::Enforce(job) => indexing@.step == IndexStepView::Enforce(job@),
            IndexStep::MeasureWal => indexing@.step is MeasureWal,
            IndexStep::TruncateWal => indexing@.step is TruncateWal,
        },
        match removing {
            RemoveJob::Meta { archive_id } => removing@ == (RemoveView::Meta {
                archive_id: archive_id@,
            }),
            RemoveJob::Content { archive_id } => removing@ == (RemoveView::Content {
                archive_id: archive_id@,
            }),
            RemoveJob::MeasureWal => removing@ is MeasureWal,
            RemoveJob::TruncateWal => removing@ is TruncateWal,
        },
        match enforcing {
            EnforceJob::ReadSetting => enforcing@ is ReadSetting,
            EnforceJob::Measure { cap } => enforcing@ == (EnforceView::Measure { cap }),
            EnforceJob::Count { cap, before } => enforcing@ == (EnforceView::Count { cap, before }),
            EnforceJob::Select { cap, pace, batch } => enforcing@ == (EnforceView::Select {
                cap,
                pace,
                batch: batch as int,
            }),
            EnforceJob::Evict { cap, pace, part, archive_id, rest } => enforcing@ == (
            EnforceView::Evict {
                cap,
                pace,
                part,
                archive_id: archive_id@,
                rest: rows::texts(rest@),
            }),
            EnforceJob::Reclaim { cap, pace } => enforcing@ == (EnforceView::Reclaim { cap, pace }),
            EnforceJob::Remeasure { cap, pace } => enforcing@ == (EnforceView::Remeasure {
                cap,
                pace,
            }),
        },
{
}

/// **A phase is seen whole**, and so is the writer that a slot holds.
pub proof fn law_phases_are_seen_whole(phase: Phase, handle: WriterHandle)
    ensures
        match phase {
            Phase::Opening(job) => phase@ == PhaseView::Opening(job),
            Phase::Idle => phase@ is Idle,
            Phase::Indexing(job) => phase@ == PhaseView::Indexing(job@),
            Phase::Removing(job) => phase@ == PhaseView::Removing(job@),
            Phase::Enforcing(job) => phase@ == PhaseView::Enforcing(job@),
            Phase::Gone => phase@ is Gone,
        },
        WriterView::held(Some(handle)) == handle@,
        WriterView::held(None) == WriterView::fresh(),
{
}

} // verus!
