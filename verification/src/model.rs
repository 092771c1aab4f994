//! The tables of the database and the archived files as mathematics, and what
//! the writer's actions do to them.
//!
//! An action does here what its statement does where it succeeds. A reply is
//! faithful where it is what the tables give when nothing else writes to them in
//! the meantime.

use crate::action::{ActionView, EventView};
use crate::enforce::EnforceView;
use crate::index::{EntryView, IndexStepView, IndexView};
use crate::writer::{CommandView, PhaseView};
use vstd::prelude::*;

verus! {

/// What is known of an entry, beside its identifier.
#[verifier::ext_equal]
pub struct MetaRow {
    pub tool: Seq<char>,
    pub command: Seq<char>,
    pub created_at: Seq<char>,
}

/// The tables, and the entries whose files are still there.
#[verifier::ext_equal]
pub struct Store {
    /// What is known of each entry, by its identifier.
    pub meta: Map<Seq<char>, MetaRow>,
    /// The searchable rows, in the order in which they came.
    pub content: Seq<EntryView>,
    /// The entries whose files are there.
    pub files: Set<Seq<char>>,
}

/// Whether `a` comes no later than `b` in the order of the characters' codes,
/// which is the order that the database sorts text by.
pub open spec fn text_le(a: Seq<char>, b: Seq<char>) -> bool
    decreases a.len(),
{
    if a.len() == 0 {
        true
    } else if b.len() == 0 {
        false
    } else if a.first() == b.first() {
        text_le(a.drop_first(), b.drop_first())
    } else {
        a.first() < b.first()
    }
}

/// The rows that belong to none of the entries `gone`, in order.
pub open spec fn rows_without(rows: Seq<EntryView>, gone: Set<Seq<char>>) -> Seq<EntryView>
    decreases rows.len(),
{
    if rows.len() == 0 {
        rows
    } else if gone.contains(rows.last().archive_id) {
        rows_without(rows.drop_last(), gone)
    } else {
        rows_without(rows.drop_last(), gone).push(rows.last())
    }
}

/// How many of the rows belong to the entry `archive_id`.
pub open spec fn count_rows(rows: Seq<EntryView>, archive_id: Seq<char>) -> nat
    decreases rows.len(),
{
    if rows.len() == 0 {
        0
    } else if rows.last().archive_id == archive_id {
        count_rows(rows.drop_last(), archive_id) + 1
    } else {
        count_rows(rows.drop_last(), archive_id)
    }
}

/// Whether `ids` lists `limit` entries of `meta`, or all of them where there are
/// fewer, such that they come oldest first and no other entry is older.
pub open spec fn lists_oldest(
    meta: Map<Seq<char>, MetaRow>,
    limit: int,
    ids: Seq<Seq<char>>,
) -> bool {
    &&& ids.no_duplicates()
    &&& forall|i: int| 0 <= i < ids.len() ==> meta.contains_key(#[trigger] ids[i])
    &&& ids.len() == if meta.dom().len() < limit {
        meta.dom().len() as int
    } else {
        limit
    }
    &&& forall|i: int, j: int|
        0 <= i < j < ids.len() ==> text_le(
            meta[#[trigger] ids[i]].created_at,
            meta[#[trigger] ids[j]].created_at,
        )
    &&& forall|i: int, other: Seq<char>|
        0 <= i < ids.len() && #[trigger] meta.contains_key(other) && !ids.contains(other)
            ==> text_le(meta[#[trigger] ids[i]].created_at, meta[other].created_at)
}

impl Store {
    /// The store after an action.
    pub open spec fn after(self, action: ActionView) -> Store {
        match action {
            ActionView::InsertMeta { archive_id, tool, command, created_at } => {
                if self.meta.contains_key(archive_id) {
                    self
                } else {
                    Store {
                        meta: self.meta.insert(archive_id, MetaRow { tool, command, created_at }),
                        ..self
                    }
                }
            },
            ActionView::InsertContent { archive_id, tool, command, content } => Store {
                content: self.content.push(EntryView { archive_id, tool, command, content }),
                ..self
            },
            ActionView::DeleteMeta { archive_id } => Store {
                meta: self.meta.remove(archive_id),
                ..self
            },
            ActionView::DeleteContent { archive_id } => Store {
                content: rows_without(self.content, set![archive_id]),
                ..self
            },
            ActionView::RemoveFiles { archive_id } => Store {
                files: self.files.remove(archive_id),
                ..self
            },
            _ => self,
        }
    }

    /// Whether `event` is a faithful reply to an action. Lengths of files and the
    /// setting may be anything.
    pub open spec fn answers(self, action: ActionView, event: EventView) -> bool {
        match action {
            ActionView::FindEntry { archive_id } => event == EventView::Found(
                self.meta.contains_key(archive_id),
            ),
            ActionView::CountEntries => event matches EventView::Count(Some(n)) && n
                == self.meta.dom().len(),
            ActionView::SelectOldest { limit } => event is Ids && lists_oldest(
                self.meta,
                limit,
                event.ids(),
            ),
            ActionView::Connect => event is Outcome,
            ActionView::Prepare => event is Outcome,
            ActionView::ReadCapSetting => event is Setting,
            ActionView::MeasureDb => event is Lengths,
            ActionView::MeasureWal => event is Length,
            _ => event is Done,
        }
    }

    /// The store without the entries `gone`.
    pub open spec fn without(self, gone: Set<Seq<char>>) -> Store {
        Store {
            meta: self.meta.remove_keys(gone),
            content: rows_without(self.content, gone),
            files: self.files.difference(gone),
        }
    }

    /// The store with an entry more, which was indexed at the time `now`.
    pub open spec fn with(self, entry: EntryView, now: Seq<char>) -> Store {
        Store {
            meta: self.meta.insert(
                entry.archive_id,
                MetaRow { tool: entry.tool, command: entry.command, created_at: now },
            ),
            content: self.content.push(entry),
            ..self
        }
    }

    /// The store without the rows of an entry. Its files stay.
    pub open spec fn without_rows_of(self, archive_id: Seq<char>) -> Store {
        Store {
            meta: self.meta.remove(archive_id),
            content: rows_without(self.content, set![archive_id]),
            ..self
        }
    }

    /// Whether each entry has one searchable row and each row belongs to an entry.
    pub open spec fn one_row_each(self) -> bool {
        forall|id: Seq<char>| #[trigger]
            count_rows(self.content, id) == if self.meta.contains_key(id) {
                1nat
            } else {
                0nat
            }
    }

    /// Whether the two tables give the same tool and command for each entry.
    pub open spec fn rows_agree(self) -> bool {
        forall|k: int|
            0 <= k < self.content.len() ==> self.meta.contains_key(
                (#[trigger] self.content[k]).archive_id,
            ) && self.meta[self.content[k].archive_id].tool == self.content[k].tool
                && self.meta[self.content[k].archive_id].command == self.content[k].command
    }

    /// Whether each entry has one searchable row, each row belongs to an entry, and
    /// the two tables agree on the entry's tool and command.
    pub open spec fn in_step(self) -> bool {
        self.one_row_each() && self.rows_agree()
    }

    /// Whether a searchable row belongs to the entry `archive_id`.
    pub open spec fn searchable(self, archive_id: Seq<char>) -> bool {
        exists|k: int|
            0 <= k < self.content.len() && (#[trigger] self.content[k]).archive_id == archive_id
    }

    /// Whether `gone` are entries of which none is younger than an entry that is
    /// not among them.
    pub open spec fn are_oldest(self, gone: Set<Seq<char>>) -> bool {
        &&& gone.subset_of(self.meta.dom())
        &&& forall|old: Seq<char>, kept: Seq<char>| #[trigger]
            gone.contains(old) && #[trigger] self.meta.contains_key(kept) && !gone.contains(kept)
                ==> text_le(self.meta[old].created_at, self.meta[kept].created_at)
    }
}

/// A reply, and the time at which it came.
pub struct Reply {
    pub event: EventView,
    pub now: Seq<char>,
}

/// What the writer is doing, and the store, after `replies` to what it asked for.
/// No command is started after the one that it is busy with.
pub open spec fn carry_out(phase: PhaseView, store: Store, replies: Seq<Reply>) -> (
    PhaseView,
    Store,
)
    decreases replies.len(),
{
    if replies.len() == 0 {
        (phase, store)
    } else {
        carry_out(
            phase.advance(replies.first().event, replies.first().now),
            store.after(phase.action()),
            replies.drop_first(),
        )
    }
}

/// Whether each of `replies` is a faithful reply to what the writer asked for,
/// and none comes after the command is carried out.
pub open spec fn faithful(phase: PhaseView, store: Store, replies: Seq<Reply>) -> bool
    decreases replies.len(),
{
    replies.len() > 0 ==> {
        &&& !(phase is Idle)
        &&& store.answers(phase.action(), replies.first().event)
        &&& faithful(
            phase.advance(replies.first().event, replies.first().now),
            store.after(phase.action()),
            replies.drop_first(),
        )
    }
}

/// Whether `replies` are faithful and `command` is carried out with them, which
/// leaves the store as `end`.
pub open spec fn carried_out(
    command: CommandView,
    store: Store,
    replies: Seq<Reply>,
    end: Store,
) -> bool {
    &&& faithful(PhaseView::start(command), store, replies)
    &&& carry_out(PhaseView::start(command), store, replies) == (PhaseView::Idle, end)
}

/// An enforcement of the size limit: by itself, or, where an entry is given,
/// within the addition of that entry.
pub open spec fn enforcement(within: Option<EntryView>, job: EnforceView) -> PhaseView {
    match within {
        None => PhaseView::Enforcing(job),
        Some(entry) => PhaseView::Indexing(IndexView { entry, step: IndexStepView::Enforce(job) }),
    }
}

/// What the writer does once such an enforcement is over.
pub open spec fn past_enforcement(within: Option<EntryView>) -> PhaseView {
    match within {
        None => PhaseView::Idle,
        Some(entry) => PhaseView::Indexing(IndexView { entry, step: IndexStepView::MeasureWal }),
    }
}

/// Whether `replies` are faithful and take an enforcement from its beginning to
/// its end, which leaves the store as `end`.
pub open spec fn enforced(
    within: Option<EntryView>,
    store: Store,
    replies: Seq<Reply>,
    end: Store,
) -> bool {
    &&& faithful(enforcement(within, EnforceView::ReadSetting), store, replies)
    &&& carry_out(enforcement(within, EnforceView::ReadSetting), store, replies) == (
        past_enforcement(within),
        end,
    )
}

/// Whether each measurement of the database among `replies` is within the limit
/// that was read before it.
pub open spec fn within_limit(replies: Seq<Reply>) -> bool {
    forall|i: int, j: int|
        0 <= i < j < replies.len() && (#[trigger] replies[i]).event is Setting && (
        #[trigger] replies[j]).event is Lengths ==> replies[j].event.size()
            <= replies[i].event.cap()
}

} // verus!
