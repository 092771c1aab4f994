//! What holds of the index as a whole.

use crate::action::{ActionView, EventView};
use crate::budget;
use crate::enforce::{EnforceView, Pace, Part};
use crate::index;
use crate::index::EntryView;
use crate::model;
use crate::model::{Reply, Store};
use crate::paths;
use crate::reader::FtsResult;
use crate::rows;
use crate::writer::{CommandView, PhaseView};
use vstd::prelude::*;

verus! {

/// Leaving rows out twice is leaving both kinds out at once.
proof fn lemma_rows_without_twice(
    rows: Seq<EntryView>,
    first: Set<Seq<char>>,
    second: Set<Seq<char>>,
)
    ensures
        model::rows_without(model::rows_without(rows, first), second) == model::rows_without(rows, first.union(second)),
    decreases rows.len(),
{
    if rows.len() > 0 {
        lemma_rows_without_twice(rows.drop_last(), first, second);
        let shorter = model::rows_without(rows.drop_last(), first);
        if !first.contains(rows.last().archive_id) {
            assert(shorter.push(rows.last()).drop_last() =~= shorter);
        }
    }
}

/// Leaving out the rows of no entry leaves the rows as they are.
proof fn lemma_rows_without_none(rows: Seq<EntryView>)
    ensures
        model::rows_without(rows, Set::empty()) == rows,
    decreases rows.len(),
{
    if rows.len() > 0 {
        lemma_rows_without_none(rows.drop_last());
        assert(rows.drop_last().push(rows.last()) =~= rows);
    }
}

/// Of the entries that are left out no row is left, of the others every row.
proof fn lemma_count_rows_without(
    rows: Seq<EntryView>,
    gone: Set<Seq<char>>,
    archive_id: Seq<char>,
)
    ensures
        model::count_rows(model::rows_without(rows, gone), archive_id) == if gone.contains(archive_id) {
            0
        } else {
            model::count_rows(rows, archive_id)
        },
    decreases rows.len(),
{
    if rows.len() > 0 {
        lemma_count_rows_without(rows.drop_last(), gone, archive_id);
        let shorter = model::rows_without(rows.drop_last(), gone);
        if !gone.contains(rows.last().archive_id) {
            assert(shorter.push(rows.last()).drop_last() =~= shorter);
        }
    }
}

/// Leaving out an entry that has no row leaves the rows as they are.
proof fn lemma_rows_without_absent(rows: Seq<EntryView>, archive_id: Seq<char>)
    requires
        model::count_rows(rows, archive_id) == 0,
    ensures
        model::rows_without(rows, set![archive_id]) == rows,
    decreases rows.len(),
{
    if rows.len() > 0 {
        lemma_rows_without_absent(rows.drop_last(), archive_id);
        assert(rows.drop_last().push(rows.last()) =~= rows);
    }
}

/// Leaving no entry out leaves the store as it is.
proof fn lemma_without_none(store: Store)
    ensures
        store.without(Set::empty()) == store,
        store.are_oldest(Set::empty()),
{
    lemma_rows_without_none(store.content);
    assert(store.without(Set::empty()).meta =~= store.meta);
    assert(store.without(Set::empty()).files =~= store.files);
}

/// Taking the three parts of an entry out of a store one after the other leaves
/// it without the entry.
proof fn lemma_without_one_more(store: Store, gone: Set<Seq<char>>, archive_id: Seq<char>)
    ensures
        ({
            let now = store.without(gone);
            Store {
                meta: now.meta.remove(archive_id),
                content: model::rows_without(now.content, set![archive_id]),
                files: now.files.remove(archive_id),
            } == store.without(gone.insert(archive_id))
        }),
{
    let now = store.without(gone);
    let more = gone.insert(archive_id);
    lemma_rows_without_twice(store.content, gone, set![archive_id]);
    assert(gone.union(set![archive_id]) =~= more);
    assert(now.meta.remove(archive_id) =~= store.without(more).meta);
    assert(now.files.remove(archive_id) =~= store.without(more).files);
}

/// The elements of a sequence are its first one and those of the rest.
proof fn lemma_first_and_rest(ids: Seq<Seq<char>>)
    requires
        ids.len() > 0,
    ensures
        ids.to_set() == ids.drop_first().to_set().insert(ids.first()),
        seq![ids.first()] + ids.drop_first() == ids,
        ids.no_duplicates() ==> ids.drop_first().no_duplicates() && !ids.drop_first().contains(
            ids.first(),
        ),
{
    let rest = ids.drop_first();
    assert(seq![ids.first()] + rest =~= ids);
    assert forall|id: Seq<char>| ids.contains(id) implies id == ids.first() || rest.contains(id) by {
        let i = choose|i: int| 0 <= i < ids.len() && ids[i] == id;
        if i > 0 {
            assert(rest[i - 1] == id);
        }
    }
    assert forall|id: Seq<char>| rest.contains(id) implies ids.contains(id) by {
        let i = choose|i: int| 0 <= i < rest.len() && rest[i] == id;
        assert(ids[i + 1] == id);
    }
    assert(ids.contains(ids[0]));
    assert(ids.to_set() =~= rest.to_set().insert(ids.first()));
    if ids.no_duplicates() && rest.contains(ids.first()) {
        let i = choose|i: int| 0 <= i < rest.len() && rest[i] == ids.first();
        assert(ids[i + 1] == ids[0]);
    }
}

/// The entries that an enforcement is about to remove.
spec fn batch(job: EnforceView) -> Seq<Seq<char>> {
    match job {
        EnforceView::Evict { archive_id, rest, .. } => seq![archive_id] + rest,
        _ => Seq::empty(),
    }
}

/// What holds between the replies of an enforcement that began with the store
/// `start` and has removed the entries `gone`.
spec fn enforcing(start: Store, gone: Set<Seq<char>>, job: EnforceView, store: Store) -> bool {
    let ids = batch(job);
    let rest = start.without(gone);
    &&& start.are_oldest(gone.union(ids.to_set()))
    &&& ids.no_duplicates()
    &&& forall|i: int| 0 <= i < ids.len() ==> !gone.contains(#[trigger] ids[i])
    &&& match job {
        EnforceView::Evict { part: Part::Content, archive_id, .. } => store == Store {
            meta: rest.meta.remove(archive_id),
            ..rest
        },
        EnforceView::Evict { part: Part::Files, archive_id, .. } => store == Store {
            meta: rest.meta.remove(archive_id),
            content: model::rows_without(rest.content, set![archive_id]),
            ..rest
        },
        _ => store == rest,
    }
}

/// A reply to an enforcement leaves it in order.
proof fn lemma_enforcing_step(
    start: Store,
    gone: Set<Seq<char>>,
    job: EnforceView,
    store: Store,
    event: EventView,
) -> (more: Set<Seq<char>>)
    requires
        enforcing(start, gone, job, store),
        store.answers(job.action(), event),
    ensures
        match job.advance(event) {
            Some(next) => enforcing(start, more, next, store.after(job.action())),
            None => store.after(job.action()) == start.without(more) && start.are_oldest(more),
        },
{
    let ids = batch(job);
    match job {
        EnforceView::Evict { part: Part::Files, archive_id, rest, .. } => {
            let more = gone.insert(archive_id);
            lemma_without_one_more(start, gone, archive_id);
            lemma_first_and_rest(ids);
            assert(ids.drop_first() =~= rest);
            assert(gone.union(ids.to_set()) =~= more.union(rest.to_set()));
            assert forall|i: int| 0 <= i < rest.len() implies !more.contains(#[trigger] rest[i]) by {
                assert(ids[i + 1] == rest[i]);
                assert(rest.contains(rest[i]));
            }
            if rest.len() > 0 {
                lemma_first_and_rest(rest);
            } else {
                assert(more.union(rest.to_set()) =~= more);
                assert(more.union(Seq::<Seq<char>>::empty().to_set()) =~= more);
            }
            more
        },
        EnforceView::Select { .. } => {
            let found = event.ids();
            assert(gone.union(ids.to_set()) =~= gone);
            assert forall|i: int| 0 <= i < found.len() implies !gone.contains(#[trigger] found[i])
                && start.meta.contains_key(found[i]) by {
                assert(store.meta.contains_key(found[i]));
            }
            let both = gone.union(found.to_set());
            assert forall|old: Seq<char>, kept: Seq<char>| #[trigger]
                both.contains(old) && #[trigger] start.meta.contains_key(kept) && !both.contains(
                    kept,
                ) implies model::text_le(
                start.meta[old].created_at,
                start.meta[kept].created_at,
            ) by {
                if !gone.contains(old) {
                    let i = choose|i: int| 0 <= i < found.len() && found[i] == old;
                    assert(!found.to_set().contains(kept));
                    assert(store.meta.contains_key(kept));
                    assert(store.meta[found[i]] == start.meta[old]);
                    assert(store.meta[kept] == start.meta[kept]);
                }
            }
            if found.len() > 0 {
                lemma_first_and_rest(found);
            }
            gone
        },
        _ => {
            assert(gone.union(Seq::<Seq<char>>::empty().to_set()) =~= gone);
            gone
        },
    }
}

/// A writer that waits for a command takes no reply.
proof fn lemma_idle(store: Store, replies: Seq<Reply>)
    requires
        model::faithful(PhaseView::Idle, store, replies),
    ensures
        replies.len() == 0,
        model::carry_out(PhaseView::Idle, store, replies) == (PhaseView::Idle, store),
{
}

/// What follows an enforcement within an addition leaves the store as it is.
proof fn lemma_tail(entry: EntryView, store: Store, replies: Seq<Reply>)
    requires
        model::faithful(model::past_enforcement(Some(entry)), store, replies),
    ensures
        model::carry_out(model::past_enforcement(Some(entry)), store, replies).1 == store,
        model::carry_out(model::past_enforcement(Some(entry)), store, replies).0
            == model::past_enforcement(Some(entry)) ==> replies.len() == 0,
        forall|i: int| 0 <= i < replies.len() ==> !((#[trigger] replies[i]).event is Setting),
{
    reveal_with_fuel(model::faithful, 3);
    reveal_with_fuel(model::carry_out, 3);
    if replies.len() > 0 {
        let later = replies.drop_first();
        if later.len() > 0 {
            lemma_idle(store, later.drop_first());
            assert(replies[1] == later.first());
        }
    }
}

/// An enforcement takes no reply once it is over.
proof fn lemma_past(within: Option<EntryView>, store: Store, replies: Seq<Reply>)
    requires
        model::faithful(model::past_enforcement(within), store, replies),
        model::carry_out(model::past_enforcement(within), store, replies).0
            == model::past_enforcement(within),
    ensures
        replies.len() == 0,
        model::carry_out(model::past_enforcement(within), store, replies).1 == store,
{
    match within {
        None => lemma_idle(store, replies),
        Some(entry) => lemma_tail(entry, store, replies),
    }
}

/// The replies to an enforcement leave it in order.
proof fn lemma_enforcing(
    within: Option<EntryView>,
    start: Store,
    gone: Set<Seq<char>>,
    job: EnforceView,
    store: Store,
    replies: Seq<Reply>,
) -> (more: Set<Seq<char>>)
    requires
        enforcing(start, gone, job, store),
        model::faithful(model::enforcement(within, job), store, replies),
    ensures
        ({
            let end = model::carry_out(model::enforcement(within, job), store, replies);
            end.0 == model::past_enforcement(within) ==> end.1 == start.without(more)
                && start.are_oldest(more)
        }),
    decreases replies.len(),
{
    let end = model::carry_out(model::enforcement(within, job), store, replies);
    if replies.len() > 0 {
        let event = replies.first().event;
        let after = store.after(job.action());
        let more = lemma_enforcing_step(start, gone, job, store, event);
        match job.advance(event) {
            Some(next) => lemma_enforcing(within, start, more, next, after, replies.drop_first()),
            None => {
                if end.0 == model::past_enforcement(within) {
                    lemma_past(within, after, replies.drop_first());
                }
                more
            },
        }
    } else {
        gone
    }
}

/// An enforcement by command is one by itself.
pub proof fn law_enforcement_by_command(start: Store, replies: Seq<Reply>, end: Store)
    ensures
        model::carried_out(CommandView::EnforceCap, start, replies, end) <==> model::enforced(
            None,
            start,
            replies,
            end,
        ),
{
}

/// **Oldest first.** An enforcement of the size limit, by itself or within an
/// addition, removes some entries from both tables, together with their files,
/// and changes nothing else; and no entry that it removes is younger than one
/// that it keeps.
pub proof fn law_enforcement_removes_the_oldest(
    within: Option<EntryView>,
    start: Store,
    replies: Seq<Reply>,
    end: Store,
)
    requires
        model::enforced(within, start, replies, end),
    ensures
        exists|gone: Set<Seq<char>>| end == #[trigger] start.without(gone) && start.are_oldest(gone),
{
    lemma_without_none(start);
    assert(Set::<Seq<char>>::empty().union(Seq::<Seq<char>>::empty().to_set()) =~= Set::empty());
    let gone = lemma_enforcing(
        within,
        start,
        Set::empty(),
        EnforceView::ReadSetting,
        start,
        replies,
    );
    assert(end == start.without(gone) && start.are_oldest(gone));
}

/// **Within the limit nothing is removed.** An enforcement, by itself or within
/// an addition, reads the limit and measures the database. Where it finds the
/// database within its limit it ends there and leaves the store as it is.
pub proof fn law_enforcement_within_the_limit(
    within: Option<EntryView>,
    start: Store,
    replies: Seq<Reply>,
    end: Store,
)
    requires
        model::enforced(within, start, replies, end),
    ensures
        replies.len() >= 2,
        replies[0].event is Setting,
        replies[1].event is Lengths,
        replies[1].event.size() <= replies[0].event.cap() ==> replies.len() == 2 && end == start,
{
    reveal_with_fuel(model::faithful, 3);
    reveal_with_fuel(model::carry_out, 3);
    let later = replies.drop_first();
    assert(later.first() == replies[1]);
    if replies[1].event.size() <= replies[0].event.cap() {
        lemma_past(within, start, later.drop_first());
    }
}

/// The size limit that an enforcement has read, or is told in its first reply.
spec fn cap_of(job: EnforceView, replies: Seq<Reply>) -> u64 {
    match job {
        EnforceView::ReadSetting => replies.first().event.cap(),
        EnforceView::Measure { cap } => cap,
        EnforceView::Count { cap, .. } => cap,
        EnforceView::Select { cap, .. } => cap,
        EnforceView::Evict { cap, .. } => cap,
        EnforceView::Reclaim { cap, .. } => cap,
        EnforceView::Remeasure { cap, .. } => cap,
    }
}

/// Whether a round of an enforcement makes the entries fewer: once it has deleted
/// anything there are fewer than it found, and until then it has something to
/// delete.
spec fn shrinks(job: EnforceView, store: Store) -> bool {
    let n = store.meta.dom().len();
    match job {
        EnforceView::ReadSetting => true,
        EnforceView::Measure { .. } => true,
        EnforceView::Count { before, .. } => before matches Some(pace) ==> n < pace.fewest,
        EnforceView::Select { pace, batch, .. } => n == pace.fewest && n > 0 && batch > 0,
        EnforceView::Evict { pace, part, archive_id, .. } => n < pace.fewest || (n == pace.fewest
            && part == Part::Meta && store.meta.contains_key(archive_id)),
        EnforceView::Reclaim { pace, .. } => n < pace.fewest,
        EnforceView::Remeasure { pace, .. } => n < pace.fewest,
    }
}

/// Why an enforcement ends, from any of its steps on.
proof fn lemma_enforcement_ends(
    within: Option<EntryView>,
    job: EnforceView,
    store: Store,
    replies: Seq<Reply>,
)
    requires
        model::faithful(model::enforcement(within, job), store, replies),
        store.meta.dom().finite(),
        shrinks(job, store),
    ensures
        ({
            let end = model::carry_out(model::enforcement(within, job), store, replies);
            end.0 == model::past_enforcement(within) ==> {
                ||| replies.last().event is Lengths && replies.last().event.size() <= cap_of(
                    job,
                    replies,
                )
                ||| end.1.meta.dom() =~= Set::empty()
            }
        }),
    decreases replies.len(),
{
    let end = model::carry_out(model::enforcement(within, job), store, replies);
    if replies.len() > 0 {
        let event = replies.first().event;
        let after = store.after(job.action());
        let later = replies.drop_first();
        assert(after.meta.dom().subset_of(store.meta.dom()));
        vstd::set_lib::lemma_len_subset(after.meta.dom(), store.meta.dom());
        match job.advance(event) {
            Some(next) => {
                if job is Select {
                    assert(store.meta.contains_key(event.ids()[0]));
                }
                lemma_enforcement_ends(within, next, after, later);
                if later.len() > 0 {
                    assert(later.last() == replies.last());
                }
            },
            None => {
                if end.0 == model::past_enforcement(within) {
                    lemma_past(within, after, later);
                    assert(replies.last() == replies.first());
                    if job is Count {
                        assert(store.meta.dom().len() == 0);
                        assert(store.meta.dom() =~= Set::empty());
                    }
                }
            },
        }
    }
}

/// **Until within the limit or empty.** Where the statements succeed and nothing
/// else writes to the database, an enforcement, by itself or within an addition,
/// ends only where its last measurement finds the database within the limit, or
/// where no entry is left.
pub proof fn law_enforcement_ends_within_the_limit_or_empty(
    within: Option<EntryView>,
    start: Store,
    replies: Seq<Reply>,
    end: Store,
)
    requires
        model::enforced(within, start, replies, end),
        start.meta.dom().finite(),
    ensures
        ({
            ||| replies.last().event is Lengths && replies.last().event.size()
                <= replies.first().event.cap()
            ||| end.meta.dom() =~= Set::empty()
        }),
{
    lemma_enforcement_ends(within, EnforceView::ReadSetting, start, replies);
}

/// Leaving entries out twice is leaving them out at once.
proof fn lemma_without_twice(store: Store, first: Set<Seq<char>>, second: Set<Seq<char>>)
    ensures
        store.without(first).without(second) == store.without(first.union(second)),
{
    lemma_rows_without_twice(store.content, first, second);
    let both = store.without(first.union(second));
    assert(store.without(first).without(second).meta =~= both.meta);
    assert(store.without(first).without(second).files =~= both.files);
}

/// **The listed entries go with their files.** Whatever the replies are, after
/// three for each of the entries `ids` that a round has listed, these entries are
/// out of both tables and their files are removed, and nothing else has changed.
/// That is so by itself and within an addition.
pub proof fn law_listed_entries_go_with_their_files(
    within: Option<EntryView>,
    cap: u64,
    pace: Pace,
    ids: Seq<Seq<char>>,
    store: Store,
    replies: Seq<Reply>,
)
    requires
        ids.len() > 0,
        replies.len() == 3 * ids.len(),
    ensures
        model::carry_out(
            model::enforcement(within, EnforceView::evict(cap, pace, ids, None).unwrap()),
            store,
            replies,
        ) == (
            model::enforcement(within, EnforceView::Reclaim { cap, pace }),
            store.without(ids.to_set()),
        ),
    decreases ids.len(),
{
    reveal_with_fuel(model::carry_out, 4);
    let archive_id = ids.first();
    let rest = ids.drop_first();
    let later = replies.drop_first().drop_first().drop_first();
    lemma_without_none(store);
    lemma_without_one_more(store, Set::empty(), archive_id);
    lemma_first_and_rest(ids);
    let one = Set::empty().insert(archive_id);
    assert(one.union(rest.to_set()) =~= ids.to_set());
    if rest.len() > 0 {
        law_listed_entries_go_with_their_files(
            within,
            cap,
            pace,
            rest,
            store.without(one),
            later,
        );
        lemma_without_twice(store, one, rest.to_set());
    } else {
        assert(one.union(rest.to_set()) =~= one);
    }
}

/// **A round removes a batch.** A round of deletion, by itself or within an
/// addition, that finds `n` entries and does not give up lists the oldest of them:
/// a tenth of `n` but at least `MIN_BATCH`, or all where there are fewer. After
/// three replies for each it has removed exactly these, and goes on to give their
/// space back.
pub proof fn law_a_round_removes_a_batch(
    within: Option<EntryView>,
    cap: u64,
    before: Option<Pace>,
    store: Store,
    replies: Seq<Reply>,
)
    requires
        store.meta.dom().finite(),
        store.meta.dom().len() > 0,
        Pace::kept(before, store.meta.dom().len() as i64) is Some,
        replies.len() >= 2,
        replies.len() == 2 + 3 * replies[1].event.ids().len(),
        model::faithful(
            model::enforcement(within, EnforceView::Count { cap, before }),
            store,
            replies,
        ),
    ensures
        ({
            let n = store.meta.dom().len() as int;
            let ids = replies[1].event.ids();
            let end = store.without(ids.to_set());
            &&& model::lists_oldest(store.meta, budget::batch_of(n), ids)
            &&& model::carry_out(
                model::enforcement(within, EnforceView::Count { cap, before }),
                store,
                replies,
            ) == (
                model::enforcement(
                    within,
                    EnforceView::Reclaim { cap, pace: Pace::kept(before, n as i64).unwrap() },
                ),
                end,
            )
            &&& end.meta.dom().len() == if n < budget::batch_of(n) {
                0
            } else {
                n - budget::batch_of(n)
            }
        }),
{
    reveal_with_fuel(model::carry_out, 3);
    reveal_with_fuel(model::faithful, 3);
    let ids = replies[1].event.ids();
    let pace = Pace::kept(before, replies[0].event.count()).unwrap();
    let later = replies.drop_first();
    assert(later.first() == replies[1]);
    law_listed_entries_go_with_their_files(within, cap, pace, ids, store, later.drop_first());
    ids.unique_seq_to_set();
    assert(ids.to_set().subset_of(store.meta.dom()));
    store.meta.lemma_remove_keys_len(ids.to_set());
}

/// The replies to the enforcement within an addition are the first of those to
/// the rest of the addition, and what follows leaves the store as it is.
proof fn lemma_enforcement_within(
    entry: EntryView,
    job: EnforceView,
    store: Store,
    replies: Seq<Reply>,
) -> (k: int)
    requires
        model::faithful(model::enforcement(Some(entry), job), store, replies),
        model::carry_out(model::enforcement(Some(entry), job), store, replies).0 is Idle,
    ensures
        0 < k <= replies.len(),
        model::faithful(model::enforcement(Some(entry), job), store, replies.take(k)),
        model::carry_out(model::enforcement(Some(entry), job), store, replies.take(k)) == (
            model::past_enforcement(Some(entry)),
            model::carry_out(model::enforcement(Some(entry), job), store, replies).1,
        ),
    decreases replies.len(),
{
    let after = store.after(job.action());
    let later = replies.drop_first();
    match job.advance(replies.first().event) {
        Some(next) => {
            let k = lemma_enforcement_within(entry, next, after, later);
            assert(replies.take(k + 1).drop_first() =~= later.take(k));
            k + 1
        },
        None => {
            lemma_tail(entry, after, later);
            assert(replies.take(1).drop_first() =~= Seq::<Reply>::empty());
            reveal_with_fuel(model::faithful, 2);
            reveal_with_fuel(model::carry_out, 2);
            1
        },
    }
}

/// What an addition of a new entry has done after its first four replies.
proof fn lemma_new_entry(entry: EntryView, start: Store, replies: Seq<Reply>, end: Store)
    requires
        model::carried_out(CommandView::Index(entry), start, replies, end),
        !start.meta.contains_key(entry.archive_id),
        start.meta.dom().finite(),
    ensures
        replies.len() > 4,
        forall|i: int| 0 <= i < 4 ==> !((#[trigger] replies[i]).event is Setting),
        ({
            let grown = start.with(entry, replies.first().now);
            let next = if index::due_for_enforcement((start.meta.dom().len() + 1) as i64) {
                model::enforcement(Some(entry), EnforceView::ReadSetting)
            } else {
                model::past_enforcement(Some(entry))
            };
            &&& model::faithful(next, grown, replies.skip(4))
            &&& model::carry_out(next, grown, replies.skip(4)) == (PhaseView::Idle, end)
        }),
{
    reveal_with_fuel(model::faithful, 5);
    reveal_with_fuel(model::carry_out, 5);
    let r1 = replies.drop_first();
    let r2 = r1.drop_first();
    let r3 = r2.drop_first();
    let r4 = r3.drop_first();
    assert(replies.len() >= 4);
    assert(r1.first() == replies[1] && r2.first() == replies[2] && r3.first() == replies[3]);
    assert(r4 =~= replies.skip(4));
    assert(r3.first().event.count() == start.meta.dom().len() + 1);
    assert(start.with(entry, replies.first().now).meta.dom() =~= start.meta.dom().insert(
        entry.archive_id,
    ));
}

/// **An entry that is there is left as it is.** Adding an entry whose identifier
/// is in the index changes nothing.
pub proof fn law_index_leaves_a_present_entry(
    entry: EntryView,
    start: Store,
    replies: Seq<Reply>,
    end: Store,
)
    requires
        model::carried_out(CommandView::Index(entry), start, replies, end),
        start.meta.contains_key(entry.archive_id),
    ensures
        end == start,
{
    reveal_with_fuel(model::faithful, 2);
    reveal_with_fuel(model::carry_out, 2);
    lemma_idle(start, replies.drop_first());
}

/// **An addition enforces the limit now and then.** Where the new number of
/// entries calls for a look at the size limit, the addition of a new entry makes
/// an enforcement of it on the store with the entry, and the store stays as that
/// leaves it.
pub proof fn law_index_enforces_when_due(
    entry: EntryView,
    start: Store,
    replies: Seq<Reply>,
    end: Store,
)
    requires
        model::carried_out(CommandView::Index(entry), start, replies, end),
        !start.meta.contains_key(entry.archive_id),
        start.meta.dom().finite(),
        index::due_for_enforcement((start.meta.dom().len() + 1) as i64),
    ensures
        exists|k: int|
            4 < k <= replies.len() && model::enforced(
                Some(entry),
                start.with(entry, replies.first().now),
                #[trigger] replies.subrange(4, k),
                end,
            ),
{
    lemma_new_entry(entry, start, replies, end);
    let grown = start.with(entry, replies.first().now);
    let k = lemma_enforcement_within(entry, EnforceView::ReadSetting, grown, replies.skip(4));
    assert(replies.skip(4).take(k) =~= replies.subrange(4, 4 + k));
    assert(model::enforced(Some(entry), grown, replies.subrange(4, 4 + k), end));
}

/// **A new entry goes in.** Adding an entry that is not in the index puts it into
/// both tables, with the time of the first reply. Then the size limit may have
/// the oldest entries removed; but where the database is within its limit, or the
/// new number of entries does not call for a look, nothing else changes.
pub proof fn law_index_adds_a_new_entry(
    entry: EntryView,
    start: Store,
    replies: Seq<Reply>,
    end: Store,
)
    requires
        model::carried_out(CommandView::Index(entry), start, replies, end),
        !start.meta.contains_key(entry.archive_id),
        start.meta.dom().finite(),
    ensures
        replies.len() > 0,
        ({
            let grown = start.with(entry, replies.first().now);
            &&& exists|gone: Set<Seq<char>>|
                end == #[trigger] grown.without(gone) && grown.are_oldest(gone)
            &&& model::within_limit(replies) ==> end == grown
        }),
        !index::due_for_enforcement((start.meta.dom().len() + 1) as i64) ==> model::within_limit(
            replies,
        ),
{
    lemma_new_entry(entry, start, replies, end);
    let grown = start.with(entry, replies.first().now);
    if index::due_for_enforcement((start.meta.dom().len() + 1) as i64) {
        law_index_enforces_when_due(entry, start, replies, end);
        let k = choose|k: int|
            4 < k <= replies.len() && model::enforced(
                Some(entry),
                grown,
                #[trigger] replies.subrange(4, k),
                end,
            );
        let part = replies.subrange(4, k);
        law_enforcement_removes_the_oldest(Some(entry), grown, part, end);
        law_enforcement_within_the_limit(Some(entry), grown, part, end);
        assert(part[0] == replies[4] && part[1] == replies[5]);
    } else {
        lemma_tail(entry, grown, replies.skip(4));
        lemma_without_none(grown);
        assert(end == grown.without(Set::empty()));
        assert forall|i: int| 0 <= i < replies.len() implies !((
        #[trigger] replies[i]).event is Setting) by {
            if i >= 4 {
                assert(replies.skip(4)[i - 4] == replies[i]);
            }
        }
    }
}

/// **A removal takes both rows.** Removing an entry takes its rows out of both
/// tables and leaves its files and everything else.
pub proof fn law_remove_takes_both_rows(
    archive_id: Seq<char>,
    start: Store,
    replies: Seq<Reply>,
    end: Store,
)
    requires
        model::carried_out(CommandView::Remove { archive_id }, start, replies, end),
    ensures
        end == start.without_rows_of(archive_id),
{
    reveal_with_fuel(model::faithful, 5);
    reveal_with_fuel(model::carry_out, 5);
    let measured = replies.drop_first().drop_first();
    if measured.len() > 0 {
        let later = measured.drop_first();
        if later.len() > 0 {
            lemma_idle(start.without_rows_of(archive_id), later.drop_first());
        }
    }
}

/// **A removal undoes an addition.** Adding an entry of which the tables hold
/// nothing, and removing it again, leaves the store as it was, where the addition
/// finds the database within its limit.
pub proof fn law_remove_undoes_index(
    entry: EntryView,
    start: Store,
    added: Seq<Reply>,
    middle: Store,
    removed: Seq<Reply>,
    end: Store,
)
    requires
        model::carried_out(CommandView::Index(entry), start, added, middle),
        model::carried_out(
            CommandView::Remove { archive_id: entry.archive_id },
            middle,
            removed,
            end,
        ),
        !start.meta.contains_key(entry.archive_id),
        model::count_rows(start.content, entry.archive_id) == 0,
        start.meta.dom().finite(),
        model::within_limit(added),
    ensures
        end == start,
{
    law_index_adds_a_new_entry(entry, start, added, middle);
    law_remove_takes_both_rows(entry.archive_id, middle, removed, end);
    lemma_rows_without_absent(start.content, entry.archive_id);
    assert(middle.content.drop_last() =~= start.content);
    assert(end.meta =~= start.meta);
}

/// A row that is left was there, and belongs to none of the entries left out.
proof fn lemma_row_left(rows: Seq<EntryView>, gone: Set<Seq<char>>, k: int) -> (j: int)
    requires
        0 <= k < model::rows_without(rows, gone).len(),
    ensures
        0 <= j < rows.len(),
        model::rows_without(rows, gone)[k] == rows[j],
        !gone.contains(rows[j].archive_id),
    decreases rows.len(),
{
    let shorter = model::rows_without(rows.drop_last(), gone);
    if k < shorter.len() {
        lemma_row_left(rows.drop_last(), gone, k)
    } else {
        rows.len() - 1
    }
}

/// A store whose two tables lose the same entries stays in step.
proof fn lemma_loses_in_step(store: Store, gone: Set<Seq<char>>, rest: Store)
    requires
        store.in_step(),
        rest.meta == store.meta.remove_keys(gone),
        rest.content == model::rows_without(store.content, gone),
    ensures
        rest.in_step(),
{
    assert forall|id: Seq<char>| #[trigger]
        model::count_rows(rest.content, id) == if rest.meta.contains_key(id) {
            1nat
        } else {
            0nat
        } by {
        lemma_count_rows_without(store.content, gone, id);
        assert(store.one_row_each());
        assert(model::count_rows(store.content, id) == if store.meta.contains_key(id) {
            1nat
        } else {
            0nat
        });
    }
    assert forall|k: int| 0 <= k < rest.content.len() implies rest.meta.contains_key(
        (#[trigger] rest.content[k]).archive_id,
    ) && rest.meta[rest.content[k].archive_id].tool == rest.content[k].tool
        && rest.meta[rest.content[k].archive_id].command == rest.content[k].command by {
        let j = lemma_row_left(store.content, gone, k);
        assert(store.rows_agree());
        assert(store.meta.contains_key(store.content[j].archive_id));
    }
}

/// A store that a new entry goes into stays in step.
proof fn lemma_grows_in_step(store: Store, entry: EntryView, now: Seq<char>)
    requires
        store.in_step(),
        !store.meta.contains_key(entry.archive_id),
    ensures
        store.with(entry, now).in_step(),
{
    let grown = store.with(entry, now);
    assert(grown.content.drop_last() =~= store.content);
    assert forall|id: Seq<char>| #[trigger]
        model::count_rows(grown.content, id) == if grown.meta.contains_key(id) {
            1nat
        } else {
            0nat
        } by {
        assert(store.one_row_each());
        assert(model::count_rows(store.content, id) == if store.meta.contains_key(id) {
            1nat
        } else {
            0nat
        });
    }
    assert forall|k: int| 0 <= k < grown.content.len() implies grown.meta.contains_key(
        (#[trigger] grown.content[k]).archive_id,
    ) && grown.meta[grown.content[k].archive_id].tool == grown.content[k].tool
        && grown.meta[grown.content[k].archive_id].command == grown.content[k].command by {
        if k < store.content.len() {
            assert(store.rows_agree());
            assert(grown.content[k] == store.content[k]);
            assert(store.meta.contains_key(store.content[k].archive_id));
        }
    }
}

/// **The tables stay in step.** Where each entry has one searchable row, each row
/// belongs to an entry, and the two tables agree on its tool and command, that is
/// still so after a command.
pub proof fn law_tables_stay_in_step(
    command: CommandView,
    start: Store,
    replies: Seq<Reply>,
    end: Store,
)
    requires
        model::carried_out(command, start, replies, end),
        start.in_step(),
        start.meta.dom().finite(),
    ensures
        end.in_step(),
{
    match command {
        CommandView::Index(entry) => {
            if start.meta.contains_key(entry.archive_id) {
                law_index_leaves_a_present_entry(entry, start, replies, end);
            } else {
                law_index_adds_a_new_entry(entry, start, replies, end);
                let grown = start.with(entry, replies.first().now);
                lemma_grows_in_step(start, entry, replies.first().now);
                let gone = choose|gone: Set<Seq<char>>|
                    end == #[trigger] grown.without(gone) && grown.are_oldest(gone);
                lemma_loses_in_step(grown, gone, end);
            }
        },
        CommandView::Remove { archive_id } => {
            law_remove_takes_both_rows(archive_id, start, replies, end);
            assert(end.meta =~= start.meta.remove_keys(set![archive_id]));
            lemma_loses_in_step(start, set![archive_id], end);
        },
        CommandView::EnforceCap => {
            law_enforcement_by_command(start, replies, end);
            law_enforcement_removes_the_oldest(None, start, replies, end);
            let gone = choose|gone: Set<Seq<char>>|
                end == #[trigger] start.without(gone) && start.are_oldest(gone);
            lemma_loses_in_step(start, gone, end);
        },
    }
}

/// Whether an action writes to a table.
pub open spec fn writes(action: ActionView) -> bool {
    ||| action is InsertMeta
    ||| action is InsertContent
    ||| action is DeleteMeta
    ||| action is DeleteContent
}

/// **The write-ahead log stays bounded.** An addition that has put its entry in,
/// and a removal, do not end before they have seen a log that is small enough, or
/// have had the log cut back. No command ends on a write.
pub proof fn law_a_write_bounds_the_log(phase: PhaseView, event: EventView, now: Seq<char>)
    requires
        phase.advance(event, now) is Idle,
    ensures
        !writes(phase.action()),
        phase is Removing || (phase matches PhaseView::Indexing(job) && !(job.step is Find)) ==> {
            ||| phase.action() is MeasureWal && event.wal() <= budget::WAL_TRUNCATE_THRESHOLD_BYTES
            ||| phase.action() is TruncateWal
        },
{
}

/// **The limit is looked at now and then.** A number of entries calls for a look
/// at the size limit exactly where `ENFORCE_EVERY_N_INSERTS` divides it.
pub proof fn law_enforcement_is_due_now_and_then(count: i64)
    requires
        0 <= count <= usize::MAX,
    ensures
        index::due_for_enforcement(count) <==> count as int % budget::ENFORCE_EVERY_N_INSERTS as int
            == 0,
{
}

/// **There is always room.** The size limit is at least one mebibyte, whatever
/// the setting is.
pub proof fn law_the_limit_leaves_room(setting: Option<Seq<char>>)
    ensures
        budget::cap_bytes(setting) >= budget::MEBIBYTE,
{
}

/// No file is longer than all of them.
proof fn lemma_one_length(lengths: Seq<Option<u64>>, i: int)
    requires
        0 <= i < lengths.len(),
    ensures
        budget::length_or_zero(lengths[i]) <= budget::total_length(lengths),
    decreases lengths.len(),
{
    if i < lengths.len() - 1 {
        lemma_one_length(lengths.drop_last(), i);
    }
}

/// **The log is part of the database.** The size of the write-ahead log is at most
/// the size of the database, by the same lengths of the files.
pub proof fn law_the_log_is_part_of_the_database(lengths: Seq<Option<u64>>)
    requires
        lengths.len() > paths::WAL_FILE,
    ensures
        budget::length_or_zero(lengths[paths::WAL_FILE as int]) <= budget::saturated(
            budget::total_length(lengths) as int,
        ),
{
    lemma_one_length(lengths, paths::WAL_FILE as int);
}

/// **A search gives what is indexed.** Where the rows that come back are of the
/// searchable table, and the tables are in step, every result is an entry of the
/// index.
pub proof fn law_search_gives_entries<R>(store: Store, found: Seq<Option<FtsResult<R>>>, i: int)
    requires
        store.in_step(),
        forall|j: int|
            0 <= j < found.len() ==> (#[trigger] found[j] matches Some(result)
                ==> store.searchable(result.archive_id@)),
        0 <= i < rows::present(found).len(),
    ensures
        store.meta.contains_key(rows::present(found)[i].archive_id@),
{
    let result = rows::present(found)[i];
    assert(rows::present(found).contains(result));
    found.lemma_filter_map_contains(|row: Option<FtsResult<R>>| row, result);
    let row = choose|row: Option<FtsResult<R>>| #[trigger]
        found.contains(row) && row == Some(result);
    let j = choose|j: int| 0 <= j < found.len() && found[j] == row;
    assert(store.searchable(result.archive_id@));
    let k = choose|k: int|
        0 <= k < store.content.len() && (#[trigger] store.content[k]).archive_id
            == result.archive_id@;
    assert(store.rows_agree());
    assert(store.meta.contains_key(store.content[k].archive_id));
}

} // verus!
