//! What the commands leave in the tables, row by row.

use crate::effects;
use crate::enforce::{EnforceView, Pace};
use crate::index::EntryView;
use crate::laws;
use crate::model;
use crate::model::{Reply, Store};
use crate::writer::CommandView;
use vstd::prelude::*;

verus! {

/// No row that is left out is kept, and every other row is.
proof fn lemma_filtered(rows: Seq<EntryView>, keep: spec_fn(EntryView) -> bool, row: EntryView)
    ensures
        rows.filter(keep).contains(row) <==> rows.contains(row) && keep(row),
    decreases rows.len(),
{
    reveal(Seq::filter);
    if rows.len() > 0 {
        let shorter = rows.drop_last();
        let kept = shorter.filter(keep);
        lemma_filtered(shorter, keep, row);
        if rows.contains(row) {
            let k = choose|k: int| 0 <= k < rows.len() && rows[k] == row;
            if k < shorter.len() {
                assert(shorter[k] == row);
            }
        }
        if shorter.contains(row) {
            let k = choose|k: int| 0 <= k < shorter.len() && shorter[k] == row;
            assert(rows[k] == row);
        }
        assert(rows[rows.len() - 1] == rows.last());
        if keep(rows.last()) {
            let all = kept.push(rows.last());
            if kept.contains(row) {
                let k = choose|k: int| 0 <= k < kept.len() && kept[k] == row;
                assert(all[k] == row);
            }
            if all.contains(row) {
                let k = choose|k: int| 0 <= k < all.len() && all[k] == row;
                if k < kept.len() {
                    assert(kept[k] == row);
                }
            }
            assert(all[all.len() - 1] == rows.last());
        }
    }
}

/// **A removed entry is gone.** After a removal neither table holds a row with the
/// identifier. Every other row of both tables is there as it was, in order, and the
/// files are.
pub proof fn law_a_removed_entry_is_gone(
    archive_id: Seq<char>,
    start: Store,
    replies: Seq<Reply>,
    end: Store,
)
    requires
        model::carried_out(CommandView::Remove { archive_id }, start, replies, end),
    ensures
        forall|id: Seq<char>| #[trigger]
            end.meta.dom().contains(id) <==> start.meta.dom().contains(id) && id != archive_id,
        forall|id: Seq<char>| #[trigger]
            end.meta.dom().contains(id) ==> end.meta[id] == start.meta[id],
        end.content == start.content.filter(|row: EntryView| row.archive_id != archive_id),
        forall|row: EntryView| #[trigger]
            end.content.contains(row) <==> start.content.contains(row) && row.archive_id
                != archive_id,
        end.files == start.files,
{
    laws::law_remove_takes_both_rows(archive_id, start, replies, end);
    let gone = set![archive_id];
    let keep = |row: EntryView| row.archive_id != archive_id;
    effects::law_leaving_out_keeps_the_other_rows(start.content, gone);
    effects::lemma_same_filter(
        start.content,
        |row: EntryView| !gone.contains(row.archive_id),
        keep,
    );
    assert forall|row: EntryView| #[trigger] end.content.contains(row) <==> start.content.contains(
        row,
    ) && row.archive_id != archive_id by {
        lemma_filtered(start.content, keep, row);
    }
}

/// **An added entry is there.** Where the database is within its limit, adding an
/// entry that is not in the index puts one row with its identifier, tool, command and
/// the time of the first reply into the one table, and one with its identifier, tool,
/// command and whole content at the end of the other; nothing else changes.
pub proof fn law_an_added_entry_is_there(
    entry: EntryView,
    start: Store,
    replies: Seq<Reply>,
    end: Store,
)
    requires
        model::carried_out(CommandView::Index(entry), start, replies, end),
        !start.meta.dom().contains(entry.archive_id),
        start.meta.dom().finite(),
        model::within_limit(replies),
    ensures
        replies.len() > 0,
        end.meta.dom() == start.meta.dom().insert(entry.archive_id),
        end.meta[entry.archive_id].tool == entry.tool,
        end.meta[entry.archive_id].command == entry.command,
        end.meta[entry.archive_id].created_at == replies[0].now,
        forall|id: Seq<char>| #[trigger]
            start.meta.dom().contains(id) ==> end.meta[id] == start.meta[id],
        end.content.len() == start.content.len() + 1,
        end.content.drop_last() == start.content,
        end.content.last().archive_id == entry.archive_id,
        end.content.last().tool == entry.tool,
        end.content.last().command == entry.command,
        end.content.last().content == entry.content,
        end.files == start.files,
{
    laws::law_index_adds_a_new_entry(entry, start, replies, end);
    assert(end.content.drop_last() =~= start.content);
    assert(end.meta.dom() =~= start.meta.dom().insert(entry.archive_id));
}

/// **Evicted entries go altogether, and the others stay.** After an enforcement of the
/// size limit, an entry that was in the index and no longer is has no searchable row
/// and no files either; every other row and file is there as it was, in order; and no
/// entry that is gone was indexed later than one that stays.
pub proof fn law_evicted_entries_go_altogether(
    within: Option<EntryView>,
    start: Store,
    replies: Seq<Reply>,
    end: Store,
)
    requires
        model::enforced(within, start, replies, end),
    ensures
        end.meta.dom().subset_of(start.meta.dom()),
        forall|id: Seq<char>| #[trigger]
            end.meta.dom().contains(id) ==> end.meta[id] == start.meta[id],
        end.content == start.content.filter(
            |row: EntryView|
                start.meta.dom().contains(row.archive_id) ==> end.meta.dom().contains(row.archive_id),
        ),
        forall|id: Seq<char>| #[trigger]
            end.files.contains(id) <==> start.files.contains(id) && (start.meta.dom().contains(id)
                ==> end.meta.dom().contains(id)),
        forall|old: Seq<char>, kept: Seq<char>|
            #![trigger start.meta.dom().contains(old), end.meta.dom().contains(kept)]
            start.meta.dom().contains(old) && !end.meta.dom().contains(old)
                && end.meta.dom().contains(kept) ==> model::text_le(
                start.meta[old].created_at,
                start.meta[kept].created_at,
            ),
{
    laws::law_enforcement_removes_the_oldest(within, start, replies, end);
    let gone = choose|gone: Set<Seq<char>>|
        end == #[trigger] start.without(gone) && start.are_oldest(gone);
    assert forall|id: Seq<char>| gone.contains(id) <==> (start.meta.dom().contains(id)
        && !end.meta.dom().contains(id)) by {}
    effects::law_leaving_out_keeps_the_other_rows(start.content, gone);
    effects::lemma_same_filter(
        start.content,
        |row: EntryView| !gone.contains(row.archive_id),
        |row: EntryView|
            start.meta.dom().contains(row.archive_id) ==> end.meta.dom().contains(row.archive_id),
    );
    assert forall|old: Seq<char>, kept: Seq<char>|
        #![trigger start.meta.dom().contains(old), end.meta.dom().contains(kept)]
        start.meta.dom().contains(old) && !end.meta.dom().contains(old) && end.meta.dom().contains(
            kept,
        ) implies model::text_le(start.meta[old].created_at, start.meta[kept].created_at) by {
        assert(gone.contains(old));
        assert(start.meta.contains_key(kept) && !gone.contains(kept));
    }
}

/// **A round leaves nine tenths.** A round of deletion that finds 500 entries or more
/// and does not give up removes at least fifty of them and leaves at least nine
/// tenths; one that finds 50 to 500 removes fifty; and one that finds fewer removes
/// them all. What it removes is in number the tenth part, rounded down, or fifty where
/// that is less.
pub proof fn law_a_round_leaves_nine_tenths(
    within: Option<EntryView>,
    cap: u64,
    before: Option<Pace>,
    store: Store,
    replies: Seq<Reply>,
)
    requires
        store.meta.dom().finite(),
        store.meta.dom().len() > 0,
        Pace::kept(before, store.meta.dom().len() as i64) is Some,
        replies.len() >= 2,
        replies.len() == 2 + 3 * replies[1].event.ids().len(),
        model::faithful(
            model::enforcement(within, EnforceView::Count { cap, before }),
            store,
            replies,
        ),
    ensures
        ({
            let end = model::carry_out(
                model::enforcement(within, EnforceView::Count { cap, before }),
                store,
                replies,
            ).1;
            let n = store.meta.dom().len() as int;
            let left = end.meta.dom().len() as int;
            &&& n >= 500 ==> 10 * left >= 9 * n && n - left >= 50
            &&& n >= 510 ==> 10 * (n - left) <= n < 10 * (n - left + 1)
            &&& 50 <= n < 510 ==> n - left == 50
            &&& n < 50 ==> left == 0
        }),
{
    laws::law_a_round_removes_a_batch(within, cap, before, store, replies);
}

/// **The order of texts.** A text comes no later than another exactly where it is the
/// beginning of the other, or where the first character in which they differ has the
/// smaller code.
pub proof fn law_texts_are_ordered_by_their_characters(a: Seq<char>, b: Seq<char>)
    ensures
        model::text_le(a, b) <==> (a.len() <= b.len() && a == b.take(a.len() as int)) || exists|i: int|
            0 <= i < a.len() && i < b.len() && a.take(i) == b.take(i) && (#[trigger] a[i]) < b[i],
    decreases a.len(),
{
    if a.len() == 0 {
        assert(a =~= b.take(0));
    } else if b.len() > 0 {
        let x = a.drop_first();
        let y = b.drop_first();
        law_texts_are_ordered_by_their_characters(x, y);
        if a.first() == b.first() {
            if model::text_le(a, b) {
                if x.len() <= y.len() && x == y.take(x.len() as int) {
                    assert(a =~= seq![a.first()] + x);
                    assert(b.take(a.len() as int) =~= seq![b.first()] + y.take(x.len() as int));
                } else {
                    let i = choose|i: int|
                        0 <= i < x.len() && i < y.len() && x.take(i) == y.take(i) && (#[trigger] x[i])
                            < y[i];
                    assert(a.take(i + 1) =~= seq![a.first()] + x.take(i));
                    assert(b.take(i + 1) =~= seq![b.first()] + y.take(i));
                    assert(a[i + 1] < b[i + 1]);
                }
            } else {
                if a.len() <= b.len() && a == b.take(a.len() as int) {
                    assert(y.take(x.len() as int) =~= b.take(a.len() as int).drop_first());
                    assert(x == y.take(x.len() as int));
                }
                if exists|i: int|
                    0 <= i < a.len() && i < b.len() && a.take(i) == b.take(i) && (#[trigger] a[i])
                        < b[i] {
                    let i = choose|i: int|
                        0 <= i < a.len() && i < b.len() && a.take(i) == b.take(i) && (#[trigger] a[i])
                            < b[i];
                    assert(x.take(i - 1) =~= a.take(i).drop_first());
                    assert(y.take(i - 1) =~= b.take(i).drop_first());
                    assert(x[i - 1] < y[i - 1]);
                }
            }
        } else {
            if a.first() < b.first() {
                assert(a.take(0) =~= b.take(0));
                assert(a[0] < b[0]);
            } else {
                if a.len() <= b.len() && a == b.take(a.len() as int) {
                    assert(a[0] == b.take(a.len() as int)[0]);
                }
                assert forall|i: int| 0 < i < a.len() && i < b.len() implies a.take(i) != b.take(
                    i,
                ) by {
                    assert(a.take(i)[0] == a[0] && b.take(i)[0] == b[0]);
                }
            }
        }
    }
}

/// Two texts of which neither comes later are the same.
proof fn lemma_text_le_both_ways(a: Seq<char>, b: Seq<char>)
    requires
        model::text_le(a, b),
        model::text_le(b, a),
    ensures
        a == b,
    decreases a.len(),
{
    if a.len() == 0 || b.len() == 0 {
        assert(a =~= b);
    } else {
        lemma_text_le_both_ways(a.drop_first(), b.drop_first());
        assert(a =~= seq![a.first()] + a.drop_first());
        assert(b =~= seq![b.first()] + b.drop_first());
    }
}

/// **Entries are as old as the clock says.** Of two entries that are added one after
/// the other, while the database is within its limit, by a clock whose text does not
/// go back between the two, the second has no earlier time than the first.
pub proof fn law_later_entries_are_no_older(
    first: EntryView,
    second: EntryView,
    start: Store,
    earlier: Seq<Reply>,
    middle: Store,
    later: Seq<Reply>,
    end: Store,
)
    requires
        model::carried_out(CommandView::Index(first), start, earlier, middle),
        model::carried_out(CommandView::Index(second), middle, later, end),
        start.meta.dom().finite(),
        !start.meta.dom().contains(first.archive_id),
        !start.meta.dom().contains(second.archive_id),
        first.archive_id != second.archive_id,
        model::within_limit(earlier),
        model::within_limit(later),
        model::text_le(earlier[0].now, later[0].now),
    ensures
        end.meta.dom().contains(first.archive_id),
        end.meta.dom().contains(second.archive_id),
        model::text_le(
            end.meta[first.archive_id].created_at,
            end.meta[second.archive_id].created_at,
        ),
{
    law_an_added_entry_is_there(first, start, earlier, middle);
    law_an_added_entry_is_there(second, middle, later, end);
}

/// **The newest entry goes last.** Where an entry is added at a time that is no earlier
/// than that of any entry in the index, an enforcement that follows removes it only
/// where every entry that it keeps has that very time.
pub proof fn law_the_newest_entry_goes_last(
    entry: EntryView,
    start: Store,
    added: Seq<Reply>,
    middle: Store,
    replies: Seq<Reply>,
    end: Store,
)
    requires
        model::carried_out(CommandView::Index(entry), start, added, middle),
        model::enforced(None, middle, replies, end),
        start.meta.dom().finite(),
        !start.meta.dom().contains(entry.archive_id),
        model::within_limit(added),
        forall|id: Seq<char>| #[trigger]
            start.meta.dom().contains(id) ==> model::text_le(
                start.meta[id].created_at,
                added[0].now,
            ),
    ensures
        !end.meta.dom().contains(entry.archive_id) ==> forall|kept: Seq<char>| #[trigger]
            end.meta.dom().contains(kept) ==> end.meta[kept].created_at == added[0].now,
{
    law_an_added_entry_is_there(entry, start, added, middle);
    law_evicted_entries_go_altogether(None, middle, replies, end);
    if !end.meta.dom().contains(entry.archive_id) {
        assert(middle.meta.dom().contains(entry.archive_id));
        assert forall|kept: Seq<char>| #[trigger]
            end.meta.dom().contains(kept) implies end.meta[kept].created_at == added[0].now by {
            assert(middle.meta.dom().contains(kept));
            assert(start.meta.dom().contains(kept));
            lemma_text_le_both_ways(start.meta[kept].created_at, added[0].now);
        }
    }
}

} // verus!
