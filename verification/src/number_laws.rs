//! What holds of sizes, limits, batches, waits, and of the replies that give them.

use crate::action::EventView;
use crate::budget;
use crate::enforce::EnforceView;
use crate::index;
use crate::rows;
use vstd::prelude::*;

verus! {

/// **A batch is a tenth, but at least fifty.** Of 510 entries and more a round asks
/// for the tenth part, rounded down; of fewer it asks for fifty.
pub proof fn law_a_batch_is_a_tenth_but_at_least_fifty(count: int)
    ensures
        count >= 510 ==> 10 * budget::batch_of(count) <= count < 10 * (budget::batch_of(count) + 1),
        count < 510 ==> budget::batch_of(count) == 50,
{
}

/// **A larger index loses no less.** The batch does not get smaller where there are
/// more entries, and it never takes more than a tenth of 500 entries or more.
pub proof fn law_batches_grow_with_the_index(fewer: int, more: int)
    requires
        fewer <= more,
    ensures
        budget::batch_of(fewer) <= budget::batch_of(more),
        more >= 500 ==> 10 * (more - budget::batch_of(more)) >= 9 * more,
{
}

/// **A round asks for its batch.** Where an enforcement is told that there are `n`
/// entries and goes on, it asks for the oldest of them, as many as the tenth part of
/// `n`, rounded down, or fifty where that is less.
pub proof fn law_a_round_asks_for_its_batch(job: EnforceView, n: i64)
    requires
        job is Count,
        job.advance(EventView::Count(Some(n))) is Some,
    ensures
        ({
            let asked = job.advance(EventView::Count(Some(n))).unwrap().action();
            &&& asked is SelectOldest
            &&& n >= 510 ==> 10 * asked->limit <= n < 10 * (asked->limit + 1)
            &&& n < 510 ==> asked->limit == 50
        }),
{
}

/// The size of a list of files is the sum of its two parts.
proof fn lemma_sizes_add_up(first: Seq<Option<u64>>, second: Seq<Option<u64>>)
    ensures
        budget::total_length(first + second) == budget::total_length(first) + budget::total_length(
            second,
        ),
    decreases second.len(),
{
    if second.len() == 0 {
        assert(first + second =~= first);
    } else {
        lemma_sizes_add_up(first, second.drop_last());
        assert((first + second).drop_last() =~= first + second.drop_last());
        assert((first + second).last() == second.last());
    }
}

/// **Sizes add up.** The size of some files and some others is the sum of the two
/// sizes. The size of one file is its length, and of one that is not there, zero.
pub proof fn law_sizes_add_up(first: Seq<Option<u64>>, second: Seq<Option<u64>>, length: u64)
    ensures
        budget::total_length(first + second) == budget::total_length(first) + budget::total_length(
            second,
        ),
        budget::total_length(seq![Some(length)]) == length,
        budget::total_length(seq![None]) == 0,
        budget::total_length(Seq::empty()) == 0,
{
    lemma_sizes_add_up(first, second);
    reveal_with_fuel(budget::total_length, 2);
}

/// What a file adds to the size of the database.
pub open spec fn bytes_of(length: Option<u64>) -> int {
    if length is Some {
        length->0 as int
    } else {
        0
    }
}

/// **The size of the database is the sum of its three files.** A file that is not
/// there counts as nothing, and a sum that is larger than `u64::MAX` as that.
pub proof fn law_the_database_is_its_three_files(
    main: Option<u64>,
    log: Option<u64>,
    index: Option<u64>,
)
    ensures
        ({
            let sum = bytes_of(main) + bytes_of(log) + bytes_of(index);
            let size = EventView::Lengths(seq![main, log, index]).size();
            &&& sum <= u64::MAX ==> size == sum
            &&& sum > u64::MAX ==> size == u64::MAX
        }),
{
    let lengths = seq![main, log, index];
    reveal_with_fuel(budget::total_length, 4);
    assert(lengths.drop_last() =~= seq![main, log]);
    assert(seq![main, log].drop_last() =~= seq![main]);
    assert(seq![main].drop_last() =~= Seq::<Option<u64>>::empty());
}

/// **Every byte counts.** Where a file of the database is longer by some bytes, the
/// database is larger by as many, as long as the sum is no more than `u64::MAX`.
pub proof fn law_every_byte_counts(
    lengths: Seq<Option<u64>>,
    i: int,
    before: u64,
    after: u64,
)
    requires
        0 <= i < lengths.len(),
        lengths[i] == Some(before),
        before <= after,
        budget::total_length(lengths.update(i, Some(after))) <= u64::MAX,
    ensures
        EventView::Lengths(lengths.update(i, Some(after))).size() - EventView::Lengths(lengths).size()
            == after - before,
{
    let head = lengths.take(i);
    let tail = lengths.skip(i + 1);
    let grown = lengths.update(i, Some(after));
    assert(lengths =~= head + seq![Some(before)] + tail);
    assert(grown =~= head + seq![Some(after)] + tail);
    law_sizes_add_up(head, seq![Some(before)], before);
    law_sizes_add_up(head, seq![Some(after)], after);
    lemma_sizes_add_up(head + seq![Some(before)], tail);
    lemma_sizes_add_up(head + seq![Some(after)], tail);
}

/// **A wait doubles, up to three minutes.** After a wait of up to a minute and a half
/// the next is twice as long, and after a longer one it is three minutes.
pub proof fn law_a_wait_doubles_up_to_three_minutes(millis: u64)
    ensures
        millis <= 90_000 ==> budget::doubled_wait(millis) == 2 * millis,
        millis > 90_000 ==> budget::doubled_wait(millis) == 180_000,
        budget::OPEN_BACKOFF_START_MS == 200,
{
}

/// **Every two hundred entries.** A number of entries calls for a look at the size
/// limit exactly where it is a multiple of 200; so do none.
pub proof fn law_every_two_hundred_entries(count: i64)
    requires
        0 <= count <= usize::MAX,
    ensures
        index::due_for_enforcement(count) <==> count as int % 200 == 0,
{
}

/// **What replies say.** A reply says what it was made of, and one that says nothing
/// of what was asked, or that the query failed, counts as no row, no success, no
/// entries and no bytes.
pub proof fn law_replies_say_what_they_hold(
    ok: bool,
    n: i64,
    length: u64,
    ids: Seq<Option<Seq<char>>>,
)
    ensures
        EventView::Outcome(ok).succeeded() == ok,
        EventView::Found(ok).found() == ok,
        EventView::Count(Some(n)).count() == n,
        EventView::Count(None).count() == 0,
        EventView::Length(Some(length)).wal() == length,
        EventView::Length(None).wal() == 0,
        EventView::Ids(Some(ids)).ids() == rows::present(ids),
        EventView::Ids(None).ids().len() == 0,
        !EventView::Done.succeeded(),
        !EventView::Done.found(),
        EventView::Done.count() == 0,
        EventView::Done.ids().len() == 0,
        EventView::Done.size() == 0,
        EventView::Done.wal() == 0,
{
}

/// How many of the first `n` rows could be read.
pub open spec fn readable<T>(rows: Seq<Option<T>>, n: int) -> int
    decreases n,
{
    if n <= 0 {
        0
    } else if rows[n - 1] is Some {
        readable(rows, n - 1) + 1
    } else {
        readable(rows, n - 1)
    }
}

/// The number of readable rows does not depend on what comes after them.
proof fn lemma_readable_prefix<T>(rows: Seq<Option<T>>, n: int)
    requires
        0 <= n < rows.len(),
    ensures
        readable(rows.drop_last(), n) == readable(rows, n),
        0 <= readable(rows, n) <= n,
    decreases n,
{
    if n > 0 {
        lemma_readable_prefix(rows, n - 1);
        assert(rows.drop_last()[n - 1] == rows[n - 1]);
    }
}

/// How the readable rows grow with one row more.
proof fn lemma_present_grows<T>(rows: Seq<Option<T>>)
    requires
        rows.len() > 0,
    ensures
        rows::present(rows) == if rows.last() is Some {
            rows::present(rows.drop_last()).push(rows.last().unwrap())
        } else {
            rows::present(rows.drop_last())
        },
{
    let keep = |row: Option<T>| row;
    rows.lemma_filter_map_take_succ(keep, rows.len() - 1);
    assert(rows.take(rows.len() as int) =~= rows);
    assert(rows.take(rows.len() - 1) =~= rows.drop_last());
    if rows.last() is Some {
        let before = rows::present(rows.drop_last());
        assert(before + seq![rows.last().unwrap()] =~= before.push(rows.last().unwrap()));
    } else {
        let before = rows::present(rows.drop_last());
        assert(before + Seq::<T>::empty() =~= before);
    }
}

/// **No readable row is lost.** There are as many results as rows that could be
/// read, and each such row is the result whose place is the number of readable rows
/// before it.
pub proof fn law_no_readable_row_is_lost<T>(rows: Seq<Option<T>>, j: int)
    ensures
        rows::present(rows).len() == readable(rows, rows.len() as int),
        0 <= j < rows.len() && rows[j] is Some ==> 0 <= readable(rows, j) < rows::present(rows).len()
            && rows::present(rows)[readable(rows, j)] == rows[j].unwrap(),
    decreases rows.len(),
{
    if rows.len() == 0 {
        assert(rows::present(rows).len() == 0) by {
            reveal_with_fuel(Seq::filter_map, 1);
        }
    } else {
        let n = rows.len() - 1;
        let shorter = rows.drop_last();
        lemma_present_grows(rows);
        law_no_readable_row_is_lost(shorter, j);
        lemma_readable_prefix(rows, n);
        if 0 <= j < n {
            lemma_readable_prefix(rows, j);
        }
    }
}

/// **Nothing is made up.** Each result is a row that could be read.
pub proof fn law_every_result_is_a_row<T>(rows: Seq<Option<T>>, i: int)
    requires
        0 <= i < rows::present(rows).len(),
    ensures
        exists|j: int|
            0 <= j < rows.len() && #[trigger] rows[j] == Some(rows::present(rows)[i]) && readable(
                rows,
                j,
            ) == i,
    decreases rows.len(),
{
    law_no_readable_row_is_lost(rows, 0);
    let n = rows.len() - 1;
    let shorter = rows.drop_last();
    lemma_present_grows(rows);
    law_no_readable_row_is_lost(shorter, 0);
    lemma_readable_prefix(rows, n);
    if i < rows::present(shorter).len() {
        law_every_result_is_a_row(shorter, i);
        let j = choose|j: int|
            0 <= j < shorter.len() && #[trigger] shorter[j] == Some(rows::present(shorter)[i])
                && readable(shorter, j) == i;
        lemma_readable_prefix(rows, j);
        assert(rows[j] == Some(rows::present(rows)[i]));
    } else {
        assert(rows[n] == Some(rows::present(rows)[i]));
    }
}

/// **All rows, in order.** Where every row could be read, the results are the rows.
pub proof fn law_readable_rows_are_the_results<T>(rows: Seq<Option<T>>)
    requires
        forall|i: int| 0 <= i < rows.len() ==> #[trigger] rows[i] is Some,
    ensures
        rows::present(rows).len() == rows.len(),
        forall|i: int|
            0 <= i < rows.len() ==> rows[i] == Some(#[trigger] rows::present(rows)[i]),
    decreases rows.len(),
{
    law_no_readable_row_is_lost(rows, 0);
    if rows.len() > 0 {
        let shorter = rows.drop_last();
        lemma_present_grows(rows);
        assert forall|i: int| 0 <= i < shorter.len() implies #[trigger] shorter[i] is Some by {
            assert(rows[i] is Some);
        }
        law_readable_rows_are_the_results(shorter);
        assert(rows.last() is Some);
        assert forall|i: int| 0 <= i < rows.len() implies rows[i] == Some(
            #[trigger] rows::present(rows)[i],
        ) by {
            if i < shorter.len() {
                assert(shorter[i] == Some(rows::present(shorter)[i]));
            }
        }
    }
}

/// **Rows come one after the other.** What two replies give together is what the
/// first gives, followed by what the second gives.
pub proof fn law_results_of_two_replies<T>(first: Seq<Option<T>>, second: Seq<Option<T>>)
    ensures
        rows::present(first + second) == rows::present(first) + rows::present(second),
    decreases second.len(),
{
    if second.len() == 0 {
        assert(first + second =~= first);
        law_no_readable_row_is_lost(second, 0);
        assert(rows::present(first) + rows::present(second) =~= rows::present(first));
    } else {
        let both = first + second;
        law_results_of_two_replies(first, second.drop_last());
        assert(both.drop_last() =~= first + second.drop_last());
        assert(both.last() == second.last());
        lemma_present_grows(both);
        lemma_present_grows(second);
        assert(rows::present(both) =~= rows::present(first) + rows::present(second));
    }
}

} // verus!
