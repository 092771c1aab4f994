//! What the writer asks for, step by step, whatever the replies are.

use crate::action::{ActionView, EventView};
use crate::budget;
use crate::enforce::{EnforceView, Pace};
use crate::index::EntryView;
use crate::model;
use crate::model::Reply;
use crate::number_laws;
use crate::open::{OpenJob, OpenStep};
use crate::writer::{CommandView, PhaseView, WriterView};
use vstd::prelude::*;

verus! {

/// What the writer asks for, in order, and gets `replies` to. No command is started
/// after the one that it is busy with.
pub open spec fn asked(phase: PhaseView, replies: Seq<Reply>) -> Seq<ActionView>
    decreases replies.len(),
{
    if replies.len() == 0 {
        Seq::empty()
    } else {
        seq![phase.action()] + asked(
            phase.advance(replies.first().event, replies.first().now),
            replies.drop_first(),
        )
    }
}

/// What the writer is doing after `replies`. No command is started after the one that
/// it is busy with.
pub open spec fn reached(phase: PhaseView, replies: Seq<Reply>) -> PhaseView
    decreases replies.len(),
{
    if replies.len() == 0 {
        phase
    } else {
        reached(phase.advance(replies.first().event, replies.first().now), replies.drop_first())
    }
}

/// As many things are asked for as get a reply.
proof fn lemma_asked_len(phase: PhaseView, replies: Seq<Reply>)
    ensures
        asked(phase, replies).len() == replies.len(),
    decreases replies.len(),
{
    if replies.len() > 0 {
        lemma_asked_len(
            phase.advance(replies.first().event, replies.first().now),
            replies.drop_first(),
        );
    }
}

/// Replies that come in two parts.
proof fn lemma_in_two_parts(phase: PhaseView, replies: Seq<Reply>, n: int)
    requires
        0 <= n <= replies.len(),
    ensures
        asked(phase, replies) == asked(phase, replies.take(n)) + asked(
            reached(phase, replies.take(n)),
            replies.skip(n),
        ),
        reached(phase, replies) == reached(reached(phase, replies.take(n)), replies.skip(n)),
    decreases n,
{
    if n == 0 {
        assert(replies.skip(0) =~= replies);
        assert(asked(phase, replies) =~= asked(phase, replies.take(0)) + asked(phase, replies));
    } else {
        let next = phase.advance(replies.first().event, replies.first().now);
        let later = replies.drop_first();
        lemma_in_two_parts(next, later, n - 1);
        assert(replies.take(n).drop_first() =~= later.take(n - 1));
        assert(replies.skip(n) =~= later.skip(n - 1));
        assert(replies.take(n).first() == replies.first());
        assert(asked(phase, replies) =~= asked(phase, replies.take(n)) + asked(
            reached(phase, replies.take(n)),
            replies.skip(n),
        ));
    }
}

/// **What an addition asks for.** First whether the entry is there. Where it is, the
/// addition is over. Where it is not, the entry goes into the one table with the time
/// at which that became known, and into the other with its whole content; then the
/// entries are counted.
pub proof fn law_what_an_addition_asks_for(entry: EntryView, replies: Seq<Reply>)
    requires
        replies.len() == 4,
    ensures
        ({
            let start = PhaseView::start(CommandView::Index(entry));
            &&& start.action() == (ActionView::FindEntry { archive_id: entry.archive_id })
            &&& replies[0].event == EventView::Found(true) ==> start.advance(
                replies[0].event,
                replies[0].now,
            ) is Idle
            &&& replies[0].event != EventView::Found(true) ==> asked(start, replies) == seq![
                ActionView::FindEntry { archive_id: entry.archive_id },
                ActionView::InsertMeta {
                    archive_id: entry.archive_id,
                    tool: entry.tool,
                    command: entry.command,
                    created_at: replies[0].now,
                },
                ActionView::InsertContent {
                    archive_id: entry.archive_id,
                    tool: entry.tool,
                    command: entry.command,
                    content: entry.content,
                },
                ActionView::CountEntries,
            ]
        }),
{
    reveal_with_fuel(asked, 5);
    let later = replies.drop_first();
    let last = later.drop_first();
    assert(later.first() == replies[1] && last.first() == replies[2]);
    assert(last.drop_first().first() == replies[3]);
    let start = PhaseView::start(CommandView::Index(entry));
    if replies[0].event != EventView::Found(true) {
        assert(asked(start, replies) =~= seq![
            ActionView::FindEntry { archive_id: entry.archive_id },
            ActionView::InsertMeta {
                archive_id: entry.archive_id,
                tool: entry.tool,
                command: entry.command,
                created_at: replies[0].now,
            },
            ActionView::InsertContent {
                archive_id: entry.archive_id,
                tool: entry.tool,
                command: entry.command,
                content: entry.content,
            },
            ActionView::CountEntries,
        ]);
    }
}

/// **What an addition does after counting.** A number of entries that is a multiple of
/// 200 has the size limit enforced, from its beginning on; another number has the log
/// measured. A count that fails counts as none, and has the limit enforced.
pub proof fn law_what_an_addition_does_after_counting(
    entry: EntryView,
    replies: Seq<Reply>,
    n: i64,
)
    requires
        replies.len() == 4,
        replies[0].event != EventView::Found(true),
        0 <= n <= usize::MAX,
    ensures
        ({
            let end = reached(PhaseView::start(CommandView::Index(entry)), replies);
            &&& replies[3].event == EventView::Count(Some(n)) && n as int % 200 == 0
                || replies[3].event == EventView::Count(None) ==> end == model::enforcement(
                Some(entry),
                EnforceView::ReadSetting,
            )
            &&& replies[3].event == EventView::Count(Some(n)) && n as int % 200 != 0 ==> end
                == model::past_enforcement(Some(entry))
        }),
{
    reveal_with_fuel(reached, 5);
    let later = replies.drop_first();
    let last = later.drop_first();
    assert(later.first() == replies[1] && last.first() == replies[2]);
    assert(last.drop_first().first() == replies[3]);
}

/// **The log is measured, and cut back where it is large.** An addition that is past
/// its enforcement asks for the size of the log. Where that is more than 32 mebibytes
/// the log is cut back, and that is the end; else that is the end at once.
pub proof fn law_an_addition_bounds_the_log(
    entry: EntryView,
    length: u64,
    event: EventView,
    now: Seq<char>,
)
    ensures
        ({
            let phase = model::past_enforcement(Some(entry));
            let next = phase.advance(EventView::Length(Some(length)), now);
            &&& phase.action() is MeasureWal
            &&& length <= 33_554_432 ==> next is Idle
            &&& length > 33_554_432 ==> next.action() is TruncateWal && next.advance(event, now) is Idle
            &&& phase.advance(EventView::Length(None), now) is Idle
        }),
{
}

/// **What a removal asks for.** Whatever the replies are, a removal deletes the rows
/// with the whole identifier from the one table and then from the other. Then it asks
/// for the size of the log. Where that is more than 32 mebibytes the log is cut back,
/// and that is the end; else that is the end at once.
pub proof fn law_what_a_removal_asks_for(
    archive_id: Seq<char>,
    replies: Seq<Reply>,
    length: u64,
    event: EventView,
    now: Seq<char>,
)
    requires
        replies.len() == 2,
    ensures
        ({
            let start = PhaseView::start(CommandView::Remove { archive_id });
            let measuring = reached(start, replies);
            let next = measuring.advance(EventView::Length(Some(length)), now);
            &&& asked(start, replies) == seq![
                ActionView::DeleteMeta { archive_id },
                ActionView::DeleteContent { archive_id },
            ]
            &&& measuring.action() is MeasureWal
            &&& length <= 33_554_432 ==> next is Idle
            &&& length > 33_554_432 ==> next.action() is TruncateWal && next.advance(event, now) is Idle
            &&& measuring.advance(EventView::Length(None), now) is Idle
        }),
{
    reveal_with_fuel(asked, 3);
    reveal_with_fuel(reached, 3);
    assert(replies.drop_first().first() == replies[1]);
    let start = PhaseView::start(CommandView::Remove { archive_id });
    assert(asked(start, replies) =~= seq![
        ActionView::DeleteMeta { archive_id },
        ActionView::DeleteContent { archive_id },
    ]);
}

/// **How an enforcement begins.** It reads the limit and measures the database. Where
/// the three files are together no larger than the limit, it is over; else it begins
/// its first round, with that limit.
pub proof fn law_how_an_enforcement_begins(
    within: Option<EntryView>,
    setting: Option<Seq<char>>,
    main: Option<u64>,
    log: Option<u64>,
    index: Option<u64>,
    now: Seq<char>,
)
    ensures
        ({
            let start = model::enforcement(within, EnforceView::ReadSetting);
            let measuring = start.advance(EventView::Setting(setting), now);
            let limit = EventView::Setting(setting).cap();
            let sum = number_laws::bytes_of(main) + number_laws::bytes_of(log)
                + number_laws::bytes_of(index);
            let next = measuring.advance(EventView::Lengths(seq![main, log, index]), now);
            &&& PhaseView::start(CommandView::EnforceCap) == model::enforcement(
                None,
                EnforceView::ReadSetting,
            )
            &&& start.action() is ReadCapSetting
            &&& measuring.action() is MeasureDb
            &&& sum <= limit ==> next == model::past_enforcement(within)
            &&& sum > limit && limit < u64::MAX ==> next == model::enforcement(
                within,
                EnforceView::Count { cap: limit, before: None },
            )
        }),
{
    number_laws::law_the_database_is_its_three_files(main, log, index);
}

/// What is asked for while the entries `ids` are removed.
proof fn lemma_eviction(
    within: Option<EntryView>,
    cap: u64,
    pace: Pace,
    ids: Seq<Seq<char>>,
    replies: Seq<Reply>,
)
    requires
        ids.len() > 0,
        replies.len() == 3 * ids.len(),
    ensures
        ({
            let phase = model::enforcement(within, EnforceView::evict(cap, pace, ids, None).unwrap());
            let actions = asked(phase, replies);
            &&& actions.len() == 3 * ids.len()
            &&& forall|i: int|
                0 <= i < ids.len() ==> actions[3 * i] == (ActionView::DeleteMeta {
                    archive_id: #[trigger] ids[i],
                }) && actions[3 * i + 1] == (ActionView::DeleteContent { archive_id: ids[i] })
                    && actions[3 * i + 2] == (ActionView::RemoveFiles { archive_id: ids[i] })
            &&& reached(phase, replies) == model::enforcement(
                within,
                EnforceView::Reclaim { cap, pace },
            )
        }),
    decreases ids.len(),
{
    let phase = model::enforcement(within, EnforceView::evict(cap, pace, ids, None).unwrap());
    let actions = asked(phase, replies);
    lemma_asked_len(phase, replies);
    reveal_with_fuel(asked, 4);
    reveal_with_fuel(reached, 4);
    let r1 = replies.drop_first();
    let r2 = r1.drop_first();
    let later = r2.drop_first();
    let rest = ids.drop_first();
    assert(actions[0] == (ActionView::DeleteMeta { archive_id: ids[0] }));
    assert(actions[1] == (ActionView::DeleteContent { archive_id: ids[0] }));
    assert(actions[2] == (ActionView::RemoveFiles { archive_id: ids[0] }));
    if rest.len() > 0 {
        lemma_eviction(within, cap, pace, rest, later);
        let next = model::enforcement(within, EnforceView::evict(cap, pace, rest, None).unwrap());
        assert(actions.skip(3) =~= asked(next, later));
        assert forall|i: int| 0 <= i < ids.len() implies actions[3 * i] == (ActionView::DeleteMeta {
            archive_id: #[trigger] ids[i],
        }) && actions[3 * i + 1] == (ActionView::DeleteContent { archive_id: ids[i] })
            && actions[3 * i + 2] == (ActionView::RemoveFiles { archive_id: ids[i] }) by {
            if i > 0 {
                assert(rest[i - 1] == ids[i]);
                assert(actions[3 * i] == actions.skip(3)[3 * (i - 1)]);
                assert(actions[3 * i + 1] == actions.skip(3)[3 * (i - 1) + 1]);
                assert(actions[3 * i + 2] == actions.skip(3)[3 * (i - 1) + 2]);
            }
        }
    }
}

/// **What a round asks for.** A round that is told of `n` entries and does not give up
/// asks for the oldest: the tenth part of `n`, rounded down, or fifty where that is
/// less. Of each entry that is listed, in order, it then deletes what is known of it,
/// deletes its searchable text and removes its files; no other entry is touched. Then
/// it gives the space back and measures the database. Where the size is no more than
/// the limit that was read, the enforcement is over; else another round follows.
pub proof fn law_what_a_round_asks_for(
    within: Option<EntryView>,
    cap: u64,
    before: Option<Pace>,
    n: i64,
    replies: Seq<Reply>,
)
    requires
        n != 0,
        Pace::kept(before, n) is Some,
        replies.len() >= 2,
        replies[0].event == EventView::Count(Some(n)),
        replies[1].event.ids().len() > 0,
        replies.len() == 4 + 3 * replies[1].event.ids().len(),
    ensures
        ({
            let round = model::enforcement(within, EnforceView::Count { cap, before });
            let actions = asked(round, replies);
            let ids = replies[1].event.ids();
            let k = ids.len() as int;
            &&& actions.len() == 4 + 3 * k
            &&& actions[0] is CountEntries
            &&& actions[1] is SelectOldest
            &&& n >= 510 ==> 10 * actions[1]->limit <= n < 10 * (actions[1]->limit + 1)
            &&& n < 510 ==> actions[1]->limit == 50
            &&& forall|i: int|
                0 <= i < k ==> actions[2 + 3 * i] == (ActionView::DeleteMeta {
                    archive_id: #[trigger] ids[i],
                }) && actions[3 + 3 * i] == (ActionView::DeleteContent { archive_id: ids[i] })
                    && actions[4 + 3 * i] == (ActionView::RemoveFiles { archive_id: ids[i] })
            &&& actions[2 + 3 * k] is Reclaim
            &&& actions[3 + 3 * k] is MeasureDb
            &&& reached(round, replies) == if replies.last().event.size() <= cap {
                model::past_enforcement(within)
            } else {
                model::enforcement(
                    within,
                    EnforceView::Count { cap, before: Pace::kept(before, n) },
                )
            }
        }),
{
    let round = model::enforcement(within, EnforceView::Count { cap, before });
    let ids = replies[1].event.ids();
    let k = ids.len() as int;
    let pace = Pace::kept(before, n).unwrap();
    let head = replies.take(2);
    let middle = replies.skip(2).take(3 * k);
    let tail = replies.skip(2).skip(3 * k);
    let evicting = model::enforcement(within, EnforceView::evict(cap, pace, ids, None).unwrap());
    let reclaiming = model::enforcement(within, EnforceView::Reclaim { cap, pace });
    lemma_asked_len(round, replies);
    lemma_in_two_parts(round, replies, 2);
    assert(reached(round, head) == evicting && asked(round, head).len() == 2 && asked(round, head)[0]
        == round.action() && asked(round, head)[1] is SelectOldest && asked(round, head)[1]->limit
        == budget::batch_of(n as int)) by {
        reveal_with_fuel(asked, 3);
        reveal_with_fuel(reached, 3);
        assert(head.first() == replies[0]);
        assert(head.drop_first().first() == replies[1]);
        assert(head.drop_first().drop_first().len() == 0);
    }
    lemma_in_two_parts(evicting, replies.skip(2), 3 * k);
    lemma_eviction(within, cap, pace, ids, middle);
    assert(tail.len() == 2);
    assert(tail[1] == replies.last());
    assert(asked(reclaiming, tail).len() == 2 && asked(reclaiming, tail)[0] is Reclaim && asked(
        reclaiming,
        tail,
    )[1] is MeasureDb && reached(reclaiming, tail) == if replies.last().event.size() <= cap {
        model::past_enforcement(within)
    } else {
        model::enforcement(within, EnforceView::Count { cap, before: Some(pace) })
    }) by {
        reveal_with_fuel(asked, 3);
        reveal_with_fuel(reached, 3);
        assert(tail.drop_first().first() == tail[1]);
        assert(tail.drop_first().drop_first().len() == 0);
    }
    let actions = asked(round, replies);
    let evictions = asked(evicting, middle);
    assert(actions == asked(round, head) + (evictions + asked(reclaiming, tail)));
    assert forall|i: int| 0 <= i < k implies actions[2 + 3 * i] == (ActionView::DeleteMeta {
        archive_id: #[trigger] ids[i],
    }) && actions[3 + 3 * i] == (ActionView::DeleteContent { archive_id: ids[i] }) && actions[4 + 3
        * i] == (ActionView::RemoveFiles { archive_id: ids[i] }) by {
        assert(actions[2 + 3 * i] == evictions[3 * i]);
        assert(actions[3 + 3 * i] == evictions[3 * i + 1]);
        assert(actions[4 + 3 * i] == evictions[3 * i + 2]);
    }
}

/// **When a round ends the enforcement early.** A count of none ends it, and so does a
/// list of none.
pub proof fn law_nothing_to_delete_ends_an_enforcement(
    within: Option<EntryView>,
    cap: u64,
    before: Option<Pace>,
    pace: Pace,
    limit: int,
    now: Seq<char>,
)
    ensures
        ({
            let counting = model::enforcement(within, EnforceView::Count { cap, before });
            let listing = model::enforcement(
                within,
                EnforceView::Select { cap, pace, batch: limit },
            );
            &&& counting.advance(EventView::Count(Some(0)), now) == model::past_enforcement(within)
            &&& counting.advance(EventView::Count(None), now) == model::past_enforcement(within)
            &&& listing.action() == (ActionView::SelectOldest { limit })
            &&& listing.advance(EventView::Ids(None), now) == model::past_enforcement(within)
        }),
{
}

/// **What an opening asks for.** A writer that has been told nothing holds no command.
/// It has the directory created, connects, and runs the set-up script. Where the
/// connection or the script fails it waits, first for 200 milliseconds and each time
/// twice as long, up to three minutes, and begins again; else it is ready for a
/// command.
pub proof fn law_what_an_opening_asks_for(
    millis: u64,
    connected: bool,
    prepared: bool,
    event: EventView,
    now: Seq<char>,
)
    ensures
        WriterView::fresh().queue.len() == 0,
        WriterView::fresh().phase == PhaseView::Opening(
            OpenJob { step: OpenStep::CreateParent, backoff_ms: 200 },
        ),
        ({
            let start = PhaseView::Opening(
                OpenJob { step: OpenStep::CreateParent, backoff_ms: millis },
            );
            let connecting = start.advance(event, now);
            let tried = connecting.advance(EventView::Outcome(connected), now);
            let failed = if connected {
                tried.advance(EventView::Outcome(prepared), now)
            } else {
                tried
            };
            let again = PhaseView::Opening(
                OpenJob {
                    step: OpenStep::CreateParent,
                    backoff_ms: if millis <= 90_000 {
                        (2 * millis) as u64
                    } else {
                        180_000
                    },
                },
            );
            &&& start.action() is CreateParent
            &&& connecting.action() is Connect
            &&& connected ==> tried.action() is Prepare
            &&& connected && prepared ==> failed is Idle
            &&& !(connected && prepared) ==> failed.action() == (ActionView::Sleep { millis })
                && failed.advance(event, now) == again
        }),
{
}

/// **What a waiting writer does.** It takes the first command out of its queue and
/// begins with it; the other commands stay in order. A busy one leaves its queue
/// alone, and what is sent is put at the end.
pub proof fn law_what_a_writer_does_with_its_queue(
    writer: WriterView,
    command: CommandView,
    event: EventView,
    now: Seq<char>,
)
    requires
        !(writer.phase is Gone),
    ensures
        writer.send(command).queue.len() == writer.queue.len() + 1,
        writer.send(command).queue.drop_last() == writer.queue,
        writer.send(command).queue.last() == command,
        writer.send(command).phase == writer.phase,
        writer.phase is Idle && writer.queue.len() > 0 ==> writer.advance(event, now).queue
            == writer.queue.skip(1) && writer.advance(event, now).phase == PhaseView::start(
            writer.queue[0],
        ),
        !(writer.phase is Idle) ==> writer.advance(event, now).queue == writer.queue
            && writer.advance(event, now).phase == writer.phase.advance(event, now),
        writer.phase is Idle && writer.queue.len() == 0 ==> writer.advance(event, now) == writer,
{
    assert(writer.send(command).queue.drop_last() =~= writer.queue);
    assert(writer.queue.drop_first() =~= writer.queue.skip(1));
}

/// **A writer that is gone does nothing.** It takes no command, and no reply changes it.
pub proof fn law_a_writer_that_is_gone_does_nothing(
    writer: WriterView,
    command: CommandView,
    event: EventView,
    now: Seq<char>,
)
    requires
        writer.phase is Gone,
    ensures
        writer.send(command) == writer,
        writer.advance(event, now) == writer,
        writer.phase.action() is AwaitCommand,
{
}

/// **When the time is asked for.** The writer asks what time it is exactly where it
/// learns that the entry which it is to add is not there, and writes the time that it
/// is given then. No other step depends on the time.
pub proof fn law_when_the_time_is_asked_for(
    writer: WriterView,
    event: EventView,
    now: Seq<char>,
    other: Seq<char>,
)
    ensures
        writer.needs_stamp(event) <==> writer.phase.action() is FindEntry && event
            != EventView::Found(true),
        writer.needs_stamp(event) ==> writer.advance(event, now).phase.action() is InsertMeta
            && writer.advance(event, now).phase.action()->created_at == now,
        !writer.needs_stamp(event) ==> writer.advance(event, now) == writer.advance(event, other),
{
}

} // verus!
