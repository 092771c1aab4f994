//! What holds of the writer's queue, of the opening of the database, and of the end
//! of a command.

use crate::action::EventView;
use crate::budget;
use crate::enforce::{EnforceView, Pace, Part};
use crate::index::{IndexStepView, RemoveView};
use crate::laws;
use crate::model;
use crate::model::{Reply, Store};
use crate::open::{OpenJob, OpenStep};
use crate::writer::{CommandView, PhaseView, WriterView};
use vstd::arithmetic::power2;
use vstd::prelude::*;

verus! {

/// Something that happens to the writer.
pub enum Input {
    /// A command is sent to it.
    Send(CommandView),
    /// A reply comes to what it asked for.
    Answer(Reply),
}

/// The commands that are sent, in order.
pub open spec fn sent(inputs: Seq<Input>) -> Seq<CommandView>
    decreases inputs.len(),
{
    if inputs.len() == 0 {
        Seq::empty()
    } else {
        match inputs.first() {
            Input::Send(command) => seq![command] + sent(inputs.drop_first()),
            Input::Answer(_) => sent(inputs.drop_first()),
        }
    }
}

/// The writer after one input.
pub open spec fn take(writer: WriterView, input: Input) -> WriterView {
    match input {
        Input::Send(command) => writer.send(command),
        Input::Answer(reply) => writer.advance(reply.event, reply.now),
    }
}

/// The command that the writer starts on with an input, if it does.
pub open spec fn starts(writer: WriterView, input: Input) -> Seq<CommandView> {
    if input is Answer && writer.phase is Idle && writer.queue.len() > 0 {
        seq![writer.queue.first()]
    } else {
        Seq::empty()
    }
}

/// The writer after some inputs, and the commands that it has started on, in order.
pub open spec fn serve(writer: WriterView, inputs: Seq<Input>) -> (WriterView, Seq<CommandView>)
    decreases inputs.len(),
{
    if inputs.len() == 0 {
        (writer, Seq::empty())
    } else {
        let (end, later) = serve(take(writer, inputs.first()), inputs.drop_first());
        (end, starts(writer, inputs.first()) + later)
    }
}

/// **First in, first out, and none lost.** The commands that the writer has
/// started on, followed by those that still wait, are those that waited at the
/// beginning, followed by those that were sent since, in order.
pub proof fn law_commands_are_served_in_order(writer: WriterView, inputs: Seq<Input>)
    requires
        !(writer.phase is Gone),
    ensures
        ({
            let (end, started) = serve(writer, inputs);
            &&& started + end.queue == writer.queue + sent(inputs)
            &&& !(end.phase is Gone)
        }),
    decreases inputs.len(),
{
    if inputs.len() == 0 {
        assert(Seq::<CommandView>::empty() + writer.queue =~= writer.queue + sent(inputs));
    } else {
        let input = inputs.first();
        let next = take(writer, input);
        let later = inputs.drop_first();
        law_commands_are_served_in_order(next, later);
        let (end, started) = serve(next, later);
        let all = starts(writer, input) + started;
        assert(starts(writer, input) + next.queue =~= match input {
            Input::Send(command) => writer.queue.push(command),
            Input::Answer(_) => writer.queue,
        });
        assert(all + end.queue =~= starts(writer, input) + (started + end.queue));
        assert(starts(writer, input) + (next.queue + sent(later)) =~= (starts(writer, input)
            + next.queue) + sent(later));
        assert(writer.queue + sent(inputs) =~= match input {
            Input::Send(command) => writer.queue.push(command) + sent(later),
            Input::Answer(_) => writer.queue + sent(later),
        });
    }
}

/// A writer that has opened the database does not open it again.
proof fn lemma_stays_open(writer: WriterView, inputs: Seq<Input>)
    requires
        !(writer.phase is Opening),
    ensures
        !(serve(writer, inputs).0.phase is Opening),
    decreases inputs.len(),
{
    if inputs.len() > 0 {
        lemma_stays_open(take(writer, inputs.first()), inputs.drop_first());
    }
}

/// **Commands wait for the database.** For as long as the database is not open no
/// command is started on, and all that were sent wait in the queue.
pub proof fn law_commands_wait_for_the_database(writer: WriterView, inputs: Seq<Input>)
    requires
        writer.phase is Opening,
        serve(writer, inputs).0.phase is Opening,
    ensures
        serve(writer, inputs).1 == Seq::<CommandView>::empty(),
        serve(writer, inputs).0.queue == writer.queue + sent(inputs),
    decreases inputs.len(),
{
    law_commands_are_served_in_order(writer, inputs);
    if inputs.len() > 0 {
        let next = take(writer, inputs.first());
        if !(next.phase is Opening) {
            lemma_stays_open(next, inputs.drop_first());
        }
        law_commands_wait_for_the_database(next, inputs.drop_first());
        assert(starts(writer, inputs.first()) + Seq::<CommandView>::empty() =~= Seq::<
            CommandView,
        >::empty());
    }
    let end = serve(writer, inputs).0;
    assert(Seq::<CommandView>::empty() + end.queue =~= end.queue);
}

/// The writer and the store after some inputs.
pub open spec fn work(writer: WriterView, store: Store, inputs: Seq<Input>) -> (WriterView, Store)
    decreases inputs.len(),
{
    if inputs.len() == 0 {
        (writer, store)
    } else {
        work(
            take(writer, inputs.first()),
            if inputs.first() is Answer {
                store.after(writer.phase.action())
            } else {
                store
            },
            inputs.drop_first(),
        )
    }
}

/// Whether each reply among `inputs` is faithful.
pub open spec fn faithful_work(writer: WriterView, store: Store, inputs: Seq<Input>) -> bool
    decreases inputs.len(),
{
    inputs.len() > 0 ==> match inputs.first() {
        Input::Send(_) => faithful_work(take(writer, inputs.first()), store, inputs.drop_first()),
        Input::Answer(reply) => {
            &&& store.answers(writer.phase.action(), reply.event)
            &&& faithful_work(
                take(writer, inputs.first()),
                store.after(writer.phase.action()),
                inputs.drop_first(),
            )
        },
    }
}

/// Whether carrying out `commands` one after the other, each with faithful
/// replies, can lead from the store `start` to the store `end`.
pub open spec fn leads(commands: Seq<CommandView>, start: Store, end: Store) -> bool
    decreases commands.len(),
{
    if commands.len() == 0 {
        start == end
    } else {
        exists|replies: Seq<Reply>, middle: Store| #[trigger]
            model::carried_out(commands.first(), start, replies, middle) && leads(
                commands.drop_first(),
                middle,
                end,
            )
    }
}

/// Whether finishing what the writer is doing, and then carrying out `commands`,
/// can lead from the store `start` to the store `end`.
spec fn leads_on(phase: PhaseView, commands: Seq<CommandView>, start: Store, end: Store) -> bool {
    if phase is Idle || phase is Opening {
        leads(commands, start, end)
    } else {
        exists|replies: Seq<Reply>, middle: Store|
            #![trigger model::carry_out(phase, start, replies), leads(commands, middle, end)]
            model::faithful(phase, start, replies) && model::carry_out(phase, start, replies) == (
                PhaseView::Idle,
                middle,
            ) && leads(commands, middle, end)
    }
}

/// A command at the head of others is started and then finished.
proof fn lemma_leads_first(commands: Seq<CommandView>, start: Store, end: Store)
    requires
        commands.len() > 0,
        leads_on(PhaseView::start(commands.first()), commands.drop_first(), start, end),
    ensures
        leads(commands, start, end),
{
    let phase = PhaseView::start(commands.first());
    let (replies, middle) = choose|replies: Seq<Reply>, middle: Store|
        #![trigger model::carry_out(phase, start, replies), leads(commands.drop_first(), middle, end)]
        model::faithful(phase, start, replies) && model::carry_out(phase, start, replies) == (
            PhaseView::Idle,
            middle,
        ) && leads(commands.drop_first(), middle, end);
    assert(model::carried_out(commands.first(), start, replies, middle));
}

/// A reply to what the writer is doing is the first of those that finish it.
proof fn lemma_leads_reply(
    phase: PhaseView,
    reply: Reply,
    commands: Seq<CommandView>,
    start: Store,
    end: Store,
)
    requires
        !(phase is Idle),
        !(phase is Opening),
        !(phase is Gone),
        start.answers(phase.action(), reply.event),
        leads_on(
            phase.advance(reply.event, reply.now),
            commands,
            start.after(phase.action()),
            end,
        ),
    ensures
        leads_on(phase, commands, start, end),
{
    let next = phase.advance(reply.event, reply.now);
    let after = start.after(phase.action());
    let (later, middle) = if next is Idle {
        (Seq::<Reply>::empty(), after)
    } else {
        choose|later: Seq<Reply>, middle: Store|
            #![trigger model::carry_out(next, after, later), leads(commands, middle, end)]
            model::faithful(next, after, later) && model::carry_out(next, after, later) == (
                PhaseView::Idle,
                middle,
            ) && leads(commands, middle, end)
    };
    let replies = seq![reply] + later;
    assert(replies.first() == reply);
    assert(replies.drop_first() =~= later);
    assert(model::faithful(next, after, later));
    assert(model::carry_out(next, after, later) == (PhaseView::Idle, middle));
    assert(model::faithful(phase, start, replies));
    assert(model::carry_out(phase, start, replies) == (PhaseView::Idle, middle));
    assert(leads(commands, middle, end));
}

/// What the writer works off from any of its steps on.
proof fn lemma_work(writer: WriterView, store: Store, inputs: Seq<Input>)
    requires
        !(writer.phase is Gone),
        faithful_work(writer, store, inputs),
        work(writer, store, inputs).0.phase is Idle,
        work(writer, store, inputs).0.queue.len() == 0,
    ensures
        leads_on(
            writer.phase,
            writer.queue + sent(inputs),
            store,
            work(writer, store, inputs).1,
        ),
    decreases inputs.len(),
{
    let end = work(writer, store, inputs).1;
    let commands = writer.queue + sent(inputs);
    if inputs.len() > 0 {
        let next = take(writer, inputs.first());
        let later = inputs.drop_first();
        match inputs.first() {
            Input::Send(command) => {
                lemma_work(next, store, later);
                assert(next.queue + sent(later) =~= commands);
            },
            Input::Answer(reply) => {
                let after = store.after(writer.phase.action());
                lemma_work(next, after, later);
                if writer.phase is Idle && writer.queue.len() > 0 {
                    assert(next.queue + sent(later) =~= commands.drop_first());
                    assert(commands.first() == writer.queue.first());
                    lemma_leads_first(commands, store, end);
                } else {
                    assert(next.queue + sent(later) =~= commands);
                    if !(writer.phase is Idle) && !(writer.phase is Opening) {
                        lemma_leads_reply(writer.phase, reply, commands, store, end);
                    }
                }
            },
        }
    }
}

/// **The tables are what the commands make of them.** Where the writer has opened
/// the database and worked its queue off, the store is as the commands that waited
/// and were sent, carried out one after the other in order, leave it.
pub proof fn law_a_queue_is_worked_off_in_order(
    writer: WriterView,
    store: Store,
    inputs: Seq<Input>,
)
    requires
        writer.phase is Idle || writer.phase is Opening,
        faithful_work(writer, store, inputs),
        work(writer, store, inputs).0.phase is Idle,
        work(writer, store, inputs).0.queue.len() == 0,
    ensures
        leads(writer.queue + sent(inputs), store, work(writer, store, inputs).1),
        work(writer, store, inputs).0 == serve(writer, inputs).0,
{
    lemma_work(writer, store, inputs);
    lemma_work_serves(writer, store, inputs);
}

/// A command leaves a finite table finite.
proof fn lemma_stays_finite(command: CommandView, start: Store, replies: Seq<Reply>, end: Store)
    requires
        model::carried_out(command, start, replies, end),
        start.meta.dom().finite(),
    ensures
        end.meta.dom().finite(),
{
    match command {
        CommandView::Index(entry) => {
            if start.meta.contains_key(entry.archive_id) {
                laws::law_index_leaves_a_present_entry(entry, start, replies, end);
            } else {
                laws::law_index_adds_a_new_entry(entry, start, replies, end);
                let grown = start.with(entry, replies.first().now);
                assert(end.meta.dom().subset_of(grown.meta.dom()));
                vstd::set_lib::lemma_len_subset(end.meta.dom(), grown.meta.dom());
            }
        },
        CommandView::Remove { archive_id } => {
            laws::law_remove_takes_both_rows(archive_id, start, replies, end);
        },
        CommandView::EnforceCap => {
            laws::law_enforcement_by_command(start, replies, end);
            laws::law_enforcement_removes_the_oldest(None, start, replies, end);
            assert(end.meta.dom().subset_of(start.meta.dom()));
            vstd::set_lib::lemma_len_subset(end.meta.dom(), start.meta.dom());
        },
    }
}

/// **The tables stay in step throughout.** Any number of commands, carried out one
/// after the other, leave the tables in step.
pub proof fn law_commands_keep_the_tables_in_step(
    commands: Seq<CommandView>,
    start: Store,
    end: Store,
)
    requires
        leads(commands, start, end),
        start.in_step(),
        start.meta.dom().finite(),
    ensures
        end.in_step(),
    decreases commands.len(),
{
    if commands.len() > 0 {
        let (replies, middle) = choose|replies: Seq<Reply>, middle: Store| #[trigger]
            model::carried_out(commands.first(), start, replies, middle) && leads(
                commands.drop_first(),
                middle,
                end,
            );
        laws::law_tables_stay_in_step(commands.first(), start, replies, middle);
        lemma_stays_finite(commands.first(), start, replies, middle);
        law_commands_keep_the_tables_in_step(commands.drop_first(), middle, end);
    }
}

/// The writer does not depend on the store, but for the replies.
proof fn lemma_work_serves(writer: WriterView, store: Store, inputs: Seq<Input>)
    ensures
        work(writer, store, inputs).0 == serve(writer, inputs).0,
    decreases inputs.len(),
{
    if inputs.len() > 0 {
        lemma_work_serves(
            take(writer, inputs.first()),
            if inputs.first() is Answer {
                store.after(writer.phase.action())
            } else {
                store
            },
            inputs.drop_first(),
        );
    }
}

/// The replies to one attempt to open the database, and to the wait after it.
pub struct Attempt {
    pub created: EventView,
    pub connected: EventView,
    pub prepared: EventView,
    pub woken: EventView,
}

impl Attempt {
    /// Whether the attempt opens the database.
    pub open spec fn succeeds(self) -> bool {
        self.connected.succeeded() && self.prepared.succeeded()
    }
}

/// The opening after one attempt and, where it fails, the wait after it; nothing
/// where the database is open.
pub open spec fn after_attempt(job: OpenJob, attempt: Attempt) -> Option<OpenJob> {
    let connecting = job.after(attempt.created).unwrap();
    let connected = connecting.after(attempt.connected).unwrap();
    if connected.step is Prepare {
        match connected.after(attempt.prepared) {
            Some(waiting) => waiting.after(attempt.woken),
            None => None,
        }
    } else {
        connected.after(attempt.woken)
    }
}

/// The opening after some attempts; nothing where the database is open.
pub open spec fn after_attempts(job: OpenJob, attempts: Seq<Attempt>) -> Option<OpenJob>
    decreases attempts.len(),
{
    if attempts.len() == 0 {
        Some(job)
    } else {
        match after_attempt(job, attempts.first()) {
            Some(next) => after_attempts(next, attempts.drop_first()),
            None => None,
        }
    }
}

/// An opening that is about to try, and to wait `millis` if it fails.
pub open spec fn about_to_try(millis: u64) -> OpenJob {
    OpenJob { step: OpenStep::CreateParent, backoff_ms: millis }
}

/// The wait after the `n`-th failure, counted from zero.
pub open spec fn wait_of(n: nat) -> u64 {
    let millis = budget::OPEN_BACKOFF_START_MS * power2::pow2(n);
    if millis > budget::OPEN_BACKOFF_MAX_MS {
        budget::OPEN_BACKOFF_MAX_MS
    } else {
        millis as u64
    }
}

/// **One attempt.** An attempt opens the database exactly where the connection
/// and the set-up script both succeed; else the writer tries again after the
/// wait, and will wait for twice as long, up to the longest wait.
pub proof fn law_one_attempt(millis: u64, attempt: Attempt)
    ensures
        after_attempt(about_to_try(millis), attempt) == if attempt.succeeds() {
            None
        } else {
            Some(about_to_try(budget::doubled_wait(millis)))
        },
{
}

/// The wait after a failure is twice the one before it, up to the longest.
proof fn lemma_wait_doubles(n: nat)
    ensures
        wait_of(n + 1) == budget::doubled_wait(wait_of(n)),
{
    power2::lemma_pow2_unfold(n + 1);
    power2::lemma_pow2_pos(n);
}

/// The wait after the first failure is the shortest.
proof fn lemma_first_wait()
    ensures
        wait_of(0) == budget::OPEN_BACKOFF_START_MS,
{
    power2::lemma2_to64();
}

/// What a series of failures that begins with the `n`-th leads to.
proof fn lemma_failures(n: nat, attempts: Seq<Attempt>)
    requires
        forall|i: int| 0 <= i < attempts.len() ==> !(#[trigger] attempts[i]).succeeds(),
    ensures
        after_attempts(about_to_try(wait_of(n)), attempts) == Some(
            about_to_try(wait_of(n + attempts.len())),
        ),
    decreases attempts.len(),
{
    if attempts.len() > 0 {
        assert(!attempts[0].succeeds());
        law_one_attempt(wait_of(n), attempts.first());
        lemma_wait_doubles(n);
        let later = attempts.drop_first();
        assert forall|i: int| 0 <= i < later.len() implies !(#[trigger] later[i]).succeeds() by {
            assert(later[i] == attempts[i + 1]);
        }
        lemma_failures(n + 1, later);
    }
}

/// **The waits double up to the longest.** After any number of failures the
/// writer is still trying to open the database, and the wait after the next
/// failure is the shortest wait doubled once for each failure, or the longest
/// wait where that is less.
pub proof fn law_waits_double_up_to_the_longest(attempts: Seq<Attempt>)
    requires
        forall|i: int| 0 <= i < attempts.len() ==> !(#[trigger] attempts[i]).succeeds(),
    ensures
        after_attempts(about_to_try(budget::OPEN_BACKOFF_START_MS), attempts) == Some(
            about_to_try(wait_of(attempts.len())),
        ),
        budget::OPEN_BACKOFF_START_MS <= wait_of(attempts.len()) <= budget::OPEN_BACKOFF_MAX_MS,
{
    lemma_first_wait();
    lemma_failures(0, attempts);
    power2::lemma_pow2_pos(attempts.len());
    assert(budget::OPEN_BACKOFF_START_MS * power2::pow2(attempts.len())
        >= budget::OPEN_BACKOFF_START_MS) by (nonlinear_arith)
        requires
            power2::pow2(attempts.len()) >= 1,
    ;
}

/// What the writer is doing after `n` of the replies `replies(from)`,
/// `replies(from + 1)` and so on. No command is started after the one that it is
/// busy with.
pub open spec fn after_replies(
    phase: PhaseView,
    replies: spec_fn(nat) -> Reply,
    from: nat,
    n: nat,
) -> PhaseView
    decreases n,
{
    if n == 0 {
        phase
    } else {
        after_replies(
            phase.advance(replies(from).event, replies(from).now),
            replies,
            from + 1,
            (n - 1) as nat,
        )
    }
}

/// The rounds without progress that an enforcement may still make.
spec fn patience(pace: Pace) -> int {
    if pace.stalled < budget::MAX_STALLED_ROUNDS {
        budget::MAX_STALLED_ROUNDS - pace.stalled
    } else {
        0
    }
}

/// How far an enforcement is from its end: the fewest entries that it has found,
/// the rounds without progress that it may still make, the steps that are left of
/// the round, and what is left of the batch.
spec fn enforcement_left(job: EnforceView) -> (int, int, int, int) {
    let top = i64::MAX - i64::MIN;
    match job {
        EnforceView::ReadSetting => (top + 3, 0, 0, 0),
        EnforceView::Measure { .. } => (top + 2, 0, 0, 0),
        EnforceView::Count { before: None, .. } => (top + 1, 0, 0, 0),
        EnforceView::Count { before: Some(pace), .. } => (
            pace.fewest - i64::MIN,
            patience(pace),
            0,
            0,
        ),
        EnforceView::Select { pace, .. } => (pace.fewest - i64::MIN, patience(pace), 4, 0),
        EnforceView::Evict { pace, part, rest, .. } => (
            pace.fewest - i64::MIN,
            patience(pace),
            3,
            3 * rest.len() + match part {
                Part::Meta => 2int,
                Part::Content => 1int,
                Part::Files => 0int,
            },
        ),
        EnforceView::Reclaim { pace, .. } => (pace.fewest - i64::MIN, patience(pace), 2, 0),
        EnforceView::Remeasure { pace, .. } => (pace.fewest - i64::MIN, patience(pace), 1, 0),
    }
}

/// How far the writer is from the end of the command that it is busy with.
spec fn left(phase: PhaseView) -> (int, int, int, int, int) {
    match phase {
        PhaseView::Indexing(job) => match job.step {
            IndexStepView::Find => (7, 0, 0, 0, 0),
            IndexStepView::InsertMeta { .. } => (6, 0, 0, 0, 0),
            IndexStepView::InsertContent => (5, 0, 0, 0, 0),
            IndexStepView::Count => (4, 0, 0, 0, 0),
            IndexStepView::Enforce(inner) => {
                let (a, b, c, d) = enforcement_left(inner);
                (3, a, b, c, d)
            },
            IndexStepView::MeasureWal => (2, 0, 0, 0, 0),
            IndexStepView::TruncateWal => (1, 0, 0, 0, 0),
        },
        PhaseView::Removing(job) => match job {
            RemoveView::Meta { .. } => (4, 0, 0, 0, 0),
            RemoveView::Content { .. } => (3, 0, 0, 0, 0),
            RemoveView::MeasureWal => (2, 0, 0, 0, 0),
            RemoveView::TruncateWal => (1, 0, 0, 0, 0),
        },
        PhaseView::Enforcing(job) => {
            let (a, b, c, d) = enforcement_left(job);
            (1, a, b, c, d)
        },
        _ => (0, 0, 0, 0, 0),
    }
}

/// The number of replies after which the writer is through.
proof fn lemma_ends(phase: PhaseView, replies: spec_fn(nat) -> Reply, from: nat) -> (n: nat)
    requires
        !(phase is Opening),
        !(phase is Gone),
    ensures
        after_replies(phase, replies, from, n) is Idle,
    decreases left(phase).0, left(phase).1, left(phase).2, left(phase).3, left(phase).4,
{
    if phase is Idle {
        0
    } else {
        let next = phase.advance(replies(from).event, replies(from).now);
        let n = lemma_ends(next, replies, from + 1);
        assert(after_replies(phase, replies, from, n + 1) == after_replies(
            next,
            replies,
            from + 1,
            n,
        ));
        n + 1
    }
}

/// **Every command comes to an end.** Whatever the replies are, the writer is
/// through with a command after some number of them.
pub proof fn law_every_command_ends(command: CommandView, replies: spec_fn(nat) -> Reply)
    ensures
        exists|n: nat| after_replies(PhaseView::start(command), replies, 0, n) is Idle,
{
    let n = lemma_ends(PhaseView::start(command), replies, 0);
    assert(after_replies(PhaseView::start(command), replies, 0, n) is Idle);
}

/// An enforcement after some replies, in order, or nothing where it is over.
pub open spec fn enforcement_after(events: Seq<EventView>) -> Option<EnforceView>
    decreases events.len(),
{
    if events.len() == 0 {
        Some(EnforceView::ReadSetting)
    } else {
        match enforcement_after(events.drop_last()) {
            Some(job) => job.advance(events.last()),
            None => None,
        }
    }
}

/// The numbers of entries that the rounds of an enforcement find, in order.
pub open spec fn counts(events: Seq<EventView>) -> Seq<i64>
    decreases events.len(),
{
    if events.len() == 0 {
        Seq::empty()
    } else {
        let earlier = counts(events.drop_last());
        match enforcement_after(events.drop_last()) {
            Some(EnforceView::Count { .. }) => earlier.push(events.last().count()),
            _ => earlier,
        }
    }
}

/// Whether the last `MAX_STALLED_ROUNDS` batches have left no fewer entries than
/// were found before the first of them.
pub open spec fn stalled(counts: Seq<i64>) -> bool {
    let first = counts.len() - 1 - budget::MAX_STALLED_ROUNDS;
    first >= 0 && forall|i: int| first <= i < counts.len() ==> counts[first] <= #[trigger] counts[i]
}

/// Whether `pace` says how the rounds that have found `counts` have fared.
spec fn fared(pace: Pace, counts: Seq<i64>) -> bool {
    let first = counts.len() - 1 - pace.stalled;
    &&& pace.stalled < budget::MAX_STALLED_ROUNDS
    &&& first >= 0
    &&& counts[first] == pace.fewest
    &&& forall|i: int| 0 <= i < first ==> #[trigger] counts[i] > pace.fewest
    &&& forall|i: int| first <= i < counts.len() ==> #[trigger] counts[i] >= pace.fewest
}

/// How an enforcement remembers what its rounds have found.
proof fn lemma_fared(events: Seq<EventView>)
    ensures
        enforcement_after(events) matches Some(job) ==> match job {
            EnforceView::ReadSetting => counts(events).len() == 0,
            EnforceView::Measure { .. } => counts(events).len() == 0,
            EnforceView::Count { before: None, .. } => counts(events).len() == 0,
            EnforceView::Count { before: Some(pace), .. } => fared(pace, counts(events)),
            EnforceView::Select { pace, .. } => fared(pace, counts(events)),
            EnforceView::Evict { pace, .. } => fared(pace, counts(events)),
            EnforceView::Reclaim { pace, .. } => fared(pace, counts(events)),
            EnforceView::Remeasure { pace, .. } => fared(pace, counts(events)),
        },
    decreases events.len(),
{
    if events.len() > 0 {
        lemma_fared(events.drop_last());
    }
}

/// **An enforcement is persistent.** Whatever the replies are, by which the
/// statements may fail or other entries may have come, an enforcement ends with a
/// reply if and only if that is a size within the limit, a number of entries that
/// is zero, an empty list of entries, or a number of entries by which the last
/// `MAX_STALLED_ROUNDS` batches have left no fewer than were found before the first
/// of them.
pub proof fn law_enforcement_is_persistent(events: Seq<EventView>, event: EventView)
    requires
        enforcement_after(events) is Some,
    ensures
        enforcement_after(events.push(event)) is None <==> match enforcement_after(events) {
            Some(EnforceView::Measure { cap }) => event.size() <= cap,
            Some(EnforceView::Count { .. }) => event.count() == 0 || stalled(
                counts(events.push(event)),
            ),
            Some(EnforceView::Select { .. }) => event.ids().len() == 0,
            Some(EnforceView::Remeasure { cap, .. }) => event.size() <= cap,
            _ => false,
        },
{
    let all = events.push(event);
    assert(all.drop_last() =~= events);
    lemma_fared(events);
    let job = enforcement_after(events).unwrap();
    if job is Count {
        let earlier = counts(events);
        let now = counts(all);
        assert(now == earlier.push(event.count()));
        let start = now.len() - 1 - budget::MAX_STALLED_ROUNDS;
        if let EnforceView::Count { before: Some(pace), .. } = job {
            let first = earlier.len() - 1 - pace.stalled;
            assert(now[first] == earlier[first]);
            assert(now.last() == event.count());
            if Pace::kept(Some(pace), event.count()) is None {
                assert(start == first);
                assert forall|i: int| start <= i < now.len() implies now[start]
                    <= #[trigger] now[i] by {
                    if i < earlier.len() {
                        assert(now[i] == earlier[i]);
                    }
                }
            } else if start >= 0 {
                assert(now[start] == earlier[start]);
            }
        }
    }
}

} // verus!
