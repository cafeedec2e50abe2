//! What holds of a run as a whole: of every sequence of events that a run
//! may be told, and of everything that it answers.

use crate::correlate::RecordView;
use crate::engine::ActionView;
use crate::engine::EventView;
use crate::engine::Phase;
use crate::engine::ReplyView;
use crate::engine::RunView;
use crate::subprocess::shell_call;
use crate::partition::batch_count;
use crate::partition::batch_start;
use crate::partition::batches;
use crate::partition::lemma_batch_lengths;
use crate::partition::lemma_batches_in_order;
use crate::pool::slot_texts;
use crate::shell::lemma_shell_reads_paths_back;
use crate::shell::words_of;
use crate::template::path_words;
use crate::template::replace_all;
use vstd::prelude::*;

verus! {

/// The run after it was told `events`, one after the other, and its replies
/// to those that it was waiting for.
pub open spec fn replay(run: RunView, events: Seq<EventView>) -> (RunView, Seq<ReplyView>)
    decreases events.len(),
{
    if events.len() == 0 {
        (run, Seq::empty())
    } else {
        let (before, replies) = replay(run, events.drop_last());
        if before.accepts(events.last()) {
            (before.next(events.last()).0, replies.push(before.next(events.last()).1))
        } else {
            (before, replies)
        }
    }
}

/// Everything that the replies give to print, in order.
pub open spec fn printed(replies: Seq<ReplyView>) -> Seq<RecordView>
    decreases replies.len(),
{
    if replies.len() == 0 {
        Seq::empty()
    } else {
        printed(replies.drop_last()) + replies.last().records
    }
}

/// Whether the records stand in the order of the input lines that they
/// belong to, and all belong to lines before `bound`.
pub open spec fn in_order_below(records: Seq<RecordView>, bound: nat) -> bool {
    &&& forall|i: int, j: int|
        0 <= i < j < records.len() ==> (#[trigger] records[i]).line < (#[trigger] records[j]).line
    &&& forall|i: int| 0 <= i < records.len() ==> (#[trigger] records[i]).line < bound
}

/// Whether two events tell the same, but for the paths of the slots that
/// were written.
pub open spec fn same_but_paths(first: EventView, second: EventView) -> bool {
    match first {
        EventView::Populated(paths) => second matches EventView::Populated(others) && paths.len()
            == others.len(),
        _ => first == second,
    }
}

/// Whether two runs are the same, but for the command of the current batch.
pub open spec fn same_but_command(first: RunView, second: RunView) -> bool {
    first == (RunView { command: first.command, ..second })
}

/// A step leaves a run well formed.
pub proof fn lemma_step_keeps_wf(run: RunView, event: EventView)
    requires
        run.wf(),
        run.accepts(event),
    ensures
        run.next(event).0.wf(),
{
}

/// The action that ends a run is its last: a run has ended exactly when it
/// answered with `Done` or `Fail`, and a run that has ended waits for no
/// event.
pub proof fn lemma_run_ends_once(run: RunView, event: EventView, later: EventView)
    requires
        run.accepts(event),
    ensures
        run.next(event).0.phase is Finished <==> (run.next(event).1.action is Done || run.next(
            event,
        ).1.action is Fail),
        run.next(event).0.phase is Finished ==> !run.next(event).0.accepts(later),
{
}

/// The first failure ends the run, and nothing of the batch that failed is
/// printed.
pub proof fn lemma_failure_prints_nothing(run: RunView, event: EventView, later: EventView)
    requires
        run.accepts(event),
        run.next(event).1.action is Fail,
    ensures
        run.next(event).1.records.len() == 0,
        !run.next(event).0.accepts(later),
{
}

/// The records of a reply belong to the batch that has just ended: record
/// `k` to line `k` of it.
pub proof fn lemma_records_of_batch(run: RunView, event: EventView)
    requires
        run.wf(),
        run.accepts(event),
    ensures
        run.next(event).1.records.len() <= run.batch().len(),
        run.next(event).1.records.len() > 0 ==> run.phase is Running && run.next(event).0.index
            == run.index + 1,
        forall|k: int|
            0 <= k < run.next(event).1.records.len() ==> (#[trigger] run.next(
                event,
            ).1.records[k]).line == batch_start(run.batch_size, run.index) + k,
{
}

/// The batches are written in turn: the payloads of a `Populate` are the
/// lines of the current batch, each with its line feed, and a run is `Done`
/// when no batch is left.
pub proof fn lemma_batches_run_in_turn(run: RunView, event: EventView)
    requires
        run.wf(),
        run.accepts(event),
    ensures
        run.next(event).1.action matches ActionView::Populate(payloads) ==> run.next(
            event,
        ).0.index < batch_count(run.next(event).0.lines.len(), run.batch_size) && payloads
            == slot_texts(
            batches(run.next(event).0.lines, run.batch_size)[run.next(event).0.index as int],
        ),
        run.next(event).1.action is Done ==> run.next(event).0.index == batch_count(
            run.next(event).0.lines.len(),
            run.batch_size,
        ),
{
}

/// The pool has as many slots as a batch has lines at most, and every batch
/// fits in it: a batch is not empty, and it is written to the first slots.
pub proof fn lemma_batches_fit_the_pool(run: RunView, event: EventView)
    requires
        run.wf(),
        run.accepts(event),
    ensures
        run.next(event).1.action matches ActionView::CreatePool(slots) ==> slots
            == run.batch_size && slots >= 1,
        run.next(event).1.action matches ActionView::Populate(payloads) ==> 1 <= payloads.len()
            <= run.batch_size,
{
    let after = run.next(event).0;
    if run.next(event).1.action is Populate {
        lemma_batch_lengths(after.lines, after.batch_size, after.index);
    }
}

/// The command of a batch names the slots that were written for it, and no
/// other: as many paths as the batch has lines, which the shell reads back
/// as those paths, one word each.
pub proof fn lemma_command_names_written_slots(run: RunView, paths: Seq<Seq<char>>)
    requires
        run.accepts(EventView::Populated(paths)),
    ensures
        paths.len() == run.batch().len(),
        run.next(EventView::Populated(paths)).1.action == ActionView::Spawn(
            shell_call(replace_all(run.template, run.token, path_words(paths))),
        ),
        words_of(path_words(paths)) == Some(paths),
{
    lemma_shell_reads_paths_back(paths);
}

proof fn lemma_printed_push(replies: Seq<ReplyView>, reply: ReplyView)
    ensures
        printed(replies.push(reply)) == printed(replies) + reply.records,
{
    assert(replies.push(reply).drop_last() == replies);
}

/// What holds of a run and of what it has printed, after any events.
spec fn orderly(run: RunView, records: Seq<RecordView>) -> bool {
    &&& run.wf()
    &&& (run.phase is Ready || run.phase is Reading || run.phase is Allocating) ==> records.len()
        == 0
    &&& in_order_below(records, batch_start(run.batch_size, run.index))
}

proof fn lemma_step_keeps_order(run: RunView, records: Seq<RecordView>, event: EventView)
    requires
        orderly(run, records),
        run.accepts(event),
    ensures
        orderly(run.next(event).0, records + run.next(event).1.records),
{
    let after = run.next(event).0;
    let fresh = run.next(event).1.records;
    let all = records + fresh;
    lemma_records_of_batch(run, event);
    lemma_batches_in_order(run.lines.len(), run.batch_size, run.index);
    if fresh.len() == 0 {
        assert(all == records);
        assert(after.index == run.index || after.index == run.index + 1 || records.len() == 0);
    } else {
        lemma_batch_lengths(run.lines, run.batch_size, run.index);
        let start = batch_start(run.batch_size, run.index);
        let bound = batch_start(after.batch_size, after.index);
        assert forall|i: int| 0 <= i < all.len() implies (#[trigger] all[i]).line < bound by {
            if i >= records.len() {
                assert(all[i] == fresh[i - records.len()]);
            } else {
                assert(all[i] == records[i]);
            }
        }
        assert forall|i: int, j: int| 0 <= i < j < all.len() implies (#[trigger] all[i]).line
            < (#[trigger] all[j]).line by {
            if i >= records.len() {
                assert(all[i] == fresh[i - records.len()]);
                assert(all[j] == fresh[j - records.len()]);
            } else if j >= records.len() {
                assert(all[i] == records[i]);
                assert(all[j] == fresh[j - records.len()]);
            } else {
                assert(all[i] == records[i]);
                assert(all[j] == records[j]);
            }
        }
    }
}

proof fn lemma_replay_keeps_order(run: RunView, events: Seq<EventView>)
    requires
        run.wf(),
    ensures
        orderly(replay(run, events).0, printed(replay(run, events).1)),
    decreases events.len(),
{
    if events.len() > 0 {
        lemma_replay_keeps_order(run, events.drop_last());
        let (before, replies) = replay(run, events.drop_last());
        if before.accepts(events.last()) {
            lemma_step_keeps_order(before, printed(replies), events.last());
            lemma_printed_push(replies, before.next(events.last()).1);
        }
    }
}

/// Whatever happens to a run, what it gives to print stands in the order of
/// the input: the records of a batch in the order of its lines, and the
/// batches in their own order.
pub proof fn lemma_printed_in_input_order(run: RunView, events: Seq<EventView>)
    requires
        run.wf(),
    ensures
        forall|i: int, j: int|
            0 <= i < j < printed(replay(run, events).1).len() ==> (#[trigger] printed(
                replay(run, events).1,
            )[i]).line < (#[trigger] printed(replay(run, events).1)[j]).line,
{
    lemma_replay_keeps_order(run, events);
}

proof fn lemma_step_ignores_paths(
    first: RunView,
    second: RunView,
    event: EventView,
    other: EventView,
)
    requires
        same_but_command(first, second),
        same_but_paths(event, other),
    ensures
        first.accepts(event) == second.accepts(other),
        first.accepts(event) ==> same_but_command(first.next(event).0, second.next(other).0)
            && first.next(event).1.records == second.next(other).1.records && first.next(
            event,
        ).1.diagnostics == second.next(other).1.diagnostics,
{
    assert(first.batch() == second.batch());
}

/// Two runs of the same command over the same input print the same and end
/// in the same phase, where the commands that they run end alike and write
/// the same: a run does not depend on where the pool keeps its files.
pub proof fn lemma_output_ignores_paths(
    run: RunView,
    first: Seq<EventView>,
    second: Seq<EventView>,
)
    requires
        first.len() == second.len(),
        forall|i: int| 0 <= i < first.len() ==> same_but_paths(first[i], second[i]),
    ensures
        printed(replay(run, first).1) == printed(replay(run, second).1),
        replay(run, first).1.len() == replay(run, second).1.len(),
        same_but_command(replay(run, first).0, replay(run, second).0),
    decreases first.len(),
{
    if first.len() > 0 {
        let shorter = first.drop_last();
        let others = second.drop_last();
        assert forall|i: int| 0 <= i < shorter.len() implies same_but_paths(
            shorter[i],
            others[i],
        ) by {
            assert(shorter[i] == first[i]);
            assert(others[i] == second[i]);
        }
        lemma_output_ignores_paths(run, shorter, others);
        let (one, replies) = replay(run, shorter);
        let (two, answers) = replay(run, others);
        assert(same_but_paths(first[first.len() - 1], second[first.len() - 1]));
        lemma_step_ignores_paths(one, two, first.last(), second.last());
        if one.accepts(first.last()) {
            lemma_printed_push(replies, one.next(first.last()).1);
            lemma_printed_push(answers, two.next(second.last()).1);
        }
    }
}

} // verus!
