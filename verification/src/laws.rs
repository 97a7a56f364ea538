//! What holds of the queue and of the flush loop over whole runs, stated over their
//! models and proved from the definitions that the contracts use.

use crate::db::{row_of_pessoa, PessoaModel};
use crate::flush::{
    after_poll, count_of, idle_with, lemma_count_bounded, next_state, none_failed,
    pending_action, queue_after_poll, state_wf, ActionModel, FlushEvent, FlushPhase, FlushReport,
    FlushState, InsertOutcome,
};
use crate::queue::{after_enqueue, drain_count, enqueue_result, short_names, EnqueueResult};
use vstd::prelude::*;

verus! {

/// What the queue holds after the records `rs` were offered to it one after the
/// other.
pub open spec fn enqueue_all(q: Seq<PessoaModel>, capacity: nat, rs: Seq<PessoaModel>) -> Seq<
    PessoaModel,
>
    decreases rs.len(),
{
    if rs.len() == 0 {
        q
    } else {
        after_enqueue(enqueue_all(q, capacity, rs.drop_last()), capacity, rs.last())
    }
}

/// One call on the queue.
pub ghost enum QueueOp {
    /// `reserve_and_enqueue` with this record.
    Enqueue(PessoaModel),
    /// `drain` with this bound.
    Drain(nat),
}

/// What a run of calls has led to: the records that are pending, all records that
/// were ever accepted, and all records that were ever handed out in a batch, each
/// in the order of the events.
pub ghost struct Trace {
    pub pending: Seq<PessoaModel>,
    pub accepted: Seq<PessoaModel>,
    pub drained: Seq<PessoaModel>,
}

/// The trace of a run of calls on a queue that was made empty.
pub open spec fn trace_of(ops: Seq<QueueOp>, capacity: nat) -> Trace
    decreases ops.len(),
{
    if ops.len() == 0 {
        Trace { pending: Seq::empty(), accepted: Seq::empty(), drained: Seq::empty() }
    } else {
        let t = trace_of(ops.drop_last(), capacity);
        match ops.last() {
            QueueOp::Enqueue(r) => Trace {
                pending: after_enqueue(t.pending, capacity, r),
                accepted: if enqueue_result(t.pending, capacity, r) == EnqueueResult::Accepted {
                    t.accepted.push(r)
                } else {
                    t.accepted
                },
                drained: t.drained,
            },
            QueueOp::Drain(n) => Trace {
                pending: t.pending.skip(drain_count(t.pending.len(), n) as int),
                accepted: t.accepted,
                drained: t.drained + t.pending.take(drain_count(t.pending.len(), n) as int),
            },
        }
    }
}

/// What the names of a longer list are, in terms of those of its parts.
proof fn lemma_names_of_push(q: Seq<PessoaModel>, r: PessoaModel)
    ensures
        short_names(q.push(r)) == short_names(q).push(r.apelido),
{
}

/// An attempt to enqueue leaves a queue without repeated short names, and within
/// its capacity, as such a queue.
pub proof fn lemma_enqueue_keeps_queue_sound(q: Seq<PessoaModel>, capacity: nat, r: PessoaModel)
    requires
        short_names(q).no_duplicates(),
        q.len() <= capacity,
    ensures
        short_names(after_enqueue(q, capacity, r)).no_duplicates(),
        after_enqueue(q, capacity, r).len() <= capacity,
{
    if enqueue_result(q, capacity, r) == EnqueueResult::Accepted {
        lemma_names_of_push(q, r);
        let names = short_names(q);
        assert forall|a: int, b: int|
            0 <= a < names.len() + 1 && 0 <= b < names.len() + 1 && a != b implies names.push(
            r.apelido,
        )[a] != names.push(r.apelido)[b] by {
            if a == names.len() {
                assert(!names.contains(names[b]) || names[b] != r.apelido);
            }
            if b == names.len() {
                assert(!names.contains(names[a]) || names[a] != r.apelido);
            }
        }
    }
}

/// Records with short names that differ from one another and from those pending
/// are all accepted while there is room, and stand in the queue behind the others
/// in the order in which they came.
pub proof fn lemma_distinct_names_all_accepted(
    q: Seq<PessoaModel>,
    capacity: nat,
    rs: Seq<PessoaModel>,
)
    requires
        short_names(q + rs).no_duplicates(),
        q.len() + rs.len() <= capacity,
    ensures
        enqueue_all(q, capacity, rs) == q + rs,
        forall|i: int|
            0 <= i < rs.len() ==> enqueue_result(
                #[trigger] enqueue_all(q, capacity, rs.take(i)),
                capacity,
                rs[i],
            ) == EnqueueResult::Accepted,
    decreases rs.len(),
{
    if rs.len() == 0 {
        assert(q + rs == q);
    } else {
        let init = rs.drop_last();
        let last = rs.last();
        let all = short_names(q + rs);
        assert forall|a: int, b: int|
            0 <= a < (q + init).len() && 0 <= b < (q + init).len() && a != b implies short_names(
            q + init,
        )[a] != short_names(q + init)[b] by {
            assert(short_names(q + init)[a] == all[a]);
            assert(short_names(q + init)[b] == all[b]);
        }
        lemma_distinct_names_all_accepted(q, capacity, init);
        let before = q + init;
        assert(!short_names(before).contains(last.apelido)) by {
            if short_names(before).contains(last.apelido) {
                let k = choose|k: int|
                    0 <= k < before.len() && short_names(before)[k] == last.apelido;
                assert(all[k] == last.apelido);
                assert(all[all.len() - 1] == last.apelido);
            }
        }
        assert(before.push(last) == q + rs);
        assert forall|i: int| 0 <= i < rs.len() implies enqueue_result(
            #[trigger] enqueue_all(q, capacity, rs.take(i)),
            capacity,
            rs[i],
        ) == EnqueueResult::Accepted by {
            if i < rs.len() - 1 {
                assert(rs.take(i) == init.take(i));
                assert(rs[i] == init[i]);
            } else {
                assert(rs.take(i) == init);
            }
        }
    }
}

/// Offering records to the queue takes nothing from it and moves nothing in it.
pub proof fn lemma_enqueue_all_extends(q: Seq<PessoaModel>, capacity: nat, rs: Seq<PessoaModel>)
    ensures
        q.is_prefix_of(enqueue_all(q, capacity, rs)),
    decreases rs.len(),
{
    if rs.len() > 0 {
        lemma_enqueue_all_extends(q, capacity, rs.drop_last());
    }
}

/// Of two records with the same short name, at most one is accepted as long as no
/// batch is taken between them, whatever else is offered in between: once the
/// first is accepted, the second is refused as a duplicate.
pub proof fn lemma_same_name_accepted_once(
    q: Seq<PessoaModel>,
    capacity: nat,
    first: PessoaModel,
    between: Seq<PessoaModel>,
    second: PessoaModel,
)
    requires
        first.apelido == second.apelido,
    ensures
        enqueue_result(q, capacity, first) == EnqueueResult::Accepted ==> enqueue_result(
            enqueue_all(after_enqueue(q, capacity, first), capacity, between),
            capacity,
            second,
        ) == EnqueueResult::RejectedDuplicate,
        !(enqueue_result(q, capacity, first) == EnqueueResult::Accepted && enqueue_result(
            enqueue_all(after_enqueue(q, capacity, first), capacity, between),
            capacity,
            second,
        ) == EnqueueResult::Accepted),
{
    if enqueue_result(q, capacity, first) == EnqueueResult::Accepted {
        let q1 = q.push(first);
        let later = enqueue_all(q1, capacity, between);
        lemma_enqueue_all_extends(q1, capacity, between);
        assert(later[q.len() as int] == q1[q.len() as int]);
        assert(short_names(later)[q.len() as int] == second.apelido);
    }
}

/// The records of a batch bear short names that differ from one another, and none
/// of them is borne by a record that stays behind: with the batch its
/// reservations are gone.
pub proof fn lemma_batch_names_released(q: Seq<PessoaModel>, max_count: nat)
    requires
        short_names(q).no_duplicates(),
    ensures
        short_names(q.take(drain_count(q.len(), max_count) as int)).no_duplicates(),
        short_names(q.skip(drain_count(q.len(), max_count) as int)).no_duplicates(),
        forall|i: int|
            0 <= i < drain_count(q.len(), max_count) ==> !short_names(
                q.skip(drain_count(q.len(), max_count) as int),
            ).to_set().contains(#[trigger] q[i].apelido),
{
    let k = drain_count(q.len(), max_count) as int;
    let names = short_names(q);
    let head = short_names(q.take(k));
    let tail = short_names(q.skip(k));
    assert forall|a: int, b: int|
        0 <= a < head.len() && 0 <= b < head.len() && a != b implies head[a] != head[b] by {
        assert(head[a] == names[a] && head[b] == names[b]);
    }
    assert forall|a: int, b: int|
        0 <= a < tail.len() && 0 <= b < tail.len() && a != b implies tail[a] != tail[b] by {
        assert(tail[a] == names[a + k] && tail[b] == names[b + k]);
    }
    assert forall|i: int| 0 <= i < k implies !tail.to_set().contains(#[trigger] q[i].apelido) by {
        if tail.contains(q[i].apelido) {
            let j = choose|j: int| 0 <= j < tail.len() && tail[j] == q[i].apelido;
            assert(names[j + k] == names[i]);
        }
    }
}

/// Through any run of calls on a queue that was made empty: the records handed out
/// so far, followed by the records pending, are the records accepted so far, in
/// the order of their acceptance. So an accepted record is handed out once and no
/// more, batches follow one another in the order of acceptance, and so do the
/// records within a batch. The pending records bear no short name twice and are
/// no more than the capacity.
pub proof fn lemma_trace_conserves(ops: Seq<QueueOp>, capacity: nat)
    ensures
        trace_of(ops, capacity).drained + trace_of(ops, capacity).pending == trace_of(
            ops,
            capacity,
        ).accepted,
        short_names(trace_of(ops, capacity).pending).no_duplicates(),
        trace_of(ops, capacity).pending.len() <= capacity,
    decreases ops.len(),
{
    let now = trace_of(ops, capacity);
    if ops.len() == 0 {
        assert(now.drained + now.pending == now.accepted);
    } else {
        let t = trace_of(ops.drop_last(), capacity);
        lemma_trace_conserves(ops.drop_last(), capacity);
        match ops.last() {
            QueueOp::Enqueue(r) => {
                lemma_enqueue_keeps_queue_sound(t.pending, capacity, r);
                if enqueue_result(t.pending, capacity, r) == EnqueueResult::Accepted {
                    assert(t.drained + t.pending.push(r) == (t.drained + t.pending).push(r));
                }
            },
            QueueOp::Drain(n) => {
                let k = drain_count(t.pending.len(), n) as int;
                lemma_batch_names_released(t.pending, n);
                assert((t.drained + t.pending.take(k)) + t.pending.skip(k) == t.drained
                    + t.pending);
            },
        }
    }
}

/// A drain hands out no more records than it was asked for.
pub proof fn lemma_drain_bounded(q: Seq<PessoaModel>, max_count: nat)
    ensures
        q.take(drain_count(q.len(), max_count) as int).len() <= max_count,
        q.take(drain_count(q.len(), max_count) as int) + q.skip(
            drain_count(q.len(), max_count) as int,
        ) == q,
{
}

/// What is pending after so many drains of at most `max_count`, with nothing
/// enqueued in between.
pub open spec fn after_drains(q: Seq<PessoaModel>, max_count: nat, rounds: nat) -> Seq<
    PessoaModel,
>
    decreases rounds,
{
    if rounds == 0 {
        q
    } else {
        let left = after_drains(q, max_count, (rounds - 1) as nat);
        left.skip(drain_count(left.len(), max_count) as int)
    }
}

/// Drains that may take a record each leave nothing pending in the end: every
/// drain of a queue that is not empty takes at least one record, so as many drains
/// as there are records empty the queue.
pub proof fn lemma_drains_empty_the_queue(q: Seq<PessoaModel>, max_count: nat, rounds: nat)
    requires
        max_count > 0,
    ensures
        after_drains(q, max_count, rounds).len() == 0 || after_drains(q, max_count, rounds).len()
            + rounds <= q.len(),
        rounds >= q.len() ==> after_drains(q, max_count, rounds).len() == 0,
    decreases rounds,
{
    if rounds > 0 {
        lemma_drains_empty_the_queue(q, max_count, (rounds - 1) as nat);
    }
}

/// The state that the loop reaches from `s` when it is told the events in turn.
pub open spec fn run(s: FlushState, events: Seq<FlushEvent>) -> FlushState
    decreases events.len(),
{
    if events.len() == 0 {
        s
    } else {
        next_state(run(s, events.drop_last()), events.last())
    }
}

/// The events that report the given answers to inserts, in turn.
pub open spec fn answers(outcomes: Seq<InsertOutcome>) -> Seq<FlushEvent> {
    Seq::new(outcomes.len(), |i: int| FlushEvent::Inserted(outcomes[i]))
}

/// The state in which a cycle begins: the batch is held and a transaction has been
/// asked for.
pub open spec fn cycle_start(batch: Seq<PessoaModel>, report: FlushReport) -> FlushState {
    FlushState { phase: FlushPhase::Opening, batch, outcomes: Seq::empty(), report }
}

/// Every step leads from a state that the loop can be in to another such state.
pub proof fn lemma_step_keeps_state_sound(s: FlushState, e: FlushEvent)
    requires
        state_wf(s),
    ensures
        state_wf(next_state(s, e)),
{
    lemma_count_sum(s.outcomes);
}

/// Where no answer is a failure, the rows written and the rows left out are all
/// the rows answered for.
pub proof fn lemma_count_sum(outcomes: Seq<InsertOutcome>)
    requires
        none_failed(outcomes),
    ensures
        count_of(outcomes, InsertOutcome::Stored) + count_of(
            outcomes,
            InsertOutcome::DuplicateViolation,
        ) == outcomes.len(),
    decreases outcomes.len(),
{
    if outcomes.len() > 0 {
        lemma_count_sum(outcomes.drop_last());
    }
}

/// Once the transaction is open, the loop asks for the inserts of the batch's
/// records one by one, in the batch's order, as long as no answer is a failure:
/// after `outcomes`, it has taken these answers in and asks for the insert of the
/// next record, or for the commit where every record is answered for.
pub proof fn lemma_inserts_in_order(
    batch: Seq<PessoaModel>,
    report: FlushReport,
    outcomes: Seq<InsertOutcome>,
)
    requires
        0 < batch.len() <= usize::MAX,
        outcomes.len() <= batch.len(),
        none_failed(outcomes),
    ensures
        run(next_state(cycle_start(batch, report), FlushEvent::Opened), answers(outcomes))
            == (FlushState {
            phase: if outcomes.len() == batch.len() {
                FlushPhase::Committing
            } else {
                FlushPhase::Inserting
            },
            batch,
            outcomes,
            report,
        }),
        outcomes.len() < batch.len() ==> pending_action(
            run(next_state(cycle_start(batch, report), FlushEvent::Opened), answers(outcomes)),
        ) == ActionModel::Insert(row_of_pessoa(batch[outcomes.len() as int])),
        outcomes.len() == batch.len() ==> pending_action(
            run(next_state(cycle_start(batch, report), FlushEvent::Opened), answers(outcomes)),
        ) == ActionModel::Commit,
    decreases outcomes.len(),
{
    let opened = next_state(cycle_start(batch, report), FlushEvent::Opened);
    if outcomes.len() == 0 {
        assert(outcomes == Seq::<InsertOutcome>::empty());
    } else {
        let init = outcomes.drop_last();
        lemma_inserts_in_order(batch, report, init);
        assert(answers(outcomes).drop_last() == answers(init));
        assert(answers(outcomes).last() == FlushEvent::Inserted(outcomes.last()));
        assert(outcomes.last() != InsertOutcome::OtherFailure);
        assert(init.push(outcomes.last()) == outcomes);
    }
}

/// A cycle in which the transaction opens, no insert fails and the commit goes
/// through ends between cycles, and reports as written the rows answered with
/// `Stored`, as left out those answered with `DuplicateViolation`, and none as
/// lost. Where every insert was answered with `Stored`, the whole batch is written.
pub proof fn lemma_cycle_commits(
    batch: Seq<PessoaModel>,
    report: FlushReport,
    outcomes: Seq<InsertOutcome>,
)
    requires
        0 < batch.len() <= usize::MAX,
        outcomes.len() == batch.len(),
        none_failed(outcomes),
    ensures
        next_state(
            run(next_state(cycle_start(batch, report), FlushEvent::Opened), answers(outcomes)),
            FlushEvent::Committed,
        ) == idle_with(
            FlushReport {
                persisted: count_of(outcomes, InsertOutcome::Stored) as usize,
                skipped: count_of(outcomes, InsertOutcome::DuplicateViolation) as usize,
                lost: 0,
            },
        ),
        count_of(outcomes, InsertOutcome::Stored) + count_of(
            outcomes,
            InsertOutcome::DuplicateViolation,
        ) == batch.len(),
        (forall|i: int| 0 <= i < outcomes.len() ==> outcomes[i] == InsertOutcome::Stored)
            ==> count_of(outcomes, InsertOutcome::Stored) == batch.len(),
{
    lemma_inserts_in_order(batch, report, outcomes);
    lemma_count_sum(outcomes);
    if forall|i: int| 0 <= i < outcomes.len() ==> outcomes[i] == InsertOutcome::Stored {
        lemma_count_none(outcomes, InsertOutcome::DuplicateViolation);
    }
}

/// An answer that does not occur is counted zero times.
pub proof fn lemma_count_none(outcomes: Seq<InsertOutcome>, which: InsertOutcome)
    requires
        forall|i: int| 0 <= i < outcomes.len() ==> outcomes[i] != which,
    ensures
        count_of(outcomes, which) == 0,
    decreases outcomes.len(),
{
    if outcomes.len() > 0 {
        lemma_count_none(outcomes.drop_last(), which);
    }
}

/// An insert that fails for another reason than a taken short name has the
/// transaction rolled back, and whatever comes of the rollback, the batch is given
/// up: no row of it is written, all its records are lost, and the loop stands
/// between cycles, ready for the next.
pub proof fn lemma_failed_insert_gives_batch_up(
    batch: Seq<PessoaModel>,
    report: FlushReport,
    outcomes: Seq<InsertOutcome>,
    after_rollback: FlushEvent,
)
    requires
        0 < batch.len() <= usize::MAX,
        outcomes.len() < batch.len(),
        none_failed(outcomes),
    ensures
        ({
            let failed = next_state(
                run(next_state(cycle_start(batch, report), FlushEvent::Opened), answers(outcomes)),
                FlushEvent::Inserted(InsertOutcome::OtherFailure),
            );
            let ended = next_state(failed, after_rollback);
            &&& pending_action(failed) == ActionModel::Rollback
            &&& ended == idle_with(
                FlushReport { persisted: 0, skipped: 0, lost: batch.len() as usize },
            )
            &&& state_wf(ended)
            &&& pending_action(ended) == ActionModel::Poll
        }),
{
    lemma_inserts_in_order(batch, report, outcomes);
}

/// After a whole cycle without a failure, from the poll that took the batch to the
/// commit, the loop stands between cycles, every record of the batch is answered
/// for, and no short name of the batch is reserved any more, provided that nothing
/// was enqueued while the cycle ran.
pub proof fn lemma_flushed_names_released(
    s: FlushState,
    q: Seq<PessoaModel>,
    batch_size: nat,
    outcomes: Seq<InsertOutcome>,
)
    requires
        state_wf(s),
        s.phase == FlushPhase::Idle,
        short_names(q).no_duplicates(),
        0 < drain_count(q.len(), batch_size) <= usize::MAX,
        outcomes.len() == drain_count(q.len(), batch_size),
        none_failed(outcomes),
    ensures
        ({
            let polled = after_poll(s, q, batch_size);
            let ended = next_state(
                run(next_state(polled, FlushEvent::Opened), answers(outcomes)),
                FlushEvent::Committed,
            );
            let left = queue_after_poll(s, q, batch_size);
            &&& polled.batch == q.take(drain_count(q.len(), batch_size) as int)
            &&& ended.phase == FlushPhase::Idle
            &&& ended.report.lost == 0
            &&& ended.report.persisted + ended.report.skipped == polled.batch.len()
            &&& forall|i: int|
                0 <= i < polled.batch.len() ==> !short_names(left).to_set().contains(
                    (#[trigger] polled.batch[i]).apelido,
                )
        }),
{
    let k = drain_count(q.len(), batch_size) as int;
    let polled = after_poll(s, q, batch_size);
    assert(polled == cycle_start(q.take(k), s.report));
    lemma_cycle_commits(q.take(k), s.report, outcomes);
    lemma_batch_names_released(q, batch_size);
    lemma_count_bounded(outcomes, InsertOutcome::Stored);
    lemma_count_bounded(outcomes, InsertOutcome::DuplicateViolation);
    assert forall|i: int| 0 <= i < polled.batch.len() implies !short_names(
        queue_after_poll(s, q, batch_size),
    ).to_set().contains((#[trigger] polled.batch[i]).apelido) by {
        assert(polled.batch[i] == q[i]);
    }
}

} // verus!
