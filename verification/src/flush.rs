//! The flush loop: one batch at a time is taken from the queue and written to the
//! store inside one transaction. The loop itself performs no I/O. It says what is
//! to be done next, is told how that went, and decides what follows.

use crate::db::{row_of_pessoa, PersistedRecord, PessoaModel, RowModel};
use crate::queue::{drain_count, record_models, PendingQueue, PendingRecord};
use vstd::prelude::*;

verus! {

/// How the store answered one insert.
#[derive(Debug, Clone, Copy, PartialEq, Eq, Structural)]
pub enum InsertOutcome {
    /// The row was written.
    Stored,
    /// The store holds a row with this short name already.
    DuplicateViolation,
    /// The insert failed for any other reason.
    OtherFailure,
}

/// Where the loop stands within a cycle.
#[derive(Debug, Clone, Copy, PartialEq, Eq, Structural)]
pub enum FlushPhase {
    /// Between cycles: no batch is held.
    Idle,
    /// A batch is held and a transaction has been asked for.
    Opening,
    /// The transaction is open and an insert is under way.
    Inserting,
    /// Every insert was answered and the commit is under way.
    Committing,
    /// An insert failed and the rollback is under way.
    RollingBack,
}

/// What the loop is told after the step it asked for was carried out.
#[derive(Debug, Clone, Copy, PartialEq, Eq, Structural)]
pub enum FlushEvent {
    /// The transaction is open.
    Opened,
    /// The insert was answered.
    Inserted(InsertOutcome),
    /// The transaction is committed.
    Committed,
    /// The transaction is rolled back.
    RolledBack,
    /// The step could not be carried out: the connection or the transaction is gone.
    Failed,
}

/// What the loop asks for.
#[derive(Debug, Clone, PartialEq, Eq)]
pub enum FlushAction {
    /// Take the next batch from the queue.
    Poll,
    /// The queue was empty: wait so many milliseconds, then poll again.
    Wait { millis: u64 },
    /// Open a transaction.
    Open,
    /// Insert this row within the open transaction.
    Insert(PersistedRecord),
    /// Commit the transaction.
    Commit,
    /// Roll the transaction back.
    Rollback,
}

/// What became of the batch of the last cycle that ended.
#[derive(Debug, Clone, Copy, PartialEq, Eq, Structural)]
pub struct FlushReport {
    /// Rows written and committed.
    pub persisted: usize,
    /// Rows left out because the store held their short name already.
    pub skipped: usize,
    /// Records of a batch that was given up.
    pub lost: usize,
}

/// What an action holds.
pub ghost enum ActionModel {
    Poll,
    Wait { millis: u64 },
    Open,
    Insert(RowModel),
    Commit,
    Rollback,
}

impl View for FlushAction {
    type V = ActionModel;

    open spec fn view(&self) -> ActionModel {
        match self {
            FlushAction::Poll => ActionModel::Poll,
            FlushAction::Wait { millis } => ActionModel::Wait { millis: *millis },
            FlushAction::Open => ActionModel::Open,
            FlushAction::Insert(row) => ActionModel::Insert(row@),
            FlushAction::Commit => ActionModel::Commit,
            FlushAction::Rollback => ActionModel::Rollback,
        }
    }
}

/// The state of the loop: the phase, the batch of the cycle under way, the answers
/// to its inserts so far, and the report of the last cycle that ended.
pub ghost struct FlushState {
    pub phase: FlushPhase,
    pub batch: Seq<PessoaModel>,
    pub outcomes: Seq<InsertOutcome>,
    pub report: FlushReport,
}

/// The SQLSTATE by which the store reports a violated uniqueness constraint.
pub open spec fn unique_violation() -> Seq<char> {
    "23505"@
}

/// How a refused insert counts, by the SQLSTATE that came with the refusal, if any
/// did: as a taken short name for `23505`, as a failure for anything else.
pub fn outcome_of_refusal(sqlstate: &Option<String>) -> (outcome: InsertOutcome)
    ensures
        outcome == if sqlstate matches Some(code) && code@ == unique_violation() {
            InsertOutcome::DuplicateViolation
        } else {
            InsertOutcome::OtherFailure
        },
{
    match sqlstate {
        Some(code) => {
            let unique = "23505".to_owned();
            if *code == unique {
                InsertOutcome::DuplicateViolation
            } else {
                InsertOutcome::OtherFailure
            }
        },
        None => InsertOutcome::OtherFailure,
    }
}

/// How often `which` occurs among the answers.
pub open spec fn count_of(outcomes: Seq<InsertOutcome>, which: InsertOutcome) -> nat
    decreases outcomes.len(),
{
    if outcomes.len() == 0 {
        0
    } else {
        count_of(outcomes.drop_last(), which) + if outcomes.last() == which {
            1nat
        } else {
            0nat
        }
    }
}

/// No answer among them is a failure.
pub open spec fn none_failed(outcomes: Seq<InsertOutcome>) -> bool {
    forall|i: int| 0 <= i < outcomes.len() ==> outcomes[i] != InsertOutcome::OtherFailure
}

/// The state is one that the loop can be in.
pub open spec fn state_wf(s: FlushState) -> bool {
    &&& s.batch.len() <= usize::MAX
    &&& none_failed(s.outcomes)
    &&& match s.phase {
        FlushPhase::Idle => s.batch.len() == 0 && s.outcomes.len() == 0,
        FlushPhase::Opening => s.batch.len() > 0 && s.outcomes.len() == 0,
        FlushPhase::Inserting => s.outcomes.len() < s.batch.len(),
        FlushPhase::Committing => s.batch.len() > 0 && s.outcomes.len() == s.batch.len(),
        FlushPhase::RollingBack => s.outcomes.len() < s.batch.len(),
    }
}

/// The state between cycles, with `report` for the cycle that ended.
pub open spec fn idle_with(report: FlushReport) -> FlushState {
    FlushState { phase: FlushPhase::Idle, batch: Seq::empty(), outcomes: Seq::empty(), report }
}

/// The state after the batch was given up: none of its records is in the store.
pub open spec fn given_up(s: FlushState) -> FlushState {
    idle_with(FlushReport { persisted: 0, skipped: 0, lost: s.batch.len() as usize })
}

/// The state after the commit: the rows answered with `Stored` are in the store, the
/// rows answered with `DuplicateViolation` were left out.
pub open spec fn committed(s: FlushState) -> FlushState {
    idle_with(
        FlushReport {
            persisted: count_of(s.outcomes, InsertOutcome::Stored) as usize,
            skipped: count_of(s.outcomes, InsertOutcome::DuplicateViolation) as usize,
            lost: 0,
        },
    )
}

/// The state that follows `s` when the loop is told `e`.
///
/// A transaction that cannot be opened or committed, or that is lost under an
/// insert, gives the batch up. An insert that fails for another reason than a
/// taken short name has the transaction rolled back, and the batch is given up
/// whatever the rollback's end. A taken short name leaves that row out, and the
/// rest goes on. Between cycles the loop awaits no event and heeds none.
pub open spec fn next_state(s: FlushState, e: FlushEvent) -> FlushState {
    match s.phase {
        FlushPhase::Idle => s,
        FlushPhase::Opening => match e {
            FlushEvent::Opened => FlushState { phase: FlushPhase::Inserting, ..s },
            _ => given_up(s),
        },
        FlushPhase::Inserting => match e {
            FlushEvent::Inserted(InsertOutcome::OtherFailure) => FlushState {
                phase: FlushPhase::RollingBack,
                ..s
            },
            FlushEvent::Inserted(outcome) => FlushState {
                phase: if s.outcomes.len() + 1 == s.batch.len() {
                    FlushPhase::Committing
                } else {
                    FlushPhase::Inserting
                },
                outcomes: s.outcomes.push(outcome),
                ..s
            },
            _ => given_up(s),
        },
        FlushPhase::Committing => match e {
            FlushEvent::Committed => committed(s),
            _ => given_up(s),
        },
        FlushPhase::RollingBack => given_up(s),
    }
}

/// What the loop asks for in state `s`.
pub open spec fn pending_action(s: FlushState) -> ActionModel {
    match s.phase {
        FlushPhase::Idle => ActionModel::Poll,
        FlushPhase::Opening => ActionModel::Open,
        FlushPhase::Inserting => ActionModel::Insert(
            row_of_pessoa(s.batch[s.outcomes.len() as int]),
        ),
        FlushPhase::Committing => ActionModel::Commit,
        FlushPhase::RollingBack => ActionModel::Rollback,
    }
}

/// The state after a poll that found `q` in the queue, with batches of at most
/// `batch_size`: a cycle begins with the records at the head of the queue, unless
/// there are none or a cycle is under way.
pub open spec fn after_poll(s: FlushState, q: Seq<PessoaModel>, batch_size: nat) -> FlushState {
    if s.phase == FlushPhase::Idle && drain_count(q.len(), batch_size) > 0 {
        FlushState {
            phase: FlushPhase::Opening,
            batch: q.take(drain_count(q.len(), batch_size) as int),
            outcomes: Seq::empty(),
            report: s.report,
        }
    } else {
        s
    }
}

/// What such a poll leaves in the queue.
pub open spec fn queue_after_poll(s: FlushState, q: Seq<PessoaModel>, batch_size: nat) -> Seq<
    PessoaModel,
> {
    if s.phase == FlushPhase::Idle {
        q.skip(drain_count(q.len(), batch_size) as int)
    } else {
        q
    }
}

/// What the loop asks for after such a poll: to wait, where it is between cycles
/// still, and else what the cycle under way needs.
pub open spec fn poll_action(after: FlushState, interval_millis: u64) -> ActionModel {
    if after.phase == FlushPhase::Idle {
        ActionModel::Wait { millis: interval_millis }
    } else {
        pending_action(after)
    }
}

/// The answers counted are no more than the answers given.
pub proof fn lemma_count_bounded(outcomes: Seq<InsertOutcome>, which: InsertOutcome)
    ensures
        count_of(outcomes, which) <= outcomes.len(),
    decreases outcomes.len(),
{
    if outcomes.len() > 0 {
        lemma_count_bounded(outcomes.drop_last(), which);
    }
}

/// The flush loop's state and its two settings.
pub struct FlushLoop {
    batch_size: usize,
    interval_millis: u64,
    phase: FlushPhase,
    batch: Vec<PendingRecord>,
    outcomes: Vec<InsertOutcome>,
    report: FlushReport,
}

impl View for FlushLoop {
    type V = FlushState;

    closed spec fn view(&self) -> FlushState {
        FlushState {
            phase: self.phase,
            batch: record_models(self.batch@),
            outcomes: self.outcomes@,
            report: self.report,
        }
    }
}

/// Counts how often `which` occurs among the answers.
fn count_outcomes(outcomes: &Vec<InsertOutcome>, which: InsertOutcome) -> (n: usize)
    ensures
        n == count_of(outcomes@, which),
{
    let mut n: usize = 0;
    let mut i: usize = 0;
    while i < outcomes.len()
        invariant
            i <= outcomes.len(),
            n <= i,
            n == count_of(outcomes@.take(i as int), which),
        decreases outcomes.len() - i,
    {
        assert(outcomes@.take(i + 1).drop_last() == outcomes@.take(i as int));
        if outcomes[i] == which {
            n = n + 1;
        }
        i = i + 1;
    }
    assert(outcomes@.take(outcomes.len() as int) == outcomes@);
    n
}

impl FlushLoop {
    /// The largest batch that a cycle takes.
    pub closed spec fn batch_size(&self) -> nat {
        self.batch_size as nat
    }

    /// The wait after a poll that found nothing, in milliseconds.
    pub closed spec fn interval_millis(&self) -> u64 {
        self.interval_millis
    }

    /// The loop is in a state that it can be in.
    pub open spec fn wf(&self) -> bool {
        state_wf(self@)
    }

    /// A loop between cycles, with nothing to report.
    pub fn new(batch_size: usize, interval_millis: u64) -> (flush: FlushLoop)
        ensures
            flush.wf(),
            flush@ == idle_with(FlushReport { persisted: 0, skipped: 0, lost: 0 }),
            flush.batch_size() == batch_size,
            flush.interval_millis() == interval_millis,
    {
        let flush = FlushLoop {
            batch_size,
            interval_millis,
            phase: FlushPhase::Idle,
            batch: Vec::new(),
            outcomes: Vec::new(),
            report: FlushReport { persisted: 0, skipped: 0, lost: 0 },
        };
        assert(flush@.batch == Seq::<PessoaModel>::empty());
        assert(flush@.outcomes == Seq::<InsertOutcome>::empty());
        flush
    }

    /// Where the loop stands.
    pub fn phase(&self) -> (phase: FlushPhase)
        ensures
            phase == self@.phase,
    {
        self.phase
    }

    /// What became of the batch of the last cycle that ended.
    pub fn report(&self) -> (report: FlushReport)
        ensures
            report == self@.report,
    {
        self.report
    }

    /// What the loop asks for as it stands.
    pub fn current_action(&self) -> (action: FlushAction)
        requires
            self.wf(),
        ensures
            action@ == pending_action(self@),
    {
        match self.phase {
            FlushPhase::Idle => FlushAction::Poll,
            FlushPhase::Opening => FlushAction::Open,
            FlushPhase::Inserting => FlushAction::Insert(self.batch[self.outcomes.len()].to_row()),
            FlushPhase::Committing => FlushAction::Commit,
            FlushPhase::RollingBack => FlushAction::Rollback,
        }
    }

    /// Ends the cycle with the given report.
    fn end_cycle(&mut self, report: FlushReport)
        ensures
            final(self)@ == idle_with(report),
            final(self).batch_size == old(self).batch_size,
            final(self).interval_millis == old(self).interval_millis,
    {
        self.phase = FlushPhase::Idle;
        self.batch = Vec::new();
        self.outcomes = Vec::new();
        self.report = report;
        assert(self@.batch == Seq::<PessoaModel>::empty());
        assert(self@.outcomes == Seq::<InsertOutcome>::empty());
    }

    /// Begins a cycle where none is under way: takes up to the configured number of
    /// records from the head of the queue and, if there is any, asks for a
    /// transaction; asks to wait if there is none. While a cycle is under way it
    /// leaves the queue alone and repeats what that cycle asks for.
    pub fn poll(&mut self, queue: &mut PendingQueue) -> (action: FlushAction)
        requires
            old(self).wf(),
            old(queue).wf(),
        ensures
            final(self).wf(),
            final(queue).wf(),
            final(queue).capacity() == old(queue).capacity(),
            final(self).batch_size() == old(self).batch_size(),
            final(self).interval_millis() == old(self).interval_millis(),
            final(self)@ == after_poll(old(self)@, old(queue)@, old(self).batch_size()),
            final(queue)@ == queue_after_poll(old(self)@, old(queue)@, old(self).batch_size()),
            action@ == poll_action(final(self)@, old(self).interval_millis()),
    {
        match self.phase {
            FlushPhase::Idle => {
                let batch = queue.drain(self.batch_size);
                assert(record_models(batch@).len() == batch.len());
                assert(self.outcomes@ == Seq::<InsertOutcome>::empty());
                if batch.len() == 0 {
                    FlushAction::Wait { millis: self.interval_millis }
                } else {
                    self.batch = batch;
                    self.phase = FlushPhase::Opening;
                    FlushAction::Open
                }
            },
            _ => self.current_action(),
        }
    }

    /// Takes in what became of the step that the loop asked for, and says what it
    /// asks for next.
    pub fn step(&mut self, event: FlushEvent) -> (action: FlushAction)
        requires
            old(self).wf(),
        ensures
            final(self).wf(),
            final(self).batch_size() == old(self).batch_size(),
            final(self).interval_millis() == old(self).interval_millis(),
            final(self)@ == next_state(old(self)@, event),
            action@ == pending_action(final(self)@),
    {
        let lost = FlushReport { persisted: 0, skipped: 0, lost: self.batch.len() };
        match self.phase {
            FlushPhase::Idle => {},
            FlushPhase::Opening => match event {
                FlushEvent::Opened => {
                    self.phase = FlushPhase::Inserting;
                },
                _ => {
                    self.end_cycle(lost);
                },
            },
            FlushPhase::Inserting => match event {
                FlushEvent::Inserted(InsertOutcome::OtherFailure) => {
                    self.phase = FlushPhase::RollingBack;
                },
                FlushEvent::Inserted(outcome) => {
                    self.outcomes.push(outcome);
                    if self.outcomes.len() == self.batch.len() {
                        self.phase = FlushPhase::Committing;
                    }
                },
                _ => {
                    self.end_cycle(lost);
                },
            },
            FlushPhase::Committing => match event {
                FlushEvent::Committed => {
                    let persisted = count_outcomes(&self.outcomes, InsertOutcome::Stored);
                    let skipped = count_outcomes(&self.outcomes, InsertOutcome::DuplicateViolation);
                    self.end_cycle(FlushReport { persisted, skipped, lost: 0 });
                },
                _ => {
                    self.end_cycle(lost);
                },
            },
            FlushPhase::RollingBack => {
                self.end_cycle(lost);
            },
        }
        self.current_action()
    }
}

} // verus!
