//! The pending-write queue: records that were accepted and wait, in the order of
//! their acceptance, to be taken out in batches by the flush loop.

use crate::db::{
    row_of_pessoa, stack_texts, CriarPessoaDTO, PayloadModel, PersistedRecord, PessoaModel,
};
use crate::reservation::ReservationSet;
use crate::tags::join_tags;
use std::collections::VecDeque;
use vstd::prelude::*;

verus! {

/// A record that was accepted and is not yet in the store.
#[derive(Debug, Clone, PartialEq, Eq)]
pub struct PendingRecord {
    pub id: String,
    pub apelido: String,
    pub nome: String,
    pub nascimento: String,
    pub stack: Option<Vec<String>>,
}

impl View for PendingRecord {
    type V = PessoaModel;

    open spec fn view(&self) -> PessoaModel {
        PessoaModel {
            id: self.id@,
            apelido: self.apelido@,
            nome: self.nome@,
            nascimento: self.nascimento@,
            stack: stack_texts(self.stack),
        }
    }
}

/// The record that a creation request becomes under the identifier `id`.
pub open spec fn pending_of(id: Seq<char>, p: PayloadModel) -> PessoaModel {
    PessoaModel { id, apelido: p.apelido, nome: p.nome, nascimento: p.nascimento, stack: p.stack }
}

impl PendingRecord {
    /// The record for a creation request, under the identifier it was given.
    pub fn new(id: String, payload: CriarPessoaDTO) -> (record: PendingRecord)
        ensures
            record@ == pending_of(id@, payload@),
    {
        PendingRecord {
            id,
            apelido: payload.apelido,
            nome: payload.nome,
            nascimento: payload.nascimento,
            stack: payload.stack,
        }
    }

    /// The row that an insert writes for this record.
    pub fn to_row(&self) -> (row: PersistedRecord)
        ensures
            row@ == row_of_pessoa(self@),
    {
        let stack = match &self.stack {
            Some(tags) => join_tags(tags),
            None => String::new(),
        };
        PersistedRecord {
            id: self.id.clone(),
            apelido: self.apelido.clone(),
            nome: self.nome.clone(),
            nascimento: self.nascimento.clone(),
            stack: Some(stack),
        }
    }
}

/// How an attempt to enqueue a record ended.
#[derive(Debug, Clone, Copy, PartialEq, Eq, Structural)]
pub enum EnqueueResult {
    /// The short name was free: it is now reserved and the record is at the tail.
    Accepted,
    /// The short name is held by a pending record. Nothing changed.
    RejectedDuplicate,
    /// The queue holds as many records as it may. Nothing changed.
    RejectedFull,
}

/// What a list of records holds.
pub open spec fn record_models(v: Seq<PendingRecord>) -> Seq<PessoaModel> {
    Seq::new(v.len(), |i: int| v[i]@)
}

/// The short names of a list of records, in order.
pub open spec fn short_names(q: Seq<PessoaModel>) -> Seq<Seq<char>> {
    Seq::new(q.len(), |i: int| q[i].apelido)
}

/// How enqueueing `r` ends on a queue that holds `q` and may hold `capacity`
/// records: a taken short name is refused first, a full queue second.
pub open spec fn enqueue_result(q: Seq<PessoaModel>, capacity: nat, r: PessoaModel)
    -> EnqueueResult {
    if short_names(q).contains(r.apelido) {
        EnqueueResult::RejectedDuplicate
    } else if q.len() >= capacity {
        EnqueueResult::RejectedFull
    } else {
        EnqueueResult::Accepted
    }
}

/// What the queue holds after the attempt: `r` behind the others where it was
/// accepted, and what it held before where it was not.
pub open spec fn after_enqueue(q: Seq<PessoaModel>, capacity: nat, r: PessoaModel) -> Seq<
    PessoaModel,
> {
    if enqueue_result(q, capacity, r) == EnqueueResult::Accepted {
        q.push(r)
    } else {
        q
    }
}

/// How many records a drain of at most `max_count` takes from a queue of `len`.
pub open spec fn drain_count(len: nat, max_count: nat) -> nat {
    if max_count <= len {
        max_count
    } else {
        len
    }
}

/// The queue of pending records together with the set of short names they reserve.
pub struct PendingQueue {
    records: VecDeque<PendingRecord>,
    reserved: ReservationSet,
    capacity: usize,
}

impl View for PendingQueue {
    type V = Seq<PessoaModel>;

    closed spec fn view(&self) -> Seq<PessoaModel> {
        record_models(self.records@)
    }
}

/// A list of short names without repeats, after its head is taken away, holds the
/// names it held but for the head.
proof fn lemma_names_after_head(q: Seq<PessoaModel>)
    requires
        q.len() > 0,
        short_names(q).no_duplicates(),
    ensures
        short_names(q.skip(1)) == short_names(q).skip(1),
        short_names(q.skip(1)).no_duplicates(),
        short_names(q.skip(1)).to_set() == short_names(q).to_set().remove(q[0].apelido),
{
    let names = short_names(q);
    let rest = short_names(q.skip(1));
    assert(rest == names.skip(1));
    assert forall|x: Seq<char>| rest.to_set().contains(x) <==> names.to_set().remove(
        q[0].apelido,
    ).contains(x) by {
        if rest.contains(x) {
            let k = choose|k: int| 0 <= k < rest.len() && rest[k] == x;
            assert(names[k + 1] == x);
            assert(names[0] == q[0].apelido);
            assert(names.contains(x));
        }
        if names.contains(x) && x != q[0].apelido {
            let k = choose|k: int| 0 <= k < names.len() && names[k] == x;
            assert(names[0] == q[0].apelido);
            assert(rest[k - 1] == x);
        }
    }
    assert(rest.to_set() =~= names.to_set().remove(q[0].apelido));
}

impl PendingQueue {
    /// The short names that are reserved.
    pub closed spec fn reserved(&self) -> Set<Seq<char>> {
        self.reserved@
    }

    /// How many records the queue may hold.
    pub closed spec fn capacity(&self) -> nat {
        self.capacity as nat
    }

    /// The queue and the reservations agree: a short name is reserved exactly when a
    /// pending record bears it, no two pending records bear the same, and the queue
    /// is within its capacity.
    pub closed spec fn wf(&self) -> bool {
        &&& self.reserved.wf()
        &&& self.reserved@ == short_names(self@).to_set()
        &&& short_names(self@).no_duplicates()
        &&& self.records@.len() <= self.capacity
    }

    /// What well-formedness says, for those who cannot see inside.
    pub proof fn lemma_wf(&self)
        requires
            self.wf(),
        ensures
            self.reserved() == short_names(self@).to_set(),
            short_names(self@).no_duplicates(),
            self@.len() <= self.capacity(),
    {
    }

    /// An empty queue that may hold `capacity` records.
    pub fn new(capacity: usize) -> (queue: PendingQueue)
        ensures
            queue.wf(),
            queue@ == Seq::<PessoaModel>::empty(),
            queue.reserved() == Set::<Seq<char>>::empty(),
            queue.capacity() == capacity,
    {
        let queue = PendingQueue {
            records: VecDeque::new(),
            reserved: ReservationSet::new(),
            capacity,
        };
        assert(queue@ == Seq::<PessoaModel>::empty());
        assert(short_names(queue@).to_set() =~= Set::<Seq<char>>::empty());
        queue
    }

    /// How many records are pending.
    pub fn len(&self) -> (n: usize)
        ensures
            n == self@.len(),
    {
        self.records.len()
    }

    /// Whether no record is pending.
    pub fn is_empty(&self) -> (empty: bool)
        ensures
            empty == (self@.len() == 0),
    {
        self.records.len() == 0
    }

    /// Whether a pending record bears the short name.
    pub fn is_reserved(&self, apelido: &String) -> (held: bool)
        ensures
            held == self.reserved().contains(apelido@),
    {
        self.reserved.contains(apelido)
    }

    /// Reserves the record's short name and puts the record at the tail, in one
    /// step; refuses it, and changes nothing, where the short name is reserved
    /// already or the queue is full.
    pub fn reserve_and_enqueue(&mut self, record: PendingRecord) -> (result: EnqueueResult)
        requires
            old(self).wf(),
        ensures
            final(self).wf(),
            final(self).capacity() == old(self).capacity(),
            result == enqueue_result(old(self)@, old(self).capacity(), record@),
            final(self)@ == after_enqueue(old(self)@, old(self).capacity(), record@),
    {
        if self.reserved.contains(&record.apelido) {
            return EnqueueResult::RejectedDuplicate;
        }
        if self.records.len() >= self.capacity {
            return EnqueueResult::RejectedFull;
        }
        let ghost before = self@;
        self.reserved.insert(record.apelido.clone());
        self.records.push_back(record);
        proof {
            assert(self@ == before.push(record@));
            assert(short_names(self@) == short_names(before).push(record@.apelido));
            short_names(before).lemma_push_to_set_commute(record@.apelido);
        }
        EnqueueResult::Accepted
    }

    /// Takes up to `max_count` records from the head, oldest first, and releases
    /// their short names in the same step. An empty queue gives an empty batch.
    pub fn drain(&mut self, max_count: usize) -> (batch: Vec<PendingRecord>)
        requires
            old(self).wf(),
        ensures
            final(self).wf(),
            final(self).capacity() == old(self).capacity(),
            batch.len() <= max_count,
            record_models(batch@) == old(self)@.take(
                drain_count(old(self)@.len(), max_count as nat) as int,
            ),
            final(self)@ == old(self)@.skip(drain_count(old(self)@.len(), max_count as nat) as int),
            forall|i: int|
                0 <= i < batch.len() ==> !final(self).reserved().contains(
                    #[trigger] record_models(batch@)[i].apelido,
                ),
    {
        let mut batch: Vec<PendingRecord> = Vec::new();
        while batch.len() < max_count && self.records.len() > 0
            invariant
                self.wf(),
                self.capacity == old(self).capacity,
                batch.len() <= max_count,
                record_models(batch@) + self@ == old(self)@,
                forall|i: int|
                    0 <= i < batch.len() ==> !self.reserved@.contains(
                        #[trigger] record_models(batch@)[i].apelido,
                    ),
            decreases self.records.len(),
        {
            let ghost taken = record_models(batch@);
            let ghost left = self@;
            if let Some(record) = self.records.pop_front() {
                self.reserved.remove(&record.apelido);
                batch.push(record);
                proof {
                    assert(record@ == left[0]);
                    assert(self@ == left.skip(1));
                    lemma_names_after_head(left);
                    assert(record_models(batch@) == taken.push(left[0]));
                    assert(taken.push(left[0]) + left.skip(1) == taken + left);
                }
            }
        }
        proof {
            let n = batch.len() as int;
            assert(record_models(batch@) == old(self)@.take(n));
            assert(self@ == old(self)@.skip(n));
        }
        batch
    }
}

} // verus!
