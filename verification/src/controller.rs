//! What the request handlers decide: whether a creation request is well formed, and
//! how a creation ends.

use crate::db::{CriarPessoaDTO, PayloadModel, PessoaModel};
use crate::outside::{date_parses, is_hyphenated_uuid, naive_date_parses, random_uuid};
use crate::queue::{
    after_enqueue, enqueue_result, pending_of, EnqueueResult, PendingQueue, PendingRecord,
};
use crate::tags::texts;
use vstd::prelude::*;
use vstd::string::*;

verus! {

/// The longest display name, in characters.
pub const MAX_NOME: usize = 100;

/// The longest short name, in characters.
pub const MAX_APELIDO: usize = 32;

/// The longest tag, in characters.
pub const MAX_TAG: usize = 32;

/// The format of a birth date: an ISO calendar date.
pub open spec fn date_format() -> Seq<char> {
    "%Y-%m-%d"@
}

/// How a creation request is answered.
#[derive(Debug, Clone, PartialEq, Eq)]
pub enum Resposta {
    /// The record was accepted; `location` is the path under which it will be found.
    Created { location: String },
    /// The request is malformed or a field is too long.
    BadRequest,
    /// The short name is taken.
    UnprocessableEntity,
    /// The queue of pending records is full.
    ServiceUnavailable,
}

/// What an answer holds.
pub ghost enum RespostaModel {
    Created { location: Seq<char> },
    BadRequest,
    UnprocessableEntity,
    ServiceUnavailable,
}

impl View for Resposta {
    type V = RespostaModel;

    open spec fn view(&self) -> RespostaModel {
        match self {
            Resposta::Created { location } => RespostaModel::Created { location: location@ },
            Resposta::BadRequest => RespostaModel::BadRequest,
            Resposta::UnprocessableEntity => RespostaModel::UnprocessableEntity,
            Resposta::ServiceUnavailable => RespostaModel::ServiceUnavailable,
        }
    }
}

/// No tag is longer than `MAX_TAG`.
pub open spec fn tags_fit(tags: Seq<Seq<char>>) -> bool {
    forall|i: int| 0 <= i < tags.len() ==> (#[trigger] tags[i]).len() <= MAX_TAG
}

/// Every field of the request is within its length.
pub open spec fn fields_fit(p: PayloadModel) -> bool {
    &&& p.nome.len() <= MAX_NOME
    &&& p.apelido.len() <= MAX_APELIDO
    &&& p.stack matches Some(tags) ==> tags_fit(tags)
}

/// A request is well formed when its fields are within their lengths and its birth
/// date was read as a calendar date.
pub open spec fn payload_valid(p: PayloadModel, date_ok: bool) -> bool {
    fields_fit(p) && date_ok
}

/// Whether every tag of the list is within its length.
fn tags_within_limit(tags: &Vec<String>) -> (ok: bool)
    ensures
        ok == tags_fit(texts(tags@)),
{
    let mut i: usize = 0;
    while i < tags.len()
        invariant
            i <= tags.len(),
            tags_fit(texts(tags@).take(i as int)),
        decreases tags.len() - i,
    {
        if tags[i].as_str().unicode_len() > MAX_TAG {
            assert(texts(tags@)[i as int].len() > MAX_TAG);
            return false;
        }
        i = i + 1;
        assert forall|k: int| 0 <= k < i implies (#[trigger] texts(tags@).take(
            i as int,
        )[k]).len() <= MAX_TAG by {
            if k < i - 1 {
                assert(texts(tags@).take(i - 1)[k] == texts(tags@)[k]);
            }
        }
    }
    assert(texts(tags@).take(tags.len() as int) == texts(tags@));
    true
}

/// Judges a creation request whose birth date has been put to the date parser, with
/// the parser's verdict in `date_ok`: nothing for a well-formed request, a
/// `BadRequest` for any other.
pub fn check_payload(payload: &CriarPessoaDTO, date_ok: bool) -> (refusal: Option<Resposta>)
    ensures
        refusal == if payload_valid(payload@, date_ok) {
            None
        } else {
            Some(Resposta::BadRequest)
        },
{
    if payload.nome.as_str().unicode_len() > MAX_NOME {
        return Some(Resposta::BadRequest);
    }
    if payload.apelido.as_str().unicode_len() > MAX_APELIDO {
        return Some(Resposta::BadRequest);
    }
    if !date_ok {
        return Some(Resposta::BadRequest);
    }
    if let Some(stack) = &payload.stack {
        if !tags_within_limit(stack) {
            return Some(Resposta::BadRequest);
        }
    }
    None
}

/// Judges a creation request: nothing for a well-formed one, a `BadRequest` where a
/// field is too long or the birth date is no calendar date.
pub fn validate_payload(payload: &CriarPessoaDTO) -> (refusal: Option<Resposta>)
    ensures
        refusal == if payload_valid(
            payload@,
            naive_date_parses(payload.nascimento@, date_format()),
        ) {
            None
        } else {
            Some(Resposta::BadRequest)
        },
{
    let date_ok = date_parses(payload.nascimento.as_str(), "%Y-%m-%d");
    check_payload(payload, date_ok)
}

/// The path under which the record of the given identifier is found.
pub open spec fn location_of(id: Seq<char>) -> Seq<char> {
    "/pessoas/"@ + id
}

/// How a creation is answered, given the queue `q` of at most `capacity` records,
/// the identifier for the new record, the parser's verdict on the birth date, and
/// whether the store holds the short name already.
///
/// A malformed request is refused first. A short name that is taken, in the store
/// or by a pending record, makes the request unprocessable. A full queue makes the
/// service unavailable. Any other request is accepted.
pub open spec fn creation_response(
    q: Seq<PessoaModel>,
    capacity: nat,
    id: Seq<char>,
    p: PayloadModel,
    date_ok: bool,
    stored_already: bool,
) -> RespostaModel {
    if !payload_valid(p, date_ok) {
        RespostaModel::BadRequest
    } else if stored_already {
        RespostaModel::UnprocessableEntity
    } else {
        match enqueue_result(q, capacity, pending_of(id, p)) {
            EnqueueResult::Accepted => RespostaModel::Created { location: location_of(id) },
            EnqueueResult::RejectedDuplicate => RespostaModel::UnprocessableEntity,
            EnqueueResult::RejectedFull => RespostaModel::ServiceUnavailable,
        }
    }
}

/// What the queue holds after the creation: the new record behind the others where
/// the request was accepted, and what it held before where it was not.
pub open spec fn creation_queue(
    q: Seq<PessoaModel>,
    capacity: nat,
    id: Seq<char>,
    p: PayloadModel,
    date_ok: bool,
    stored_already: bool,
) -> Seq<PessoaModel> {
    if payload_valid(p, date_ok) && !stored_already {
        after_enqueue(q, capacity, pending_of(id, p))
    } else {
        q
    }
}

/// Handles a creation request for which the identifier is chosen, the birth date
/// has been put to the date parser and the store has been asked for the short
/// name: enqueues the record if all is well, and answers.
pub fn enqueue_creation(
    queue: &mut PendingQueue,
    id: String,
    payload: CriarPessoaDTO,
    date_ok: bool,
    stored_already: bool,
) -> (resposta: Resposta)
    requires
        old(queue).wf(),
    ensures
        final(queue).wf(),
        final(queue).capacity() == old(queue).capacity(),
        resposta@ == creation_response(
            old(queue)@,
            old(queue).capacity(),
            id@,
            payload@,
            date_ok,
            stored_already,
        ),
        final(queue)@ == creation_queue(
            old(queue)@,
            old(queue).capacity(),
            id@,
            payload@,
            date_ok,
            stored_already,
        ),
{
    if check_payload(&payload, date_ok).is_some() {
        return Resposta::BadRequest;
    }
    if stored_already {
        return Resposta::UnprocessableEntity;
    }
    let mut location = "/pessoas/".to_owned();
    location.append(id.as_str());
    match queue.reserve_and_enqueue(PendingRecord::new(id, payload)) {
        EnqueueResult::Accepted => Resposta::Created { location },
        EnqueueResult::RejectedDuplicate => Resposta::UnprocessableEntity,
        EnqueueResult::RejectedFull => Resposta::ServiceUnavailable,
    }
}

/// Handles a creation request, given whether the store holds its short name
/// already: judges the request, gives the record a fresh random identifier,
/// enqueues it if all is well, and answers. The answer and the queue are those of
/// `enqueue_creation` for the identifier that was drawn.
pub fn criar_pessoa(
    queue: &mut PendingQueue,
    payload: CriarPessoaDTO,
    stored_already: bool,
) -> (resposta: Resposta)
    requires
        old(queue).wf(),
    ensures
        final(queue).wf(),
        final(queue).capacity() == old(queue).capacity(),
        exists|id: Seq<char>|
            {
                &&& is_hyphenated_uuid(id)
                &&& resposta@ == #[trigger] creation_response(
                    old(queue)@,
                    old(queue).capacity(),
                    id,
                    payload@,
                    naive_date_parses(payload.nascimento@, date_format()),
                    stored_already,
                )
                &&& final(queue)@ == creation_queue(
                    old(queue)@,
                    old(queue).capacity(),
                    id,
                    payload@,
                    naive_date_parses(payload.nascimento@, date_format()),
                    stored_already,
                )
            },
{
    let date_ok = date_parses(payload.nascimento.as_str(), "%Y-%m-%d");
    let id = random_uuid();
    let ghost drawn = id@;
    let resposta = enqueue_creation(queue, id, payload, date_ok, stored_already);
    assert(resposta@ == creation_response(
        old(queue)@,
        old(queue).capacity(),
        drawn,
        payload@,
        naive_date_parses(payload.nascimento@, date_format()),
        stored_already,
    ));
    resposta
}

/// The HTTP status of an answer.
pub fn status_code(resposta: &Resposta) -> (code: u16)
    ensures
        code == match resposta@ {
            RespostaModel::Created { .. } => 201u16,
            RespostaModel::BadRequest => 400u16,
            RespostaModel::UnprocessableEntity => 422u16,
            RespostaModel::ServiceUnavailable => 503u16,
        },
{
    match resposta {
        Resposta::Created { .. } => 201,
        Resposta::BadRequest => 400,
        Resposta::UnprocessableEntity => 422,
        Resposta::ServiceUnavailable => 503,
    }
}

} // verus!
