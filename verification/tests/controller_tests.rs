use pessoas::controller::{
    check_payload, criar_pessoa, enqueue_creation, status_code, validate_payload, Resposta,
};
use pessoas::db::{like_pattern, wrap_wildcards, CriarPessoaDTO, ParametrosBusca};
use pessoas::queue::{PendingQueue, PendingRecord};

fn payload(
    apelido: &str,
    nome: &str,
    nascimento: &str,
    stack: Option<Vec<&str>>,
) -> CriarPessoaDTO {
    CriarPessoaDTO {
        apelido: apelido.to_string(),
        nome: nome.to_string(),
        nascimento: nascimento.to_string(),
        stack: stack.map(|v| v.iter().map(|s| s.to_string()).collect()),
    }
}

fn good(apelido: &str) -> CriarPessoaDTO {
    payload(apelido, "Fulano de Tal", "1990-05-17", Some(vec!["rust", "sql"]))
}

#[test]
fn well_formed_payload_passes() {
    assert_eq!(validate_payload(&good("fulano")), None);
    assert_eq!(validate_payload(&payload("f", "F", "2000-02-29", None)), None);
    assert_eq!(validate_payload(&payload("", "", "2000-01-01", Some(vec![]))), None);
}

#[test]
fn long_display_name_is_refused() {
    let at_limit = "n".repeat(100);
    let over = "n".repeat(101);
    assert_eq!(validate_payload(&payload("a", &at_limit, "2000-01-01", None)), None);
    assert_eq!(
        validate_payload(&payload("a", &over, "2000-01-01", None)),
        Some(Resposta::BadRequest)
    );
}

#[test]
fn long_short_name_is_refused() {
    let at_limit = "a".repeat(32);
    let over = "a".repeat(33);
    assert_eq!(validate_payload(&payload(&at_limit, "n", "2000-01-01", None)), None);
    assert_eq!(
        validate_payload(&payload(&over, "n", "2000-01-01", None)),
        Some(Resposta::BadRequest)
    );
}

#[test]
fn long_tag_is_refused() {
    let at_limit = "t".repeat(32);
    let over = "t".repeat(33);
    assert_eq!(
        validate_payload(&payload("a", "n", "2000-01-01", Some(vec!["ok", &at_limit]))),
        None
    );
    assert_eq!(
        validate_payload(&payload("a", "n", "2000-01-01", Some(vec!["ok", &over, "ok"]))),
        Some(Resposta::BadRequest)
    );
}

#[test]
fn lengths_are_counted_in_characters() {
    let name = "é".repeat(100);
    let short = "ç".repeat(32);
    assert_eq!(validate_payload(&payload(&short, &name, "2000-01-01", None)), None);
    let over = "é".repeat(101);
    assert_eq!(
        validate_payload(&payload("a", &over, "2000-01-01", None)),
        Some(Resposta::BadRequest)
    );
}

#[test]
fn birth_date_must_be_a_calendar_date() {
    let bad_dates = [
        "",
        "17/05/1990",
        "1990-13-01",
        "1990-02-30",
        "2001-02-29",
        "yesterday",
        "1990-05-17T00:00:00",
    ];
    for bad in bad_dates {
        assert_eq!(
            validate_payload(&payload("a", "n", bad, None)),
            Some(Resposta::BadRequest),
            "{bad}"
        );
    }
    for ok in ["1990-05-17", "2000-02-29", "0001-01-01"] {
        assert_eq!(validate_payload(&payload("a", "n", ok, None)), None, "{ok}");
    }
}

#[test]
fn check_payload_goes_by_the_verdict_it_is_given() {
    assert_eq!(check_payload(&good("a"), true), None);
    assert_eq!(check_payload(&good("a"), false), Some(Resposta::BadRequest));
    let over = "n".repeat(101);
    assert_eq!(
        check_payload(&payload("a", &over, "2000-01-01", None), true),
        Some(Resposta::BadRequest)
    );
}

#[test]
fn creation_is_answered_with_the_location() {
    let mut queue = PendingQueue::new(10);
    let r = enqueue_creation(&mut queue, "abc-123".to_string(), good("fulano"), true, false);
    assert_eq!(r, Resposta::Created { location: "/pessoas/abc-123".to_string() });
    assert_eq!(
        queue.drain(10),
        vec![PendingRecord {
            id: "abc-123".to_string(),
            apelido: "fulano".to_string(),
            nome: "Fulano de Tal".to_string(),
            nascimento: "1990-05-17".to_string(),
            stack: Some(vec!["rust".to_string(), "sql".to_string()]),
        }]
    );
}

#[test]
fn malformed_creation_is_a_bad_request() {
    let mut queue = PendingQueue::new(10);
    let r = enqueue_creation(&mut queue, "id".to_string(), good("fulano"), false, false);
    assert_eq!(r, Resposta::BadRequest);
    let r = enqueue_creation(&mut queue, "id".to_string(), good(&"a".repeat(33)), true, false);
    assert_eq!(r, Resposta::BadRequest);
    let r = enqueue_creation(&mut queue, "id".to_string(), good("fulano"), false, true);
    assert_eq!(r, Resposta::BadRequest);
    assert!(queue.is_empty());
}

#[test]
fn stored_short_name_is_unprocessable() {
    let mut queue = PendingQueue::new(10);
    let r = enqueue_creation(&mut queue, "id".to_string(), good("fulano"), true, true);
    assert_eq!(r, Resposta::UnprocessableEntity);
    assert!(queue.is_empty());
    assert!(!queue.is_reserved(&"fulano".to_string()));
}

#[test]
fn pending_short_name_is_unprocessable() {
    let mut queue = PendingQueue::new(10);
    let first = enqueue_creation(&mut queue, "1".to_string(), good("fulano"), true, false);
    let second = enqueue_creation(&mut queue, "2".to_string(), good("fulano"), true, false);
    assert_eq!(first, Resposta::Created { location: "/pessoas/1".to_string() });
    assert_eq!(second, Resposta::UnprocessableEntity);
    assert_eq!(queue.len(), 1);
}

#[test]
fn full_queue_makes_the_service_unavailable() {
    let mut queue = PendingQueue::new(1);
    enqueue_creation(&mut queue, "1".to_string(), good("a"), true, false);
    let r = enqueue_creation(&mut queue, "2".to_string(), good("b"), true, false);
    assert_eq!(r, Resposta::ServiceUnavailable);
    assert_eq!(queue.len(), 1);
}

#[test]
fn criar_pessoa_draws_a_fresh_identifier() {
    let mut queue = PendingQueue::new(10);
    let first = criar_pessoa(&mut queue, good("ana"), false);
    let second = criar_pessoa(&mut queue, good("bia"), false);
    let batch = queue.drain(10);
    assert_eq!(batch.len(), 2);
    assert_eq!(batch[0].apelido, "ana");
    assert_eq!(batch[1].apelido, "bia");
    assert_ne!(batch[0].id, batch[1].id);
    for (r, answer) in batch.iter().zip([first, second]) {
        assert_eq!(r.id.len(), 36);
        for (i, c) in r.id.chars().enumerate() {
            if i == 8 || i == 13 || i == 18 || i == 23 {
                assert_eq!(c, '-');
            } else {
                assert!(c.is_ascii_digit() || ('a'..='f').contains(&c));
            }
        }
        assert_eq!(answer, Resposta::Created { location: format!("/pessoas/{}", r.id) });
    }
}

#[test]
fn criar_pessoa_refuses_what_it_must() {
    let mut queue = PendingQueue::new(1);
    assert_eq!(
        criar_pessoa(&mut queue, payload("a", "n", "not a date", None), false),
        Resposta::BadRequest
    );
    assert_eq!(criar_pessoa(&mut queue, good("a"), true), Resposta::UnprocessableEntity);
    assert!(matches!(criar_pessoa(&mut queue, good("a"), false), Resposta::Created { .. }));
    assert_eq!(criar_pessoa(&mut queue, good("a"), false), Resposta::UnprocessableEntity);
    assert_eq!(criar_pessoa(&mut queue, good("b"), false), Resposta::ServiceUnavailable);
}

#[test]
fn status_codes() {
    assert_eq!(status_code(&Resposta::Created { location: "/pessoas/x".to_string() }), 201);
    assert_eq!(status_code(&Resposta::BadRequest), 400);
    assert_eq!(status_code(&Resposta::UnprocessableEntity), 422);
    assert_eq!(status_code(&Resposta::ServiceUnavailable), 503);
}

#[test]
fn search_pattern_is_lower_case_between_wildcards() {
    assert_eq!(like_pattern("Rust"), "%rust%");
    assert_eq!(like_pattern("AÇÃO"), "%ação%");
    assert_eq!(like_pattern(""), "%%");
    assert_eq!(like_pattern("%rust%"), "%%rust%%");
}

#[test]
fn search_parameters_give_their_pattern() {
    assert_eq!(ParametrosBusca { t: "Node JS".to_string() }.pattern(), "%node js%");
}

#[test]
fn wrap_wildcards_keeps_the_term() {
    assert_eq!(wrap_wildcards("Rust"), "%Rust%");
    assert_eq!(wrap_wildcards(""), "%%");
}
