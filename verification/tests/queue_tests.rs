use pessoas::queue::{EnqueueResult, PendingQueue, PendingRecord};
use pessoas::reservation::ReservationSet;

fn record(id: &str, apelido: &str) -> PendingRecord {
    PendingRecord {
        id: id.to_string(),
        apelido: apelido.to_string(),
        nome: format!("Nome de {apelido}"),
        nascimento: "2000-01-01".to_string(),
        stack: None,
    }
}

#[test]
fn new_queue_is_empty() {
    let queue = PendingQueue::new(4);
    assert_eq!(queue.len(), 0);
    assert!(queue.is_empty());
    assert!(!queue.is_reserved(&"a".to_string()));
}

#[test]
fn distinct_short_names_are_all_accepted() {
    let mut queue = PendingQueue::new(10);
    for (i, apelido) in ["ana", "bia", "caio", "duda"].iter().enumerate() {
        let result = queue.reserve_and_enqueue(record(&i.to_string(), apelido));
        assert_eq!(result, EnqueueResult::Accepted);
    }
    assert_eq!(queue.len(), 4);
    let all = queue.drain(10);
    assert_eq!(
        all,
        vec![record("0", "ana"), record("1", "bia"), record("2", "caio"), record("3", "duda")]
    );
}

#[test]
fn same_short_name_is_accepted_once() {
    let mut queue = PendingQueue::new(10);
    assert_eq!(queue.reserve_and_enqueue(record("1", "a")), EnqueueResult::Accepted);
    assert_eq!(queue.reserve_and_enqueue(record("2", "a")), EnqueueResult::RejectedDuplicate);
    assert_eq!(queue.len(), 1);
    assert_eq!(queue.drain(10), vec![record("1", "a")]);
}

#[test]
fn a_b_a_accepts_one_a_and_the_b() {
    let mut queue = PendingQueue::new(10);
    let results = vec![
        queue.reserve_and_enqueue(record("1", "a")),
        queue.reserve_and_enqueue(record("2", "b")),
        queue.reserve_and_enqueue(record("3", "a")),
    ];
    assert_eq!(
        results,
        vec![EnqueueResult::Accepted, EnqueueResult::Accepted, EnqueueResult::RejectedDuplicate]
    );
    assert_eq!(queue.drain(10), vec![record("1", "a"), record("2", "b")]);
}

#[test]
fn rejected_duplicate_changes_nothing() {
    let mut queue = PendingQueue::new(2);
    queue.reserve_and_enqueue(record("1", "a"));
    assert_eq!(queue.reserve_and_enqueue(record("2", "a")), EnqueueResult::RejectedDuplicate);
    assert_eq!(queue.len(), 1);
    assert!(queue.is_reserved(&"a".to_string()));
    assert_eq!(queue.reserve_and_enqueue(record("3", "b")), EnqueueResult::Accepted);
}

#[test]
fn full_queue_fails_fast() {
    let mut queue = PendingQueue::new(2);
    assert_eq!(queue.reserve_and_enqueue(record("1", "a")), EnqueueResult::Accepted);
    assert_eq!(queue.reserve_and_enqueue(record("2", "b")), EnqueueResult::Accepted);
    assert_eq!(queue.reserve_and_enqueue(record("3", "c")), EnqueueResult::RejectedFull);
    assert_eq!(queue.len(), 2);
    assert!(!queue.is_reserved(&"c".to_string()));
    queue.drain(1);
    assert_eq!(queue.reserve_and_enqueue(record("3", "c")), EnqueueResult::Accepted);
}

#[test]
fn duplicate_is_reported_before_full() {
    let mut queue = PendingQueue::new(1);
    assert_eq!(queue.reserve_and_enqueue(record("1", "a")), EnqueueResult::Accepted);
    assert_eq!(queue.reserve_and_enqueue(record("2", "a")), EnqueueResult::RejectedDuplicate);
    assert_eq!(queue.reserve_and_enqueue(record("3", "b")), EnqueueResult::RejectedFull);
}

#[test]
fn zero_capacity_accepts_nothing() {
    let mut queue = PendingQueue::new(0);
    assert_eq!(queue.reserve_and_enqueue(record("1", "a")), EnqueueResult::RejectedFull);
    assert!(queue.is_empty());
}

#[test]
fn drain_returns_batches_in_fifo_order() {
    let mut queue = PendingQueue::new(10);
    assert_eq!(queue.reserve_and_enqueue(record("1", "a")), EnqueueResult::Accepted);
    assert_eq!(queue.reserve_and_enqueue(record("2", "b")), EnqueueResult::Accepted);
    assert_eq!(queue.reserve_and_enqueue(record("3", "c")), EnqueueResult::Accepted);
    let first = queue.drain(2);
    assert_eq!(first, vec![record("1", "a"), record("2", "b")]);
    let second = queue.drain(2);
    assert_eq!(second, vec![record("3", "c")]);
    assert!(queue.is_empty());
}

#[test]
fn drain_of_empty_queue_is_empty() {
    let mut queue = PendingQueue::new(3);
    assert_eq!(queue.drain(5), Vec::<PendingRecord>::new());
}

#[test]
fn drain_of_zero_takes_nothing() {
    let mut queue = PendingQueue::new(3);
    queue.reserve_and_enqueue(record("1", "a"));
    assert_eq!(queue.drain(0), Vec::<PendingRecord>::new());
    assert_eq!(queue.len(), 1);
    assert!(queue.is_reserved(&"a".to_string()));
}

#[test]
fn drain_never_returns_a_record_twice() {
    let mut queue = PendingQueue::new(10);
    for i in 0..7 {
        queue.reserve_and_enqueue(record(&i.to_string(), &format!("n{i}")));
    }
    let mut seen: Vec<String> = Vec::new();
    loop {
        let batch = queue.drain(3);
        assert!(batch.len() <= 3);
        if batch.is_empty() {
            break;
        }
        for r in batch {
            assert!(!seen.contains(&r.id));
            seen.push(r.id);
        }
    }
    assert_eq!(seen, vec!["0", "1", "2", "3", "4", "5", "6"]);
}

#[test]
fn drain_releases_the_reservations() {
    let mut queue = PendingQueue::new(10);
    queue.reserve_and_enqueue(record("1", "a"));
    queue.reserve_and_enqueue(record("2", "b"));
    queue.reserve_and_enqueue(record("3", "c"));
    queue.drain(2);
    assert!(!queue.is_reserved(&"a".to_string()));
    assert!(!queue.is_reserved(&"b".to_string()));
    assert!(queue.is_reserved(&"c".to_string()));
    assert_eq!(queue.reserve_and_enqueue(record("4", "a")), EnqueueResult::Accepted);
    assert_eq!(queue.drain(5), vec![record("3", "c"), record("4", "a")]);
}

#[test]
fn pending_record_takes_the_payload_over() {
    let payload = pessoas::db::CriarPessoaDTO {
        apelido: "zé".to_string(),
        nome: "José".to_string(),
        nascimento: "1990-05-17".to_string(),
        stack: Some(vec!["rust".to_string(), "sql".to_string()]),
    };
    let r = PendingRecord::new("id-1".to_string(), payload);
    assert_eq!(r.id, "id-1");
    assert_eq!(r.apelido, "zé");
    assert_eq!(r.nome, "José");
    assert_eq!(r.nascimento, "1990-05-17");
    assert_eq!(r.stack, Some(vec!["rust".to_string(), "sql".to_string()]));
}

#[test]
fn row_of_a_record_joins_the_tags() {
    let mut r = record("7", "ana");
    r.stack = Some(vec!["rust".to_string(), "go".to_string(), "c".to_string()]);
    let row = r.to_row();
    assert_eq!(row.id, "7");
    assert_eq!(row.apelido, "ana");
    assert_eq!(row.nome, "Nome de ana");
    assert_eq!(row.nascimento, "2000-01-01");
    assert_eq!(row.stack, Some("rust go c".to_string()));
}

#[test]
fn row_of_a_record_without_tags_has_an_empty_column() {
    let row = record("7", "ana").to_row();
    assert_eq!(row.stack, Some(String::new()));
    let mut r = record("8", "bia");
    r.stack = Some(Vec::new());
    assert_eq!(r.to_row().stack, Some(String::new()));
}

#[test]
fn reservation_set_holds_each_name_once() {
    let mut set = ReservationSet::new();
    assert_eq!(set.len(), 0);
    assert!(set.insert("a".to_string()));
    assert!(set.insert("b".to_string()));
    assert!(!set.insert("a".to_string()));
    assert_eq!(set.len(), 2);
    assert!(set.contains(&"a".to_string()));
    assert!(set.contains(&"b".to_string()));
    assert!(!set.contains(&"c".to_string()));
}

#[test]
fn reservation_set_releases_names() {
    let mut set = ReservationSet::new();
    set.insert("a".to_string());
    set.insert("b".to_string());
    set.insert("c".to_string());
    assert!(set.remove(&"b".to_string()));
    assert!(!set.remove(&"b".to_string()));
    assert!(!set.contains(&"b".to_string()));
    assert!(set.contains(&"a".to_string()));
    assert!(set.contains(&"c".to_string()));
    assert_eq!(set.len(), 2);
    assert!(set.insert("b".to_string()));
}
