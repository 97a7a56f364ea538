use pessoas::db::{first_pessoa, PersistedRecord, PessoaDTO};
use pessoas::tags::{join_tags, split_tags};
use pessoas::text::{decimal_text, starts_with};
use pessoas::warmup::{cleanup_pattern, is_warmup, visible_pessoas, warmup_row, warmup_rows};

fn strings(items: &[&str]) -> Vec<String> {
    items.iter().map(|s| s.to_string()).collect()
}

fn row(id: &str, apelido: &str, stack: Option<&str>) -> PersistedRecord {
    PersistedRecord {
        id: id.to_string(),
        apelido: apelido.to_string(),
        nome: format!("Nome {apelido}"),
        nascimento: "1999-12-31".to_string(),
        stack: stack.map(|s| s.to_string()),
    }
}

#[test]
fn join_puts_one_space_between_tags() {
    assert_eq!(join_tags(&strings(&["rust", "go", "c"])), "rust go c");
    assert_eq!(join_tags(&strings(&["rust"])), "rust");
    assert_eq!(join_tags(&strings(&[])), "");
    assert_eq!(join_tags(&strings(&["", ""])), " ");
}

#[test]
fn split_cuts_at_every_space() {
    assert_eq!(split_tags("rust go c"), strings(&["rust", "go", "c"]));
    assert_eq!(split_tags("rust"), strings(&["rust"]));
    assert_eq!(split_tags(""), strings(&[""]));
    assert_eq!(split_tags("a  b"), strings(&["a", "", "b"]));
    assert_eq!(split_tags(" a "), strings(&["", "a", ""]));
    assert_eq!(split_tags("ação é"), strings(&["ação", "é"]));
}

#[test]
fn split_agrees_with_std() {
    for s in ["", " ", "a", "a b", "a  b ", "  ", "java c# c++ ação"] {
        let expected: Vec<String> = s.split(' ').map(|p| p.to_string()).collect();
        assert_eq!(split_tags(s), expected);
    }
}

#[test]
fn join_agrees_with_std() {
    for tags in [strings(&[]), strings(&["a"]), strings(&["a", "b"]), strings(&["", "x", ""])] {
        assert_eq!(join_tags(&tags), tags.join(" "));
    }
}

#[test]
fn tags_without_spaces_round_trip() {
    let tags = strings(&["rust", "postgres", "c++"]);
    assert_eq!(split_tags(&join_tags(&tags)), tags);
}

#[test]
fn a_tag_with_a_space_does_not_round_trip() {
    let tags = strings(&["visual basic", "c"]);
    assert_eq!(split_tags(&join_tags(&tags)), strings(&["visual", "basic", "c"]));
}

#[test]
fn pessoa_from_row_splits_the_tag_column() {
    let dto = PessoaDTO::from(&row("1", "ana", Some("rust go")));
    assert_eq!(
        dto,
        PessoaDTO {
            id: "1".to_string(),
            apelido: "ana".to_string(),
            nome: "Nome ana".to_string(),
            nascimento: "1999-12-31".to_string(),
            stack: Some(strings(&["rust", "go"])),
        }
    );
}

#[test]
fn pessoa_from_row_without_tag_column() {
    assert_eq!(PessoaDTO::from(&row("1", "ana", None)).stack, None);
    assert_eq!(PessoaDTO::from(&row("1", "ana", Some(""))).stack, Some(strings(&[""])));
}

#[test]
fn first_pessoa_of_a_lookup() {
    assert_eq!(first_pessoa(&Vec::new()), None);
    let rows = vec![row("1", "ana", Some("a")), row("2", "bia", None)];
    assert_eq!(first_pessoa(&rows), Some(PessoaDTO::from(&rows[0])));
}

#[test]
fn starts_with_tests_the_prefix() {
    assert!(starts_with("WARMUP12", "WARMUP"));
    assert!(starts_with("WARMUP", "WARMUP"));
    assert!(starts_with("anything", ""));
    assert!(!starts_with("WARMU", "WARMUP"));
    assert!(!starts_with("warmup1", "WARMUP"));
    assert!(!starts_with("xWARMUP", "WARMUP"));
    assert!(starts_with("ação", "aç"));
}

#[test]
fn decimal_text_writes_numerals() {
    assert_eq!(decimal_text(0), "0");
    assert_eq!(decimal_text(7), "7");
    assert_eq!(decimal_text(10), "10");
    assert_eq!(decimal_text(42), "42");
    assert_eq!(decimal_text(1234567890), "1234567890");
    assert_eq!(decimal_text(u64::MAX), "18446744073709551615");
}

#[test]
fn warmup_names_bear_the_mark() {
    assert!(is_warmup("WARMUP0"));
    assert!(is_warmup("WARMUP"));
    assert!(!is_warmup("ana"));
    assert!(!is_warmup(""));
    assert!(!is_warmup("warmup0"));
}

#[test]
fn warmup_row_is_exact() {
    let r = warmup_row(12, "some-id".to_string());
    assert_eq!(
        r,
        PersistedRecord {
            id: "some-id".to_string(),
            apelido: "WARMUP12".to_string(),
            nome: "WARMUP12".to_string(),
            nascimento: "2000-01-01".to_string(),
            stack: Some(String::new()),
        }
    );
}

#[test]
fn warmup_rows_are_numbered_and_marked() {
    let rows = warmup_rows(12);
    assert_eq!(rows.len(), 12);
    for (i, r) in rows.iter().enumerate() {
        assert_eq!(r.apelido, format!("WARMUP{i}"));
        assert!(is_warmup(&r.apelido));
        assert_eq!(r.id.chars().count(), 36);
    }
    let mut ids: Vec<&String> = rows.iter().map(|r| &r.id).collect();
    ids.sort();
    ids.dedup();
    assert_eq!(ids.len(), 12);
    assert_eq!(warmup_rows(0), Vec::new());
}

#[test]
fn cleanup_pattern_is_the_mark_and_a_wildcard() {
    assert_eq!(cleanup_pattern(), "WARMUP%");
}

#[test]
fn search_results_leave_warmup_rows_out() {
    let rows = vec![
        row("1", "WARMUP0", Some("")),
        row("2", "ana", Some("rust")),
        row("3", "WARMUP17", None),
        row("4", "bia", None),
    ];
    let out = visible_pessoas(&rows);
    assert_eq!(out, vec![PessoaDTO::from(&rows[1]), PessoaDTO::from(&rows[3])]);
    assert!(out.iter().all(|p| !is_warmup(&p.apelido)));
    assert_eq!(visible_pessoas(&Vec::new()), Vec::new());
}
