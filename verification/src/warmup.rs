//! The synthetic rows that warm the store's connections up at start, the mark by
//! which they are known, and what clears them away again.

use crate::db::{
    pessoa_models, pessoa_of_row, pessoas_of_rows, PersistedRecord, PessoaDTO, PessoaModel,
    RowModel,
};
use crate::outside::{is_hyphenated_uuid, random_uuid};
use crate::text::{decimal, decimal_text, lemma_decimal_injective, starts_with};
use vstd::prelude::*;
use vstd::string::*;

verus! {

/// The prefix that the short name of every warm-up row bears.
pub open spec fn marker() -> Seq<char> {
    "WARMUP"@
}

/// Whether a short name bears the mark of a warm-up row.
pub open spec fn is_warmup_name(apelido: Seq<char>) -> bool {
    marker().is_prefix_of(apelido)
}

/// The short name of the warm-up row of the given number.
pub open spec fn warmup_name(index: nat) -> Seq<char> {
    marker() + decimal(index)
}

/// The warm-up row of the given number under the identifier `id`: its short name
/// serves as its display name too, its birth date is fixed, it has no tags.
pub open spec fn warmup_row_model(index: nat, id: Seq<char>) -> RowModel {
    RowModel {
        id,
        apelido: warmup_name(index),
        nome: warmup_name(index),
        nascimento: "2000-01-01"@,
        stack: Some(Seq::empty()),
    }
}

/// A record that is no warm-up row.
pub open spec fn is_visible(p: PessoaModel) -> bool {
    !is_warmup_name(p.apelido)
}

/// The records of a search's result that are handed out: all but the warm-up rows,
/// in the order in which they were found.
pub open spec fn visible(found: Seq<PessoaModel>) -> Seq<PessoaModel> {
    found.filter(|p: PessoaModel| is_visible(p))
}

/// What a search hands out holds no warm-up row, whether the clean-up has run or
/// not, and holds every other record that was found.
pub proof fn lemma_visible_hides_warmup(found: Seq<PessoaModel>)
    ensures
        forall|i: int|
            0 <= i < visible(found).len() ==> !is_warmup_name(
                (#[trigger] visible(found)[i]).apelido,
            ),
        forall|i: int|
            0 <= i < found.len() && !is_warmup_name((#[trigger] found[i]).apelido) ==> visible(
                found,
            ).contains(found[i]),
{
    let keep = |p: PessoaModel| is_visible(p);
    assert forall|i: int| 0 <= i < visible(found).len() implies !is_warmup_name(
        (#[trigger] visible(found)[i]).apelido,
    ) by {
        found.lemma_filter_pred(keep, i);
    }
    assert forall|i: int|
        0 <= i < found.len() && !is_warmup_name((#[trigger] found[i]).apelido) implies visible(
        found,
    ).contains(found[i]) by {
        found.lemma_filter_contains(keep, i);
    }
}

/// Every warm-up row bears the mark.
pub proof fn lemma_warmup_name_marked(index: nat)
    ensures
        is_warmup_name(warmup_name(index)),
{
    assert(warmup_name(index).subrange(0, marker().len() as int) =~= marker());
}

/// Warm-up rows of different numbers have different short names.
pub proof fn lemma_warmup_names_distinct(a: nat, b: nat)
    requires
        a != b,
    ensures
        warmup_name(a) != warmup_name(b),
{
    if warmup_name(a) == warmup_name(b) {
        let m = marker().len() as int;
        assert(warmup_name(a).subrange(m, warmup_name(a).len() as int) =~= decimal(a));
        assert(warmup_name(b).subrange(m, warmup_name(b).len() as int) =~= decimal(b));
        lemma_decimal_injective(a, b);
    }
}

/// Whether a short name bears the mark of a warm-up row.
pub fn is_warmup(apelido: &str) -> (marked: bool)
    ensures
        marked == is_warmup_name(apelido@),
{
    starts_with(apelido, "WARMUP")
}

/// The pattern by which the clean-up deletes: the mark, then anything.
pub fn cleanup_pattern() -> (pattern: String)
    ensures
        pattern@ == marker().push('%'),
{
    let mut pattern = "WARMUP".to_owned();
    pattern.append("%");
    proof {
        reveal_strlit("%");
        assert("%"@ =~= seq!['%']);
        assert(marker() + seq!['%'] =~= marker().push('%'));
    }
    pattern
}

/// The warm-up row of the given number under the identifier `id`.
pub fn warmup_row(index: u64, id: String) -> (row: PersistedRecord)
    ensures
        row@ == warmup_row_model(index as nat, id@),
{
    let mut apelido = "WARMUP".to_owned();
    let numeral = decimal_text(index);
    apelido.append(numeral.as_str());
    let nome = apelido.clone();
    PersistedRecord {
        id,
        apelido,
        nome,
        nascimento: "2000-01-01".to_owned(),
        stack: Some(String::new()),
    }
}

/// The rows of a warm-up of `count` inserts, numbered from zero, each under a
/// fresh random identifier.
pub fn warmup_rows(count: u64) -> (rows: Vec<PersistedRecord>)
    ensures
        rows.len() == count,
        forall|i: int|
            0 <= i < count ==> is_hyphenated_uuid((#[trigger] rows[i])@.id) && rows[i]@
                == warmup_row_model(i as nat, rows[i]@.id),
{
    let mut rows: Vec<PersistedRecord> = Vec::new();
    let mut i: u64 = 0;
    while i < count
        invariant
            i <= count,
            rows.len() == i,
            forall|k: int|
                0 <= k < i ==> is_hyphenated_uuid((#[trigger] rows[k])@.id) && rows[k]@
                    == warmup_row_model(k as nat, rows[k]@.id),
        decreases count - i,
    {
        let id = random_uuid();
        rows.push(warmup_row(i, id));
        i = i + 1;
    }
    rows
}

/// Reads the rows of a search's result, in order, leaving the warm-up rows out.
pub fn visible_pessoas(rows: &Vec<PersistedRecord>) -> (out: Vec<PessoaDTO>)
    ensures
        pessoa_models(out@) == visible(pessoas_of_rows(rows@)),
{
    let ghost keep = |p: PessoaModel| is_visible(p);
    let mut out: Vec<PessoaDTO> = Vec::new();
    let mut i: usize = 0;
    proof {
        reveal(Seq::filter);
        assert(pessoas_of_rows(rows@.take(0)).filter(keep) == Seq::<PessoaModel>::empty());
    }
    while i < rows.len()
        invariant
            i <= rows.len(),
            keep == |p: PessoaModel| is_visible(p),
            pessoa_models(out@) == pessoas_of_rows(rows@.take(i as int)).filter(keep),
        decreases rows.len() - i,
    {
        let ghost before = pessoa_models(out@);
        let ghost upto = pessoas_of_rows(rows@.take(i + 1));
        proof {
            reveal(Seq::filter);
            assert(upto.drop_last() == pessoas_of_rows(rows@.take(i as int)));
            assert(upto.last() == pessoa_of_row(rows@[i as int]@));
        }
        if !is_warmup(rows[i].apelido.as_str()) {
            let dto = PessoaDTO::from(&rows[i]);
            out.push(dto);
            assert(pessoa_models(out@) == before.push(dto@));
        }
        i = i + 1;
    }
    assert(rows@.take(rows.len() as int) == rows@);
    out
}

} // verus!
