//! The shapes that records take on their way in and out of the store, and the
//! conversions between them.

use crate::outside::{lowercase, to_lowercase};
use crate::tags::{joined, lemma_pieces_of_joined, pieces, space_free, split_tags, texts};
use vstd::prelude::*;
use vstd::string::*;

verus! {

/// A creation request as it arrives.
#[derive(Debug, Clone, PartialEq, Eq)]
pub struct CriarPessoaDTO {
    pub apelido: String,
    pub nome: String,
    pub nascimento: String,
    pub stack: Option<Vec<String>>,
}

/// A record as the read path hands it out.
#[derive(Debug, Clone, PartialEq, Eq)]
pub struct PessoaDTO {
    pub id: String,
    pub apelido: String,
    pub nome: String,
    pub nascimento: String,
    pub stack: Option<Vec<String>>,
}

/// The query of a search request.
#[derive(Debug, Clone, PartialEq, Eq)]
pub struct ParametrosBusca {
    pub t: String,
}

/// A row of the store: the columns in their order, the tags as one text.
#[derive(Debug, Clone, PartialEq, Eq)]
pub struct PersistedRecord {
    pub id: String,
    pub apelido: String,
    pub nome: String,
    pub nascimento: String,
    pub stack: Option<String>,
}

/// What a creation request holds.
pub ghost struct PayloadModel {
    pub apelido: Seq<char>,
    pub nome: Seq<char>,
    pub nascimento: Seq<char>,
    pub stack: Option<Seq<Seq<char>>>,
}

/// What a record holds, pending or read back.
pub ghost struct PessoaModel {
    pub id: Seq<char>,
    pub apelido: Seq<char>,
    pub nome: Seq<char>,
    pub nascimento: Seq<char>,
    pub stack: Option<Seq<Seq<char>>>,
}

/// What a row of the store holds.
pub ghost struct RowModel {
    pub id: Seq<char>,
    pub apelido: Seq<char>,
    pub nome: Seq<char>,
    pub nascimento: Seq<char>,
    pub stack: Option<Seq<char>>,
}

/// The texts of an optional list of tags.
pub open spec fn stack_texts(stack: Option<Vec<String>>) -> Option<Seq<Seq<char>>> {
    match stack {
        None => None,
        Some(v) => Some(texts(v@)),
    }
}

impl View for CriarPessoaDTO {
    type V = PayloadModel;

    open spec fn view(&self) -> PayloadModel {
        PayloadModel {
            apelido: self.apelido@,
            nome: self.nome@,
            nascimento: self.nascimento@,
            stack: stack_texts(self.stack),
        }
    }
}

impl View for PessoaDTO {
    type V = PessoaModel;

    open spec fn view(&self) -> PessoaModel {
        PessoaModel {
            id: self.id@,
            apelido: self.apelido@,
            nome: self.nome@,
            nascimento: self.nascimento@,
            stack: stack_texts(self.stack),
        }
    }
}

impl View for ParametrosBusca {
    type V = Seq<char>;

    open spec fn view(&self) -> Seq<char> {
        self.t@
    }
}

impl View for PersistedRecord {
    type V = RowModel;

    open spec fn view(&self) -> RowModel {
        RowModel {
            id: self.id@,
            apelido: self.apelido@,
            nome: self.nome@,
            nascimento: self.nascimento@,
            stack: match self.stack {
                None => None,
                Some(s) => Some(s@),
            },
        }
    }
}

/// The record that a row is read as: the columns unchanged, the tag column, where
/// there is one, cut at its spaces.
pub open spec fn pessoa_of_row(row: RowModel) -> PessoaModel {
    PessoaModel {
        id: row.id,
        apelido: row.apelido,
        nome: row.nome,
        nascimento: row.nascimento,
        stack: match row.stack {
            None => None,
            Some(s) => Some(pieces(s)),
        },
    }
}

/// The row that a record is written as: the tags joined by spaces, and the empty
/// text where the record has no list of tags.
pub open spec fn row_of_pessoa(p: PessoaModel) -> RowModel {
    RowModel {
        id: p.id,
        apelido: p.apelido,
        nome: p.nome,
        nascimento: p.nascimento,
        stack: Some(
            match p.stack {
                None => Seq::empty(),
                Some(tags) => joined(tags),
            },
        ),
    }
}

/// The records that a list of rows is read as.
pub open spec fn pessoas_of_rows(rows: Seq<PersistedRecord>) -> Seq<PessoaModel> {
    Seq::new(rows.len(), |i: int| pessoa_of_row(rows[i]@))
}

/// What a list of records holds.
pub open spec fn pessoa_models(v: Seq<PessoaDTO>) -> Seq<PessoaModel> {
    Seq::new(v.len(), |i: int| v[i]@)
}

/// A record with at least one tag, none of them holding a space, is read back from
/// its row as it was written.
pub proof fn lemma_row_round_trip(p: PessoaModel)
    requires
        p.stack is Some,
        p.stack->0.len() >= 1,
        space_free(p.stack->0),
    ensures
        pessoa_of_row(row_of_pessoa(p)) == p,
{
    lemma_pieces_of_joined(p.stack->0);
}

impl PessoaDTO {
    /// Reads a row of the store.
    pub fn from(row: &PersistedRecord) -> (dto: PessoaDTO)
        ensures
            dto@ == pessoa_of_row(row@),
    {
        let stack = match &row.stack {
            None => None,
            Some(s) => Some(split_tags(s.as_str())),
        };
        PessoaDTO {
            id: row.id.clone(),
            apelido: row.apelido.clone(),
            nome: row.nome.clone(),
            nascimento: row.nascimento.clone(),
            stack,
        }
    }
}

/// Reads the first row of a lookup's result, if it has one.
pub fn first_pessoa(rows: &Vec<PersistedRecord>) -> (found: Option<PessoaDTO>)
    ensures
        rows.len() == 0 ==> found is None,
        rows.len() > 0 ==> found is Some && found->0@ == pessoa_of_row(rows[0]@),
{
    if rows.len() == 0 {
        return None;
    }
    Some(PessoaDTO::from(&rows[0]))
}

/// The pattern that finds `lowered` anywhere in a text: the term between two
/// wildcards.
pub open spec fn wildcard(lowered: Seq<char>) -> Seq<char> {
    seq!['%'] + lowered + seq!['%']
}

/// Puts a search term, already in lower case, between two wildcards.
pub fn wrap_wildcards(lowered: &str) -> (pattern: String)
    ensures
        pattern@ == wildcard(lowered@),
{
    let mut pattern = "%".to_owned();
    pattern.append(lowered);
    pattern.append("%");
    proof {
        reveal_strlit("%");
        assert("%"@ =~= seq!['%']);
    }
    pattern
}

/// The pattern of a search for `term`: the term in lower case between two
/// wildcards.
pub fn like_pattern(term: &str) -> (pattern: String)
    ensures
        pattern@ == wildcard(lowercase(term@)),
{
    let lowered = to_lowercase(term);
    wrap_wildcards(lowered.as_str())
}

impl ParametrosBusca {
    /// The pattern of this search.
    pub fn pattern(&self) -> (pattern: String)
        ensures
            pattern@ == wildcard(lowercase(self@)),
    {
        like_pattern(self.t.as_str())
    }
}

} // verus!
