//! What this library takes on trust from the crates it calls. Nothing in this file
//! is proved: each contract restates what the called function's own source shows.

use vstd::prelude::*;

verus! {

/// Whether `chrono::NaiveDate::parse_from_str` accepts the text `s` under the
/// format `fmt`.
pub uninterp spec fn naive_date_parses(s: Seq<char>, fmt: Seq<char>) -> bool;

/// What `str::to_lowercase` gives for the text `s`.
pub uninterp spec fn lowercase(s: Seq<char>) -> Seq<char>;

/// A lower-case hexadecimal digit.
pub open spec fn is_lower_hex(c: char) -> bool {
    ('0' <= c && c <= '9') || ('a' <= c && c <= 'f')
}

/// The hyphenated form of a UUID: 36 characters, hyphens after the 8th, 12th, 16th
/// and 20th digit, lower-case hexadecimal digits elsewhere.
pub open spec fn is_hyphenated_uuid(s: Seq<char>) -> bool {
    &&& s.len() == 36
    &&& forall|i: int|
        0 <= i < 36 ==> if i == 8 || i == 13 || i == 18 || i == 23 {
            #[trigger] s[i] == '-'
        } else {
            is_lower_hex(#[trigger] s[i])
        }
}

/// Calls `chrono::NaiveDate::parse_from_str` and reports whether it returned `Ok`.
/// The parser reads its two arguments and nothing else, and answers a malformed
/// format with an error; the contract only names its verdict.
#[verifier::external_body]
pub(crate) fn date_parses(s: &str, fmt: &str) -> (ok: bool)
    ensures
        ok == naive_date_parses(s@, fmt@),
{
    chrono::NaiveDate::parse_from_str(s, fmt).is_ok()
}

/// Calls `str::to_lowercase`. The contract only names the result.
#[verifier::external_body]
pub(crate) fn to_lowercase(s: &str) -> (out: String)
    ensures
        out@ == lowercase(s@),
{
    s.to_lowercase()
}

/// Calls `uuid::Uuid::new_v4` and writes the identifier out through its `Display`,
/// which is the lower-case hyphenated form. The identifier is random, so the
/// contract states its shape and nothing of its digits. The call panics on a
/// machine whose operating system cannot supply random bytes.
#[verifier::external_body]
pub(crate) fn random_uuid() -> (id: String)
    ensures
        is_hyphenated_uuid(id@),
{
    uuid::Uuid::new_v4().to_string()
}

} // verus!
