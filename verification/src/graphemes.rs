//! Texts as sequences of user-perceived characters.
//!
//! The length of a text and the positions in it count extended grapheme
//! clusters, not bytes or code points.
use vstd::prelude::*;
use unicode_segmentation::UnicodeSegmentation;
use crate::ama_value::texts_of;
use crate::text::{decimal, int_decimal, push_decimal, push_int};
use vstd::string::StringExecFns;

verus! {

broadcast use vstd::string::group_string_axioms;

/// The extended grapheme clusters of a text, in order, as the rules of
/// Unicode Standard Annex 29 cut them.
pub uninterp spec fn grapheme_clusters(s: Seq<char>) -> Seq<Seq<char>>;

/// Cuts a text into its extended grapheme clusters.
///
/// Trusted: calls `UnicodeSegmentation::graphemes` of the crate
/// `unicode-segmentation` with `is_extended` set, which iterates over the
/// extended grapheme clusters of the text from its start to its end, and
/// copies each cluster into a string of its own.
#[verifier::external_body]
pub(crate) fn graphemes(s: &str) -> (r: Vec<String>)
    ensures
        texts_of(r@) == grapheme_clusters(s@),
{
    let mut r: Vec<String> = Vec::new();
    for g in UnicodeSegmentation::graphemes(s, true) {
        r.push(String::from(g));
    }
    r
}

/// The length of a text of the given clusters.
pub open spec fn text_len(clusters: Seq<Seq<char>>) -> i64 {
    clusters.len() as i64
}

/// What is wrong with a position in a text of the given length, if
/// anything: the position is negative, or it is not below the length.
pub open spec fn position_error(len: nat, idx: i64) -> Option<Seq<char>> {
    if idx < 0 {
        Some("Erro de índice inválido. Strings só podem ser indexadas com inteiros positivos"@)
    } else if idx >= len {
        Some(
            "Erro de índice inválido. O tamanho da string é "@ + decimal(len)
                + ", mas o índice é "@ + int_decimal(idx as int),
        )
    } else {
        None
    }
}

/// The cluster at a position of a text, given the clusters of the text.
pub fn cluster_at(clusters: &Vec<String>, idx: i64) -> (r: Result<String, String>)
    ensures
        match position_error(clusters@.len(), idx) {
            Some(msg) => r is Err && r->Err_0@ == msg,
            None => r is Ok && r->Ok_0@ == clusters@[idx as int]@,
        },
{
    if idx < 0 {
        return Err(
            String::from_str(
                "Erro de índice inválido. Strings só podem ser indexadas com inteiros positivos",
            ),
        );
    }
    if idx as u64 >= clusters.len() as u64 {
        let mut msg = String::from_str("Erro de índice inválido. O tamanho da string é ");
        push_decimal(&mut msg, clusters.len() as u64);
        msg.append(", mas o índice é ");
        push_int(&mut msg, idx);
        return Err(msg);
    }
    Ok(clusters[idx as usize].clone())
}

/// The number of clusters of a text.
pub fn tam(s: &str) -> (n: i64)
    ensures
        n == text_len(grapheme_clusters(s@)),
{
    let clusters = graphemes(s);
    clusters.len() as i64
}

/// The cluster at a position of a text, or the error that the position is
/// out of range.
pub fn grapheme_at(s: &str, idx: i64) -> (r: Result<String, String>)
    ensures
        match position_error(grapheme_clusters(s@).len(), idx) {
            Some(msg) => r is Err && r->Err_0@ == msg,
            None => r is Ok && r->Ok_0@ == grapheme_clusters(s@)[idx as int],
        },
{
    let clusters = graphemes(s);
    cluster_at(&clusters, idx)
}

} // verus!
