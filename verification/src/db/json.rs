//! The list of entries as JSON text.
//!
//! A list is written as an array with one array per entry, which holds the
//! title, the user name, the password and the URL in this order; an entry
//! without a URL has `null` in its place.

use crate::db::entry::{rows_text, Row};
use vstd::prelude::*;
use zeroize::Zeroize;

verus! {

/// The JSON text that stands for a list of entries.
pub uninterp spec fn json_text(
    rows: Seq<(Seq<char>, Seq<char>, Seq<char>, Option<Seq<char>>)>,
) -> Seq<u8>;

/// The list of entries that a JSON text stands for, if it stands for one.
pub uninterp spec fn json_rows(text: Seq<u8>) -> Option<
    Seq<(Seq<char>, Seq<char>, Seq<char>, Option<Seq<char>>)>,
>;

/// Writes rows as JSON.
///
/// Calls `serde_json::to_vec` on a vector of tuples of strings. Trusted: the
/// call succeeds; the text is a function of what the rows say; and reading
/// the text back gives rows that say the same.
#[verifier::external_body]
pub(crate) fn json_encode(rows: &Vec<Row>) -> (out: Option<Vec<u8>>)
    ensures
        out is Some,
        out->0@ == json_text(rows_text(rows@)),
        json_rows(out->0@) == Some(rows_text(rows@)),
{
    serde_json::to_vec(rows).ok()
}

/// Reads rows from JSON.
///
/// Calls `serde_json::from_slice` for a vector of tuples of strings. Trusted:
/// whether the text is accepted, and what the rows say that come out, is a
/// function of the text alone.
#[verifier::external_body]
pub(crate) fn json_decode(text: &[u8]) -> (out: Option<Vec<Row>>)
    ensures
        out is Some <==> json_rows(text@) is Some,
        out is Some ==> json_rows(text@) == Some(rows_text(out->0@)),
{
    serde_json::from_slice(text).ok()
}

/// Overwrites every string in `rows` with zeros and empties the list.
///
/// Calls `zeroize` of `zeroize::Zeroize` on the vector. Trusted: afterwards
/// the vector is empty.
#[verifier::external_body]
pub(crate) fn zeroize_rows(rows: &mut Vec<Row>)
    ensures
        final(rows)@.len() == 0,
{
    rows.zeroize();
}

} // verus!
