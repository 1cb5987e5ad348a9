//! JSON text as `serde_json` reads and writes it.
//!
//! Nothing in this module is proved. Each function hands one call to
//! `serde_json` and gives its result a name, so that the rest of the library
//! can speak of "what `serde_json` makes of this text" without restating the
//! JSON grammar.

use serde_json::value::RawValue;
use std::collections::BTreeMap;
use vstd::prelude::*;

verus! {

#[verifier::external_type_specification]
#[verifier::external_body]
pub struct ExJsonError(serde_json::Error);

/// What `serde_json::from_slice` makes of `text` when asked for an array of
/// objects: for each object its members, as name and raw JSON text of the
/// value, in the order of a `BTreeMap` over the names. `None` where
/// `from_slice` fails.
pub uninterp spec fn json_records(text: Seq<u8>) -> Option<Seq<Seq<(Seq<char>, Seq<u8>)>>>;

/// What `serde_json::from_slice` makes of `text` when asked for a `String`:
/// the content of a JSON string, escapes resolved. `None` where it fails.
pub uninterp spec fn json_string(text: Seq<u8>) -> Option<Seq<char>>;

/// What `serde_json::from_slice` makes of `text` when asked for a `u64`.
/// `None` where it fails.
pub uninterp spec fn json_u64(text: Seq<u8>) -> Option<u64>;

/// The JSON string that `serde_json::to_vec` writes for `s`, quotes
/// included. `None` where it fails.
pub uninterp spec fn json_quoted(s: Seq<char>) -> Option<Seq<u8>>;

/// Calls `serde_json::from_slice` for a `Vec<BTreeMap<String, Box<RawValue>>>`
/// and hands each member out as its name and the bytes of its raw text.
/// Claimed: the result is `json_records` of the text, and nothing else.
#[verifier::external_body]
pub(crate) fn read_records(text: &[u8]) -> (r: Result<
    Vec<Vec<(String, Vec<u8>)>>,
    serde_json::Error,
>)
    ensures
        match r {
            Ok(rows) => json_records(text@) == Some(rows.deep_view()),
            Err(_) => json_records(text@) is None,
        },
{
    let rows = serde_json::from_slice::<Vec<BTreeMap<String, Box<RawValue>>>>(text)?;
    Ok(
        rows.into_iter().map(
            |row| row.into_iter().map(|(k, v)| (k, v.get().as_bytes().to_vec())).collect(),
        ).collect(),
    )
}

/// Calls `serde_json::from_slice` for a `String`.
/// Claimed: the result is `json_string` of the text, and nothing else.
#[verifier::external_body]
pub(crate) fn read_string(text: &[u8]) -> (r: Result<String, serde_json::Error>)
    ensures
        match r {
            Ok(s) => json_string(text@) == Some(s@),
            Err(_) => json_string(text@) is None,
        },
{
    serde_json::from_slice::<String>(text)
}

/// Calls `serde_json::from_slice` for a `u64`.
/// Claimed: the result is `json_u64` of the text, and nothing else.
#[verifier::external_body]
pub(crate) fn read_u64(text: &[u8]) -> (r: Result<u64, serde_json::Error>)
    ensures
        match r {
            Ok(n) => json_u64(text@) == Some(n),
            Err(_) => json_u64(text@) is None,
        },
{
    serde_json::from_slice::<u64>(text)
}

/// Calls `serde_json::to_vec` on a string slice.
/// Claimed: the result is `json_quoted` of the string, and nothing else.
#[verifier::external_body]
pub(crate) fn write_string(s: &str) -> (r: Result<Vec<u8>, serde_json::Error>)
    ensures
        match r {
            Ok(text) => json_quoted(s@) == Some(text@),
            Err(_) => json_quoted(s@) is None,
        },
{
    serde_json::to_vec(s)
}

} // verus!
