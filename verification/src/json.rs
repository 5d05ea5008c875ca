//! Trusted declarations for the JSON reader that decodes the metadata header.
//!
//! The header bytes hold a JSON object. Reading one field out of it is
//! delegated to `serde_json`; each item below extracts one shape of field
//! from the document and is pinned to a name, so that the verified header
//! parser in `meta` can say exactly when loading succeeds and what it
//! yields. Every result is a function of the bytes and the key alone:
//! `serde_json`'s object is backed by an ordered map, so decoding (later
//! duplicate keys overwrite earlier ones) and iteration are deterministic.

use vstd::prelude::*;

verus! {

/// The number under `key` when the bytes decode as a JSON object whose
/// `key` holds an unsigned 64-bit representable number; `None` otherwise.
pub uninterp spec fn json_u64_of(b: Seq<u8>, key: Seq<char>) -> Option<u64>;

/// The strings under `key` when the bytes decode as a JSON object whose
/// `key` holds an array of strings; `None` otherwise.
pub uninterp spec fn json_strings_of(b: Seq<u8>, key: Seq<char>) -> Option<Seq<Seq<char>>>;

/// The key/number entries under `key` when the bytes decode as a JSON
/// object whose `key` holds an object with unsigned 64-bit representable
/// number values; `None` otherwise.
pub uninterp spec fn json_u64_pairs_of(b: Seq<u8>, key: Seq<char>) -> Option<
    Seq<(Seq<char>, u64)>,
>;

/// The views of a list of strings.
pub open spec fn strings_view(s: Seq<String>) -> Seq<Seq<char>> {
    Seq::new(s.len(), |i: int| s[i]@)
}

/// The views of a list of name/number pairs.
pub open spec fn pairs_u64_view(s: Seq<(String, u64)>) -> Seq<(Seq<char>, u64)> {
    Seq::new(s.len(), |i: int| (s[i].0@, s[i].1))
}

/// Relies on `serde_json::from_slice::<Value>`, `Value::get` and
/// `Value::as_u64`, chained: decodes the document and converts the value
/// under `key` to a number, `None` at the first step that does not apply.
#[verifier::external_body]
pub(crate) fn json_u64(b: &[u8], key: &str) -> (r: Option<u64>)
    ensures
        r == json_u64_of(b@, key@),
{
    serde_json::from_slice::<serde_json::Value>(b).ok()?.get(key)?.as_u64()
}

/// Relies on `serde_json::from_slice::<Value>`, `Value::get`,
/// `Value::as_array` and `Value::as_str`, chained: decodes the document and
/// converts each element of the array under `key` to an owned string,
/// `None` at the first step that does not apply.
#[verifier::external_body]
pub(crate) fn json_strings(b: &[u8], key: &str) -> (r: Option<Vec<String>>)
    ensures
        r matches Some(v) ==> json_strings_of(b@, key@) == Some(strings_view(v@)),
        r is None <==> json_strings_of(b@, key@) is None,
{
    let doc: serde_json::Value = serde_json::from_slice(b).ok()?;
    doc.get(key)?.as_array()?.iter().map(|v| v.as_str().map(str::to_owned)).collect()
}

/// Relies on `serde_json::from_slice::<Value>`, `Value::get`,
/// `Value::as_object`, `Map::iter` and `Value::as_u64`, chained: decodes the
/// document and converts each entry of the object under `key` to an owned
/// key with its number, `None` at the first step that does not apply. The
/// entries come from `serde_json`'s ordered map, so their keys are pairwise
/// distinct.
#[verifier::external_body]
pub(crate) fn json_u64_pairs(b: &[u8], key: &str) -> (r: Option<Vec<(String, u64)>>)
    ensures
        r matches Some(v) ==> json_u64_pairs_of(b@, key@) == Some(pairs_u64_view(v@)),
        r is None <==> json_u64_pairs_of(b@, key@) is None,
        r matches Some(v) ==> forall|i: int, j: int|
            0 <= i < j < v@.len() ==> v@[i].0@ != v@[j].0@,
{
    let doc: serde_json::Value = serde_json::from_slice(b).ok()?;
    doc.get(key)?.as_object()?.iter().map(|(k, v)| v.as_u64().map(|n| (k.clone(), n))).collect()
}

} // verus!
