//! Trusted boundary to `urlencoding` and `serde_json`: percent-encoding of a
//! query value and field lookup in a JSON document. Both are pure functions
//! of their text arguments, so each result is given a name that the callers'
//! contracts speak of.

use vstd::prelude::*;

verus! {

/// The percent-encoding of the string, as `urlencoding::encode` computes it.
pub uninterp spec fn url_encoded(s: Seq<char>) -> Seq<char>;

/// The string value at a JSON-pointer path of a JSON text; `None` when the
/// text does not parse, the path is absent, or the value is not a string.
pub uninterp spec fn json_string_at(text: Seq<char>, pointer: Seq<char>) -> Option<Seq<char>>;

/// The boolean value at a JSON-pointer path of a JSON text; `None` when the
/// text does not parse, the path is absent, or the value is not a boolean.
pub uninterp spec fn json_bool_at(text: Seq<char>, pointer: Seq<char>) -> Option<bool>;

/// Relies on `urlencoding::encode`: percent-encodes every byte outside the
/// unreserved set; the result depends on the characters alone, and an empty
/// string stays empty.
#[verifier::external_body]
pub(crate) fn url_encode(s: &str) -> (r: String)
    ensures
        r@ == url_encoded(s@),
        s@.len() == 0 ==> r@.len() == 0,
{
    urlencoding::encode(s).into_owned()
}

/// Relies on `serde_json::from_str`, `serde_json::Value::pointer` and
/// `serde_json::Value::as_str`: the string at the pointer path, a function
/// of the two texts alone.
#[verifier::external_body]
pub(crate) fn json_string_lookup(text: &str, pointer: &str) -> (r: Option<String>)
    ensures
        (r is Some) == (json_string_at(text@, pointer@) is Some),
        r matches Some(s) ==> json_string_at(text@, pointer@) == Some(s@),
{
    let value: serde_json::Value = match serde_json::from_str(text) {
        Ok(v) => v,
        Err(_) => return None,
    };
    match value.pointer(pointer) {
        Some(field) => field.as_str().map(|s| s.to_string()),
        None => None,
    }
}

/// Relies on `serde_json::from_str`, `serde_json::Value::pointer` and
/// `serde_json::Value::as_bool`: the boolean at the pointer path, a function
/// of the two texts alone.
#[verifier::external_body]
pub(crate) fn json_bool_lookup(text: &str, pointer: &str) -> (r: Option<bool>)
    ensures
        r == json_bool_at(text@, pointer@),
{
    let value: serde_json::Value = match serde_json::from_str(text) {
        Ok(v) => v,
        Err(_) => return None,
    };
    match value.pointer(pointer) {
        Some(field) => field.as_bool(),
        None => None,
    }
}

} // verus!
