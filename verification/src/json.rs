//! Reading string fields of JSON texts.
use vstd::prelude::*;

verus! {

/// Whether `serde_json::from_str::<serde_json::Value>` accepts the text.
pub uninterp spec fn json_parses(text: Seq<char>) -> bool;

/// The message of the error that `serde_json::from_str` gives for the text.
pub uninterp spec fn json_error_text(text: Seq<char>) -> Seq<char>;

/// The string stored under `key` of a JSON text, as `serde_json::from_str`
/// followed by `Value::get(key)` and `Value::as_str` gives it (none when the text
/// is not JSON).
pub uninterp spec fn json_str_entry(text: Seq<char>, key: Seq<char>) -> Option<Seq<char>>;

/// The string stored under `inner` of the object under `outer` of a JSON text,
/// as `Value::get(outer)`, `Value::get(inner)` and `Value::as_str` give it.
pub uninterp spec fn json_nested_str_entry(
    text: Seq<char>,
    outer: Seq<char>,
    inner: Seq<char>,
) -> Option<Seq<char>>;

/// Checks that a text is JSON.
/// Trusted: calls `serde_json::from_str::<serde_json::Value>`; whether it succeeds
/// and its error text are named (`json_parses`, `json_error_text`).
#[verifier::external_body]
pub(crate) fn json_check(text: &str) -> (r: Result<(), String>)
    ensures
        r is Ok <==> json_parses(text@),
        r matches Err(m) ==> m@ == json_error_text(text@),
{
    match serde_json::from_str::<serde_json::Value>(text) {
        Ok(_) => Ok(()),
        Err(e) => Err(e.to_string()),
    }
}

/// Reads the string under `key` of a JSON text.
/// Trusted: calls `serde_json::from_str::<serde_json::Value>`, `Value::get` and
/// `Value::as_str`; the entry found is named `json_str_entry` and not described
/// further here.
#[verifier::external_body]
pub(crate) fn json_str_field(text: &str, key: &str) -> (r: Option<String>)
    ensures
        r is None <==> json_str_entry(text@, key@) is None,
        r matches Some(v) ==> json_str_entry(text@, key@) == Some(v@),
{
    serde_json::from_str::<serde_json::Value>(text).ok().and_then(
        |v| v.get(key).and_then(|x| x.as_str()).map(|s| s.to_string()),
    )
}

/// Reads the string under `inner` of the object under `outer` of a JSON text.
/// Trusted: calls `serde_json::from_str::<serde_json::Value>`, `Value::get` twice
/// and `Value::as_str`; the entry found is named `json_nested_str_entry`.
#[verifier::external_body]
pub(crate) fn json_nested_str_field(text: &str, outer: &str, inner: &str) -> (r: Option<String>)
    ensures
        r is None <==> json_nested_str_entry(text@, outer@, inner@) is None,
        r matches Some(v) ==> json_nested_str_entry(text@, outer@, inner@) == Some(v@),
{
    serde_json::from_str::<serde_json::Value>(text).ok().and_then(
        |v| v.get(outer).and_then(|o| o.get(inner)).and_then(|x| x.as_str()).map(|s| s.to_string()),
    )
}

} // verus!
