//! Reading fields of JSON text, by `serde_json`.
use vstd::prelude::*;

verus! {

/// What `serde_json` reads as the string field `key` of the JSON object
/// written in `text`: `None` where the text is not JSON, is not an object,
/// or has no string under that key.
pub uninterp spec fn json_string_field(text: Seq<char>, key: Seq<char>) -> Option<Seq<char>>;

/// `serde_json::from_str::<Value>(text)`, then `Value::get(key)` and
/// `Value::as_str`. The contract names the string read, as a function of the
/// text and the key.
#[verifier::external_body]
pub(crate) fn string_field(text: &str, key: &str) -> (r: Option<String>)
    ensures
        match json_string_field(text@, key@) {
            Some(s) => r matches Some(t) && t@ == s,
            None => r is None,
        },
{
    match serde_json::from_str::<serde_json::Value>(text) {
        Ok(v) => v.get(key).and_then(|f| f.as_str()).map(|s| s.to_string()),
        Err(_) => None,
    }
}

} // verus!
