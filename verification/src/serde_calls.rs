use vstd::prelude::*;

use crate::error::ostr;

verus! {

/// What `serde_json` reads from `text` at the string field `key` of the top-level object:
/// `serde_json::from_str::<Value>(text)`, then `Value::get(key)`, then `Value::as_str`.
pub uninterp spec fn json_str_field_of(text: Seq<char>, key: Seq<char>) -> Option<Seq<char>>;

/// What `serde_json::from_str::<Vec<String>>(text)` gives: `None` where it fails.
pub uninterp spec fn json_string_list_of(text: Seq<char>) -> Option<Seq<Seq<char>>>;

/// Parses `text` with `serde_json::from_str` into a `serde_json::Value` and reads the string
/// field `key` of it. Claims that the result depends on `text` and `key` alone (the name
/// `json_str_field_of`); nothing is claimed about which texts parse.
#[verifier::external_body]
pub(crate) fn json_str_field(text: &str, key: &str) -> (r: Option<String>)
    ensures
        ostr(r) == json_str_field_of(text@, key@),
{
    let v: serde_json::Value = serde_json::from_str(text).ok()?;
    v.get(key)?.as_str().map(str::to_string)
}

/// Parses `text` with `serde_json::from_str` as a JSON array of strings. Claims that the result
/// depends on `text` alone (the name `json_string_list_of`).
#[verifier::external_body]
pub(crate) fn json_string_list(text: &str) -> (r: Option<Vec<String>>)
    ensures
        match r {
            Some(v) => json_string_list_of(text@) == Some(v.deep_view()),
            None => json_string_list_of(text@) is None,
        },
{
    serde_json::from_str::<Vec<String>>(text).ok()
}

} // verus!
