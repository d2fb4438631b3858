//! The few JSON operations that a vmess node needs, through serde_json.
//!
//! A vmess node keeps its JSON object as a list of members, each a key and the
//! compact JSON text of its value.

use vstd::prelude::*;

verus! {

#[verifier::external_type_specification]
#[verifier::external_body]
pub struct ExJsonError(serde_json::Error);

/// The members of the JSON object written in `t`, each value in compact JSON
/// text, as `serde_json` reads them; none when `t` is not a JSON object.
pub uninterp spec fn json_object_members(t: Seq<char>) -> Option<Seq<(Seq<char>, Seq<char>)>>;

/// The string that the JSON text `t` holds, when `t` is a JSON string.
pub uninterp spec fn json_string_value(t: Seq<char>) -> Option<Seq<char>>;

/// The JSON string literal that `serde_json` writes for `s`.
pub uninterp spec fn json_quoted(s: Seq<char>) -> Seq<char>;

/// The members of a list of key and value-text pairs, as characters.
pub open spec fn members_view(m: Seq<(String, String)>) -> Seq<(Seq<char>, Seq<char>)> {
    m.map_values(|e: (String, String)| (e.0@, e.1@))
}

/// Relies on `serde_json::from_str` into a `serde_json::Map`, each value then
/// written back by `Value`'s `Display` (compact JSON).
#[verifier::external_body]
pub(crate) fn parse_object(t: &str) -> (r: Result<Vec<(String, String)>, serde_json::Error>)
    ensures
        (r is Ok) == (json_object_members(t@) is Some),
        r matches Ok(m) ==> json_object_members(t@) == Some(members_view(m@)),
{
    serde_json::from_str::<serde_json::Map<String, serde_json::Value>>(t)
        .map(|m| m.into_iter().map(|(k, v)| (k, v.to_string())).collect())
}

/// Relies on `serde_json::from_str` into a `String`.
#[verifier::external_body]
pub(crate) fn parse_string(t: &str) -> (r: Result<String, serde_json::Error>)
    ensures
        (r is Ok) == (json_string_value(t@) is Some),
        r matches Ok(s) ==> json_string_value(t@) == Some(s@),
{
    serde_json::from_str::<String>(t)
}

/// Relies on `Display` of `serde_json::Value::String`: the JSON literal of `s`.
#[verifier::external_body]
pub(crate) fn quote(s: &str) -> (r: String)
    ensures
        r@ == json_quoted(s@),
{
    serde_json::Value::String(s.to_string()).to_string()
}

} // verus!
