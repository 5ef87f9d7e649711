//! The JSON values that parameters carry and responses may hold, through serde_json.
use vstd::prelude::*;

verus! {

#[verifier::external_type_specification]
#[verifier::external_body]
pub struct ExJsonValue(serde_json::Value);

#[verifier::external_type_specification]
#[verifier::external_body]
pub struct ExJsonError(serde_json::Error);

/// Whether serde_json accepts `text` as one JSON document.
pub uninterp spec fn json_valid(text: Seq<char>) -> bool;

/// The JSON value that serde_json reads from `text`.
pub uninterp spec fn json_of(text: Seq<char>) -> serde_json::Value;

/// Relies on `serde_json::from_str::<Value>`: it succeeds exactly on the texts
/// that it accepts, and gives the same value for the same text, whatever the
/// process or machine.
#[verifier::external_body]
pub(crate) fn parse_json(text: &str) -> (r: Result<serde_json::Value, serde_json::Error>)
    ensures
        r.is_ok() == json_valid(text@),
        r matches Ok(v) ==> v == json_of(text@),
{
    serde_json::from_str::<serde_json::Value>(text)
}

/// Relies on `serde_json::Error::line`: the line at which parsing stopped.
pub assume_specification[ serde_json::Error::line ](e: &serde_json::Error) -> usize;

/// Relies on `serde_json::Error::column`: the column at which parsing stopped.
pub assume_specification[ serde_json::Error::column ](e: &serde_json::Error) -> usize;

/// Relies on the `Clone` impl of `serde_json::Value`: an equal value.
pub assume_specification[ <serde_json::Value as Clone>::clone ](v: &serde_json::Value) -> (r:
    serde_json::Value)
    ensures
        r == *v,
;

/// Whether serde_json accepts `text` as one JSON object.
pub uninterp spec fn json_object_valid(text: Seq<char>) -> bool;

/// The indented text that serde_json prints for the JSON object in `text`.
pub uninterp spec fn pretty_object_of(text: Seq<char>) -> Seq<char>;

/// Relies on `serde_json::from_str` into a `BTreeMap<String, Value>` and
/// `serde_json::to_string_pretty` of that map: the object's indented text,
/// keys in ascending order. Parsing succeeds exactly on the texts that hold
/// one JSON object; printing a map of strings to values does not fail.
#[verifier::external_body]
pub(crate) fn pretty_object(text: &str) -> (r: Option<String>)
    ensures
        r is Some <==> json_object_valid(text@),
        r matches Some(p) ==> p@ == pretty_object_of(text@),
{
    match serde_json::from_str::<std::collections::BTreeMap<String, serde_json::Value>>(text) {
        Ok(m) => serde_json::to_string_pretty(&m).ok(),
        Err(_) => None,
    }
}

/// The JSON string holding a text.
pub uninterp spec fn json_string_of(s: Seq<char>) -> serde_json::Value;

/// Relies on `serde_json::Value::String`: the JSON string holding `s`.
#[verifier::external_body]
pub(crate) fn json_string(s: String) -> (r: serde_json::Value)
    ensures
        r == json_string_of(s@),
{
    serde_json::Value::String(s)
}

/// The JSON object with these members.
pub uninterp spec fn json_object_of(f: Seq<(Seq<char>, serde_json::Value)>) -> serde_json::Value;

/// The members of an object, keys viewed as text.
pub open spec fn members_view(f: Seq<(String, serde_json::Value)>) -> Seq<(Seq<char>, serde_json::Value)> {
    f.map_values(|e: (String, serde_json::Value)| (e.0@, e.1))
}

/// Relies on collecting into a `serde_json::Map` and `Value::Object`: the JSON
/// object with these members.
#[verifier::external_body]
pub(crate) fn json_object(fields: Vec<(String, serde_json::Value)>) -> (r: serde_json::Value)
    ensures
        r == json_object_of(members_view(fields@)),
{
    serde_json::Value::Object(fields.into_iter().collect())
}

} // verus!
