use vstd::prelude::*;

use crate::json::{Json, JsonView};

verus! {

/// serde_json's dynamic JSON value, carried through the parse and print wrappers below.
#[verifier::external_type_specification]
#[verifier::external_body]
pub struct ExValue(serde_json::Value);

/// What `serde_json::from_str::<serde_json::Value>` makes of a text: the value, or the
/// message of its error.
pub uninterp spec fn json_parse(text: Seq<char>) -> Result<JsonView, Seq<char>>;

/// What `serde_json::Value`'s `Display` prints for a value (compact JSON).
pub uninterp spec fn json_compact_text(j: JsonView) -> Seq<char>;

/// What `serde_json::to_string_pretty` prints for a value.
pub uninterp spec fn json_pretty_text(j: JsonView) -> Seq<char>;

pub open spec fn parse_result_view(r: Result<Json, String>) -> Result<JsonView, Seq<char>> {
    match r {
        Ok(j) => Ok(j@),
        Err(e) => Err(e@),
    }
}

/// Converts serde_json's value into the library's, one variant for one variant.
#[verifier::external_body]
fn from_value(v: &serde_json::Value) -> Json {
    match v {
        serde_json::Value::Null => Json::Null,
        serde_json::Value::Bool(b) => Json::Bool(*b),
        serde_json::Value::Number(n) => Json::Number(n.to_string()),
        serde_json::Value::String(s) => Json::Str(s.clone()),
        serde_json::Value::Array(a) => Json::Array(a.iter().map(from_value).collect()),
        serde_json::Value::Object(m) => Json::Object(
            m.iter().map(|(k, x)| (k.clone(), from_value(x))).collect(),
        ),
    }
}

/// Converts the library's value into serde_json's, one variant for one variant; an
/// object's entries are inserted in order, so a later entry for a key overrides an
/// earlier one.
#[verifier::external_body]
fn to_value(j: &Json) -> serde_json::Value {
    match j {
        Json::Null => serde_json::Value::Null,
        Json::Bool(b) => serde_json::Value::Bool(*b),
        Json::Number(n) => n.parse::<serde_json::Number>().map_or(
            serde_json::Value::String(n.clone()),
            serde_json::Value::Number,
        ),
        Json::Str(s) => serde_json::Value::String(s.clone()),
        Json::Array(a) => serde_json::Value::Array(a.iter().map(to_value).collect()),
        Json::Object(e) => serde_json::Value::Object(
            e.iter().map(|(k, x)| (k.clone(), to_value(x))).collect(),
        ),
    }
}

/// Parses JSON text with `serde_json::from_str::<serde_json::Value>`. The contract
/// claims only that the outcome is a function of the text (serde_json is deterministic);
/// which texts parse, and to what, is left to serde_json.
#[verifier::external_body]
pub(crate) fn parse_json(text: &str) -> (r: Result<Json, String>)
    ensures
        parse_result_view(r) == json_parse(text@),
{
    match serde_json::from_str::<serde_json::Value>(text) {
        Ok(v) => Ok(from_value(&v)),
        Err(e) => Err(e.to_string()),
    }
}

/// Prints a value as compact JSON through `serde_json::Value`'s `Display`. The contract
/// claims that the text depends on the value's view alone: serde_json is built without
/// `preserve_order`, so object keys print in sorted order whatever order they were
/// inserted in.
#[verifier::external_body]
pub(crate) fn compact_text(j: &Json) -> (r: String)
    ensures
        r@ == json_compact_text(j@),
{
    to_value(j).to_string()
}

/// Prints a value as indented JSON through `serde_json::to_string_pretty`, which cannot
/// fail on a `serde_json::Value` (its keys are strings). The contract claims that the
/// text depends on the value's view alone, as for `compact_text`.
#[verifier::external_body]
pub(crate) fn pretty_text(j: &Json) -> (r: String)
    ensures
        r@ == json_pretty_text(j@),
{
    serde_json::to_string_pretty(&to_value(j)).unwrap_or_default()
}

} // verus!
