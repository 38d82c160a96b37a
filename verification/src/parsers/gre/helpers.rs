//! Shared extraction helpers used across GRE submodules.

use vstd::prelude::*;
use crate::json;
use crate::json::{get_field, str_items, Json, JsonModel};

verus! {

/// Extracts an array of strings from a JSON array value.
///
/// Collects all string values, silently skipping non-string entries.
pub fn extract_string_array(value: Option<&Json>) -> (strings: Vec<String>)
    ensures
        json::string_models(strings@) == json::strs_in(json::opt_model(value)),
{
    str_items(value)
}

/// The number behind a nested `{ "value": N }` object, or null.
pub open spec fn nested_value(obj: Option<JsonModel>) -> JsonModel {
    match json::get_in(obj, "value"@) {
        Some(JsonModel::Number(n)) => JsonModel::Number(n),
        _ => JsonModel::Null,
    }
}

/// Extracts a numeric value from a nested `{ "value": N }` object.
///
/// Power and toughness are written as objects with a `value` field. Null where
/// the structure is missing or malformed.
pub fn extract_nested_value(obj: Option<&Json>) -> (value: Json)
    ensures
        value@ == nested_value(json::opt_model(obj)),
{
    match get_field(obj, "value") {
        Some(Json::Number(n)) => Json::Number(*n),
        _ => Json::Null,
    }
}

/// The field is the number under `value` in the source, and null where there is
/// none.
pub open spec fn takes_nested(field: Option<JsonModel>, source: Option<JsonModel>) -> bool {
    match source {
        Some(v) => match v.get("value"@) {
            Some(JsonModel::Number(n)) => field == Some(JsonModel::Number(n)),
            _ => field == Some(JsonModel::Null),
        },
        None => field == Some(JsonModel::Null),
    }
}

/// A nested number is the one under `value`, or null.
pub proof fn law_nested_number_is_unwrapped(source: Option<JsonModel>)
    ensures
        takes_nested(Some(nested_value(source)), source),
{
}

} // verus!
