//! What parsers of API requests and responses share.
//!
//! A request line reads `==> Method {...}`, a response line
//! `<== Method(id)` with its JSON on the lines behind it.

use vstd::prelude::*;
use crate::fields;
use crate::json;
use crate::json::{str_field, Json, JsonModel};
use crate::json_text;
use crate::json_text::parse_json;
use crate::scan;
use crate::scan::find_object;
use crate::text;
use crate::text::contains;

verus! {

/// The JSON value that the first object of a text reads as. Nothing where
/// there is no object or it is malformed.
pub open spec fn body_json(body: Seq<char>) -> Option<JsonModel> {
    match scan::first_object(body) {
        Some(object) => json_text::parsed_json(object),
        None => None,
    }
}

/// Reads the first JSON object of an entry's body.
///
/// Nothing is returned where there is none or it is malformed.
pub fn parse_json_from_body(body: &str) -> (parsed: Option<Json>)
    ensures
        json::owned_model(parsed) == body_json(body@),
        json::opt_well_formed(body_json(body@)),
{
    match find_object(body) {
        Some(object) => parse_json(object),
        None => None,
    }
}

/// Whether a text holds a request of the given method.
pub open spec fn api_request(body: Seq<char>, method: Seq<char>) -> bool {
    text::has_text(body, "==> "@ + method + " "@)
}

/// Whether a text holds a response of the given method.
pub open spec fn api_response(body: Seq<char>, method: Seq<char>) -> bool {
    text::has_text(body, "<== "@ + method + "("@)
}

/// Whether the body holds an outbound request (`==>`) of the given method.
pub fn is_api_request(body: &str, method: &str) -> (b: bool)
    ensures
        b == api_request(body@, method@),
{
    let line = String::from_str("==> ").concat(method).concat(" ");
    contains(body, line.as_str())
}

/// Whether the body holds an inbound response (`<==`) of the given method.
pub fn is_api_response(body: &str, method: &str) -> (b: bool)
    ensures
        b == api_response(body@, method@),
{
    let line = String::from_str("<== ").concat(method).concat("(");
    contains(body, line.as_str())
}

/// The event name of a request: that of the request itself, or of the request
/// that it holds as a string. Empty where neither has one.
pub open spec fn event_name_from(parsed: JsonModel, inner: Option<JsonModel>) -> Seq<char> {
    match json::str_in(parsed.get("EventName"@)) {
        Some(name) => name,
        None => json::str_or(json::get_in(inner, "EventName"@), ""@),
    }
}

/// The value that the string under `request` reads as.
pub open spec fn inner_request(parsed: JsonModel) -> Option<JsonModel> {
    match json::str_in(parsed.get("request"@)) {
        Some(s) => json_text::parsed_json(s),
        None => None,
    }
}

/// The event name in a request.
pub open spec fn event_name(parsed: JsonModel) -> Seq<char> {
    event_name_from(parsed, inner_request(parsed))
}

/// The event name of a request and of the request that it holds as a string.
pub fn choose_event_name(parsed: &Json, inner: Option<&Json>) -> (name: String)
    ensures
        name@ == event_name_from(parsed@, json::opt_model(inner)),
{
    match str_field(parsed.get("EventName")) {
        Some(name) => name.to_owned(),
        None => json::str_field_or(json::get_field(inner, "EventName"), "").to_owned(),
    }
}

/// The event name in a request, which may stand in a string-escaped `request`
/// field. Empty where there is none.
pub fn extract_event_name(parsed: &Json) -> (name: String)
    ensures
        name@ == event_name(parsed@),
{
    let inner = match str_field(parsed.get("request")) {
        Some(s) => parse_json(s),
        None => None,
    };
    choose_event_name(
        parsed,
        match &inner {
            Some(v) => Some(v),
            None => None,
        },
    )
}

// ---------------------------------------------------------------------------
// Laws
// ---------------------------------------------------------------------------

/// A request and a response are told by their arrows: `==> Method ` and
/// `<== Method(`.
pub proof fn law_methods_are_told_by_arrows(body: Seq<char>, method: Seq<char>)
    ensures
        api_request(body, method) <==> text::has_text(
            body,
            seq!['=', '=', '>', ' '] + method + seq![' '],
        ),
        api_response(body, method) <==> text::has_text(
            body,
            seq!['<', '=', '=', ' '] + method + seq!['('],
        ),
{
    reveal_strlit("==> ");
    reveal_strlit(" ");
    reveal_strlit("<== ");
    reveal_strlit("(");
    assert("==> "@ =~= seq!['=', '=', '>', ' ']);
    assert("<== "@ =~= seq!['<', '=', '=', ' ']);
    assert(" "@ =~= seq![' ']);
    assert("("@ =~= seq!['(']);
}

/// The JSON of a body is what its first object reads as, and nothing without one.
pub proof fn law_body_json_is_of_first_object(body: Seq<char>)
    ensures
        match scan::first_object(body) {
            Some(object) => body_json(body) == json_text::parsed_json(object),
            None => body_json(body) is None,
        },
{
}

/// The event name of a request is its own, or else that of the request it holds as a
/// string, or else empty.
pub proof fn law_own_event_name_comes_first(parsed: JsonModel)
    ensures
        match parsed.get("EventName"@) {
            Some(JsonModel::Str(name)) => event_name(parsed) == name,
            _ => match parsed.get("request"@) {
                Some(JsonModel::Str(request)) => fields::takes_str(
                    Some(JsonModel::Str(event_name(parsed))),
                    json::get_in(json_text::parsed_json(request), "EventName"@),
                    ""@,
                ),
                _ => event_name(parsed) == ""@,
            },
        },
{
}

/// The event name of a request and of the one it holds: the first that is a string.
pub proof fn law_event_name_is_chosen(parsed: JsonModel, inner: Option<JsonModel>)
    ensures
        match parsed.get("EventName"@) {
            Some(JsonModel::Str(name)) => event_name_from(parsed, inner) == name,
            _ => fields::takes_str(
                Some(JsonModel::Str(event_name_from(parsed, inner))),
                json::get_in(inner, "EventName"@),
                ""@,
            ),
        },
{
}

} // verus!
