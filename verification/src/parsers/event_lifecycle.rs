//! Event lifecycle parser: `EventJoin`, `EventClaimPrize`, `EventEnterPairing`.
//!
//! Recognizes API requests (`==>`) for all listed methods. Inbound responses
//! (`<==`) are parsed only for `EventClaimPrize` (wins/losses); `EventJoin` and
//! `EventEnterPairing` responses are ignored so each action emits at most one
//! lifecycle event (the request).
//!
//! | Method | Meaning | `==>` request | `<==` response |
//! |--------|---------|---------------|----------------|
//! | `EventJoin` | Player joins a competitive event | Yes | No |
//! | `EventClaimPrize` | Player claims rewards from a completed event | Yes | Yes |
//! | `EventEnterPairing` | Player enters the pairing queue | Yes | No |
//!
//! # Real log format
//!
//! ### Requests
//! ```text
//! [UnityCrossThreadLogger]==> EventJoin {"id":"abc-123","request":"{\"EventName\":\"PremierDraft_MKM_20260201\"}"}
//! ```
//!
//! ### Responses
//! ```text
//! [UnityCrossThreadLogger]4/21/2026 11:14:45 PM
//! <== EventClaimPrize(c5c3c263-bde8-4a03-b5fa-345c26196fb2)
//! {"Course":{"InternalEventName":"PremierDraft_SOS_20260421","CurrentWins":7,"CurrentLosses":1,...}, ...}
//! ```

use vstd::prelude::*;
use crate::events;
use crate::events::{EventKind, EventLifecycleEvent, EventMetadata, EventModel, GameEvent};
use crate::fields;
use crate::json;
use crate::json::{int_field, str_field_or, Json, JsonModel, JsonObject};
use crate::log::entry::LogEntry;
use crate::log::timestamp::Timestamp;
use crate::parsers::api_common;
use crate::parsers::api_common::{
    extract_event_name, is_api_request, is_api_response, parse_json_from_body,
};

verus! {

pub const JOIN_METHOD: &'static str = "EventJoin";

pub const CLAIM_PRIZE_METHOD: &'static str = "EventClaimPrize";

pub const ENTER_PAIRING_METHOD: &'static str = "EventEnterPairing";

// ---------------------------------------------------------------------------
// What an entry is emitted as
// ---------------------------------------------------------------------------

/// The lifecycle method that a body requests, joining before claiming before
/// pairing.
pub open spec fn requested_method(body: Seq<char>) -> Option<Seq<char>> {
    if api_common::api_request(body, JOIN_METHOD@) {
        Some(JOIN_METHOD@)
    } else if api_common::api_request(body, CLAIM_PRIZE_METHOD@) {
        Some(CLAIM_PRIZE_METHOD@)
    } else if api_common::api_request(body, ENTER_PAIRING_METHOD@) {
        Some(ENTER_PAIRING_METHOD@)
    } else {
        None
    }
}

/// A lifecycle payload whose last member is what was parsed, under `raw_name`.
pub open spec fn lifecycle_fields(
    method: Seq<char>,
    name: Seq<char>,
    raw_name: Seq<char>,
    parsed: JsonModel,
) -> Seq<(Seq<char>, JsonModel)> {
    seq![
        ("type"@, JsonModel::Str("event_lifecycle"@)),
        ("action"@, JsonModel::Str(method)),
        ("event_name"@, JsonModel::Str(name)),
        (raw_name, parsed),
    ]
}

/// The payload of a request.
pub open spec fn request_payload(body: Seq<char>) -> Option<JsonModel> {
    match requested_method(body) {
        Some(method) => match api_common::body_json(body) {
            Some(parsed) => Some(
                JsonModel::Object(
                    lifecycle_fields(method, api_common::event_name(parsed), "raw_request"@, parsed),
                ),
            ),
            None => None,
        },
        None => None,
    }
}

/// The payload of a prize response that holds a course. Wins and losses are
/// there only where the course has them.
pub open spec fn course_payload(parsed: JsonModel, method: Seq<char>) -> Option<JsonModel> {
    match parsed.get("Course"@) {
        Some(course) => Some(
            JsonModel::Object(
                lifecycle_fields(
                    method,
                    json::str_or(course.get("InternalEventName"@), ""@),
                    "raw_response"@,
                    parsed,
                ) + json::optional(
                    "current_wins"@,
                    json::opt_int(json::int_in(course.get("CurrentWins"@))),
                ) + json::optional(
                    "current_losses"@,
                    json::opt_int(json::int_in(course.get("CurrentLosses"@))),
                ),
            ),
        ),
        None => None,
    }
}

/// The payload of a prize response, with the event name that stands outside a
/// course.
pub open spec fn prize_payload(parsed: JsonModel, name: Seq<char>) -> JsonModel {
    match course_payload(parsed, CLAIM_PRIZE_METHOD@) {
        Some(payload) => payload,
        None => JsonModel::Object(
            lifecycle_fields(CLAIM_PRIZE_METHOD@, name, "raw_response"@, parsed),
        ),
    }
}

/// The payload of a response.
pub open spec fn response_payload(body: Seq<char>) -> Option<JsonModel> {
    if api_common::api_response(body, CLAIM_PRIZE_METHOD@) {
        match api_common::body_json(body) {
            Some(parsed) => Some(prize_payload(parsed, api_common::event_name(parsed))),
            None => None,
        }
    } else {
        None
    }
}

/// The payload of an entry: that of its request, or else of its response.
pub open spec fn lifecycle_payload(body: Seq<char>) -> Option<JsonModel> {
    match request_payload(body) {
        Some(payload) => Some(payload),
        None => response_payload(body),
    }
}

/// What an entry is emitted as.
pub open spec fn lifecycle_claim(
    body: Seq<char>,
    timestamp: Option<Timestamp>,
) -> Option<EventModel> {
    match lifecycle_payload(body) {
        Some(payload) => Some(
            EventModel {
                kind: EventKind::EventLifecycle,
                metadata: events::entry_metadata(timestamp, body),
                payload,
            },
        ),
        None => None,
    }
}

// ---------------------------------------------------------------------------
// Parsing
// ---------------------------------------------------------------------------

/// Attempts to parse a [`LogEntry`] as an event lifecycle event.
///
/// Returns a lifecycle event if the entry is a recognized outbound request
/// (`==>`) for any lifecycle method, or an inbound `EventClaimPrize` response
/// (`<==`).
pub fn try_parse(entry: &LogEntry, timestamp: Option<Timestamp>) -> (event: Option<GameEvent>)
    ensures
        events::opt_event(event) == lifecycle_claim(entry.body@, timestamp),
        events::opt_sound(events::opt_event(event)),
{
    let body = entry.body.as_str();
    let payload = match try_parse_request(body) {
        Some(payload) => payload,
        None => match try_parse_response(body) {
            Some(payload) => payload,
            None => return None,
        },
    };
    let metadata = EventMetadata::of_entry(timestamp, body);
    Some(GameEvent::EventLifecycle(EventLifecycleEvent::new(metadata, payload)))
}

fn find_requested_method(body: &str) -> (method: Option<&'static str>)
    ensures
        match method {
            Some(m) => requested_method(body@) == Some(m@),
            None => requested_method(body@) is None,
        },
{
    if is_api_request(body, JOIN_METHOD) {
        Some(JOIN_METHOD)
    } else if is_api_request(body, CLAIM_PRIZE_METHOD) {
        Some(CLAIM_PRIZE_METHOD)
    } else if is_api_request(body, ENTER_PAIRING_METHOD) {
        Some(ENTER_PAIRING_METHOD)
    } else {
        None
    }
}

/// A lifecycle payload whose last member is a copy of what was parsed.
pub fn build_lifecycle_object(
    method: &str,
    event_name: &str,
    raw_name: &str,
    parsed: &Json,
) -> (object: JsonObject)
    ensures
        object@ == lifecycle_fields(method@, event_name@, raw_name@, parsed@),
{
    let mut object = JsonObject::new();
    object.push("type", Json::string("event_lifecycle"));
    object.push("action", Json::string(method));
    object.push("event_name", Json::string(event_name));
    object.push(raw_name, parsed.clone());
    assert(object@ =~= lifecycle_fields(method@, event_name@, raw_name@, parsed@));
    object
}

/// Attempts to parse an outbound API request (`==>`) as a lifecycle event.
pub fn try_parse_request(body: &str) -> (payload: Option<Json>)
    ensures
        json::owned_model(payload) == request_payload(body@),
        json::opt_well_formed(json::owned_model(payload)),
{
    match find_requested_method(body) {
        None => None,
        Some(method) => match parse_json_from_body(body) {
            None => None,
            Some(parsed) => {
                let event_name = extract_event_name(&parsed);
                proof {
                    law_lifecycle_is_well_formed(method@, event_name@, "raw_request"@, parsed@);
                }
                Some(
                    build_lifecycle_object(
                        method,
                        event_name.as_str(),
                        "raw_request",
                        &parsed,
                    ).finish(),
                )
            },
        },
    }
}

/// Attempts to parse an inbound `EventClaimPrize` response (`<==`).
///
/// Other lifecycle method responses are mostly success confirmations. They are
/// not emitted, so that no action is emitted twice.
pub fn try_parse_response(body: &str) -> (payload: Option<Json>)
    ensures
        json::owned_model(payload) == response_payload(body@),
        json::opt_well_formed(json::owned_model(payload)),
{
    if !is_api_response(body, CLAIM_PRIZE_METHOD) {
        return None;
    }
    match parse_json_from_body(body) {
        None => None,
        Some(parsed) => {
            let event_name = extract_event_name(&parsed);
            proof {
                law_prize_is_well_formed(parsed@, event_name@);
            }
            Some(build_prize_payload(&parsed, event_name.as_str()))
        },
    }
}

/// Builds the payload of a prize response. Without a course it still surfaces
/// the claim, so that the raw response is available.
pub fn build_prize_payload(parsed: &Json, event_name: &str) -> (payload: Json)
    ensures
        payload@ == prize_payload(parsed@, event_name@),
{
    match try_parse_claim_prize_course(parsed, CLAIM_PRIZE_METHOD) {
        Some(payload) => payload,
        None => build_lifecycle_object(
            CLAIM_PRIZE_METHOD,
            event_name,
            "raw_response",
            parsed,
        ).finish(),
    }
}

/// Parses the specific JSON structure of an `EventClaimPrize` response.
///
/// Extracts `InternalEventName`, `CurrentWins`, and `CurrentLosses` from the
/// nested `Course` object. Everything else is preserved in the `raw_response`
/// field.
///
/// Returns `None` when the response does not contain `Course`.
pub fn try_parse_claim_prize_course(parsed: &Json, method: &str) -> (payload: Option<Json>)
    ensures
        json::owned_model(payload) == course_payload(parsed@, method@),
{
    match parsed.get("Course") {
        None => None,
        Some(course) => {
            let event_name = str_field_or(course.get("InternalEventName"), "");
            let mut object = build_lifecycle_object(method, event_name, "raw_response", parsed);
            object.push_int("current_wins", int_field(course.get("CurrentWins")));
            object.push_int("current_losses", int_field(course.get("CurrentLosses")));
            Some(object.finish())
        },
    }
}

// ---------------------------------------------------------------------------
// Laws
// ---------------------------------------------------------------------------

/// Of the responses only that of a prize claim is emitted: joining and pairing
/// are emitted by their requests alone.
pub proof fn law_only_prize_responses_are_emitted(body: Seq<char>, timestamp: Option<Timestamp>)
    requires
        requested_method(body) is None,
        !api_common::api_response(body, CLAIM_PRIZE_METHOD@),
    ensures
        lifecycle_claim(body, timestamp) is None,
{
}

/// A request is emitted as a request where its text holds a response too.
pub proof fn law_request_comes_first(body: Seq<char>)
    requires
        request_payload(body) is Some,
    ensures
        lifecycle_payload(body) == request_payload(body),
{
}

/// Wins and losses are in the payload exactly where the course has them.
pub proof fn law_course_counts_are_optional(
    parsed: JsonModel,
    course: JsonModel,
    method: Seq<char>,
)
    requires
        parsed.get("Course"@) == Some(course),
    ensures
        course_payload(parsed, method) is Some,
        course_payload(parsed, method).unwrap().get("current_wins"@) == json::opt_int(
            json::int_in(course.get("CurrentWins"@)),
        ),
        course_payload(parsed, method).unwrap().get("current_losses"@) == json::opt_int(
            json::int_in(course.get("CurrentLosses"@)),
        ),
{
    reveal_strlit("type");
    reveal_strlit("action");
    reveal_strlit("event_name");
    reveal_strlit("raw_response");
    reveal_strlit("current_wins");
    reveal_strlit("current_losses");
    assert("type"@.len() == 4 && "action"@.len() == 6 && "event_name"@.len() == 10);
    assert("current_wins"@.len() == 12 && "current_losses"@.len() == 14);
    assert("raw_response"@.len() == 12 && "raw_response"@[0] == 'r' && "current_wins"@[0] == 'c');
    let name = json::str_or(course.get("InternalEventName"@), ""@);
    let front = lifecycle_fields(method, name, "raw_response"@, parsed);
    let wins = json::opt_int(json::int_in(course.get("CurrentWins"@)));
    let losses = json::opt_int(json::int_in(course.get("CurrentLosses"@)));
    let a = json::optional("current_wins"@, wins);
    let b = json::optional("current_losses"@, losses);
    json::lemma_lookup_missing(front, "current_wins"@);
    json::lemma_lookup_missing(front, "current_losses"@);
    json::lemma_lookup_concat(front + a, b, "current_wins"@);
    json::lemma_lookup_concat(front, a, "current_wins"@);
    json::lemma_lookup_concat(front + a, b, "current_losses"@);
    json::lemma_lookup_concat(front, a, "current_losses"@);
    json::lemma_lookup_optional("current_wins"@, wins, "current_wins"@);
    json::lemma_lookup_optional("current_wins"@, wins, "current_losses"@);
    json::lemma_lookup_optional("current_losses"@, losses, "current_wins"@);
    json::lemma_lookup_optional("current_losses"@, losses, "current_losses"@);
}

/// A lifecycle payload is well formed where what was parsed is.
pub proof fn law_lifecycle_is_well_formed(
    method: Seq<char>,
    name: Seq<char>,
    raw_name: Seq<char>,
    parsed: JsonModel,
)
    requires
        json::well_formed(parsed),
        raw_name == "raw_request"@ || raw_name == "raw_response"@,
    ensures
        json::well_formed(JsonModel::Object(lifecycle_fields(method, name, raw_name, parsed))),
{
    lemma_names_differ(method, name, raw_name, parsed);
    json::lemma_object_well_formed(lifecycle_fields(method, name, raw_name, parsed));
}

/// The payload of a prize response is well formed where the response is.
pub proof fn law_prize_is_well_formed(parsed: JsonModel, name: Seq<char>)
    requires
        json::well_formed(parsed),
    ensures
        json::well_formed(prize_payload(parsed, name)),
{
    reveal_strlit("type");
    reveal_strlit("action");
    reveal_strlit("event_name");
    reveal_strlit("raw_response");
    reveal_strlit("current_wins");
    reveal_strlit("current_losses");
    assert("type"@.len() == 4 && "action"@.len() == 6 && "event_name"@.len() == 10);
    assert("raw_response"@.len() == 12 && "current_wins"@.len() == 12);
    assert("current_losses"@.len() == 14);
    assert("raw_response"@[0] == 'r' && "current_wins"@[0] == 'c');
    law_lifecycle_is_well_formed(CLAIM_PRIZE_METHOD@, name, "raw_response"@, parsed);
    match parsed.get("Course"@) {
        Some(course) => {
            let event = json::str_or(course.get("InternalEventName"@), ""@);
            law_lifecycle_is_well_formed(CLAIM_PRIZE_METHOD@, event, "raw_response"@, parsed);
            let front = lifecycle_fields(CLAIM_PRIZE_METHOD@, event, "raw_response"@, parsed);
            let wins = json::opt_int(json::int_in(course.get("CurrentWins"@)));
            let losses = json::opt_int(json::int_in(course.get("CurrentLosses"@)));
            let more = front + json::optional("current_wins"@, wins);
            json::lemma_optional_keeps(front, "current_wins"@, wins);
            json::lemma_optional_lacks(front, "current_wins"@, wins, "current_losses"@);
            json::lemma_optional_keeps(more, "current_losses"@, losses);
        },
        None => {},
    }
}

/// The names of a lifecycle payload are told apart.
proof fn lemma_names_differ(
    method: Seq<char>,
    name: Seq<char>,
    raw_name: Seq<char>,
    parsed: JsonModel,
)
    requires
        raw_name == "raw_request"@ || raw_name == "raw_response"@,
    ensures
        json::distinct_names(lifecycle_fields(method, name, raw_name, parsed)),
{
    reveal_strlit("type");
    reveal_strlit("action");
    reveal_strlit("event_name");
    reveal_strlit("raw_request");
    reveal_strlit("raw_response");
    assert("type"@.len() == 4 && "action"@.len() == 6 && "event_name"@.len() == 10);
    assert("raw_request"@.len() == 11 && "raw_response"@.len() == 12);
}

/// Whether a payload tells of an action in an event.
pub open spec fn tells_action(payload: JsonModel, action: Seq<char>, event: Seq<char>) -> bool {
    &&& payload is Object
    &&& fields::is_str(payload.get("type"@), "event_lifecycle"@)
    &&& fields::is_str(payload.get("action"@), action)
    &&& fields::is_str(payload.get("event_name"@), event)
}

proof fn lemma_lifecycle_members(
    method: Seq<char>,
    name: Seq<char>,
    raw_name: Seq<char>,
    parsed: JsonModel,
)
    requires
        raw_name == "raw_request"@ || raw_name == "raw_response"@,
    ensures
        tells_action(
            JsonModel::Object(lifecycle_fields(method, name, raw_name, parsed)),
            method,
            name,
        ),
        json::lookup(lifecycle_fields(method, name, raw_name, parsed), raw_name) == Some(parsed),
{
    lemma_names_differ(method, name, raw_name, parsed);
    let members = lifecycle_fields(method, name, raw_name, parsed);
    json::lemma_lookup_all(members);
    assert(members[0].0 == "type"@);
    assert(members[1].0 == "action"@);
    assert(members[2].0 == "event_name"@);
    assert(members[3].0 == raw_name);
}

/// A request is emitted with the action it asks for, joining before claiming before
/// pairing, the event it names, and the request itself.
pub proof fn law_requests_are_reported(body: Seq<char>)
    ensures
        ({
            let join = api_common::api_request(body, "EventJoin"@);
            let claim = api_common::api_request(body, "EventClaimPrize"@);
            let pair = api_common::api_request(body, "EventEnterPairing"@);
            match request_payload(body) {
                Some(payload) => {
                    &&& join || claim || pair
                    &&& api_common::body_json(body) matches Some(parsed)
                    &&& tells_action(
                        payload,
                        if join {
                            "EventJoin"@
                        } else if claim {
                            "EventClaimPrize"@
                        } else {
                            "EventEnterPairing"@
                        },
                        api_common::event_name(parsed),
                    )
                    &&& payload.get("raw_request"@) == Some(parsed)
                    &&& payload->Object_0.len() == 4
                },
                None => (!join && !claim && !pair) || api_common::body_json(body) is None,
            }
        }),
{
    if request_payload(body) is Some {
        let method = requested_method(body).unwrap();
        let parsed = api_common::body_json(body).unwrap();
        lemma_lifecycle_members(method, api_common::event_name(parsed), "raw_request"@, parsed);
    }
}

/// A claimed prize is reported with the event, the wins and the losses of its course.
/// Without a course it is reported with the event name that was found.
pub proof fn law_prizes_are_reported(parsed: JsonModel, name: Seq<char>)
    ensures
        ({
            let payload = prize_payload(parsed, name);
            &&& payload.get("raw_response"@) == Some(parsed)
            &&& match parsed.get("Course"@) {
                Some(course) => {
                    &&& tells_action(
                        payload,
                        "EventClaimPrize"@,
                        match course.get("InternalEventName"@) {
                            Some(JsonModel::Str(event)) => event,
                            _ => ""@,
                        },
                    )
                    &&& fields::passes_int(
                        payload.get("current_wins"@),
                        course.get("CurrentWins"@),
                    )
                    &&& fields::passes_int(
                        payload.get("current_losses"@),
                        course.get("CurrentLosses"@),
                    )
                    &&& payload->Object_0.len() == 4 + fields::presence(
                        payload.get("current_wins"@),
                    ) + fields::presence(payload.get("current_losses"@))
                },
                None => {
                    &&& tells_action(payload, "EventClaimPrize"@, name)
                    &&& payload->Object_0.len() == 4
                },
            }
        }),
{
    lemma_lifecycle_members(CLAIM_PRIZE_METHOD@, name, "raw_response"@, parsed);
    match parsed.get("Course"@) {
        Some(course) => {
            law_course_counts_are_optional(parsed, course, CLAIM_PRIZE_METHOD@);
            let event = json::str_or(course.get("InternalEventName"@), ""@);
            lemma_lifecycle_members(CLAIM_PRIZE_METHOD@, event, "raw_response"@, parsed);
            let front = lifecycle_fields(CLAIM_PRIZE_METHOD@, event, "raw_response"@, parsed);
            let a = json::optional(
                "current_wins"@,
                json::opt_int(json::int_in(course.get("CurrentWins"@))),
            );
            let b = json::optional(
                "current_losses"@,
                json::opt_int(json::int_in(course.get("CurrentLosses"@))),
            );
            json::lemma_lookup_concat(front + a, b, "type"@);
            json::lemma_lookup_concat(front, a, "type"@);
            json::lemma_lookup_concat(front + a, b, "action"@);
            json::lemma_lookup_concat(front, a, "action"@);
            json::lemma_lookup_concat(front + a, b, "event_name"@);
            json::lemma_lookup_concat(front, a, "event_name"@);
            json::lemma_lookup_concat(front + a, b, "raw_response"@);
            json::lemma_lookup_concat(front, a, "raw_response"@);
        },
        None => {},
    }
}

/// An entry is emitted for its request, or else for a prize response with JSON, and
/// not at all where it holds neither.
pub proof fn law_lifecycle_entries_are_emitted(body: Seq<char>, timestamp: Option<Timestamp>)
    ensures
        match lifecycle_claim(body, timestamp) {
            Some(event) => {
                &&& event.kind == EventKind::EventLifecycle
                &&& event.metadata == events::entry_metadata(timestamp, body)
                &&& match request_payload(body) {
                    Some(payload) => event.payload == payload,
                    None => {
                        &&& api_common::api_response(body, "EventClaimPrize"@)
                        &&& api_common::body_json(body) matches Some(parsed)
                        &&& event.payload == prize_payload(parsed, api_common::event_name(parsed))
                    },
                }
            },
            None => {
                &&& request_payload(body) is None
                &&& !api_common::api_response(body, "EventClaimPrize"@) || api_common::body_json(
                    body,
                ) is None
            },
        },
{
}

} // verus!
