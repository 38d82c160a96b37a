//! Rank parser for `<== RankGetCombinedRankInfo` API responses.
//!
//! # Real log format
//!
//! ```text
//! [UnityCrossThreadLogger]2/22/2026 12:00:01 PM
//! <== RankGetCombinedRankInfo(a1b2c3d4-...)
//! { "constructedClass": "Gold", "constructedLevel": 2, "constructedStep": 3,
//!   "limitedClass": "Silver", ... }
//! ```
//!
//! The `<==` response line and JSON payload are continuation lines within the
//! `[UnityCrossThreadLogger]` entry.

use vstd::prelude::*;
use crate::events;
use crate::events::{EventKind, EventMetadata, EventModel, GameEvent, RankEvent};
use crate::fields;
use crate::json;
use crate::json::{Json, JsonModel, JsonObject};
use crate::log::entry::LogEntry;
use crate::log::timestamp::Timestamp;
use crate::parsers::api_common;
use crate::parsers::api_common::{is_api_response, parse_json_from_body};

verus! {

/// API method name for rank information responses.
pub const RANK_METHOD: &'static str = "RankGetCombinedRankInfo";

/// The payload of a rank snapshot: the response as it is.
pub open spec fn rank_payload(parsed: JsonModel) -> JsonModel {
    JsonModel::Object(
        seq![("type"@, JsonModel::Str("rank_snapshot"@)), ("rank"@, parsed)],
    )
}

/// What an entry is emitted as.
pub open spec fn rank_claim(body: Seq<char>, timestamp: Option<Timestamp>) -> Option<EventModel> {
    if api_common::api_response(body, RANK_METHOD@) {
        match api_common::body_json(body) {
            Some(parsed) => Some(
                EventModel {
                    kind: EventKind::Rank,
                    metadata: events::entry_metadata(timestamp, body),
                    payload: rank_payload(parsed),
                },
            ),
            None => None,
        }
    } else {
        None
    }
}

/// Builds the payload of a rank snapshot from the response.
pub fn build_payload(parsed: Json) -> (payload: Json)
    ensures
        payload@ == rank_payload(parsed@),
{
    let mut object = JsonObject::new();
    object.push("type", Json::string("rank_snapshot"));
    object.push("rank", parsed);
    assert(object@ =~= rank_payload(parsed@)->Object_0);
    object.finish()
}

/// Attempts to parse a [`LogEntry`] as a rank event.
///
/// Returns a rank event if the entry is a `<== RankGetCombinedRankInfo`
/// response, or `None` otherwise.
pub fn try_parse(entry: &LogEntry, timestamp: Option<Timestamp>) -> (event: Option<GameEvent>)
    ensures
        events::opt_event(event) == rank_claim(entry.body@, timestamp),
        events::opt_sound(events::opt_event(event)),
{
    let body = entry.body.as_str();
    if !is_api_response(body, RANK_METHOD) {
        return None;
    }
    match parse_json_from_body(body) {
        Some(parsed) => {
            proof {
                law_rank_is_well_formed(parsed@);
            }
            let payload = build_payload(parsed);
            let metadata = EventMetadata::of_entry(timestamp, body);
            Some(GameEvent::Rank(RankEvent::new(metadata, payload)))
        },
        None => None,
    }
}

/// The payload of a rank snapshot is well formed where the response is.
pub proof fn law_rank_is_well_formed(parsed: JsonModel)
    requires
        json::well_formed(parsed),
    ensures
        json::well_formed(rank_payload(parsed)),
{
    reveal_strlit("type");
    reveal_strlit("rank");
    assert("type"@.len() == 4 && "rank"@.len() == 4);
    assert("type"@[0] == 't' && "rank"@[0] == 'r');
    json::lemma_object_well_formed(rank_payload(parsed)->Object_0);
}

/// A snapshot holds the response as it stands.
pub proof fn law_rank_is_reported(parsed: JsonModel)
    ensures
        fields::is_str(rank_payload(parsed).get("type"@), "rank_snapshot"@),
        rank_payload(parsed).get("rank"@) == Some(parsed),
        rank_payload(parsed)->Object_0.len() == 2,
{
    reveal_strlit("type");
    reveal_strlit("rank");
    assert("type"@[0] == 't' && "rank"@[0] == 'r');
    let members = rank_payload(parsed)->Object_0;
    json::lemma_lookup_all(members);
    assert(members[0].0 == "type"@);
    assert(members[1].0 == "rank"@);
}

/// An entry is emitted exactly where it is a rank response with JSON.
pub proof fn law_ranks_are_emitted(body: Seq<char>, timestamp: Option<Timestamp>)
    ensures
        match rank_claim(body, timestamp) {
            Some(event) => {
                &&& api_common::api_response(body, "RankGetCombinedRankInfo"@)
                &&& api_common::body_json(body) matches Some(parsed)
                &&& event.payload == rank_payload(parsed)
                &&& event.kind == EventKind::Rank
                &&& event.metadata == events::entry_metadata(timestamp, body)
            },
            None => {
                ||| !api_common::api_response(body, "RankGetCombinedRankInfo"@)
                ||| api_common::body_json(body) is None
            },
        },
{
}

} // verus!
