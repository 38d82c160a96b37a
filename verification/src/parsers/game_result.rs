//! Game result parser for `LogBusinessEvents` with `WinningType`.
//!
//! Detects game completion and emits the event that triggers batch finalization
//! in downstream consumers.
//!
//! | Field | Purpose |
//! |-------|---------|
//! | `WinningType` | How the game was won (e.g., `"WinLoss"`, `"Draw"`) |
//! | `WinningTeamId` | Which team (seat) won |
//! | `WinningReason` | Why the game ended (e.g., concede, life total) |
//! | `GameNumber` | Game number within the match (1, 2, 3 for Bo3) |
//! | `StartingTeamId` | Which team went first |
//!
//! `LogBusinessEvents` is shared with human draft pick events (`PickGrpId`).
//! Only entries that contain `WinningType` are matched.

use vstd::prelude::*;
use crate::events;
use crate::events::{EventKind, EventMetadata, EventModel, GameEvent, GameResultEvent};
use crate::fields;
use crate::json;
use crate::json::{int_field_or, str_field_or, Json, JsonModel, JsonObject};
use crate::json_text;
use crate::json_text::parse_json;
use crate::log::entry::LogEntry;
use crate::log::timestamp::Timestamp;
use crate::scan;
use crate::scan::find_value;
use crate::text;
use crate::text::contains;

verus! {

/// Marker that identifies business event entries in the log.
pub const BUSINESS_EVENTS_MARKER: &'static str = "LogBusinessEvents";

/// Field that distinguishes game result business events from other
/// `LogBusinessEvents` entries (e.g., draft picks with `PickGrpId`).
pub const WINNING_TYPE_FIELD: &'static str = "WinningType";

// ---------------------------------------------------------------------------
// What an entry is emitted as
// ---------------------------------------------------------------------------

/// Whether a value is an object with a `WinningType`.
pub open spec fn has_type(value: JsonModel) -> bool {
    value.get(WINNING_TYPE_FIELD@) is Some
}

/// The first of the items with a `WinningType`.
pub open spec fn winning_item(items: Seq<JsonModel>) -> Option<JsonModel>
    decreases items.len(),
{
    if items.len() == 0 {
        None
    } else if has_type(items[0]) {
        Some(items[0])
    } else {
        winning_item(items.drop_first())
    }
}

/// The first item with a `WinningType` of a value that is an array.
pub open spec fn winning_entry(parsed: JsonModel) -> Option<JsonModel> {
    match parsed.as_array() {
        Some(items) => winning_item(items),
        None => None,
    }
}

/// Whether a business event is a game result: `WinningType` stands at the top
/// level, in its `Params`, or in an item of an array.
pub open spec fn is_game_result(parsed: JsonModel) -> bool {
    ||| has_type(parsed)
    ||| (parsed.get("Params"@) is Some && has_type(parsed.get("Params"@).unwrap()))
    ||| winning_entry(parsed) is Some
}

/// Where the fields of a result stand: in the `Params` or at the top level,
/// whichever holds `WinningType`, or in an item of an array.
pub open spec fn source_of(parsed: JsonModel) -> JsonModel {
    let wrapped = json::value_or(parsed.get("Params"@), parsed);
    if has_type(wrapped) {
        wrapped
    } else {
        match winning_entry(parsed) {
            Some(entry) => entry,
            None => parsed,
        }
    }
}

/// The first of four values that is there.
pub open spec fn first_present(
    a: Option<JsonModel>,
    b: Option<JsonModel>,
    c: Option<JsonModel>,
    d: Option<JsonModel>,
) -> Option<JsonModel> {
    if a is Some {
        a
    } else if b is Some {
        b
    } else if c is Some {
        c
    } else {
        d
    }
}

/// The string under one of two names, in the source or else at the top level.
pub open spec fn id_in(
    source: JsonModel,
    parsed: JsonModel,
    name: Seq<char>,
    other: Seq<char>,
) -> Seq<char> {
    json::str_or(
        first_present(source.get(name), source.get(other), parsed.get(name), parsed.get(other)),
        ""@,
    )
}

/// The payload of a game result.
pub open spec fn result_payload(parsed: JsonModel) -> JsonModel {
    let source = source_of(parsed);
    JsonModel::Object(
        seq![
            ("type"@, JsonModel::Str("game_result"@)),
            ("winning_type"@, JsonModel::Str(json::str_or(source.get("WinningType"@), ""@))),
            ("winning_team_id"@, json::int_json(json::int_or(source.get("WinningTeamId"@), 0))),
            ("winning_reason"@, JsonModel::Str(json::str_or(source.get("WinningReason"@), ""@))),
            ("game_number"@, json::int_json(json::int_or(source.get("GameNumber"@), 0))),
            ("starting_team_id"@, json::int_json(json::int_or(source.get("StartingTeamId"@), 0))),
            ("match_id"@, JsonModel::Str(id_in(source, parsed, "MatchId"@, "matchId"@))),
            ("event_id"@, JsonModel::Str(id_in(source, parsed, "EventId"@, "InternalEventName"@))),
            ("raw_business_event"@, parsed),
        ],
    )
}

/// The value that the first object or array of a body reads as.
pub open spec fn body_value(body: Seq<char>) -> Option<JsonModel> {
    match scan::first_value(body) {
        Some(value) => json_text::parsed_json(value),
        None => None,
    }
}

/// What an entry is emitted as.
pub open spec fn game_result_claim(
    body: Seq<char>,
    timestamp: Option<Timestamp>,
) -> Option<EventModel> {
    if text::has_text(body, BUSINESS_EVENTS_MARKER@) && text::has_text(body, WINNING_TYPE_FIELD@) {
        match body_value(body) {
            Some(parsed) => if is_game_result(parsed) {
                Some(
                    EventModel {
                        kind: EventKind::GameResult,
                        metadata: events::entry_metadata(timestamp, body),
                        payload: result_payload(parsed),
                    },
                )
            } else {
                None
            },
            None => None,
        }
    } else {
        None
    }
}

// ---------------------------------------------------------------------------
// Parsing
// ---------------------------------------------------------------------------

/// Attempts to parse a [`LogEntry`] as a game result event.
///
/// Returns a game result if the entry is a `LogBusinessEvents` containing a
/// `WinningType` field, or `None` if the entry does not match.
pub fn try_parse(entry: &LogEntry, timestamp: Option<Timestamp>) -> (event: Option<GameEvent>)
    ensures
        events::opt_event(event) == game_result_claim(entry.body@, timestamp),
        events::opt_sound(events::opt_event(event)),
{
    let body = entry.body.as_str();
    if !contains(body, BUSINESS_EVENTS_MARKER) {
        return None;
    }
    if !contains(body, WINNING_TYPE_FIELD) {
        return None;
    }
    let parsed = match extract_json_from_body(body) {
        Some(json_str) => match parse_json(json_str) {
            Some(parsed) => parsed,
            None => return None,
        },
        None => return None,
    };
    // The field has to be in the JSON, not just in surrounding text.
    if !has_winning_type(&parsed) {
        return None;
    }
    proof {
        law_result_is_well_formed(parsed@);
    }
    let payload = build_payload(&parsed);
    let metadata = EventMetadata::of_entry(timestamp, body);
    Some(GameEvent::GameResult(GameResultEvent::new(metadata, payload)))
}

/// Checks whether the parsed JSON contains a `WinningType` field.
///
/// Searches the top level, a `Params` object, and the items of an array.
pub fn has_winning_type(parsed: &Json) -> (b: bool)
    ensures
        b == is_game_result(parsed@),
{
    if parsed.get(WINNING_TYPE_FIELD).is_some() {
        return true;
    }
    if let Some(params) = parsed.get("Params") {
        if params.get(WINNING_TYPE_FIELD).is_some() {
            return true;
        }
    }
    find_winning_entry_in_array(parsed).is_some()
}

fn first_of_four<'a>(
    a: Option<&'a Json>,
    b: Option<&'a Json>,
    c: Option<&'a Json>,
    d: Option<&'a Json>,
) -> (v: Option<&'a Json>)
    ensures
        json::opt_model(v) == first_present(
            json::opt_model(a),
            json::opt_model(b),
            json::opt_model(c),
            json::opt_model(d),
        ),
{
    if a.is_some() {
        a
    } else if b.is_some() {
        b
    } else if c.is_some() {
        c
    } else {
        d
    }
}

fn find_source(parsed: &Json) -> (source: &Json)
    ensures
        source@ == source_of(parsed@),
{
    let wrapped = match parsed.get("Params") {
        Some(params) => params,
        None => parsed,
    };
    if wrapped.get(WINNING_TYPE_FIELD).is_some() {
        wrapped
    } else {
        match find_winning_entry_in_array(parsed) {
            Some(entry) => entry,
            None => parsed,
        }
    }
}

/// Builds a structured payload from the game result business event.
///
/// Extracts key fields into a flat payload for downstream consumers. Falls back
/// to empty/default values for any missing fields.
pub fn build_payload(parsed: &Json) -> (payload: Json)
    ensures
        payload@ == result_payload(parsed@),
{
    let source = find_source(parsed);
    let match_id = str_field_or(
        first_of_four(
            source.get("MatchId"),
            source.get("matchId"),
            parsed.get("MatchId"),
            parsed.get("matchId"),
        ),
        "",
    );
    let event_id = str_field_or(
        first_of_four(
            source.get("EventId"),
            source.get("InternalEventName"),
            parsed.get("EventId"),
            parsed.get("InternalEventName"),
        ),
        "",
    );
    let mut object = JsonObject::new();
    object.push("type", Json::string("game_result"));
    object.push("winning_type", Json::string(str_field_or(source.get("WinningType"), "")));
    object.push("winning_team_id", Json::integer(int_field_or(source.get("WinningTeamId"), 0)));
    object.push("winning_reason", Json::string(str_field_or(source.get("WinningReason"), "")));
    object.push("game_number", Json::integer(int_field_or(source.get("GameNumber"), 0)));
    object.push("starting_team_id", Json::integer(int_field_or(source.get("StartingTeamId"), 0)));
    object.push("match_id", Json::string(match_id));
    object.push("event_id", Json::string(event_id));
    // The full raw event is kept for consumers that need deeper fields.
    object.push("raw_business_event", parsed.clone());
    assert(object@ =~= result_payload(parsed@)->Object_0);
    object.finish()
}

/// Searches a top-level JSON array for the first entry with `WinningType`.
///
/// `LogBusinessEvents` can be an array of event objects; this finds the
/// game-result entry within that array.
pub fn find_winning_entry_in_array(parsed: &Json) -> (found: Option<&Json>)
    ensures
        json::opt_model(found) == winning_entry(parsed@),
{
    match parsed.as_array() {
        None => None,
        Some(items) => {
            let ghost all = json::item_models(items@);
            assert(all.skip(0) =~= all);
            let mut i: usize = 0;
            while i < items.len()
                invariant
                    i <= items@.len(),
                    all == json::item_models(items@),
                    parsed@.as_array() == Some(all),
                    winning_item(all) == winning_item(all.skip(i as int)),
                decreases items@.len() - i,
            {
                assert(all.skip(i as int).drop_first() =~= all.skip(i + 1));
                if items[i].get(WINNING_TYPE_FIELD).is_some() {
                    return Some(&items[i]);
                }
                i += 1;
            }
            None
        },
    }
}

/// Extracts the first JSON object or array from a multi-line log body.
///
/// The log header line may contain brackets (e.g., `[UnityCrossThreadLogger]`)
/// that must not be confused with JSON array delimiters. A `[...]` header
/// prefix is skipped before the first `{` or `[` is looked for.
pub fn extract_json_from_body(body: &str) -> (value: Option<&str>)
    ensures
        match value {
            Some(t) => scan::first_value(body@) == Some(t@),
            None => scan::first_value(body@) is None,
        },
{
    find_value(body)
}

/// The payload of a game result is well formed where the business event is.
pub proof fn law_result_is_well_formed(parsed: JsonModel)
    requires
        json::well_formed(parsed),
    ensures
        json::well_formed(result_payload(parsed)),
{
    lemma_names_differ(parsed);
    json::lemma_object_well_formed(result_payload(parsed)->Object_0);
}

/// Fields that are wrapped in `Params` are read as if they stood at the top level.
pub proof fn law_params_are_unwrapped(fields: JsonModel)
    requires
        has_type(fields),
        fields.get("Params"@) is None,
    ensures
        source_of(JsonModel::Object(seq![("Params"@, fields)])) == fields,
        source_of(fields) == fields,
{
    json::lemma_lookup_at(seq![("Params"@, fields)], 0);
}

/// In an array of business events the first one with a `WinningType` is read.
pub proof fn law_first_winning_entry_is_read(
    before: Seq<JsonModel>,
    entry: JsonModel,
    after: Seq<JsonModel>,
)
    requires
        forall|i: int| 0 <= i < before.len() ==> !has_type(#[trigger] before[i]),
        has_type(entry),
    ensures
        winning_entry(JsonModel::Array(before + seq![entry] + after)) == Some(entry),
        source_of(JsonModel::Array(before + seq![entry] + after)) == entry,
    decreases before.len(),
{
    let all = before + seq![entry] + after;
    if before.len() == 0 {
        assert(all[0] == entry);
    } else {
        let rest = before.drop_first();
        assert(all[0] == before[0]);
        assert forall|i: int| 0 <= i < rest.len() implies !has_type(#[trigger] rest[i]) by {
            assert(rest[i] == before[i + 1]);
        }
        law_first_winning_entry_is_read(rest, entry, after);
        assert(all.drop_first() =~= rest + seq![entry] + after);
    }
}

/// The names of a game result are told apart.
proof fn lemma_names_differ(parsed: JsonModel)
    ensures
        json::distinct_names(result_payload(parsed)->Object_0),
{
    reveal_strlit("type");
    reveal_strlit("winning_type");
    reveal_strlit("winning_team_id");
    reveal_strlit("winning_reason");
    reveal_strlit("game_number");
    reveal_strlit("starting_team_id");
    reveal_strlit("match_id");
    reveal_strlit("event_id");
    reveal_strlit("raw_business_event");
    assert("type"@.len() == 4 && "winning_type"@.len() == 12 && "winning_team_id"@.len() == 15);
    assert("winning_reason"@.len() == 14 && "game_number"@.len() == 11);
    assert("starting_team_id"@.len() == 16 && "match_id"@.len() == 8 && "event_id"@.len() == 8);
    assert("raw_business_event"@.len() == 18);
    assert("match_id"@[0] == 'm' && "event_id"@[0] == 'e');
}

/// The field is the string under the first of the names that is there, looked up in
/// the source before the whole event, and empty where that is no string.
pub open spec fn takes_first_id(
    field: Option<JsonModel>,
    source: JsonModel,
    parsed: JsonModel,
    name: Seq<char>,
    other: Seq<char>,
) -> bool {
    if source.get(name) is Some {
        fields::takes_str(field, source.get(name), ""@)
    } else if source.get(other) is Some {
        fields::takes_str(field, source.get(other), ""@)
    } else if parsed.get(name) is Some {
        fields::takes_str(field, parsed.get(name), ""@)
    } else {
        fields::takes_str(field, parsed.get(other), ""@)
    }
}

/// Every field of a game result comes from the member of its own name in the source
/// of the result. The identifiers may stand in the event around it.
pub proof fn law_result_fields_are_their_own(parsed: JsonModel)
    ensures
        ({
            let payload = result_payload(parsed);
            let source = source_of(parsed);
            &&& fields::is_str(payload.get("type"@), "game_result"@)
            &&& fields::takes_str(payload.get("winning_type"@), source.get("WinningType"@), ""@)
            &&& fields::takes_int(payload.get("winning_team_id"@), source.get("WinningTeamId"@), 0)
            &&& fields::takes_str(payload.get("winning_reason"@), source.get("WinningReason"@), ""@)
            &&& fields::takes_int(payload.get("game_number"@), source.get("GameNumber"@), 0)
            &&& fields::takes_int(
                payload.get("starting_team_id"@),
                source.get("StartingTeamId"@),
                0,
            )
            &&& takes_first_id(payload.get("match_id"@), source, parsed, "MatchId"@, "matchId"@)
            &&& takes_first_id(
                payload.get("event_id"@),
                source,
                parsed,
                "EventId"@,
                "InternalEventName"@,
            )
            &&& payload.get("raw_business_event"@) == Some(parsed)
            &&& payload->Object_0.len() == 9
        }),
{
    lemma_names_differ(parsed);
    let members = result_payload(parsed)->Object_0;
    json::lemma_lookup_all(members);
    assert(members[0].0 == "type"@);
    assert(members[1].0 == "winning_type"@);
    assert(members[2].0 == "winning_team_id"@);
    assert(members[3].0 == "winning_reason"@);
    assert(members[4].0 == "game_number"@);
    assert(members[5].0 == "starting_team_id"@);
    assert(members[6].0 == "match_id"@);
    assert(members[7].0 == "event_id"@);
    assert(members[8].0 == "raw_business_event"@);
}

/// Where the fields of a result stand: in its `Params` where those hold a
/// `WinningType`, or else at the top level where that does.
pub proof fn law_source_holds_the_winning_type(parsed: JsonModel)
    ensures
        parsed.get("Params"@) matches Some(params) ==> {
            &&& params.get("WinningType"@) is Some ==> source_of(parsed) == params
            &&& params.get("WinningType"@) is None && !(parsed is Array) ==> source_of(parsed)
                == parsed
        },
        parsed.get("Params"@) is None && parsed.get("WinningType"@) is Some ==> source_of(parsed)
            == parsed,
{
}

/// A business event is a game result exactly where a `WinningType` stands at its top
/// level, in its `Params`, or in one of the items that it lists.
pub proof fn law_results_have_a_winning_type(parsed: JsonModel)
    ensures
        is_game_result(parsed) <==> {
            ||| parsed.get("WinningType"@) is Some
            ||| json::get_in(parsed.get("Params"@), "WinningType"@) is Some
            ||| (parsed is Array && exists|i: int|
                0 <= i < parsed->Array_0.len() && (#[trigger] parsed->Array_0[i]).get(
                    "WinningType"@,
                ) is Some)
        },
{
    if parsed is Array {
        lemma_winning_item(parsed->Array_0);
    }
}

proof fn lemma_winning_item(items: Seq<JsonModel>)
    ensures
        winning_item(items) is Some <==> exists|i: int|
            0 <= i < items.len() && (#[trigger] items[i]).get("WinningType"@) is Some,
    decreases items.len(),
{
    if items.len() > 0 {
        let rest = items.drop_first();
        lemma_winning_item(rest);
        if has_type(items[0]) {
            assert(items[0].get("WinningType"@) is Some);
        } else {
            if winning_item(rest) is Some {
                let i = choose|i: int|
                    0 <= i < rest.len() && (#[trigger] rest[i]).get("WinningType"@) is Some;
                assert(items[i + 1] == rest[i]);
            }
            if exists|i: int|
                0 <= i < items.len() && (#[trigger] items[i]).get("WinningType"@) is Some {
                let i = choose|i: int|
                    0 <= i < items.len() && (#[trigger] items[i]).get("WinningType"@) is Some;
                assert(rest[i - 1] == items[i]);
            }
        }
    }
}

/// An entry is emitted exactly where it names both the business events and a
/// `WinningType`, and the JSON in it is a game result.
pub proof fn law_business_results_are_emitted(body: Seq<char>, timestamp: Option<Timestamp>)
    ensures
        ({
            let named = text::has_text(body, "LogBusinessEvents"@) && text::has_text(
                body,
                "WinningType"@,
            );
            let parsed = match scan::first_value(body) {
                Some(value) => json_text::parsed_json(value),
                None => None,
            };
            match game_result_claim(body, timestamp) {
                Some(event) => {
                    &&& named
                    &&& parsed matches Some(value)
                    &&& is_game_result(value)
                    &&& event.kind == EventKind::GameResult
                    &&& event.metadata == events::entry_metadata(timestamp, body)
                    &&& event.payload == result_payload(value)
                },
                None => !named || parsed is None || !is_game_result(parsed.unwrap()),
            }
        }),
{
}

/// Of several business events in a list, the first with a `WinningType` is the source
/// of the result, whatever stands behind it.
pub proof fn law_first_listed_result_is_the_source(
    before: Seq<JsonModel>,
    entry: JsonModel,
    after: Seq<JsonModel>,
)
    requires
        forall|i: int|
            0 <= i < before.len() ==> (#[trigger] before[i]).get("WinningType"@) is None,
        entry.get("WinningType"@) is Some,
    ensures
        source_of(JsonModel::Array(before + seq![entry] + after)) == entry,
{
    assert forall|i: int| 0 <= i < before.len() implies !has_type(#[trigger] before[i]) by {
        assert(before[i].get("WinningType"@) is None);
    }
    law_first_winning_entry_is_read(before, entry, after);
}

} // verus!
