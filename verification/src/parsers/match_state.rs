//! Match state parser for `matchGameRoomStateChangedEvent`.
//!
//! Detects match/game start and end from room state transitions, extracts
//! player seat assignments, and correlates games within a match (Bo3 support).
//!
//! | Field | Purpose |
//! |-------|---------|
//! | `gameRoomInfo.stateType` | Room state: `Playing`, `MatchCompleted` |
//! | `gameRoomInfo.gameRoomConfig.matchId` | Unique match identifier |
//! | `gameRoomInfo.gameRoomConfig.reservedPlayers` | Player seat assignments, user IDs |
//! | `gameRoomInfo.finalMatchResult` | Final result with `matchCompletedReason` |

use vstd::prelude::*;
use crate::events;
use crate::events::{EventKind, EventMetadata, EventModel, GameEvent, MatchStateEvent};
use crate::fields;
use crate::json;
use crate::json::{array_field, get_field, int_field_or, str_field_or, Json, JsonModel, JsonObject};
use crate::log::entry::LogEntry;
use crate::log::timestamp::Timestamp;
use crate::parsers::api_common;
use crate::parsers::api_common::parse_json_from_body;
use crate::text;
use crate::text::{contains, str_eq};

verus! {

/// Marker that identifies a match state change entry in the log.
pub const MATCH_STATE_MARKER: &'static str = "matchGameRoomStateChangedEvent";

/// Room state of a match in play.
pub const STATE_PLAYING: &'static str = "MatchGameRoomStateType_Playing";

/// Room state of a finished match.
pub const STATE_MATCH_COMPLETED: &'static str = "MatchGameRoomStateType_MatchCompleted";

// ---------------------------------------------------------------------------
// What an entry is emitted as
// ---------------------------------------------------------------------------

/// The state change in a parsed entry: under its marker, or the entry itself
/// where it holds the room's info at the top level.
pub open spec fn state_event_in(parsed: JsonModel) -> Option<JsonModel> {
    match parsed.get(MATCH_STATE_MARKER@) {
        Some(event) => Some(event),
        None => if parsed.get("gameRoomInfo"@) is Some {
            Some(parsed)
        } else {
            None
        },
    }
}

/// What a room state means for the match.
pub open spec fn lifecycle_of(state_type: Seq<char>) -> Seq<char> {
    if state_type == STATE_PLAYING@ {
        "match_started"@
    } else if state_type == STATE_MATCH_COMPLETED@ {
        "match_completed"@
    } else {
        "state_changed"@
    }
}

/// One player of the room.
pub open spec fn player_payload(player: JsonModel) -> JsonModel {
    JsonModel::Object(
        seq![
            ("user_id"@, JsonModel::Str(json::str_or(player.get("userId"@), ""@))),
            ("player_name"@, JsonModel::Str(json::str_or(player.get("playerName"@), ""@))),
            ("system_seat_id"@, json::int_json(json::int_or(player.get("systemSeatId"@), 0))),
            ("team_id"@, json::int_json(json::int_or(player.get("teamId"@), 0))),
        ],
    )
}

/// The players of the room, in order; none where the room names none.
pub open spec fn players_payload(config: Option<JsonModel>) -> JsonModel {
    match json::array_in(json::get_in(config, "reservedPlayers"@)) {
        Some(players) => JsonModel::Array(
            Seq::new(players.len(), |i: int| player_payload(players[i])),
        ),
        None => JsonModel::Array(Seq::empty()),
    }
}

/// One result of the match.
pub open spec fn result_payload(result: JsonModel) -> JsonModel {
    JsonModel::Object(
        seq![
            ("scope"@, JsonModel::Str(json::str_or(result.get("scope"@), ""@))),
            ("result"@, JsonModel::Str(json::str_or(result.get("result"@), ""@))),
            ("winning_team_id"@, json::int_json(json::int_or(result.get("winningTeamId"@), 0))),
        ],
    )
}

/// The results of the match, in order; none where there is no list of them.
pub open spec fn results_payload(results: Option<Seq<JsonModel>>) -> JsonModel {
    match results {
        Some(results) => JsonModel::Array(
            Seq::new(results.len(), |i: int| result_payload(results[i])),
        ),
        None => JsonModel::Array(Seq::empty()),
    }
}

/// The fields that only a match with a final result has.
pub open spec fn final_result_fields(
    final_result: Option<JsonModel>,
) -> Seq<(Seq<char>, JsonModel)> {
    match final_result {
        Some(result) => seq![
            (
                "match_completed_reason"@,
                JsonModel::Str(json::str_or(result.get("matchCompletedReason"@), ""@)),
            ),
            ("game_results"@, results_payload(json::array_in(result.get("resultList"@)))),
        ],
        None => Seq::empty(),
    }
}

/// The payload of a state change.
pub open spec fn match_state_payload(state_event: JsonModel) -> JsonModel {
    let info = state_event.get("gameRoomInfo"@);
    let config = json::get_in(info, "gameRoomConfig"@);
    let state_type = json::str_or(json::get_in(info, "stateType"@), ""@);
    JsonModel::Object(
        seq![
            ("type"@, JsonModel::Str(lifecycle_of(state_type))),
            ("state_type"@, JsonModel::Str(state_type)),
            ("match_id"@, JsonModel::Str(json::str_or(json::get_in(config, "matchId"@), ""@))),
            ("event_id"@, JsonModel::Str(json::str_or(json::get_in(config, "eventId"@), ""@))),
            ("players"@, players_payload(config)),
        ] + final_result_fields(json::get_in(info, "finalMatchResult"@)) + seq![
            ("raw_match_state"@, state_event),
        ],
    )
}

/// What an entry is emitted as.
pub open spec fn match_state_claim(
    body: Seq<char>,
    timestamp: Option<Timestamp>,
) -> Option<EventModel> {
    if text::has_text(body, MATCH_STATE_MARKER@) {
        match api_common::body_json(body) {
            Some(parsed) => match state_event_in(parsed) {
                Some(state_event) => Some(
                    EventModel {
                        kind: EventKind::MatchState,
                        metadata: events::entry_metadata(timestamp, body),
                        payload: match_state_payload(state_event),
                    },
                ),
                None => None,
            },
            None => None,
        }
    } else {
        None
    }
}

// ---------------------------------------------------------------------------
// Parsing
// ---------------------------------------------------------------------------

/// Attempts to parse a [`LogEntry`] as a match state event.
///
/// Returns a match state if the entry body contains a
/// `matchGameRoomStateChangedEvent` JSON payload, or `None` if the entry does
/// not match.
pub fn try_parse(entry: &LogEntry, timestamp: Option<Timestamp>) -> (event: Option<GameEvent>)
    ensures
        events::opt_event(event) == match_state_claim(entry.body@, timestamp),
        events::opt_sound(events::opt_event(event)),
{
    let body = entry.body.as_str();
    if !contains(body, MATCH_STATE_MARKER) {
        return None;
    }
    match parse_json_from_body(body) {
        Some(parsed) => match find_state_event(&parsed) {
            Some(state_event) => {
                proof {
                    json::lemma_get_well_formed(parsed@, MATCH_STATE_MARKER@);
                    law_match_state_is_well_formed(state_event@);
                }
                let payload = build_payload(state_event);
                let metadata = EventMetadata::of_entry(timestamp, body);
                Some(GameEvent::MatchState(MatchStateEvent::new(metadata, payload)))
            },
            None => None,
        },
        None => None,
    }
}

/// The state change in a parsed entry. Some log formats embed the data at the
/// top level without the wrapper key.
pub fn find_state_event(parsed: &Json) -> (found: Option<&Json>)
    ensures
        json::opt_model(found) == state_event_in(parsed@),
{
    match parsed.get(MATCH_STATE_MARKER) {
        Some(event) => Some(event),
        None => if parsed.get("gameRoomInfo").is_some() {
            Some(parsed)
        } else {
            None
        },
    }
}

/// Builds a structured payload from the match state change event data.
///
/// Extracts key fields from the nested JSON structure into a flat(ter) payload
/// for downstream consumers.
pub fn build_payload(state_event: &Json) -> (payload: Json)
    ensures
        payload@ == match_state_payload(state_event@),
{
    let game_room_info = state_event.get("gameRoomInfo");
    let state_type = str_field_or(get_field(game_room_info, "stateType"), "");
    let match_lifecycle = if str_eq(state_type, STATE_PLAYING) {
        "match_started"
    } else if str_eq(state_type, STATE_MATCH_COMPLETED) {
        "match_completed"
    } else {
        "state_changed"
    };
    let game_room_config = get_field(game_room_info, "gameRoomConfig");
    let final_result = get_field(game_room_info, "finalMatchResult");

    let mut object = JsonObject::new();
    object.push("type", Json::string(match_lifecycle));
    object.push("state_type", Json::string(state_type));
    object.push("match_id", Json::string(str_field_or(get_field(game_room_config, "matchId"), "")));
    object.push("event_id", Json::string(str_field_or(get_field(game_room_config, "eventId"), "")));
    object.push("players", extract_players(game_room_config));
    // Only a completed match has final result fields.
    match final_result {
        Some(result) => {
            object.push(
                "match_completed_reason",
                Json::string(str_field_or(result.get("matchCompletedReason"), "")),
            );
            object.push("game_results", build_game_results(array_field(result.get("resultList"))));
        },
        None => {},
    }
    // The full raw event is kept for consumers that need deeper fields.
    object.push("raw_match_state", state_event.clone());
    assert(object@ =~= match_state_payload(state_event@)->Object_0);
    object.finish()
}

/// Extracts player information from `reservedPlayers` in the game room config.
pub fn extract_players(game_room_config: Option<&Json>) -> (payload: Json)
    ensures
        payload@ == players_payload(json::opt_model(game_room_config)),
{
    let mut extracted: Vec<Json> = Vec::new();
    match array_field(get_field(game_room_config, "reservedPlayers")) {
        None => {
            assert(json::item_models(extracted@) =~= Seq::<JsonModel>::empty());
        },
        Some(players) => {
            let ghost all = json::item_models(players@);
            let mut i: usize = 0;
            while i < players.len()
                invariant
                    i <= players@.len(),
                    all == json::item_models(players@),
                    extracted@.len() == i,
                    forall|j: int| 0 <= j < i ==> (#[trigger] extracted@[j])@ == player_payload(all[j]),
                decreases players@.len() - i,
            {
                let p = &players[i];
                let mut object = JsonObject::new();
                object.push("user_id", Json::string(str_field_or(p.get("userId"), "")));
                object.push("player_name", Json::string(str_field_or(p.get("playerName"), "")));
                object.push("system_seat_id", Json::integer(int_field_or(p.get("systemSeatId"), 0)));
                object.push("team_id", Json::integer(int_field_or(p.get("teamId"), 0)));
                assert(object@ =~= player_payload(p@)->Object_0);
                extracted.push(object.finish());
                i += 1;
            }
            assert(json::item_models(extracted@) =~= Seq::new(
                all.len(),
                |i: int| player_payload(all[i]),
            ));
        },
    }
    Json::array(extracted)
}

/// The models of an optional list of values.
pub open spec fn opt_items(items: Option<&Vec<Json>>) -> Option<Seq<JsonModel>> {
    match items {
        Some(v) => Some(json::item_models(v@)),
        None => None,
    }
}

/// Builds game result entries from the `resultList` in `finalMatchResult`.
///
/// Each entry in the result list represents one game within the match, enabling
/// Bo3 correlation.
pub fn build_game_results(result_list: Option<&Vec<Json>>) -> (payload: Json)
    ensures
        payload@ == results_payload(opt_items(result_list)),
{
    let mut extracted: Vec<Json> = Vec::new();
    match result_list {
        None => {
            assert(json::item_models(extracted@) =~= Seq::<JsonModel>::empty());
        },
        Some(results) => {
            let ghost all = json::item_models(results@);
            let mut i: usize = 0;
            while i < results.len()
                invariant
                    i <= results@.len(),
                    all == json::item_models(results@),
                    extracted@.len() == i,
                    forall|j: int| 0 <= j < i ==> (#[trigger] extracted@[j])@ == result_payload(all[j]),
                decreases results@.len() - i,
            {
                let r = &results[i];
                let mut object = JsonObject::new();
                object.push("scope", Json::string(str_field_or(r.get("scope"), "")));
                object.push("result", Json::string(str_field_or(r.get("result"), "")));
                object.push("winning_team_id", Json::integer(int_field_or(r.get("winningTeamId"), 0)));
                assert(object@ =~= result_payload(r@)->Object_0);
                extracted.push(object.finish());
                i += 1;
            }
            assert(json::item_models(extracted@) =~= Seq::new(
                all.len(),
                |i: int| result_payload(all[i]),
            ));
        },
    }
    Json::array(extracted)
}

// ---------------------------------------------------------------------------
// Laws
// ---------------------------------------------------------------------------

/// The reason and the results are in the payload exactly where the match has a
/// final result.
pub proof fn law_final_fields_need_final_result(state_event: JsonModel)
    ensures
        ({
            let result = json::get_in(state_event.get("gameRoomInfo"@), "finalMatchResult"@);
            let payload = match_state_payload(state_event);
            &&& payload.get("match_completed_reason"@) is Some <==> result is Some
            &&& payload.get("game_results"@) is Some <==> result is Some
            &&& result is Some ==> payload.get("game_results"@) == Some(
                results_payload(json::array_in(json::get_in(result, "resultList"@))),
            )
        }),
{
    lemma_names_differ(state_event);
    lemma_names();
    let members = match_state_payload(state_event)->Object_0;
    let result = json::get_in(state_event.get("gameRoomInfo"@), "finalMatchResult"@);
    if result is Some {
        assert(members[5].0 == "match_completed_reason"@);
        assert(members[6].0 == "game_results"@);
        json::lemma_lookup_at(members, 5);
        json::lemma_lookup_at(members, 6);
    } else {
        assert(members.len() == 6);
        json::lemma_lookup_missing(members, "match_completed_reason"@);
        json::lemma_lookup_missing(members, "game_results"@);
    }
}

/// Every state change is kept in full, whatever was extracted from it.
pub proof fn law_raw_state_is_kept(state_event: JsonModel)
    ensures
        match_state_payload(state_event)->Object_0.last() == ("raw_match_state"@, state_event),
{
}

/// A player is well formed whatever their source is.
pub proof fn law_player_is_well_formed(player: JsonModel)
    ensures
        json::well_formed(player_payload(player)),
{
    reveal_strlit("user_id");
    reveal_strlit("player_name");
    reveal_strlit("system_seat_id");
    reveal_strlit("team_id");
    assert("user_id"@.len() == 7 && "player_name"@.len() == 11 && "system_seat_id"@.len() == 14);
    assert("team_id"@.len() == 7);
    assert("user_id"@[0] == 'u' && "team_id"@[0] == 't');
    json::lemma_object_well_formed(player_payload(player)->Object_0);
}

/// A result is well formed whatever its source is.
pub proof fn law_result_is_well_formed(result: JsonModel)
    ensures
        json::well_formed(result_payload(result)),
{
    reveal_strlit("scope");
    reveal_strlit("result");
    reveal_strlit("winning_team_id");
    assert("scope"@.len() == 5 && "result"@.len() == 6 && "winning_team_id"@.len() == 15);
    json::lemma_object_well_formed(result_payload(result)->Object_0);
}

/// The payload of a state change is well formed where the state change is.
pub proof fn law_match_state_is_well_formed(state_event: JsonModel)
    requires
        json::well_formed(state_event),
    ensures
        json::well_formed(match_state_payload(state_event)),
{
    lemma_names_differ(state_event);
    let info = state_event.get("gameRoomInfo"@);
    let config = json::get_in(info, "gameRoomConfig"@);
    let final_result = json::get_in(info, "finalMatchResult"@);
    assert(json::well_formed(players_payload(config))) by {
        match json::array_in(json::get_in(config, "reservedPlayers"@)) {
            Some(players) => {
                assert forall|i: int| 0 <= i < players.len() implies json::well_formed(
                    #[trigger] player_payload(players[i]),
                ) by {
                    law_player_is_well_formed(players[i]);
                }
            },
            None => {},
        }
    }
    match final_result {
        Some(result) => {
            match json::array_in(result.get("resultList"@)) {
                Some(results) => {
                    assert forall|i: int| 0 <= i < results.len() implies json::well_formed(
                        #[trigger] result_payload(results[i]),
                    ) by {
                        law_result_is_well_formed(results[i]);
                    }
                },
                None => {},
            }
            assert(json::well_formed(results_payload(json::array_in(result.get("resultList"@)))));
        },
        None => {},
    }
    json::lemma_object_well_formed(match_state_payload(state_event)->Object_0);
}

/// A state change is found alike under its marker and at the top level.
pub proof fn law_wrapped_and_bare_agree(state_event: JsonModel)
    requires
        state_event.get(MATCH_STATE_MARKER@) is None,
        state_event.get("gameRoomInfo"@) is Some,
    ensures
        state_event_in(JsonModel::Object(seq![(MATCH_STATE_MARKER@, state_event)])) == Some(
            state_event,
        ),
        state_event_in(state_event) == Some(state_event),
{
    json::lemma_lookup_at(seq![(MATCH_STATE_MARKER@, state_event)], 0);
}

/// The names of a state change by their lengths.
proof fn lemma_names()
    ensures
        "type"@.len() == 4,
        "state_type"@.len() == 10,
        "match_id"@.len() == 8,
        "event_id"@.len() == 8,
        "match_id"@ != "event_id"@,
        "players"@.len() == 7,
        "match_completed_reason"@.len() == 22,
        "game_results"@.len() == 12,
        "raw_match_state"@.len() == 15,
{
    reveal_strlit("type");
    reveal_strlit("state_type");
    reveal_strlit("match_id");
    reveal_strlit("event_id");
    reveal_strlit("players");
    reveal_strlit("match_completed_reason");
    reveal_strlit("game_results");
    reveal_strlit("raw_match_state");
    assert("type"@.len() == 4 && "state_type"@.len() == 10 && "match_id"@.len() == 8);
    assert("event_id"@.len() == 8 && "players"@.len() == 7);
    assert("match_completed_reason"@.len() == 22 && "game_results"@.len() == 12);
    assert("raw_match_state"@.len() == 15);
    assert("match_id"@[0] == 'm' && "event_id"@[0] == 'e');
}

/// The names of a state change are told apart.
proof fn lemma_names_differ(state_event: JsonModel)
    ensures
        json::distinct_names(match_state_payload(state_event)->Object_0),
{
    lemma_names();
}

/// The state change, its match and what it means are those of the room.
pub proof fn law_room_is_reported(state_event: JsonModel)
    ensures
        ({
            let payload = match_state_payload(state_event);
            let info = state_event.get("gameRoomInfo"@);
            let config = json::get_in(info, "gameRoomConfig"@);
            let state = json::get_in(info, "stateType"@);
            &&& fields::is_str(
                payload.get("type"@),
                if fields::is_str(state, "MatchGameRoomStateType_Playing"@) {
                    "match_started"@
                } else if fields::is_str(state, "MatchGameRoomStateType_MatchCompleted"@) {
                    "match_completed"@
                } else {
                    "state_changed"@
                },
            )
            &&& fields::takes_str(payload.get("state_type"@), state, ""@)
            &&& fields::takes_str(payload.get("match_id"@), json::get_in(config, "matchId"@), ""@)
            &&& fields::takes_str(payload.get("event_id"@), json::get_in(config, "eventId"@), ""@)
            &&& payload.get("raw_match_state"@) == Some(state_event)
            &&& payload->Object_0.len() == if json::get_in(info, "finalMatchResult"@) is Some {
                8int
            } else {
                6int
            }
        }),
{
    reveal_strlit("");
    reveal_strlit("MatchGameRoomStateType_Playing");
    reveal_strlit("MatchGameRoomStateType_MatchCompleted");
    assert(""@.len() == 0 && STATE_PLAYING@.len() == 30 && STATE_MATCH_COMPLETED@.len() == 37);
    lemma_names_differ(state_event);
    let members = match_state_payload(state_event)->Object_0;
    json::lemma_lookup_all(members);
    assert(members[0].0 == "type"@);
    assert(members[1].0 == "state_type"@);
    assert(members[2].0 == "match_id"@);
    assert(members[3].0 == "event_id"@);
    assert(members[members.len() - 1] == ("raw_match_state"@, state_event));
}

/// The players are those that the room names, each at the same place with the
/// identity, the name, the seat and the team that stand in that entry alone.
pub proof fn law_players_are_their_own(state_event: JsonModel, players: Seq<JsonModel>)
    requires
        json::get_in(
            json::get_in(state_event.get("gameRoomInfo"@), "gameRoomConfig"@),
            "reservedPlayers"@,
        ) == Some(JsonModel::Array(players)),
    ensures
        match match_state_payload(state_event).get("players"@) {
            Some(JsonModel::Array(listed)) => {
                &&& listed.len() == players.len()
                &&& forall|i: int|
                    0 <= i < players.len() ==> reports_player(#[trigger] listed[i], players[i])
            },
            _ => false,
        },
{
    lemma_names_differ(state_event);
    let members = match_state_payload(state_event)->Object_0;
    json::lemma_lookup_all(members);
    assert(members[4].0 == "players"@);
    let listed = players_payload(
        json::get_in(state_event.get("gameRoomInfo"@), "gameRoomConfig"@),
    )->Array_0;
    assert forall|i: int| 0 <= i < players.len() implies reports_player(
        #[trigger] listed[i],
        players[i],
    ) by {
        law_player_is_well_formed(players[i]);
        let m = player_payload(players[i])->Object_0;
        json::lemma_lookup_all(m);
        assert(m[0].0 == "user_id"@);
        assert(m[1].0 == "player_name"@);
        assert(m[2].0 == "system_seat_id"@);
        assert(m[3].0 == "team_id"@);
    }
}

/// Whether a listed player has the fields of the entry it comes from, and no more.
pub open spec fn reports_player(listed: JsonModel, player: JsonModel) -> bool {
    &&& fields::takes_str(listed.get("user_id"@), player.get("userId"@), ""@)
    &&& fields::takes_str(listed.get("player_name"@), player.get("playerName"@), ""@)
    &&& fields::takes_int(listed.get("system_seat_id"@), player.get("systemSeatId"@), 0)
    &&& fields::takes_int(listed.get("team_id"@), player.get("teamId"@), 0)
    &&& listed is Object
    &&& listed->Object_0.len() == 4
}

/// Whether a listed result has the fields of the entry it comes from, and no more.
pub open spec fn reports_result(listed: JsonModel, result: JsonModel) -> bool {
    &&& fields::takes_str(listed.get("scope"@), result.get("scope"@), ""@)
    &&& fields::takes_str(listed.get("result"@), result.get("result"@), ""@)
    &&& fields::takes_int(listed.get("winning_team_id"@), result.get("winningTeamId"@), 0)
    &&& listed is Object
    &&& listed->Object_0.len() == 3
}

/// The results are those of the list, each at the same place with the scope, the
/// result and the winner that stand in that entry alone.
pub proof fn law_results_are_their_own(results: Seq<JsonModel>)
    ensures
        match results_payload(Some(results)) {
            JsonModel::Array(listed) => {
                &&& listed.len() == results.len()
                &&& forall|i: int|
                    0 <= i < results.len() ==> reports_result(#[trigger] listed[i], results[i])
            },
            _ => false,
        },
{
    let listed = results_payload(Some(results))->Array_0;
    assert forall|i: int| 0 <= i < results.len() implies reports_result(
        #[trigger] listed[i],
        results[i],
    ) by {
        law_result_is_well_formed(results[i]);
        let m = result_payload(results[i])->Object_0;
        json::lemma_lookup_all(m);
        assert(m[0].0 == "scope"@);
        assert(m[1].0 == "result"@);
        assert(m[2].0 == "winning_team_id"@);
    }
}

/// A finished match is reported with its reason, and with every result of its list
/// as it stands there.
pub proof fn law_final_results_are_reported(
    state_event: JsonModel,
    final_result: JsonModel,
    results: Seq<JsonModel>,
)
    requires
        json::get_in(state_event.get("gameRoomInfo"@), "finalMatchResult"@) == Some(final_result),
        final_result.get("resultList"@) == Some(JsonModel::Array(results)),
    ensures
        fields::takes_str(
            match_state_payload(state_event).get("match_completed_reason"@),
            final_result.get("matchCompletedReason"@),
            ""@,
        ),
        match match_state_payload(state_event).get("game_results"@) {
            Some(JsonModel::Array(listed)) => {
                &&& listed.len() == results.len()
                &&& forall|i: int|
                    0 <= i < results.len() ==> reports_result(#[trigger] listed[i], results[i])
            },
            _ => false,
        },
{
    lemma_names_differ(state_event);
    let members = match_state_payload(state_event)->Object_0;
    json::lemma_lookup_all(members);
    assert(members[5].0 == "match_completed_reason"@);
    assert(members[6].0 == "game_results"@);
    law_results_are_their_own(results);
}

/// Where a list of players or of results is missing, an empty one is reported, and
/// the reason is reported with it.
pub proof fn law_missing_lists_are_empty(state_event: JsonModel)
    ensures
        ({
            let payload = match_state_payload(state_event);
            let info = state_event.get("gameRoomInfo"@);
            let players = json::get_in(json::get_in(info, "gameRoomConfig"@), "reservedPlayers"@);
            let final_result = json::get_in(info, "finalMatchResult"@);
            let empty = JsonModel::Array(Seq::empty());
            &&& !(players matches Some(JsonModel::Array(_))) ==> payload.get("players"@) == Some(
                empty,
            )
            &&& final_result matches Some(result) ==> {
                &&& fields::takes_str(
                    payload.get("match_completed_reason"@),
                    result.get("matchCompletedReason"@),
                    ""@,
                )
                &&& !(result.get("resultList"@) matches Some(JsonModel::Array(_)))
                    ==> payload.get("game_results"@) == Some(empty)
            }
        }),
{
    lemma_names_differ(state_event);
    let members = match_state_payload(state_event)->Object_0;
    json::lemma_lookup_all(members);
    assert(members[4].0 == "players"@);
    if json::get_in(state_event.get("gameRoomInfo"@), "finalMatchResult"@) is Some {
        assert(members[5].0 == "match_completed_reason"@);
        assert(members[6].0 == "game_results"@);
    }
}

/// The state change of an entry stands under its marker; without the marker the
/// entry is one itself exactly where it holds a room.
pub proof fn law_state_change_is_found(parsed: JsonModel)
    ensures
        match parsed.get("matchGameRoomStateChangedEvent"@) {
            Some(event) => state_event_in(parsed) == Some(event),
            None => if parsed.get("gameRoomInfo"@) is Some {
                state_event_in(parsed) == Some(parsed)
            } else {
                state_event_in(parsed) is None
            },
        },
{
}

/// An entry is emitted exactly where it names the marker and its JSON holds a state
/// change, as a match state with what that state change reports.
pub proof fn law_state_changes_are_emitted(body: Seq<char>, timestamp: Option<Timestamp>)
    ensures
        match match_state_claim(body, timestamp) {
            Some(event) => {
                &&& text::has_text(body, "matchGameRoomStateChangedEvent"@)
                &&& api_common::body_json(body) matches Some(parsed)
                &&& state_event_in(parsed) matches Some(state_event)
                &&& event.kind == EventKind::MatchState
                &&& event.metadata == events::entry_metadata(timestamp, body)
                &&& event.payload == match_state_payload(state_event)
            },
            None => {
                ||| !text::has_text(body, "matchGameRoomStateChangedEvent"@)
                ||| api_common::body_json(body) is None
                ||| state_event_in(api_common::body_json(body).unwrap()) is None
            },
        },
{
}

} // verus!
