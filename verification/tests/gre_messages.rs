use chrono::TimeZone;
use manasight_parser::events::{GameEvent, PerformanceClass};
use manasight_parser::json::{Json, JsonNumber};
use manasight_parser::json_text::parse_json;
use manasight_parser::log::entry::{EntryHeader, LogEntry};
use manasight_parser::log::timestamp::Timestamp;
use manasight_parser::parsers::gre::{try_parse, CONNECT_RESP_TYPE};
use manasight_parser::parsers::gre;
use manasight_parser::parsers::gre::connect_resp;
use manasight_parser::parsers::gre::game_state;
use manasight_parser::parsers::gre::helpers;

fn extract_gre_messages(parsed: &serde_json::Value) -> Option<Vec<serde_json::Value>> {
    gre::extract_gre_messages(&to_json(parsed)).map(|ms| ms.iter().map(to_value).collect())
}

fn find_message_by_type(messages: &[serde_json::Value], msg_type: &str) -> Option<serde_json::Value> {
    let messages: Vec<Json> = messages.iter().map(to_json).collect();
    gre::find_message_by_type(&messages, msg_type).map(to_value)
}

fn extract_card_ids(cards: Option<&serde_json::Value>) -> Vec<i64> {
    connect_resp::extract_card_ids(cards.map(to_json).as_ref())
}

fn extract_single_zone(value: &serde_json::Value) -> Option<serde_json::Value> {
    game_state::extract_single_zone(&to_json(value)).map(|j| to_value(&j))
}

fn extract_single_game_object(value: &serde_json::Value) -> Option<serde_json::Value> {
    game_state::extract_single_game_object(&to_json(value)).map(|j| to_value(&j))
}

fn extract_string_array(value: Option<&serde_json::Value>) -> Vec<String> {
    helpers::extract_string_array(value.map(to_json).as_ref())
}

fn extract_nested_value(value: Option<&serde_json::Value>) -> serde_json::Value {
    to_value(&helpers::extract_nested_value(value.map(to_json).as_ref()))
}

fn try_parse_first(entry: &LogEntry, timestamp: Option<Timestamp>) -> Option<GameEvent> {
    try_parse(entry, timestamp).into_iter().next()
}

/// The payload of an event of the expected category, null for any other.
fn game_state_payload(event: &GameEvent) -> serde_json::Value {
    match event {
        GameEvent::GameState(e) => to_value(e.payload()),
        _ => serde_json::Value::Null,
    }
}

/// The payload of an event of the expected category, null for any other.
fn game_result_payload(event: &GameEvent) -> serde_json::Value {
    match event {
        GameEvent::GameResult(e) => to_value(e.payload()),
        _ => serde_json::Value::Null,
    }
}

/// 2026-02-25 12:00:00 UTC.
fn test_timestamp() -> Timestamp {
    let at = chrono::Utc
        .with_ymd_and_hms(2026, 2, 25, 12, 0, 0)
        .single()
        .unwrap_or_default();
    Timestamp { secs: at.timestamp(), nanos: at.timestamp_subsec_nanos() }
}

fn unity_entry(body: &str) -> LogEntry {
    LogEntry { header: EntryHeader::UnityCrossThreadLogger, body: body.to_owned() }
}

fn json(text: &str) -> serde_json::Value {
    serde_json::from_str(text).unwrap_or_else(|e| panic!("{e}: {text}"))
}

fn to_json(value: &serde_json::Value) -> Json {
    parse_json(&value.to_string()).unwrap_or_else(|| unreachable!())
}

fn to_value(json: &Json) -> serde_json::Value {
    match json {
        Json::Null => serde_json::Value::Null,
        Json::Bool(b) => serde_json::Value::from(*b),
        Json::Number(JsonNumber::PosInt(n)) => serde_json::Value::from(*n),
        Json::Number(JsonNumber::NegInt(n)) => serde_json::Value::from(*n),
        Json::Number(JsonNumber::Float(bits)) => serde_json::Value::from(f64::from_bits(*bits)),
        Json::Str(s) => serde_json::Value::from(s.as_str()),
        Json::Array(items) => serde_json::Value::Array(items.iter().map(to_value).collect()),
        Json::Object(members) => serde_json::Value::Object(
            members.iter().map(|m| (m.name.clone(), to_value(&m.value))).collect(),
        ),
    }
}

/// Helper: build a realistic `greToClientEvent` JSON body containing
/// a `GREMessageType_ConnectResp` message with a full decklist.
fn connect_resp_body() -> String {
    format!(
        "[UnityCrossThreadLogger]greToClientEvent\n{}",
        json(r#"{
            "greToClientEvent": {
                "greToClientMessages": [
                    {
                        "type": "GREMessageType_ConnectResp",
                        "systemSeatIds": [1, 2],
                        "msgId": 1,
                        "gameStateId": 0,
                        "connectResp": {
                            "status": "ConnectionStatus_Success",
                            "deckMessage": {
                                "deckCards": [68398, 68398, 68398, 68398, 70136, 70136, 70136, 70136, 71432, 71432, 71432],
                                "sideboardCards": [73509, 73509, 73510]
                            },
                            "settings": {
                                "stops": [
                                    {"stopType": "StopType_UpkeepStep", "appliesTo": "SettingScope_Team"},
                                    {"stopType": "StopType_DrawStep", "appliesTo": "SettingScope_Team"}
                                ],
                                "autoPassOption": "AutoPassOption_UnresolvedOnly",
                                "graveyardOrder": "OrderType_OrderArbitrary",
                                "manaSelectionType": "ManaSelectionType_Auto",
                                "autoTapStopsSetting": "AutoTapStopsSetting_Enable",
                                "autoOptionalPaymentCancellationSetting": "AutoOptionalPaymentCancellationSetting_AskMe",
                                "transientStops": [],
                                "cosmetics": []
                            }
                        }
                    }
                ]
            }
        }"#)
    )
}

/// Helper: build a `ConnectResp` body with minimal fields (no sideboard,
/// no settings).
fn minimal_connect_resp_body() -> String {
    format!(
        "[UnityCrossThreadLogger]greToClientEvent\n{}",
        json(r#"{
            "greToClientEvent": {
                "greToClientMessages": [
                    {
                        "type": "GREMessageType_ConnectResp",
                        "systemSeatIds": [1, 2],
                        "msgId": 1,
                        "connectResp": {
                            "deckMessage": {
                                "deckCards": [12345, 67890]
                            }
                        }
                    }
                ]
            }
        }"#)
    )
}

/// Helper: build a `ConnectResp` body without the wrapper
/// `greToClientEvent` key (flat format).
fn flat_connect_resp_body() -> String {
    format!(
        "[UnityCrossThreadLogger]greToClientEvent\n{}",
        json(r#"{
            "greToClientMessages": [
                {
                    "type": "GREMessageType_ConnectResp",
                    "systemSeatIds": [1, 2],
                    "msgId": 2,
                    "gameStateId": 1,
                    "connectResp": {
                        "deckMessage": {
                            "deckCards": [11111, 22222, 33333],
                            "sideboardCards": [44444]
                        },
                        "settings": {
                            "autoPassOption": "AutoPassOption_ResolveAll"
                        }
                    }
                }
            ]
        }"#)
    )
}

/// Helper: build sample zone fixtures for a full game state snapshot.
fn sample_zones() -> serde_json::Value {
    json(r#"[
        {"zoneId": 30, "type": "ZoneType_Hand", "visibility": "Visibility_Public",
         "ownerSeatId": 1, "objectInstanceIds": [101, 102, 103]},
        {"zoneId": 31, "type": "ZoneType_Library", "visibility": "Visibility_Hidden",
         "ownerSeatId": 1, "objectInstanceIds": [201, 202, 203, 204, 205]},
        {"zoneId": 32, "type": "ZoneType_Battlefield", "visibility": "Visibility_Public",
         "ownerSeatId": 0, "objectInstanceIds": [301, 302]},
        {"zoneId": 33, "type": "ZoneType_Graveyard", "visibility": "Visibility_Public",
         "ownerSeatId": 1, "objectInstanceIds": [401]},
        {"zoneId": 34, "type": "ZoneType_Exile", "visibility": "Visibility_Public",
         "ownerSeatId": 0, "objectInstanceIds": []},
        {"zoneId": 35, "type": "ZoneType_Stack", "visibility": "Visibility_Public",
         "ownerSeatId": 0, "objectInstanceIds": [501]}
    ]"#)
}

/// Helper: build sample game object fixtures.
fn sample_game_objects() -> serde_json::Value {
    json(r#"[
        {"instanceId": 101, "grpId": 68398, "type": "GameObjectType_Card",
         "zoneId": 30, "visibility": "Visibility_Public",
         "ownerSeatId": 1, "controllerSeatId": 1,
         "cardTypes": ["CardType_Creature"],
         "subtypes": ["SubType_Human", "SubType_Soldier"],
         "abilities": ["AbilityType_Lifelink"],
         "name": 68398, "power": {"value": 3}, "toughness": {"value": 2}},
        {"instanceId": 301, "grpId": 70136, "type": "GameObjectType_Card",
         "zoneId": 32, "visibility": "Visibility_Public",
         "ownerSeatId": 1, "controllerSeatId": 1,
         "cardTypes": ["CardType_Land"], "subtypes": ["SubType_Plains"],
         "abilities": [], "name": 70136},
        {"instanceId": 501, "grpId": 71432, "type": "GameObjectType_Card",
         "zoneId": 35, "visibility": "Visibility_Public",
         "ownerSeatId": 1, "controllerSeatId": 1,
         "cardTypes": ["CardType_Instant"], "subtypes": [],
         "abilities": [], "name": 71432}
    ]"#)
}

/// Helper: build a GRE event body with a `GameStateMessage` containing
/// zones and game objects.
fn game_state_message_body() -> String {
    let zones = sample_zones();
    let objects = sample_game_objects();
    format!(
        "[UnityCrossThreadLogger]greToClientEvent\n{}",
        json(&r#"{
            "greToClientEvent": {
                "greToClientMessages": [{
                    "type": "GREMessageType_GameStateMessage",
                    "msgId": 5,
                    "gameStateId": 42,
                    "gameStateMessage": {
                        "zones": "@zones@",
                        "gameObjects": "@objects@",
                        "gameInfo": {
                            "matchID": "match-id-12345",
                            "gameNumber": 1,
                            "stage": "GameStage_Play",
                            "type": "GameType_Standard",
                            "variant": "GameVariant_Normal",
                            "mulliganType": "MulliganType_London"
                        }
                    }
                }]
            }
        }"#
                .replace("\"@zones@\"", &zones.to_string())
                .replace("\"@objects@\"", &objects.to_string()))
    )
}

/// Helper: build a minimal `GameStateMessage` body with just one zone
/// and no game objects (incremental update pattern).
fn minimal_game_state_message_body() -> String {
    format!(
        "[UnityCrossThreadLogger]greToClientEvent\n{}",
        json(r#"{
            "greToClientEvent": {
                "greToClientMessages": [
                    {
                        "type": "GREMessageType_GameStateMessage",
                        "msgId": 10,
                        "gameStateId": 50,
                        "gameStateMessage": {
                            "zones": [
                                {
                                    "zoneId": 30,
                                    "type": "ZoneType_Hand",
                                    "ownerSeatId": 1,
                                    "objectInstanceIds": [101, 102]
                                }
                            ]
                        }
                    }
                ]
            }
        }"#)
    )
}

/// Helper: build a `QueuedGameStateMessage` body.
fn queued_game_state_message_body() -> String {
    format!(
        "[UnityCrossThreadLogger]greToClientEvent\n{}",
        json(r#"{
            "greToClientEvent": {
                "greToClientMessages": [
                    {
                        "type": "GREMessageType_QueuedGameStateMessage",
                        "msgId": 7,
                        "gameStateId": 60,
                        "gameStateMessage": {
                            "zones": [
                                {
                                    "zoneId": 32,
                                    "type": "ZoneType_Battlefield",
                                    "visibility": "Visibility_Public",
                                    "ownerSeatId": 0,
                                    "objectInstanceIds": [301, 302, 303]
                                }
                            ],
                            "gameObjects": [
                                {
                                    "instanceId": 303,
                                    "grpId": 72000,
                                    "type": "GameObjectType_Card",
                                    "zoneId": 32,
                                    "visibility": "Visibility_Public",
                                    "ownerSeatId": 2,
                                    "controllerSeatId": 2,
                                    "cardTypes": ["CardType_Creature"],
                                    "subtypes": [],
                                    "abilities": [],
                                    "name": 72000,
                                    "power": { "value": 5 },
                                    "toughness": { "value": 5 }
                                }
                            ]
                        }
                    }
                ]
            }
        }"#)
    )
}

/// Helper: build a `GameStateMessage` body in flat format (no wrapper).
fn flat_game_state_message_body() -> String {
    format!(
        "[UnityCrossThreadLogger]greToClientEvent\n{}",
        json(r#"{
            "greToClientMessages": [
                {
                    "type": "GREMessageType_GameStateMessage",
                    "msgId": 3,
                    "gameStateId": 15,
                    "gameStateMessage": {
                        "zones": [
                            {
                                "zoneId": 30,
                                "type": "ZoneType_Hand",
                                "ownerSeatId": 2,
                                "objectInstanceIds": [601, 602]
                            }
                        ],
                        "gameObjects": [
                            {
                                "instanceId": 601,
                                "grpId": 80000,
                                "type": "GameObjectType_Card",
                                "zoneId": 30,
                                "ownerSeatId": 2,
                                "controllerSeatId": 2
                            }
                        ]
                    }
                }
            ]
        }"#)
    )
}

/// Helper: build a `GameStateMessage` with an empty `gameStateMessage`
/// (no zones, no objects, no game info).
fn empty_game_state_message_body() -> String {
    format!(
        "[UnityCrossThreadLogger]greToClientEvent\n{}",
        json(r#"{
            "greToClientEvent": {
                "greToClientMessages": [
                    {
                        "type": "GREMessageType_GameStateMessage",
                        "msgId": 1,
                        "gameStateMessage": {}
                    }
                ]
            }
        }"#)
    )
}

// -- ConnectResp detection ------------------------------------------------

#[test]
fn gre_test_try_parse_connect_resp_detected() {
    let body = connect_resp_body();
    let entry = unity_entry(&body);
    let result = try_parse_first(&entry, Some(test_timestamp()));
    assert!(result.is_some());
}

#[test]
fn gre_test_try_parse_connect_resp_correct_variant() {
    let body = connect_resp_body();
    let entry = unity_entry(&body);
    let result = try_parse_first(&entry, Some(test_timestamp()));
    assert!(result.is_some());
    let event = result.as_ref().unwrap_or_else(|| unreachable!());
    assert!(matches!(event, GameEvent::GameState(_)));
}

#[test]
fn gre_test_try_parse_connect_resp_type_field() {
    let body = connect_resp_body();
    let entry = unity_entry(&body);
    let result = try_parse_first(&entry, Some(test_timestamp()));
    assert!(result.is_some());
    let event = result.as_ref().unwrap_or_else(|| unreachable!());
    let payload = game_state_payload(event);
    assert_eq!(payload["type"], "connect_resp");
}

// -- Decklist extraction --------------------------------------------------

#[test]
fn gre_test_try_parse_connect_resp_deck_cards() {
    let body = connect_resp_body();
    let entry = unity_entry(&body);
    let result = try_parse_first(&entry, Some(test_timestamp()));
    assert!(result.is_some());
    let event = result.as_ref().unwrap_or_else(|| unreachable!());
    let payload = game_state_payload(event);

    let deck_cards = payload["deck_cards"].as_array();
    assert!(deck_cards.is_some());
    let deck_cards = deck_cards.unwrap_or_else(|| unreachable!());
    assert_eq!(deck_cards.len(), 11);
    // First four cards should be the same (4x 68398)
    assert_eq!(deck_cards[0], 68398);
    assert_eq!(deck_cards[1], 68398);
    assert_eq!(deck_cards[2], 68398);
    assert_eq!(deck_cards[3], 68398);
}

#[test]
fn gre_test_try_parse_connect_resp_sideboard_cards() {
    let body = connect_resp_body();
    let entry = unity_entry(&body);
    let result = try_parse_first(&entry, Some(test_timestamp()));
    assert!(result.is_some());
    let event = result.as_ref().unwrap_or_else(|| unreachable!());
    let payload = game_state_payload(event);

    let sideboard = payload["sideboard_cards"].as_array();
    assert!(sideboard.is_some());
    let sideboard = sideboard.unwrap_or_else(|| unreachable!());
    assert_eq!(sideboard.len(), 3);
    assert_eq!(sideboard[0], 73509);
    assert_eq!(sideboard[1], 73509);
    assert_eq!(sideboard[2], 73510);
}

#[test]
fn gre_test_try_parse_connect_resp_no_sideboard_returns_empty() {
    let body = minimal_connect_resp_body();
    let entry = unity_entry(&body);
    let result = try_parse_first(&entry, Some(test_timestamp()));
    assert!(result.is_some());
    let event = result.as_ref().unwrap_or_else(|| unreachable!());
    let payload = game_state_payload(event);

    let sideboard = payload["sideboard_cards"].as_array();
    assert!(sideboard.is_some());
    let sideboard = sideboard.unwrap_or_else(|| unreachable!());
    assert!(sideboard.is_empty());
}

#[test]
fn gre_test_try_parse_connect_resp_deck_cards_minimal() {
    let body = minimal_connect_resp_body();
    let entry = unity_entry(&body);
    let result = try_parse_first(&entry, Some(test_timestamp()));
    assert!(result.is_some());
    let event = result.as_ref().unwrap_or_else(|| unreachable!());
    let payload = game_state_payload(event);

    let deck_cards = payload["deck_cards"].as_array();
    assert!(deck_cards.is_some());
    let deck_cards = deck_cards.unwrap_or_else(|| unreachable!());
    assert_eq!(deck_cards.len(), 2);
    assert_eq!(deck_cards[0], 12345);
    assert_eq!(deck_cards[1], 67890);
}

// -- Seat ID extraction ---------------------------------------------------

#[test]
fn gre_test_try_parse_connect_resp_system_seat_ids() {
    let body = connect_resp_body();
    let entry = unity_entry(&body);
    let result = try_parse_first(&entry, Some(test_timestamp()));
    assert!(result.is_some());
    let event = result.as_ref().unwrap_or_else(|| unreachable!());
    let payload = game_state_payload(event);

    let seat_ids = payload["system_seat_ids"].as_array();
    assert!(seat_ids.is_some());
    let seat_ids = seat_ids.unwrap_or_else(|| unreachable!());
    assert_eq!(seat_ids.len(), 2);
    assert_eq!(seat_ids[0], 1);
    assert_eq!(seat_ids[1], 2);
}

#[test]
fn gre_test_try_parse_connect_resp_seat_ids_flat_format() {
    let body = flat_connect_resp_body();
    let entry = unity_entry(&body);
    let result = try_parse_first(&entry, Some(test_timestamp()));
    assert!(result.is_some());
    let event = result.as_ref().unwrap_or_else(|| unreachable!());
    let payload = game_state_payload(event);

    let seat_ids = payload["system_seat_ids"].as_array();
    assert!(seat_ids.is_some());
    let seat_ids = seat_ids.unwrap_or_else(|| unreachable!());
    assert_eq!(seat_ids.len(), 2);
}

// -- Game configuration metadata ------------------------------------------

#[test]
fn gre_test_try_parse_connect_resp_settings() {
    let body = connect_resp_body();
    let entry = unity_entry(&body);
    let result = try_parse_first(&entry, Some(test_timestamp()));
    assert!(result.is_some());
    let event = result.as_ref().unwrap_or_else(|| unreachable!());
    let payload = game_state_payload(event);

    assert!(payload["settings"].is_object());
    let stops = payload["settings"]["stops"].as_array();
    assert!(stops.is_some());
    let stops = stops.unwrap_or_else(|| unreachable!());
    assert_eq!(stops.len(), 2);
}

#[test]
fn gre_test_try_parse_connect_resp_auto_pass_option() {
    let body = connect_resp_body();
    let entry = unity_entry(&body);
    let result = try_parse_first(&entry, Some(test_timestamp()));
    assert!(result.is_some());
    let event = result.as_ref().unwrap_or_else(|| unreachable!());
    let payload = game_state_payload(event);

    assert_eq!(
        payload["settings"]["autoPassOption"],
        "AutoPassOption_UnresolvedOnly"
    );
}

#[test]
fn gre_test_try_parse_connect_resp_missing_settings_returns_empty_object() {
    let body = minimal_connect_resp_body();
    let entry = unity_entry(&body);
    let result = try_parse_first(&entry, Some(test_timestamp()));
    assert!(result.is_some());
    let event = result.as_ref().unwrap_or_else(|| unreachable!());
    let payload = game_state_payload(event);

    assert!(payload["settings"].is_object());
    assert!(payload["settings"]
        .as_object()
        .unwrap_or_else(|| unreachable!())
        .is_empty());
}

#[test]
fn gre_test_try_parse_connect_resp_msg_id() {
    let body = connect_resp_body();
    let entry = unity_entry(&body);
    let result = try_parse_first(&entry, Some(test_timestamp()));
    assert!(result.is_some());
    let event = result.as_ref().unwrap_or_else(|| unreachable!());
    let payload = game_state_payload(event);
    assert_eq!(payload["msg_id"], 1);
}

#[test]
fn gre_test_try_parse_connect_resp_game_state_id() {
    let body = connect_resp_body();
    let entry = unity_entry(&body);
    let result = try_parse_first(&entry, Some(test_timestamp()));
    assert!(result.is_some());
    let event = result.as_ref().unwrap_or_else(|| unreachable!());
    let payload = game_state_payload(event);
    assert_eq!(payload["game_state_id"], 0);
}

// -- Flat format (no greToClientEvent wrapper) ----------------------------

#[test]
fn gre_test_try_parse_flat_format_detected() {
    let body = flat_connect_resp_body();
    let entry = unity_entry(&body);
    let result = try_parse_first(&entry, Some(test_timestamp()));
    assert!(result.is_some());
}

#[test]
fn gre_test_try_parse_flat_format_deck_cards() {
    let body = flat_connect_resp_body();
    let entry = unity_entry(&body);
    let result = try_parse_first(&entry, Some(test_timestamp()));
    assert!(result.is_some());
    let event = result.as_ref().unwrap_or_else(|| unreachable!());
    let payload = game_state_payload(event);

    let deck_cards = payload["deck_cards"].as_array();
    assert!(deck_cards.is_some());
    let deck_cards = deck_cards.unwrap_or_else(|| unreachable!());
    assert_eq!(deck_cards.len(), 3);
    assert_eq!(deck_cards[0], 11111);
    assert_eq!(deck_cards[1], 22222);
    assert_eq!(deck_cards[2], 33333);
}

#[test]
fn gre_test_try_parse_flat_format_sideboard() {
    let body = flat_connect_resp_body();
    let entry = unity_entry(&body);
    let result = try_parse_first(&entry, Some(test_timestamp()));
    assert!(result.is_some());
    let event = result.as_ref().unwrap_or_else(|| unreachable!());
    let payload = game_state_payload(event);

    let sideboard = payload["sideboard_cards"].as_array();
    assert!(sideboard.is_some());
    let sideboard = sideboard.unwrap_or_else(|| unreachable!());
    assert_eq!(sideboard.len(), 1);
    assert_eq!(sideboard[0], 44444);
}

#[test]
fn gre_test_try_parse_flat_format_settings() {
    let body = flat_connect_resp_body();
    let entry = unity_entry(&body);
    let result = try_parse_first(&entry, Some(test_timestamp()));
    assert!(result.is_some());
    let event = result.as_ref().unwrap_or_else(|| unreachable!());
    let payload = game_state_payload(event);

    assert_eq!(
        payload["settings"]["autoPassOption"],
        "AutoPassOption_ResolveAll"
    );
}

#[test]
fn gre_test_try_parse_flat_format_msg_id() {
    let body = flat_connect_resp_body();
    let entry = unity_entry(&body);
    let result = try_parse_first(&entry, Some(test_timestamp()));
    assert!(result.is_some());
    let event = result.as_ref().unwrap_or_else(|| unreachable!());
    let payload = game_state_payload(event);
    assert_eq!(payload["msg_id"], 2);
}

#[test]
fn gre_test_try_parse_flat_format_game_state_message() {
    let body = flat_game_state_message_body();
    let entry = unity_entry(&body);
    let result = try_parse_first(&entry, Some(test_timestamp()));
    assert!(result.is_some());
    let event = result.as_ref().unwrap_or_else(|| unreachable!());
    let payload = game_state_payload(event);
    assert_eq!(payload["type"], "game_state_message");
    assert_eq!(payload["msg_id"], 3);
}

// -- Raw event preservation -----------------------------------------------

#[test]
fn gre_test_try_parse_connect_resp_preserves_raw_connect_resp() {
    let body = connect_resp_body();
    let entry = unity_entry(&body);
    let result = try_parse_first(&entry, Some(test_timestamp()));
    assert!(result.is_some());
    let event = result.as_ref().unwrap_or_else(|| unreachable!());
    let payload = game_state_payload(event);

    assert!(payload.get("raw_connect_resp").is_some());
    // The raw event should contain the greToClientEvent wrapper.
    assert!(payload["raw_connect_resp"]
        .get("greToClientEvent")
        .is_some());
}

#[test]
fn gre_test_try_parse_connect_resp_preserves_raw_bytes() {
    let body = connect_resp_body();
    let entry = unity_entry(&body);
    let result = try_parse_first(&entry, Some(test_timestamp()));
    assert!(result.is_some());
    let event = result.as_ref().unwrap_or_else(|| unreachable!());
    assert_eq!(event.metadata().raw_bytes(), body.as_bytes());
}

#[test]
fn gre_test_try_parse_connect_resp_stores_timestamp() {
    let body = connect_resp_body();
    let entry = unity_entry(&body);
    let ts = Some(test_timestamp());
    let result = try_parse_first(&entry, ts);
    assert!(result.is_some());
    let event = result.as_ref().unwrap_or_else(|| unreachable!());
    assert_eq!(event.metadata().timestamp(), ts);
}

// -- Non-GRE entries (should return None) ---------------------------------

#[test]
fn gre_test_try_parse_unrelated_entry_returns_none() {
    let body = "[UnityCrossThreadLogger]Updated account. DisplayName:Test";
    let entry = unity_entry(body);
    assert!(try_parse_first(&entry, Some(test_timestamp())).is_none());
}

#[test]
fn gre_test_try_parse_empty_body_returns_none() {
    let body = "[UnityCrossThreadLogger]";
    let entry = unity_entry(body);
    assert!(try_parse_first(&entry, Some(test_timestamp())).is_none());
}

#[test]
fn gre_test_try_parse_match_state_event_returns_none() {
    let body = "[UnityCrossThreadLogger]matchGameRoomStateChangedEvent\n\
                 {\"matchGameRoomStateChangedEvent\": {\"gameRoomInfo\": {}}}";
    let entry = unity_entry(body);
    assert!(try_parse_first(&entry, Some(test_timestamp())).is_none());
}

#[test]
fn gre_test_try_parse_no_json_body_returns_none() {
    let body = "[UnityCrossThreadLogger]greToClientEvent with no json";
    let entry = unity_entry(body);
    assert!(try_parse_first(&entry, Some(test_timestamp())).is_none());
}

#[test]
fn gre_test_try_parse_malformed_json_returns_none() {
    let body = "[UnityCrossThreadLogger]greToClientEvent\n{invalid json}";
    let entry = unity_entry(body);
    assert!(try_parse_first(&entry, Some(test_timestamp())).is_none());
}

#[test]
fn gre_test_try_parse_gre_event_without_messages_returns_none() {
    let body = format!(
        "[UnityCrossThreadLogger]greToClientEvent\n{}",
        json(r#"{
            "greToClientEvent": {
                "someOtherField": "value"
            }
        }"#)
    );
    let entry = unity_entry(&body);
    assert!(try_parse_first(&entry, Some(test_timestamp())).is_none());
}

#[test]
fn gre_test_try_parse_gre_event_empty_messages_returns_none() {
    let body = format!(
        "[UnityCrossThreadLogger]greToClientEvent\n{}",
        json(r#"{
            "greToClientEvent": {
                "greToClientMessages": []
            }
        }"#)
    );
    let entry = unity_entry(&body);
    assert!(try_parse_first(&entry, Some(test_timestamp())).is_none());
}

#[test]
fn gre_test_try_parse_client_gre_header_is_accepted() {
    let body = format!(
        "[Client GRE]greToClientEvent\n{}",
        json(r#"{
            "greToClientEvent": {
                "greToClientMessages": [
                    {
                        "type": "GREMessageType_ConnectResp",
                        "systemSeatIds": [1, 2],
                        "connectResp": {
                            "deckMessage": {"deckCards": [1, 2, 3]}
                        }
                    }
                ]
            }
        }"#)
    );
    let entry = LogEntry {
        header: EntryHeader::ClientGre,
        body: body.clone(),
    };
    // Note: This returns Some because the parser only checks the body
    // content, not the header type. The GRE marker is present in the
    // body. This is valid -- ConnectResp can appear under either header.
    let result = try_parse_first(&entry, Some(test_timestamp()));
    assert!(result.is_some());
}

#[test]
fn gre_test_try_parse_unknown_gre_message_type_returns_none() {
    let body = format!(
        "[UnityCrossThreadLogger]greToClientEvent\n{}",
        json(r#"{
            "greToClientEvent": {
                "greToClientMessages": [
                    {
                        "type": "GREMessageType_SomeUnknownType",
                        "data": {}
                    }
                ]
            }
        }"#)
    );
    let entry = unity_entry(&body);
    assert!(try_parse_first(&entry, Some(test_timestamp())).is_none());
}

// -- ConnectResp edge cases -----------------------------------------------

#[test]
fn gre_test_try_parse_connect_resp_missing_deck_message() {
    let body = format!(
        "[UnityCrossThreadLogger]greToClientEvent\n{}",
        json(r#"{
            "greToClientEvent": {
                "greToClientMessages": [
                    {
                        "type": "GREMessageType_ConnectResp",
                        "systemSeatIds": [1, 2],
                        "connectResp": {}
                    }
                ]
            }
        }"#)
    );
    let entry = unity_entry(&body);
    let result = try_parse_first(&entry, Some(test_timestamp()));
    assert!(result.is_some());
    let event = result.as_ref().unwrap_or_else(|| unreachable!());
    let payload = game_state_payload(event);
    // Deck cards should be empty when deckMessage is missing.
    let deck_cards = payload["deck_cards"].as_array();
    assert!(deck_cards.is_some());
    let deck_cards = deck_cards.unwrap_or_else(|| unreachable!());
    assert!(deck_cards.is_empty());
}

#[test]
fn gre_test_try_parse_connect_resp_missing_connect_resp_key() {
    let body = format!(
        "[UnityCrossThreadLogger]greToClientEvent\n{}",
        json(r#"{
            "greToClientEvent": {
                "greToClientMessages": [
                    {
                        "type": "GREMessageType_ConnectResp",
                        "systemSeatIds": [1, 2]
                    }
                ]
            }
        }"#)
    );
    let entry = unity_entry(&body);
    let result = try_parse_first(&entry, Some(test_timestamp()));
    assert!(result.is_some());
    let event = result.as_ref().unwrap_or_else(|| unreachable!());
    let payload = game_state_payload(event);
    // Should still parse but with empty deck/sideboard.
    let deck_cards = payload["deck_cards"].as_array();
    assert!(deck_cards.is_some());
    let deck_cards = deck_cards.unwrap_or_else(|| unreachable!());
    assert!(deck_cards.is_empty());
}

#[test]
fn gre_test_try_parse_connect_resp_empty_deck_cards() {
    let body = format!(
        "[UnityCrossThreadLogger]greToClientEvent\n{}",
        json(r#"{
            "greToClientEvent": {
                "greToClientMessages": [
                    {
                        "type": "GREMessageType_ConnectResp",
                        "systemSeatIds": [1, 2],
                        "connectResp": {
                            "deckMessage": {
                                "deckCards": [],
                                "sideboardCards": []
                            }
                        }
                    }
                ]
            }
        }"#)
    );
    let entry = unity_entry(&body);
    let result = try_parse_first(&entry, Some(test_timestamp()));
    assert!(result.is_some());
    let event = result.as_ref().unwrap_or_else(|| unreachable!());
    let payload = game_state_payload(event);
    let deck_cards = payload["deck_cards"].as_array();
    assert!(deck_cards.is_some());
    let deck_cards = deck_cards.unwrap_or_else(|| unreachable!());
    assert!(deck_cards.is_empty());
}

#[test]
fn gre_test_try_parse_connect_resp_missing_system_seat_ids() {
    let body = format!(
        "[UnityCrossThreadLogger]greToClientEvent\n{}",
        json(r#"{
            "greToClientEvent": {
                "greToClientMessages": [
                    {
                        "type": "GREMessageType_ConnectResp",
                        "connectResp": {
                            "deckMessage": {
                                "deckCards": [99999]
                            }
                        }
                    }
                ]
            }
        }"#)
    );
    let entry = unity_entry(&body);
    let result = try_parse_first(&entry, Some(test_timestamp()));
    assert!(result.is_some());
    let event = result.as_ref().unwrap_or_else(|| unreachable!());
    let payload = game_state_payload(event);
    let seat_ids = payload["system_seat_ids"].as_array();
    assert!(seat_ids.is_some());
    let seat_ids = seat_ids.unwrap_or_else(|| unreachable!());
    assert!(seat_ids.is_empty());
}

#[test]
fn gre_test_try_parse_multiple_messages_finds_connect_resp() {
    let body = format!(
        "[UnityCrossThreadLogger]greToClientEvent\n{}",
        json(r#"{
            "greToClientEvent": {
                "greToClientMessages": [
                    {
                        "type": "GREMessageType_GameStateMessage",
                        "gameStateMessage": {"gameObjects": []}
                    },
                    {
                        "type": "GREMessageType_ConnectResp",
                        "systemSeatIds": [1, 2],
                        "connectResp": {
                            "deckMessage": {
                                "deckCards": [55555, 66666]
                            }
                        }
                    }
                ]
            }
        }"#)
    );
    let entry = unity_entry(&body);
    let result = try_parse_first(&entry, Some(test_timestamp()));
    assert!(result.is_some());
    let event = result.as_ref().unwrap_or_else(|| unreachable!());
    let payload = game_state_payload(event);
    // ConnectResp has priority over GameStateMessage.
    assert_eq!(payload["type"], "connect_resp");
    let deck_cards = payload["deck_cards"].as_array();
    assert!(deck_cards.is_some());
    let deck_cards = deck_cards.unwrap_or_else(|| unreachable!());
    assert_eq!(deck_cards.len(), 2);
    assert_eq!(deck_cards[0], 55555);
}

#[test]
fn gre_test_try_parse_connect_resp_with_timestamp_in_header() {
    let body = format!(
        "[UnityCrossThreadLogger]2/25/2026 12:00:00 PM greToClientEvent\n{}",
        json(r#"{
            "greToClientEvent": {
                "greToClientMessages": [
                    {
                        "type": "GREMessageType_ConnectResp",
                        "systemSeatIds": [1, 2],
                        "connectResp": {
                            "deckMessage": {
                                "deckCards": [77777]
                            }
                        }
                    }
                ]
            }
        }"#)
    );
    let entry = unity_entry(&body);
    let result = try_parse_first(&entry, Some(test_timestamp()));
    assert!(result.is_some());
    let event = result.as_ref().unwrap_or_else(|| unreachable!());
    let payload = game_state_payload(event);
    assert_eq!(payload["type"], "connect_resp");
}

// -- GameStateMessage detection -------------------------------------------

#[test]
fn gre_test_try_parse_game_state_message_detected() {
    let body = game_state_message_body();
    let entry = unity_entry(&body);
    let result = try_parse_first(&entry, Some(test_timestamp()));
    assert!(result.is_some());
}

#[test]
fn gre_test_try_parse_game_state_message_correct_variant() {
    let body = game_state_message_body();
    let entry = unity_entry(&body);
    let result = try_parse_first(&entry, Some(test_timestamp()));
    assert!(result.is_some());
    let event = result.as_ref().unwrap_or_else(|| unreachable!());
    assert!(matches!(event, GameEvent::GameState(_)));
}

#[test]
fn gre_test_try_parse_game_state_message_type_field() {
    let body = game_state_message_body();
    let entry = unity_entry(&body);
    let result = try_parse_first(&entry, Some(test_timestamp()));
    assert!(result.is_some());
    let event = result.as_ref().unwrap_or_else(|| unreachable!());
    let payload = game_state_payload(event);
    assert_eq!(payload["type"], "game_state_message");
}

#[test]
fn gre_test_try_parse_game_state_message_msg_id() {
    let body = game_state_message_body();
    let entry = unity_entry(&body);
    let result = try_parse_first(&entry, Some(test_timestamp()));
    assert!(result.is_some());
    let event = result.as_ref().unwrap_or_else(|| unreachable!());
    let payload = game_state_payload(event);
    assert_eq!(payload["msg_id"], 5);
}

#[test]
fn gre_test_try_parse_game_state_message_game_state_id() {
    let body = game_state_message_body();
    let entry = unity_entry(&body);
    let result = try_parse_first(&entry, Some(test_timestamp()));
    assert!(result.is_some());
    let event = result.as_ref().unwrap_or_else(|| unreachable!());
    let payload = game_state_payload(event);
    assert_eq!(payload["game_state_id"], 42);
}

#[test]
fn gre_test_try_parse_game_state_message_preserves_raw_bytes() {
    let body = game_state_message_body();
    let entry = unity_entry(&body);
    let result = try_parse_first(&entry, Some(test_timestamp()));
    assert!(result.is_some());
    let event = result.as_ref().unwrap_or_else(|| unreachable!());
    assert_eq!(event.metadata().raw_bytes(), body.as_bytes());
}

#[test]
fn gre_test_try_parse_game_state_message_stores_timestamp() {
    let body = game_state_message_body();
    let entry = unity_entry(&body);
    let ts = Some(test_timestamp());
    let result = try_parse_first(&entry, ts);
    assert!(result.is_some());
    let event = result.as_ref().unwrap_or_else(|| unreachable!());
    assert_eq!(event.metadata().timestamp(), ts);
}

// -- Zone extraction ------------------------------------------------------

#[test]
fn gre_test_try_parse_game_state_message_zone_count() {
    let body = game_state_message_body();
    let entry = unity_entry(&body);
    let result = try_parse_first(&entry, Some(test_timestamp()));
    assert!(result.is_some());
    let event = result.as_ref().unwrap_or_else(|| unreachable!());
    let payload = game_state_payload(event);

    let zones = payload["zones"].as_array();
    assert!(zones.is_some());
    let zones = zones.unwrap_or_else(|| unreachable!());
    assert_eq!(zones.len(), 6);
}

#[test]
fn gre_test_try_parse_game_state_message_hand_zone() {
    let body = game_state_message_body();
    let entry = unity_entry(&body);
    let result = try_parse_first(&entry, Some(test_timestamp()));
    assert!(result.is_some());
    let event = result.as_ref().unwrap_or_else(|| unreachable!());
    let payload = game_state_payload(event);

    let zones = payload["zones"]
        .as_array()
        .unwrap_or_else(|| unreachable!());
    let hand = &zones[0];
    assert_eq!(hand["zone_id"], 30);
    assert_eq!(hand["zone_type"], "ZoneType_Hand");
    assert_eq!(hand["owner_seat_id"], 1);
    assert_eq!(hand["visibility"], "Visibility_Public");
    let obj_ids = hand["object_instance_ids"]
        .as_array()
        .unwrap_or_else(|| unreachable!());
    assert_eq!(obj_ids.len(), 3);
    assert_eq!(obj_ids[0], 101);
    assert_eq!(obj_ids[1], 102);
    assert_eq!(obj_ids[2], 103);
}

#[test]
fn gre_test_try_parse_game_state_message_library_zone() {
    let body = game_state_message_body();
    let entry = unity_entry(&body);
    let result = try_parse_first(&entry, Some(test_timestamp()));
    assert!(result.is_some());
    let event = result.as_ref().unwrap_or_else(|| unreachable!());
    let payload = game_state_payload(event);

    let zones = payload["zones"]
        .as_array()
        .unwrap_or_else(|| unreachable!());
    let library = &zones[1];
    assert_eq!(library["zone_type"], "ZoneType_Library");
    assert_eq!(library["visibility"], "Visibility_Hidden");
    let obj_ids = library["object_instance_ids"]
        .as_array()
        .unwrap_or_else(|| unreachable!());
    assert_eq!(obj_ids.len(), 5);
}

#[test]
fn gre_test_try_parse_game_state_message_battlefield_zone() {
    let body = game_state_message_body();
    let entry = unity_entry(&body);
    let result = try_parse_first(&entry, Some(test_timestamp()));
    assert!(result.is_some());
    let event = result.as_ref().unwrap_or_else(|| unreachable!());
    let payload = game_state_payload(event);

    let zones = payload["zones"]
        .as_array()
        .unwrap_or_else(|| unreachable!());
    let battlefield = &zones[2];
    assert_eq!(battlefield["zone_type"], "ZoneType_Battlefield");
    assert_eq!(battlefield["owner_seat_id"], 0);
    let obj_ids = battlefield["object_instance_ids"]
        .as_array()
        .unwrap_or_else(|| unreachable!());
    assert_eq!(obj_ids.len(), 2);
}

#[test]
fn gre_test_try_parse_game_state_message_graveyard_zone() {
    let body = game_state_message_body();
    let entry = unity_entry(&body);
    let result = try_parse_first(&entry, Some(test_timestamp()));
    assert!(result.is_some());
    let event = result.as_ref().unwrap_or_else(|| unreachable!());
    let payload = game_state_payload(event);

    let zones = payload["zones"]
        .as_array()
        .unwrap_or_else(|| unreachable!());
    let graveyard = &zones[3];
    assert_eq!(graveyard["zone_type"], "ZoneType_Graveyard");
    let obj_ids = graveyard["object_instance_ids"]
        .as_array()
        .unwrap_or_else(|| unreachable!());
    assert_eq!(obj_ids.len(), 1);
}

#[test]
fn gre_test_try_parse_game_state_message_exile_zone_empty() {
    let body = game_state_message_body();
    let entry = unity_entry(&body);
    let result = try_parse_first(&entry, Some(test_timestamp()));
    assert!(result.is_some());
    let event = result.as_ref().unwrap_or_else(|| unreachable!());
    let payload = game_state_payload(event);

    let zones = payload["zones"]
        .as_array()
        .unwrap_or_else(|| unreachable!());
    let exile = &zones[4];
    assert_eq!(exile["zone_type"], "ZoneType_Exile");
    let obj_ids = exile["object_instance_ids"]
        .as_array()
        .unwrap_or_else(|| unreachable!());
    assert!(obj_ids.is_empty());
}

#[test]
fn gre_test_try_parse_game_state_message_stack_zone() {
    let body = game_state_message_body();
    let entry = unity_entry(&body);
    let result = try_parse_first(&entry, Some(test_timestamp()));
    assert!(result.is_some());
    let event = result.as_ref().unwrap_or_else(|| unreachable!());
    let payload = game_state_payload(event);

    let zones = payload["zones"]
        .as_array()
        .unwrap_or_else(|| unreachable!());
    let stack = &zones[5];
    assert_eq!(stack["zone_type"], "ZoneType_Stack");
    let obj_ids = stack["object_instance_ids"]
        .as_array()
        .unwrap_or_else(|| unreachable!());
    assert_eq!(obj_ids.len(), 1);
    assert_eq!(obj_ids[0], 501);
}

#[test]
fn gre_test_try_parse_game_state_message_no_zones_returns_empty() {
    let body = empty_game_state_message_body();
    let entry = unity_entry(&body);
    let result = try_parse_first(&entry, Some(test_timestamp()));
    assert!(result.is_some());
    let event = result.as_ref().unwrap_or_else(|| unreachable!());
    let payload = game_state_payload(event);

    let zones = payload["zones"].as_array();
    assert!(zones.is_some());
    let zones = zones.unwrap_or_else(|| unreachable!());
    assert!(zones.is_empty());
}

#[test]
fn gre_test_try_parse_game_state_message_incremental_single_zone() {
    let body = minimal_game_state_message_body();
    let entry = unity_entry(&body);
    let result = try_parse_first(&entry, Some(test_timestamp()));
    assert!(result.is_some());
    let event = result.as_ref().unwrap_or_else(|| unreachable!());
    let payload = game_state_payload(event);

    let zones = payload["zones"]
        .as_array()
        .unwrap_or_else(|| unreachable!());
    assert_eq!(zones.len(), 1);
    assert_eq!(zones[0]["zone_type"], "ZoneType_Hand");
    let obj_ids = zones[0]["object_instance_ids"]
        .as_array()
        .unwrap_or_else(|| unreachable!());
    assert_eq!(obj_ids.len(), 2);
}

// -- Game object extraction -----------------------------------------------

#[test]
fn gre_test_try_parse_game_state_message_object_count() {
    let body = game_state_message_body();
    let entry = unity_entry(&body);
    let result = try_parse_first(&entry, Some(test_timestamp()));
    assert!(result.is_some());
    let event = result.as_ref().unwrap_or_else(|| unreachable!());
    let payload = game_state_payload(event);

    let objects = payload["game_objects"].as_array();
    assert!(objects.is_some());
    let objects = objects.unwrap_or_else(|| unreachable!());
    assert_eq!(objects.len(), 3);
}

#[test]
fn gre_test_try_parse_game_state_message_creature_object() {
    let body = game_state_message_body();
    let entry = unity_entry(&body);
    let result = try_parse_first(&entry, Some(test_timestamp()));
    assert!(result.is_some());
    let event = result.as_ref().unwrap_or_else(|| unreachable!());
    let payload = game_state_payload(event);

    let objects = payload["game_objects"]
        .as_array()
        .unwrap_or_else(|| unreachable!());
    let creature = &objects[0];
    assert_eq!(creature["instance_id"], 101);
    assert_eq!(creature["grp_id"], 68398);
    assert_eq!(creature["object_type"], "GameObjectType_Card");
    assert_eq!(creature["zone_id"], 30);
    assert_eq!(creature["visibility"], "Visibility_Public");
    assert_eq!(creature["owner_seat_id"], 1);
    assert_eq!(creature["controller_seat_id"], 1);
}

#[test]
fn gre_test_try_parse_game_state_message_creature_card_types() {
    let body = game_state_message_body();
    let entry = unity_entry(&body);
    let result = try_parse_first(&entry, Some(test_timestamp()));
    assert!(result.is_some());
    let event = result.as_ref().unwrap_or_else(|| unreachable!());
    let payload = game_state_payload(event);

    let objects = payload["game_objects"]
        .as_array()
        .unwrap_or_else(|| unreachable!());
    let creature = &objects[0];
    let card_types = creature["card_types"]
        .as_array()
        .unwrap_or_else(|| unreachable!());
    assert_eq!(card_types.len(), 1);
    assert_eq!(card_types[0], "CardType_Creature");
}

#[test]
fn gre_test_try_parse_game_state_message_creature_subtypes() {
    let body = game_state_message_body();
    let entry = unity_entry(&body);
    let result = try_parse_first(&entry, Some(test_timestamp()));
    assert!(result.is_some());
    let event = result.as_ref().unwrap_or_else(|| unreachable!());
    let payload = game_state_payload(event);

    let objects = payload["game_objects"]
        .as_array()
        .unwrap_or_else(|| unreachable!());
    let creature = &objects[0];
    let subtypes = creature["subtypes"]
        .as_array()
        .unwrap_or_else(|| unreachable!());
    assert_eq!(subtypes.len(), 2);
    assert_eq!(subtypes[0], "SubType_Human");
    assert_eq!(subtypes[1], "SubType_Soldier");
}

#[test]
fn gre_test_try_parse_game_state_message_creature_abilities() {
    let body = game_state_message_body();
    let entry = unity_entry(&body);
    let result = try_parse_first(&entry, Some(test_timestamp()));
    assert!(result.is_some());
    let event = result.as_ref().unwrap_or_else(|| unreachable!());
    let payload = game_state_payload(event);

    let objects = payload["game_objects"]
        .as_array()
        .unwrap_or_else(|| unreachable!());
    let creature = &objects[0];
    let abilities = creature["abilities"]
        .as_array()
        .unwrap_or_else(|| unreachable!());
    assert_eq!(abilities.len(), 1);
    assert_eq!(abilities[0], "AbilityType_Lifelink");
}

#[test]
fn gre_test_try_parse_game_state_message_creature_power_toughness() {
    let body = game_state_message_body();
    let entry = unity_entry(&body);
    let result = try_parse_first(&entry, Some(test_timestamp()));
    assert!(result.is_some());
    let event = result.as_ref().unwrap_or_else(|| unreachable!());
    let payload = game_state_payload(event);

    let objects = payload["game_objects"]
        .as_array()
        .unwrap_or_else(|| unreachable!());
    let creature = &objects[0];
    assert_eq!(creature["power"], 3);
    assert_eq!(creature["toughness"], 2);
}

#[test]
fn gre_test_try_parse_game_state_message_land_object() {
    let body = game_state_message_body();
    let entry = unity_entry(&body);
    let result = try_parse_first(&entry, Some(test_timestamp()));
    assert!(result.is_some());
    let event = result.as_ref().unwrap_or_else(|| unreachable!());
    let payload = game_state_payload(event);

    let objects = payload["game_objects"]
        .as_array()
        .unwrap_or_else(|| unreachable!());
    let land = &objects[1];
    assert_eq!(land["instance_id"], 301);
    assert_eq!(land["grp_id"], 70136);
    assert_eq!(land["zone_id"], 32);
    let card_types = land["card_types"]
        .as_array()
        .unwrap_or_else(|| unreachable!());
    assert_eq!(card_types[0], "CardType_Land");
    // Land has no power/toughness.
    assert!(land["power"].is_null());
    assert!(land["toughness"].is_null());
}

#[test]
fn gre_test_try_parse_game_state_message_instant_on_stack() {
    let body = game_state_message_body();
    let entry = unity_entry(&body);
    let result = try_parse_first(&entry, Some(test_timestamp()));
    assert!(result.is_some());
    let event = result.as_ref().unwrap_or_else(|| unreachable!());
    let payload = game_state_payload(event);

    let objects = payload["game_objects"]
        .as_array()
        .unwrap_or_else(|| unreachable!());
    let instant = &objects[2];
    assert_eq!(instant["instance_id"], 501);
    assert_eq!(instant["zone_id"], 35);
    let card_types = instant["card_types"]
        .as_array()
        .unwrap_or_else(|| unreachable!());
    assert_eq!(card_types[0], "CardType_Instant");
}

#[test]
fn gre_test_try_parse_game_state_message_no_objects_returns_empty() {
    let body = empty_game_state_message_body();
    let entry = unity_entry(&body);
    let result = try_parse_first(&entry, Some(test_timestamp()));
    assert!(result.is_some());
    let event = result.as_ref().unwrap_or_else(|| unreachable!());
    let payload = game_state_payload(event);

    let objects = payload["game_objects"].as_array();
    assert!(objects.is_some());
    let objects = objects.unwrap_or_else(|| unreachable!());
    assert!(objects.is_empty());
}

#[test]
fn gre_test_try_parse_game_state_message_object_name_integer() {
    let body = game_state_message_body();
    let entry = unity_entry(&body);
    let result = try_parse_first(&entry, Some(test_timestamp()));
    assert!(result.is_some());
    let event = result.as_ref().unwrap_or_else(|| unreachable!());
    let payload = game_state_payload(event);

    let objects = payload["game_objects"]
        .as_array()
        .unwrap_or_else(|| unreachable!());
    // name is the grpId integer in this fixture.
    assert_eq!(objects[0]["name"], 68398);
}

#[test]
fn gre_test_try_parse_game_state_message_minimal_object() {
    let body = flat_game_state_message_body();
    let entry = unity_entry(&body);
    let result = try_parse_first(&entry, Some(test_timestamp()));
    assert!(result.is_some());
    let event = result.as_ref().unwrap_or_else(|| unreachable!());
    let payload = game_state_payload(event);

    let objects = payload["game_objects"]
        .as_array()
        .unwrap_or_else(|| unreachable!());
    assert_eq!(objects.len(), 1);
    let obj = &objects[0];
    assert_eq!(obj["instance_id"], 601);
    assert_eq!(obj["grp_id"], 80000);
    // Missing fields should have defaults.
    assert_eq!(obj["visibility"], "");
    assert!(obj["power"].is_null());
    assert!(obj["toughness"].is_null());
}

// -- Game info extraction -------------------------------------------------

#[test]
fn gre_test_try_parse_game_state_message_game_info_present() {
    let body = game_state_message_body();
    let entry = unity_entry(&body);
    let result = try_parse_first(&entry, Some(test_timestamp()));
    assert!(result.is_some());
    let event = result.as_ref().unwrap_or_else(|| unreachable!());
    let payload = game_state_payload(event);

    assert!(payload["game_info"].is_object());
}

#[test]
fn gre_test_try_parse_game_state_message_game_info_match_id() {
    let body = game_state_message_body();
    let entry = unity_entry(&body);
    let result = try_parse_first(&entry, Some(test_timestamp()));
    assert!(result.is_some());
    let event = result.as_ref().unwrap_or_else(|| unreachable!());
    let payload = game_state_payload(event);

    assert_eq!(payload["game_info"]["matchID"], "match-id-12345");
}

#[test]
fn gre_test_try_parse_game_state_message_game_info_stage() {
    let body = game_state_message_body();
    let entry = unity_entry(&body);
    let result = try_parse_first(&entry, Some(test_timestamp()));
    assert!(result.is_some());
    let event = result.as_ref().unwrap_or_else(|| unreachable!());
    let payload = game_state_payload(event);

    assert_eq!(payload["game_info"]["stage"], "GameStage_Play");
}

#[test]
fn gre_test_try_parse_game_state_message_game_info_mulligan_type() {
    let body = game_state_message_body();
    let entry = unity_entry(&body);
    let result = try_parse_first(&entry, Some(test_timestamp()));
    assert!(result.is_some());
    let event = result.as_ref().unwrap_or_else(|| unreachable!());
    let payload = game_state_payload(event);

    assert_eq!(payload["game_info"]["mulliganType"], "MulliganType_London");
}

#[test]
fn gre_test_try_parse_game_state_message_missing_game_info_returns_null() {
    let body = empty_game_state_message_body();
    let entry = unity_entry(&body);
    let result = try_parse_first(&entry, Some(test_timestamp()));
    assert!(result.is_some());
    let event = result.as_ref().unwrap_or_else(|| unreachable!());
    let payload = game_state_payload(event);

    assert!(payload["game_info"].is_null());
}

// -- QueuedGameStateMessage -----------------------------------------------

#[test]
fn gre_test_try_parse_queued_game_state_message_detected() {
    let body = queued_game_state_message_body();
    let entry = unity_entry(&body);
    let result = try_parse_first(&entry, Some(test_timestamp()));
    assert!(result.is_some());
}

#[test]
fn gre_test_try_parse_queued_game_state_message_type_field() {
    let body = queued_game_state_message_body();
    let entry = unity_entry(&body);
    let result = try_parse_first(&entry, Some(test_timestamp()));
    assert!(result.is_some());
    let event = result.as_ref().unwrap_or_else(|| unreachable!());
    let payload = game_state_payload(event);
    assert_eq!(payload["type"], "queued_game_state_message");
}

#[test]
fn gre_test_try_parse_queued_game_state_message_msg_id() {
    let body = queued_game_state_message_body();
    let entry = unity_entry(&body);
    let result = try_parse_first(&entry, Some(test_timestamp()));
    assert!(result.is_some());
    let event = result.as_ref().unwrap_or_else(|| unreachable!());
    let payload = game_state_payload(event);
    assert_eq!(payload["msg_id"], 7);
}

#[test]
fn gre_test_try_parse_queued_game_state_message_zones() {
    let body = queued_game_state_message_body();
    let entry = unity_entry(&body);
    let result = try_parse_first(&entry, Some(test_timestamp()));
    assert!(result.is_some());
    let event = result.as_ref().unwrap_or_else(|| unreachable!());
    let payload = game_state_payload(event);

    let zones = payload["zones"]
        .as_array()
        .unwrap_or_else(|| unreachable!());
    assert_eq!(zones.len(), 1);
    assert_eq!(zones[0]["zone_type"], "ZoneType_Battlefield");
    let obj_ids = zones[0]["object_instance_ids"]
        .as_array()
        .unwrap_or_else(|| unreachable!());
    assert_eq!(obj_ids.len(), 3);
}

#[test]
fn gre_test_try_parse_queued_game_state_message_objects() {
    let body = queued_game_state_message_body();
    let entry = unity_entry(&body);
    let result = try_parse_first(&entry, Some(test_timestamp()));
    assert!(result.is_some());
    let event = result.as_ref().unwrap_or_else(|| unreachable!());
    let payload = game_state_payload(event);

    let objects = payload["game_objects"]
        .as_array()
        .unwrap_or_else(|| unreachable!());
    assert_eq!(objects.len(), 1);
    assert_eq!(objects[0]["instance_id"], 303);
    assert_eq!(objects[0]["grp_id"], 72000);
    assert_eq!(objects[0]["owner_seat_id"], 2);
    assert_eq!(objects[0]["power"], 5);
    assert_eq!(objects[0]["toughness"], 5);
}

#[test]
fn gre_test_try_parse_queued_game_state_message_preserves_raw_bytes() {
    let body = queued_game_state_message_body();
    let entry = unity_entry(&body);
    let result = try_parse_first(&entry, Some(test_timestamp()));
    assert!(result.is_some());
    let event = result.as_ref().unwrap_or_else(|| unreachable!());
    assert_eq!(event.metadata().raw_bytes(), body.as_bytes());
}

// -- Performance class ---------------------------------------------------

#[test]
fn gre_test_try_parse_connect_resp_performance_class_interactive_dispatch() {
    let body = connect_resp_body();
    let entry = unity_entry(&body);
    let result = try_parse_first(&entry, Some(test_timestamp()));
    assert!(result.is_some());
    let event = result.as_ref().unwrap_or_else(|| unreachable!());
    assert_eq!(
        event.performance_class(),
        PerformanceClass::InteractiveDispatch
    );
}

#[test]
fn gre_test_try_parse_game_state_message_performance_class_interactive_dispatch() {
    let body = game_state_message_body();
    let entry = unity_entry(&body);
    let result = try_parse_first(&entry, Some(test_timestamp()));
    assert!(result.is_some());
    let event = result.as_ref().unwrap_or_else(|| unreachable!());
    assert_eq!(
        event.performance_class(),
        PerformanceClass::InteractiveDispatch
    );
}

#[test]
fn gre_test_try_parse_queued_game_state_message_performance_class_interactive_dispatch() {
    let body = queued_game_state_message_body();
    let entry = unity_entry(&body);
    let result = try_parse_first(&entry, Some(test_timestamp()));
    assert!(result.is_some());
    let event = result.as_ref().unwrap_or_else(|| unreachable!());
    assert_eq!(
        event.performance_class(),
        PerformanceClass::InteractiveDispatch
    );
}

// -- Internal helpers ----------------------------------------------------

#[test]
fn gre_test_extract_card_ids_normal() {
    let value = json("[1, 2, 3, 4, 5]");
    let ids = extract_card_ids(Some(&value));
    assert_eq!(ids, vec![1, 2, 3, 4, 5]);
}

#[test]
fn gre_test_extract_card_ids_empty_array() {
    let value = json("[]");
    let ids = extract_card_ids(Some(&value));
    assert!(ids.is_empty());
}

#[test]
fn gre_test_extract_card_ids_none() {
    let ids = extract_card_ids(None);
    assert!(ids.is_empty());
}

#[test]
fn gre_test_extract_card_ids_non_array() {
    let value = json(r#""not an array""#);
    let ids = extract_card_ids(Some(&value));
    assert!(ids.is_empty());
}

#[test]
fn gre_test_extract_string_array_normal() {
    let value = json(r#"["CardType_Creature", "CardType_Artifact"]"#);
    let strings = extract_string_array(Some(&value));
    assert_eq!(strings, vec!["CardType_Creature", "CardType_Artifact"]);
}

#[test]
fn gre_test_extract_string_array_empty() {
    let value = json("[]");
    let strings = extract_string_array(Some(&value));
    assert!(strings.is_empty());
}

#[test]
fn gre_test_extract_string_array_none() {
    let strings = extract_string_array(None);
    assert!(strings.is_empty());
}

#[test]
fn gre_test_extract_string_array_mixed_types_skips_non_strings() {
    let value = json(r#"["valid", 42, "also_valid", null]"#);
    let strings = extract_string_array(Some(&value));
    assert_eq!(strings, vec!["valid", "also_valid"]);
}

#[test]
fn gre_test_extract_nested_value_present() {
    let value = json(r#"{"value": 3}"#);
    let result = extract_nested_value(Some(&value));
    assert_eq!(result, json("3"));
}

#[test]
fn gre_test_extract_nested_value_missing_value_key() {
    let value = json(r#"{"other": 5}"#);
    let result = extract_nested_value(Some(&value));
    assert!(result.is_null());
}

#[test]
fn gre_test_extract_nested_value_none() {
    let result = extract_nested_value(None);
    assert!(result.is_null());
}

#[test]
fn gre_test_extract_gre_messages_nested_format() {
    let parsed = json(r#"{
        "greToClientEvent": {
            "greToClientMessages": [
                {"type": "GREMessageType_ConnectResp"}
            ]
        }
    }"#);
    let messages = extract_gre_messages(&parsed);
    assert!(messages.is_some());
    let messages = messages.unwrap_or_else(|| unreachable!());
    assert_eq!(messages.len(), 1);
}

#[test]
fn gre_test_extract_gre_messages_flat_format() {
    let parsed = json(r#"{
        "greToClientMessages": [
            {"type": "GREMessageType_GameStateMessage"}
        ]
    }"#);
    let messages = extract_gre_messages(&parsed);
    assert!(messages.is_some());
    let messages = messages.unwrap_or_else(|| unreachable!());
    assert_eq!(messages.len(), 1);
}

#[test]
fn gre_test_extract_gre_messages_empty_returns_none() {
    let parsed = json(r#"{
        "greToClientEvent": {
            "greToClientMessages": []
        }
    }"#);
    assert!(extract_gre_messages(&parsed).is_none());
}

#[test]
fn gre_test_extract_gre_messages_missing_returns_none() {
    let parsed = json(r#"{
        "greToClientEvent": {
            "someOtherField": "value"
        }
    }"#);
    assert!(extract_gre_messages(&parsed).is_none());
}

#[test]
fn gre_test_find_message_by_type_found() {
    let messages = vec![
        json(r#"{"type": "GREMessageType_GameStateMessage"}"#),
        json(r#"{"type": "GREMessageType_ConnectResp"}"#),
    ];
    let result = find_message_by_type(&messages, CONNECT_RESP_TYPE);
    assert!(result.is_some());
}

#[test]
fn gre_test_find_message_by_type_not_found() {
    let messages = vec![json(r#"{"type": "GREMessageType_GameStateMessage"}"#)];
    let result = find_message_by_type(&messages, CONNECT_RESP_TYPE);
    assert!(result.is_none());
}

#[test]
fn gre_test_extract_single_zone_valid() {
    let zone = json(r#"{
        "zoneId": 30,
        "type": "ZoneType_Hand",
        "ownerSeatId": 1,
        "visibility": "Visibility_Public",
        "objectInstanceIds": [101, 102]
    }"#);
    let result = extract_single_zone(&zone);
    assert!(result.is_some());
    let z = result.unwrap_or_else(|| unreachable!());
    assert_eq!(z["zone_id"], 30);
    assert_eq!(z["zone_type"], "ZoneType_Hand");
}

#[test]
fn gre_test_extract_single_zone_missing_zone_id_returns_none() {
    let zone = json(r#"{
        "type": "ZoneType_Hand",
        "ownerSeatId": 1
    }"#);
    assert!(extract_single_zone(&zone).is_none());
}

#[test]
fn gre_test_extract_single_game_object_valid() {
    let obj = json(r#"{
        "instanceId": 101,
        "grpId": 68398,
        "type": "GameObjectType_Card",
        "zoneId": 30,
        "ownerSeatId": 1,
        "controllerSeatId": 1
    }"#);
    let result = extract_single_game_object(&obj);
    assert!(result.is_some());
    let o = result.unwrap_or_else(|| unreachable!());
    assert_eq!(o["instance_id"], 101);
    assert_eq!(o["grp_id"], 68398);
}

#[test]
fn gre_test_extract_single_game_object_missing_instance_id_returns_none() {
    let obj = json(r#"{
        "grpId": 68398,
        "type": "GameObjectType_Card"
    }"#);
    assert!(extract_single_game_object(&obj).is_none());
}

// -- GameStateMessage edge cases ------------------------------------------

#[test]
fn gre_test_try_parse_game_state_message_zone_missing_object_ids() {
    let body = format!(
        "[UnityCrossThreadLogger]greToClientEvent\n{}",
        json(r#"{
            "greToClientEvent": {
                "greToClientMessages": [
                    {
                        "type": "GREMessageType_GameStateMessage",
                        "msgId": 1,
                        "gameStateMessage": {
                            "zones": [
                                {
                                    "zoneId": 30,
                                    "type": "ZoneType_Hand",
                                    "ownerSeatId": 1
                                }
                            ]
                        }
                    }
                ]
            }
        }"#)
    );
    let entry = unity_entry(&body);
    let result = try_parse_first(&entry, Some(test_timestamp()));
    assert!(result.is_some());
    let event = result.as_ref().unwrap_or_else(|| unreachable!());
    let payload = game_state_payload(event);

    let zones = payload["zones"]
        .as_array()
        .unwrap_or_else(|| unreachable!());
    assert_eq!(zones.len(), 1);
    let obj_ids = zones[0]["object_instance_ids"]
        .as_array()
        .unwrap_or_else(|| unreachable!());
    assert!(obj_ids.is_empty());
}

#[test]
fn gre_test_try_parse_game_state_message_object_missing_optional_fields() {
    let body = format!(
        "[UnityCrossThreadLogger]greToClientEvent\n{}",
        json(r#"{
            "greToClientEvent": {
                "greToClientMessages": [
                    {
                        "type": "GREMessageType_GameStateMessage",
                        "msgId": 1,
                        "gameStateMessage": {
                            "gameObjects": [
                                {
                                    "instanceId": 999,
                                    "grpId": 12345
                                }
                            ]
                        }
                    }
                ]
            }
        }"#)
    );
    let entry = unity_entry(&body);
    let result = try_parse_first(&entry, Some(test_timestamp()));
    assert!(result.is_some());
    let event = result.as_ref().unwrap_or_else(|| unreachable!());
    let payload = game_state_payload(event);

    let objects = payload["game_objects"]
        .as_array()
        .unwrap_or_else(|| unreachable!());
    assert_eq!(objects.len(), 1);
    let obj = &objects[0];
    assert_eq!(obj["instance_id"], 999);
    assert_eq!(obj["grp_id"], 12345);
    assert_eq!(obj["object_type"], "Unknown");
    assert_eq!(obj["zone_id"], 0);
    assert_eq!(obj["visibility"], "");
    assert_eq!(obj["owner_seat_id"], 0);
    assert_eq!(obj["controller_seat_id"], 0);
    assert!(obj["card_types"]
        .as_array()
        .unwrap_or_else(|| unreachable!())
        .is_empty());
    assert!(obj["subtypes"]
        .as_array()
        .unwrap_or_else(|| unreachable!())
        .is_empty());
    assert!(obj["power"].is_null());
    assert!(obj["toughness"].is_null());
}

#[test]
fn gre_test_try_parse_game_state_message_missing_game_state_message_key() {
    let body = format!(
        "[UnityCrossThreadLogger]greToClientEvent\n{}",
        json(r#"{
            "greToClientEvent": {
                "greToClientMessages": [
                    {
                        "type": "GREMessageType_GameStateMessage",
                        "msgId": 1
                    }
                ]
            }
        }"#)
    );
    let entry = unity_entry(&body);
    let result = try_parse_first(&entry, Some(test_timestamp()));
    assert!(result.is_some());
    let event = result.as_ref().unwrap_or_else(|| unreachable!());
    let payload = game_state_payload(event);

    // Should parse with empty zones and objects.
    let zones = payload["zones"]
        .as_array()
        .unwrap_or_else(|| unreachable!());
    assert!(zones.is_empty());
    let objects = payload["game_objects"]
        .as_array()
        .unwrap_or_else(|| unreachable!());
    assert!(objects.is_empty());
    assert!(payload["game_info"].is_null());
}

#[test]
fn gre_test_try_parse_game_state_message_with_timestamp_in_header() {
    let body = format!(
        "[UnityCrossThreadLogger]2/25/2026 12:00:00 PM greToClientEvent\n{}",
        json(r#"{
            "greToClientEvent": {
                "greToClientMessages": [
                    {
                        "type": "GREMessageType_GameStateMessage",
                        "msgId": 1,
                        "gameStateMessage": {
                            "zones": [],
                            "gameObjects": []
                        }
                    }
                ]
            }
        }"#)
    );
    let entry = unity_entry(&body);
    let result = try_parse_first(&entry, Some(test_timestamp()));
    assert!(result.is_some());
    let event = result.as_ref().unwrap_or_else(|| unreachable!());
    let payload = game_state_payload(event);
    assert_eq!(payload["type"], "game_state_message");
}

#[test]
fn gre_test_try_parse_game_state_message_zone_invalid_zone_skipped() {
    let body = format!(
        "[UnityCrossThreadLogger]greToClientEvent\n{}",
        json(r#"{
            "greToClientEvent": {
                "greToClientMessages": [
                    {
                        "type": "GREMessageType_GameStateMessage",
                        "msgId": 1,
                        "gameStateMessage": {
                            "zones": [
                                {
                                    "zoneId": 30,
                                    "type": "ZoneType_Hand",
                                    "ownerSeatId": 1,
                                    "objectInstanceIds": [101]
                                },
                                {
                                    "type": "ZoneType_Invalid"
                                },
                                {
                                    "zoneId": 32,
                                    "type": "ZoneType_Battlefield",
                                    "ownerSeatId": 0,
                                    "objectInstanceIds": [301]
                                }
                            ]
                        }
                    }
                ]
            }
        }"#)
    );
    let entry = unity_entry(&body);
    let result = try_parse_first(&entry, Some(test_timestamp()));
    assert!(result.is_some());
    let event = result.as_ref().unwrap_or_else(|| unreachable!());
    let payload = game_state_payload(event);

    // Zone without zoneId should be skipped.
    let zones = payload["zones"]
        .as_array()
        .unwrap_or_else(|| unreachable!());
    assert_eq!(zones.len(), 2);
    assert_eq!(zones[0]["zone_id"], 30);
    assert_eq!(zones[1]["zone_id"], 32);
}

#[test]
fn gre_test_try_parse_game_state_message_object_invalid_object_skipped() {
    let body = format!(
        "[UnityCrossThreadLogger]greToClientEvent\n{}",
        json(r#"{
            "greToClientEvent": {
                "greToClientMessages": [
                    {
                        "type": "GREMessageType_GameStateMessage",
                        "msgId": 1,
                        "gameStateMessage": {
                            "gameObjects": [
                                {
                                    "instanceId": 101,
                                    "grpId": 68398,
                                    "type": "GameObjectType_Card"
                                },
                                {
                                    "grpId": 99999
                                },
                                {
                                    "instanceId": 102,
                                    "grpId": 70136,
                                    "type": "GameObjectType_Card"
                                }
                            ]
                        }
                    }
                ]
            }
        }"#)
    );
    let entry = unity_entry(&body);
    let result = try_parse_first(&entry, Some(test_timestamp()));
    assert!(result.is_some());
    let event = result.as_ref().unwrap_or_else(|| unreachable!());
    let payload = game_state_payload(event);

    // Object without instanceId should be skipped.
    let objects = payload["game_objects"]
        .as_array()
        .unwrap_or_else(|| unreachable!());
    assert_eq!(objects.len(), 2);
    assert_eq!(objects[0]["instance_id"], 101);
    assert_eq!(objects[1]["instance_id"], 102);
}

// -----------------------------------------------------------------------
// GameStage_GameOver → GameResult detection
// -----------------------------------------------------------------------

/// Helper: build a GRE entry with a single message of the given type.
fn gre_entry_with_type(msg_type: &str) -> LogEntry {
    let body = format!(
        "[UnityCrossThreadLogger]greToClientEvent\n{}",
        json(&r#"{
            "greToClientEvent": {
                "greToClientMessages": [
                    {
                        "type": "@msg_type@",
                        "data": {}
                    }
                ]
            }
        }"#
                .replace("\"@msg_type@\"", &format!("{msg_type:?}")))
    );
    unity_entry(&body)
}

#[test]
fn gre_test_try_parse_ui_message_returns_some() {
    let entry = gre_entry_with_type("GREMessageType_UIMessage");
    let result = try_parse_first(&entry, Some(test_timestamp()));
    assert!(result.is_some());
    let event = result.as_ref().unwrap_or_else(|| unreachable!());
    assert!(matches!(event, GameEvent::GameState(_)));
    let payload = game_state_payload(event);
    assert_eq!(payload["recognized_type"], "GREMessageType_UIMessage");
}

#[test]
fn gre_test_try_parse_timer_state_message_returns_some() {
    let entry = gre_entry_with_type("GREMessageType_TimerStateMessage");
    let result = try_parse_first(&entry, Some(test_timestamp()));
    assert!(result.is_some());
    let event = result.as_ref().unwrap_or_else(|| unreachable!());
    assert!(matches!(event, GameEvent::GameState(_)));
    let payload = game_state_payload(event);
    assert_eq!(
        payload["recognized_type"],
        "GREMessageType_TimerStateMessage"
    );
}

#[test]
fn gre_test_try_parse_set_settings_resp_returns_some() {
    let entry = gre_entry_with_type("GREMessageType_SetSettingsResp");
    let result = try_parse_first(&entry, Some(test_timestamp()));
    assert!(result.is_some());
    let event = result.as_ref().unwrap_or_else(|| unreachable!());
    assert!(matches!(event, GameEvent::GameState(_)));
    let payload = game_state_payload(event);
    assert_eq!(payload["recognized_type"], "GREMessageType_SetSettingsResp");
}

#[test]
fn gre_test_noise_types_preserve_metadata_raw_bytes() {
    let entry = gre_entry_with_type("GREMessageType_UIMessage");
    let result = try_parse_first(&entry, Some(test_timestamp()));
    let event = result.as_ref().unwrap_or_else(|| unreachable!());
    assert!(!event.metadata().raw_bytes().is_empty());
}

#[test]
fn gre_test_noise_types_prioritize_real_events() {
    // If a message array has both a GameStateMessage and a UIMessage,
    // the GameStateMessage should be returned (it comes first in dispatch).
    let body = format!(
        "[UnityCrossThreadLogger]greToClientEvent\n{}",
        json(r#"{
            "greToClientEvent": {
                "greToClientMessages": [
                    {
                        "type": "GREMessageType_UIMessage",
                        "data": {}
                    },
                    {
                        "type": "GREMessageType_GameStateMessage",
                        "gameStateMessage": {
                            "gameInfo": {},
                            "zones": [],
                            "gameObjects": []
                        }
                    }
                ]
            }
        }"#)
    );
    let entry = unity_entry(&body);
    let result = try_parse_first(&entry, Some(test_timestamp()));
    assert!(result.is_some());
    let event = result.as_ref().unwrap_or_else(|| unreachable!());
    // Should be GameState from GameStateMessage, not from UIMessage noise
    let payload = game_state_payload(event);
    assert!(payload.get("recognized_type").is_none());
}

#[test]
fn gre_test_truly_unknown_type_still_returns_none() {
    let entry = gre_entry_with_type("GREMessageType_SomeFutureType");
    assert!(try_parse_first(&entry, Some(test_timestamp())).is_none());
}

/// Helper: build a GRE event body with a `GameStateMessage` containing
/// `GameStage_GameOver` and a results array.
fn game_over_body() -> String {
    format!(
        "[UnityCrossThreadLogger]greToClientEvent\n{}",
        json(r#"{
            "greToClientEvent": {
                "greToClientMessages": [{
                    "type": "GREMessageType_GameStateMessage",
                    "msgId": 99,
                    "gameStateId": 200,
                    "gameStateMessage": {
                        "gameInfo": {
                            "matchID": "match-abc-123",
                            "gameNumber": 1,
                            "stage": "GameStage_GameOver",
                            "matchState": "MatchState_GameComplete",
                            "type": "GameType_Standard",
                            "variant": "GameVariant_Normal",
                            "mulliganType": "MulliganType_London",
                            "results": [
                                {
                                    "scope": "MatchScope_Game",
                                    "result": "ResultType_WinLoss",
                                    "winningTeamId": 1,
                                    "reason": "ResultReason_Game"
                                }
                            ]
                        }
                    }
                }]
            }
        }"#)
    )
}

/// Helper: build a `QueuedGameStateMessage` with `GameStage_GameOver`.
fn queued_game_over_body() -> String {
    format!(
        "[UnityCrossThreadLogger]greToClientEvent\n{}",
        json(r#"{
            "greToClientEvent": {
                "greToClientMessages": [{
                    "type": "GREMessageType_QueuedGameStateMessage",
                    "msgId": 101,
                    "gameStateId": 210,
                    "gameStateMessage": {
                        "gameInfo": {
                            "stage": "GameStage_GameOver",
                            "matchState": "MatchState_GameComplete",
                            "results": [
                                {
                                    "scope": "MatchScope_Game",
                                    "result": "ResultType_WinLoss",
                                    "winningTeamId": 2,
                                    "reason": "ResultReason_Concede"
                                }
                            ]
                        }
                    }
                }]
            }
        }"#)
    )
}

#[test]
fn gre_test_try_parse_game_state_message_game_over_emits_game_result() {
    let entry = unity_entry(&game_over_body());
    let result = try_parse_first(&entry, Some(test_timestamp()));
    assert!(result.is_some());
    let event = result.as_ref().unwrap_or_else(|| unreachable!());
    assert!(matches!(event, GameEvent::GameResult(_)));
}

#[test]
fn gre_test_try_parse_game_over_performance_class_post_game_batch() {
    let entry = unity_entry(&game_over_body());
    let event = try_parse_first(&entry, Some(test_timestamp())).unwrap_or_else(|| unreachable!());
    assert_eq!(event.performance_class(), PerformanceClass::PostGameBatch);
}

#[test]
fn gre_test_try_parse_game_over_payload_type_and_source() {
    let entry = unity_entry(&game_over_body());
    let event = try_parse_first(&entry, Some(test_timestamp())).unwrap_or_else(|| unreachable!());
    let payload = game_result_payload(&event);
    assert_eq!(payload["type"], "game_result");
    assert_eq!(payload["source"], "gre_game_state");
}

#[test]
fn gre_test_try_parse_game_over_extracts_stage_and_match_state() {
    let entry = unity_entry(&game_over_body());
    let event = try_parse_first(&entry, Some(test_timestamp())).unwrap_or_else(|| unreachable!());
    let payload = game_result_payload(&event);
    assert_eq!(payload["stage"], "GameStage_GameOver");
    assert_eq!(payload["match_state"], "MatchState_GameComplete");
}

#[test]
fn gre_test_try_parse_game_over_extracts_winning_team_id() {
    let entry = unity_entry(&game_over_body());
    let event = try_parse_first(&entry, Some(test_timestamp())).unwrap_or_else(|| unreachable!());
    let payload = game_result_payload(&event);
    assert_eq!(payload["winning_team_id"], 1);
}

#[test]
fn gre_test_try_parse_game_over_extracts_result_type() {
    let entry = unity_entry(&game_over_body());
    let event = try_parse_first(&entry, Some(test_timestamp())).unwrap_or_else(|| unreachable!());
    let payload = game_result_payload(&event);
    assert_eq!(payload["result_type"], "ResultType_WinLoss");
}

#[test]
fn gre_test_try_parse_game_over_extracts_reason() {
    let entry = unity_entry(&game_over_body());
    let event = try_parse_first(&entry, Some(test_timestamp())).unwrap_or_else(|| unreachable!());
    let payload = game_result_payload(&event);
    assert_eq!(payload["reason"], "ResultReason_Game");
}

#[test]
fn gre_test_try_parse_game_over_preserves_results_array() {
    let entry = unity_entry(&game_over_body());
    let event = try_parse_first(&entry, Some(test_timestamp())).unwrap_or_else(|| unreachable!());
    let payload = game_result_payload(&event);
    let results = payload["results"]
        .as_array()
        .unwrap_or_else(|| unreachable!());
    assert_eq!(results.len(), 1);
    assert_eq!(results[0]["scope"], "MatchScope_Game");
}

#[test]
fn gre_test_try_parse_game_over_preserves_raw_game_info() {
    let entry = unity_entry(&game_over_body());
    let event = try_parse_first(&entry, Some(test_timestamp())).unwrap_or_else(|| unreachable!());
    let payload = game_result_payload(&event);
    let gi = &payload["game_info"];
    assert_eq!(gi["matchID"], "match-abc-123");
    assert_eq!(gi["gameNumber"], 1);
    assert_eq!(gi["mulliganType"], "MulliganType_London");
}

#[test]
fn gre_test_try_parse_game_over_preserves_timestamp() {
    let entry = unity_entry(&game_over_body());
    let event = try_parse_first(&entry, Some(test_timestamp())).unwrap_or_else(|| unreachable!());
    assert_eq!(event.metadata().timestamp(), Some(test_timestamp()));
}

#[test]
fn gre_test_try_parse_game_over_preserves_raw_bytes() {
    let body = game_over_body();
    let entry = unity_entry(&body);
    let event = try_parse_first(&entry, Some(test_timestamp())).unwrap_or_else(|| unreachable!());
    assert_eq!(event.metadata().raw_bytes(), body.as_bytes());
}

#[test]
fn gre_test_try_parse_queued_game_state_message_game_over_emits_game_result() {
    let entry = unity_entry(&queued_game_over_body());
    let result = try_parse_first(&entry, Some(test_timestamp()));
    assert!(result.is_some());
    let event = result.as_ref().unwrap_or_else(|| unreachable!());
    assert!(matches!(event, GameEvent::GameResult(_)));
    let payload = game_result_payload(event);
    assert_eq!(payload["winning_team_id"], 2);
    assert_eq!(payload["reason"], "ResultReason_Concede");
}

#[test]
fn gre_test_try_parse_non_game_over_stage_emits_game_state() {
    // GameStage_Play should still emit GameState, not GameResult.
    let entry = unity_entry(&game_state_message_body());
    let result = try_parse_first(&entry, Some(test_timestamp()));
    assert!(result.is_some());
    let event = result.as_ref().unwrap_or_else(|| unreachable!());
    assert!(matches!(event, GameEvent::GameState(_)));
}

#[test]
fn gre_test_try_parse_game_over_missing_results_defaults() {
    let body = format!(
        "[UnityCrossThreadLogger]greToClientEvent\n{}",
        json(r#"{
            "greToClientEvent": {
                "greToClientMessages": [{
                    "type": "GREMessageType_GameStateMessage",
                    "msgId": 50,
                    "gameStateMessage": {
                        "gameInfo": {
                            "stage": "GameStage_GameOver",
                            "matchState": "MatchState_GameComplete"
                        }
                    }
                }]
            }
        }"#)
    );
    let entry = unity_entry(&body);
    let event = try_parse_first(&entry, Some(test_timestamp())).unwrap_or_else(|| unreachable!());
    assert!(matches!(event, GameEvent::GameResult(_)));
    let payload = game_result_payload(&event);
    assert_eq!(payload["winning_team_id"], 0);
    assert_eq!(payload["result_type"], "");
    assert_eq!(payload["reason"], "");
    let results = payload["results"]
        .as_array()
        .unwrap_or_else(|| unreachable!());
    assert!(results.is_empty());
}

#[test]
fn gre_test_try_parse_game_over_multiple_results_uses_game_scope() {
    let body = format!(
        "[UnityCrossThreadLogger]greToClientEvent\n{}",
        json(r#"{
            "greToClientEvent": {
                "greToClientMessages": [{
                    "type": "GREMessageType_GameStateMessage",
                    "msgId": 60,
                    "gameStateMessage": {
                        "gameInfo": {
                            "stage": "GameStage_GameOver",
                            "matchState": "MatchState_GameComplete",
                            "results": [
                                {
                                    "scope": "MatchScope_Match",
                                    "result": "ResultType_WinLoss",
                                    "winningTeamId": 1,
                                    "reason": "ResultReason_Game"
                                },
                                {
                                    "scope": "MatchScope_Game",
                                    "result": "ResultType_Draw",
                                    "winningTeamId": 0,
                                    "reason": "ResultReason_Draw"
                                }
                            ]
                        }
                    }
                }]
            }
        }"#)
    );
    let entry = unity_entry(&body);
    let event = try_parse_first(&entry, Some(test_timestamp())).unwrap_or_else(|| unreachable!());
    let payload = game_result_payload(&event);
    // Top-level fields come from the MatchScope_Game entry.
    assert_eq!(payload["winning_team_id"], 0);
    assert_eq!(payload["result_type"], "ResultType_Draw");
    assert_eq!(payload["reason"], "ResultReason_Draw");
    // Both results are preserved.
    let results = payload["results"]
        .as_array()
        .unwrap_or_else(|| unreachable!());
    assert_eq!(results.len(), 2);
}

#[test]
fn gre_test_try_parse_no_stage_field_emits_game_state() {
    let body = format!(
        "[UnityCrossThreadLogger]greToClientEvent\n{}",
        json(r#"{
            "greToClientEvent": {
                "greToClientMessages": [{
                    "type": "GREMessageType_GameStateMessage",
                    "msgId": 70,
                    "gameStateMessage": {
                        "gameInfo": {
                            "matchID": "match-xyz",
                            "gameNumber": 1
                        }
                    }
                }]
            }
        }"#)
    );
    let entry = unity_entry(&body);
    let result = try_parse_first(&entry, Some(test_timestamp()));
    assert!(result.is_some());
    let event = result.as_ref().unwrap_or_else(|| unreachable!());
    assert!(matches!(event, GameEvent::GameState(_)));
}
