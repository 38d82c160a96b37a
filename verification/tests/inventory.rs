use chrono::TimeZone;
use manasight_parser::events::{GameEvent, PerformanceClass};
use manasight_parser::json::{Json, JsonNumber};
use manasight_parser::log::entry::{EntryHeader, LogEntry};
use manasight_parser::log::timestamp::Timestamp;
use manasight_parser::parsers::inventory::try_parse;

/// The payload of an event of the expected category, null for any other.
fn inventory_payload(event: &GameEvent) -> serde_json::Value {
    match event {
        GameEvent::Inventory(e) => to_value(e.payload()),
        _ => serde_json::Value::Null,
    }
}

/// 2026-02-25 12:00:00 UTC.
fn test_timestamp() -> Timestamp {
    let at = chrono::Utc
        .with_ymd_and_hms(2026, 2, 25, 12, 0, 0)
        .single()
        .unwrap_or_default();
    Timestamp { secs: at.timestamp(), nanos: at.timestamp_subsec_nanos() }
}

fn unity_entry(body: &str) -> LogEntry {
    LogEntry { header: EntryHeader::UnityCrossThreadLogger, body: body.to_owned() }
}

fn to_value(json: &Json) -> serde_json::Value {
    match json {
        Json::Null => serde_json::Value::Null,
        Json::Bool(b) => serde_json::Value::from(*b),
        Json::Number(JsonNumber::PosInt(n)) => serde_json::Value::from(*n),
        Json::Number(JsonNumber::NegInt(n)) => serde_json::Value::from(*n),
        Json::Number(JsonNumber::Float(bits)) => serde_json::Value::from(f64::from_bits(*bits)),
        Json::Str(s) => serde_json::Value::from(s.as_str()),
        Json::Array(items) => serde_json::Value::Array(items.iter().map(to_value).collect()),
        Json::Object(members) => serde_json::Value::Object(
            members.iter().map(|m| (m.name.clone(), to_value(&m.value))).collect(),
        ),
    }
}

// -- Matching entries (StartHook with InventoryInfo) -----------------------

#[test]
fn test_try_parse_start_hook_with_inventory_info() {
    let body = "[UnityCrossThreadLogger]2/22/2026 11:59:51 AM\n\
                 <== StartHook(e3f1a2b4-5678-9abc-def0-123456789abc)\n\
                 {\n\
                   \"InventoryInfo\": {\"Gems\": 1234, \"Gold\": 5678},\n\
                   \"PlayerCards\": {\"98535\": 4}\n\
                 }";
    let entry = unity_entry(body);
    let result = try_parse(&entry, Some(test_timestamp()));

    assert!(result.is_some());
    let event = result.as_ref().unwrap_or_else(|| unreachable!());
    let payload = inventory_payload(event);

    assert_eq!(payload["type"], "inventory_snapshot");
    assert_eq!(payload["inventory"]["Gems"], 1234);
    assert_eq!(payload["inventory"]["Gold"], 5678);
}

#[test]
fn test_try_parse_extracts_wildcards() {
    let body = "[UnityCrossThreadLogger]2/22/2026 11:59:51 AM\n\
                 <== StartHook(uuid-123)\n\
                 {\"InventoryInfo\": {\
                   \"Gems\": 100, \"Gold\": 200,\
                   \"wcCommon\": 10, \"wcUncommon\": 5,\
                   \"wcRare\": 3, \"wcMythic\": 1\
                 }}";
    let entry = unity_entry(body);
    let result = try_parse(&entry, Some(test_timestamp()));

    assert!(result.is_some());
    let event = result.as_ref().unwrap_or_else(|| unreachable!());
    let payload = inventory_payload(event);

    assert_eq!(payload["inventory"]["wcCommon"], 10);
    assert_eq!(payload["inventory"]["wcMythic"], 1);
}

#[test]
fn test_try_parse_extracts_vault_progress() {
    let body = "[UnityCrossThreadLogger]2/22/2026 12:00:00 PM\n\
                 <== StartHook(vault-uuid)\n\
                 {\"InventoryInfo\": {\
                   \"Gems\": 0, \"Gold\": 0,\
                   \"VaultProgress\": 42.5\
                 }}";
    let entry = unity_entry(body);
    let result = try_parse(&entry, Some(test_timestamp()));

    assert!(result.is_some());
    let event = result.as_ref().unwrap_or_else(|| unreachable!());
    let payload = inventory_payload(event);

    assert_eq!(payload["inventory"]["VaultProgress"], 42.5);
}

#[test]
fn test_try_parse_preserves_raw_start_hook() {
    let body = "[UnityCrossThreadLogger]2/22/2026 12:00:00 PM\n\
                 <== StartHook(raw-uuid)\n\
                 {\"InventoryInfo\": {\"Gems\": 999}, \"ExtraField\": true}";
    let entry = unity_entry(body);
    let result = try_parse(&entry, Some(test_timestamp()));

    assert!(result.is_some());
    let event = result.as_ref().unwrap_or_else(|| unreachable!());
    let payload = inventory_payload(event);

    assert_eq!(payload["raw_start_hook"]["ExtraField"], true);
}

#[test]
fn test_try_parse_single_line_response() {
    let body =
        "[UnityCrossThreadLogger]<== StartHook(uuid) {\"InventoryInfo\": {\"Gems\": 42}}";
    let entry = unity_entry(body);
    let result = try_parse(&entry, Some(test_timestamp()));

    assert!(result.is_some());
    let event = result.as_ref().unwrap_or_else(|| unreachable!());
    let payload = inventory_payload(event);

    assert_eq!(payload["inventory"]["Gems"], 42);
}

// -- Metadata preservation ------------------------------------------------

#[test]
fn inventory_test_try_parse_preserves_raw_bytes() {
    let body = "[UnityCrossThreadLogger]2/22/2026 12:00:00 PM\n\
                 <== StartHook(meta-uuid)\n\
                 {\"InventoryInfo\": {\"Gems\": 1}}";
    let entry = unity_entry(body);
    let result = try_parse(&entry, Some(test_timestamp()));

    assert!(result.is_some());
    let event = result.as_ref().unwrap_or_else(|| unreachable!());
    assert_eq!(event.metadata().raw_bytes(), body.as_bytes());
}

#[test]
fn inventory_test_try_parse_stores_timestamp() {
    let body = "[UnityCrossThreadLogger]2/22/2026 12:00:00 PM\n\
                 <== StartHook(ts-uuid)\n\
                 {\"InventoryInfo\": {\"Gems\": 1}}";
    let entry = unity_entry(body);
    let ts = Some(test_timestamp());
    let result = try_parse(&entry, ts);

    assert!(result.is_some());
    let event = result.as_ref().unwrap_or_else(|| unreachable!());
    assert_eq!(event.metadata().timestamp(), ts);
}

// -- Non-matching entries (should return None) ----------------------------

#[test]
fn test_try_parse_start_hook_without_inventory_info_returns_none() {
    let body = "[UnityCrossThreadLogger]2/22/2026 12:00:00 PM\n\
                 <== StartHook(no-inv-uuid)\n\
                 {\"PlayerCards\": {\"98535\": 4}, \"DeckSummariesV2\": []}";
    let entry = unity_entry(body);
    assert!(try_parse(&entry, Some(test_timestamp())).is_none());
}

#[test]
fn inventory_test_try_parse_different_api_response_returns_none() {
    let body = "[UnityCrossThreadLogger]2/22/2026 12:00:00 PM\n\
                 <== RankGetCombinedRankInfo(uuid)\n\
                 {\"constructedClass\": \"Gold\"}";
    let entry = unity_entry(body);
    assert!(try_parse(&entry, Some(test_timestamp())).is_none());
}

#[test]
fn test_try_parse_api_request_returns_none() {
    let body = "[UnityCrossThreadLogger]==> StartHook {\"data\": 1}";
    let entry = unity_entry(body);
    assert!(try_parse(&entry, Some(test_timestamp())).is_none());
}

#[test]
fn inventory_test_try_parse_unrelated_entry_returns_none() {
    let body = "[UnityCrossThreadLogger]greToClientEvent\n{\"data\": 1}";
    let entry = unity_entry(body);
    assert!(try_parse(&entry, Some(test_timestamp())).is_none());
}

#[test]
fn inventory_test_try_parse_empty_body_returns_none() {
    let body = "[UnityCrossThreadLogger]";
    let entry = unity_entry(body);
    assert!(try_parse(&entry, Some(test_timestamp())).is_none());
}

#[test]
fn inventory_test_try_parse_old_marker_returns_none() {
    let body = "[UnityCrossThreadLogger]DTO_InventoryInfo\n{\"Gems\": 1234}";
    let entry = unity_entry(body);
    assert!(try_parse(&entry, Some(test_timestamp())).is_none());
}

#[test]
fn inventory_test_try_parse_malformed_json_returns_none() {
    let body = "[UnityCrossThreadLogger]2/22/2026 12:00:00 PM\n\
                 <== StartHook(uuid)\n\
                 {broken json!!!}";
    let entry = unity_entry(body);
    assert!(try_parse(&entry, Some(test_timestamp())).is_none());
}

#[test]
fn inventory_test_try_parse_client_gre_header_returns_none() {
    let entry = LogEntry {
        header: EntryHeader::ClientGre,
        body: "[Client GRE]some GRE message".to_owned(),
    };
    assert!(try_parse(&entry, Some(test_timestamp())).is_none());
}

// -- Performance class ----------------------------------------------------

#[test]
fn test_inventory_event_is_durable_per_event() {
    let body = "[UnityCrossThreadLogger]2/22/2026 12:00:00 PM\n\
                 <== StartHook(perf-uuid)\n\
                 {\"InventoryInfo\": {\"Gems\": 1}}";
    let entry = unity_entry(body);
    let result = try_parse(&entry, Some(test_timestamp()));

    assert!(result.is_some());
    let event = result.as_ref().unwrap_or_else(|| unreachable!());
    assert_eq!(event.performance_class(), PerformanceClass::DurablePerEvent);
}
