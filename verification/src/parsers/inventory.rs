//! Inventory parser for `<== StartHook` responses containing `InventoryInfo`.
//!
//! # Real log format
//!
//! ```text
//! [UnityCrossThreadLogger]2/22/2026 11:59:51 AM
//! <== StartHook(e3f1a2b4-...)
//! {
//!   "InventoryInfo": { "Gems": 1234, "Gold": 5678, ... },
//!   "PlayerCards": { ... },
//!   ...
//! }
//! ```
//!
//! The `<==` response line and JSON payload are continuation lines within the
//! `[UnityCrossThreadLogger]` entry.

use vstd::prelude::*;
use crate::events;
use crate::events::{EventKind, EventMetadata, EventModel, GameEvent, InventoryEvent};
use crate::fields;
use crate::json;
use crate::json::{Json, JsonModel, JsonObject};
use crate::log::entry::LogEntry;
use crate::log::timestamp::Timestamp;
use crate::parsers::api_common;
use crate::parsers::api_common::{is_api_response, parse_json_from_body};

verus! {

/// API method name for the `StartHook` response.
pub const START_HOOK_METHOD: &'static str = "StartHook";

/// Field name within the `StartHook` JSON that contains inventory data.
pub const INVENTORY_FIELD: &'static str = "InventoryInfo";

/// The payload of an inventory snapshot. Nothing where the response holds no
/// inventory.
pub open spec fn inventory_payload(parsed: JsonModel) -> Option<JsonModel> {
    match parsed.get(INVENTORY_FIELD@) {
        Some(inventory) => Some(
            JsonModel::Object(
                seq![
                    ("type"@, JsonModel::Str("inventory_snapshot"@)),
                    ("inventory"@, inventory),
                    ("raw_start_hook"@, parsed),
                ],
            ),
        ),
        None => None,
    }
}

/// What an entry is emitted as.
pub open spec fn inventory_claim(
    body: Seq<char>,
    timestamp: Option<Timestamp>,
) -> Option<EventModel> {
    if api_common::api_response(body, START_HOOK_METHOD@) {
        match api_common::body_json(body) {
            Some(parsed) => match inventory_payload(parsed) {
                Some(payload) => Some(
                    EventModel {
                        kind: EventKind::Inventory,
                        metadata: events::entry_metadata(timestamp, body),
                        payload,
                    },
                ),
                None => None,
            },
            None => None,
        }
    } else {
        None
    }
}

/// Builds the payload of an inventory snapshot, if the response holds an
/// inventory.
pub fn build_payload(parsed: Json) -> (payload: Option<Json>)
    ensures
        json::owned_model(payload) == inventory_payload(parsed@),
{
    let inventory = match parsed.get(INVENTORY_FIELD) {
        Some(inventory) => inventory.clone(),
        None => return None,
    };
    let mut object = JsonObject::new();
    object.push("type", Json::string("inventory_snapshot"));
    object.push("inventory", inventory);
    object.push("raw_start_hook", parsed);
    assert(object@ =~= inventory_payload(parsed@).unwrap()->Object_0);
    Some(object.finish())
}

/// Attempts to parse a [`LogEntry`] as an inventory event.
///
/// Returns an inventory event if the entry is a `<== StartHook` response
/// containing an `InventoryInfo` field, or `None` otherwise.
pub fn try_parse(entry: &LogEntry, timestamp: Option<Timestamp>) -> (event: Option<GameEvent>)
    ensures
        events::opt_event(event) == inventory_claim(entry.body@, timestamp),
        events::opt_sound(events::opt_event(event)),
{
    let body = entry.body.as_str();
    if !is_api_response(body, START_HOOK_METHOD) {
        return None;
    }
    match parse_json_from_body(body) {
        Some(parsed) => match build_payload(parsed) {
            Some(payload) => {
                proof {
                    law_inventory_is_well_formed(parsed@);
                }
                let metadata = EventMetadata::of_entry(timestamp, body);
                Some(GameEvent::Inventory(InventoryEvent::new(metadata, payload)))
            },
            None => None,
        },
        None => None,
    }
}

/// The payload of an inventory snapshot is well formed where the response is.
pub proof fn law_inventory_is_well_formed(parsed: JsonModel)
    requires
        json::well_formed(parsed),
    ensures
        json::opt_well_formed(inventory_payload(parsed)),
{
    reveal_strlit("type");
    reveal_strlit("inventory");
    reveal_strlit("raw_start_hook");
    assert("type"@.len() == 4 && "inventory"@.len() == 9 && "raw_start_hook"@.len() == 14);
    json::lemma_get_well_formed(parsed, INVENTORY_FIELD@);
    match inventory_payload(parsed) {
        Some(payload) => {
            json::lemma_object_well_formed(payload->Object_0);
        },
        None => {},
    }
}

/// A snapshot is made exactly where the response holds an inventory, of that
/// inventory and of the whole response.
pub proof fn law_inventory_is_reported(parsed: JsonModel)
    ensures
        match parsed.get("InventoryInfo"@) {
            Some(inventory) => {
                &&& inventory_payload(parsed) matches Some(payload)
                &&& fields::is_str(payload.get("type"@), "inventory_snapshot"@)
                &&& payload.get("inventory"@) == Some(inventory)
                &&& payload.get("raw_start_hook"@) == Some(parsed)
                &&& payload->Object_0.len() == 3
            },
            None => inventory_payload(parsed) is None,
        },
{
    reveal_strlit("type");
    reveal_strlit("inventory");
    reveal_strlit("raw_start_hook");
    assert("type"@.len() == 4 && "inventory"@.len() == 9 && "raw_start_hook"@.len() == 14);
    if inventory_payload(parsed) is Some {
        let members = inventory_payload(parsed).unwrap()->Object_0;
        json::lemma_lookup_all(members);
        assert(members[0].0 == "type"@);
        assert(members[1].0 == "inventory"@);
        assert(members[2].0 == "raw_start_hook"@);
    }
}

/// An entry is emitted exactly where it is a `StartHook` response whose JSON holds an
/// inventory.
pub proof fn law_inventories_are_emitted(body: Seq<char>, timestamp: Option<Timestamp>)
    ensures
        match inventory_claim(body, timestamp) {
            Some(event) => {
                &&& api_common::api_response(body, "StartHook"@)
                &&& api_common::body_json(body) matches Some(parsed)
                &&& inventory_payload(parsed) == Some(event.payload)
                &&& event.kind == EventKind::Inventory
                &&& event.metadata == events::entry_metadata(timestamp, body)
            },
            None => {
                ||| !api_common::api_response(body, "StartHook"@)
                ||| api_common::body_json(body) is None
                ||| inventory_payload(api_common::body_json(body).unwrap()) is None
            },
        },
{
}

} // verus!
