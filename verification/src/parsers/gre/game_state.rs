//! `GameStateMessage` and `QueuedGameStateMessage` payload builder.

use vstd::prelude::*;
use crate::fields;
use crate::json;
use crate::json::{
    array_field, get_field, int_field, int_field_or, int_items, str_field_or, value_field_or, Json,
    JsonModel, JsonObject,
};
use crate::parsers::gre::annotations;
use crate::parsers::gre::annotations::{extract_annotations, extract_persistent_annotations};
use crate::parsers::gre::helpers;
use crate::parsers::gre::helpers::{extract_nested_value, extract_string_array};
use crate::parsers::gre::turn_info;
use crate::parsers::gre::turn_info::extract_turn_info;
use crate::text::str_eq;

verus! {

/// GRE message type for queued (deferred) game state updates.
pub const QUEUED_GAME_STATE_MESSAGE_TYPE: &'static str = "GREMessageType_QueuedGameStateMessage";

// ---------------------------------------------------------------------------
// Timers
// ---------------------------------------------------------------------------

/// A timer with normalized fields. Nothing where it has no integer `timerId`.
/// The fields behind the first four are there only where the timer has them.
pub open spec fn timer_payload(timer: JsonModel) -> Option<JsonModel> {
    match json::int_in(timer.get("timerId"@)) {
        None => None,
        Some(id) => Some(
            JsonModel::Object(
                seq![
                    ("timer_id"@, json::int_json(id)),
                    ("type"@, JsonModel::Str(json::str_or(timer.get("type"@), ""@))),
                    ("duration_sec"@, json::int_json(json::int_or(timer.get("durationSec"@), 0))),
                    ("behavior"@, JsonModel::Str(json::str_or(timer.get("behavior"@), ""@))),
                ] + json::optional(
                    "elapsed_sec"@,
                    json::opt_int(json::int_in(timer.get("elapsedSec"@))),
                ) + json::optional(
                    "elapsed_ms"@,
                    json::opt_int(json::int_in(timer.get("elapsedMs"@))),
                ) + json::optional("running"@, bool_in(timer.get("running"@))) + json::optional(
                    "warning_threshold_sec"@,
                    json::opt_int(json::int_in(timer.get("warningThresholdSec"@))),
                ),
            ),
        ),
    }
}

/// A value that is a boolean, as it is.
pub open spec fn bool_in(value: Option<JsonModel>) -> Option<JsonModel> {
    match value {
        Some(JsonModel::Bool(b)) => Some(JsonModel::Bool(b)),
        _ => None,
    }
}

/// Extracts a single timer, normalizing field names to `snake_case`.
pub fn extract_single_timer(timer: &Json) -> (payload: Option<Json>)
    ensures
        json::owned_model(payload) == timer_payload(timer@),
{
    match int_field(timer.get("timerId")) {
        None => None,
        Some(timer_id) => {
            let mut object = JsonObject::new();
            object.push("timer_id", Json::integer(timer_id));
            object.push("type", Json::string(str_field_or(timer.get("type"), "")));
            object.push("duration_sec", Json::integer(int_field_or(timer.get("durationSec"), 0)));
            object.push("behavior", Json::string(str_field_or(timer.get("behavior"), "")));
            object.push_int("elapsed_sec", int_field(timer.get("elapsedSec")));
            object.push_int("elapsed_ms", int_field(timer.get("elapsedMs")));
            let running = match timer.get("running") {
                Some(v) => v.as_bool(),
                None => None,
            };
            object.push_bool("running", running);
            object.push_int("warning_threshold_sec", int_field(timer.get("warningThresholdSec")));
            assert(object@ =~= timer_payload(timer@).unwrap()->Object_0);
            Some(object.finish())
        },
    }
}

/// The timers of an array, in its order, those that are none left out. None
/// where there is no array.
pub open spec fn timer_list(value: Option<JsonModel>) -> Seq<JsonModel> {
    match json::array_in(value) {
        Some(items) => json::filter_mapped(items, |t: JsonModel| timer_payload(t)),
        None => Seq::empty(),
    }
}

/// Extracts timer data from the `gameStateMessage.timers` array.
///
/// Returns an empty `Vec` when `timers` is absent or empty.
pub fn extract_timers(gsm: Option<&Json>) -> (found: Vec<Json>)
    ensures
        json::item_models(found@) == timer_list(json::get_in(json::opt_model(gsm), "timers"@)),
{
    let mut found: Vec<Json> = Vec::new();
    assert(json::item_models(found@) =~= Seq::<JsonModel>::empty());
    match array_field(get_field(gsm, "timers")) {
        None => {},
        Some(items) => {
            let ghost all = json::item_models(items@);
            let ghost f = |t: JsonModel| timer_payload(t);
            let mut i: usize = 0;
            while i < items.len()
                invariant
                    i <= items@.len(),
                    all == json::item_models(items@),
                    f == (|t: JsonModel| timer_payload(t)),
                    json::item_models(found@) == json::filter_mapped(all.take(i as int), f),
                decreases items@.len() - i,
            {
                proof {
                    json::lemma_filter_mapped_step(all, f, i as int);
                }
                let ghost before = found@;
                match extract_single_timer(&items[i]) {
                    Some(payload) => {
                        found.push(payload);
                        assert(json::item_models(found@) =~= json::item_models(before).push(
                            payload@,
                        ));
                    },
                    None => {},
                }
                i += 1;
            }
            assert(all.take(i as int) =~= all);
        },
    }
    found
}

// ---------------------------------------------------------------------------
// Zones
// ---------------------------------------------------------------------------

/// A zone with normalized fields. Nothing where it has no integer `zoneId`.
pub open spec fn zone_payload(zone: JsonModel) -> Option<JsonModel> {
    match json::int_in(zone.get("zoneId"@)) {
        None => None,
        Some(id) => Some(
            JsonModel::Object(
                seq![
                    ("zone_id"@, json::int_json(id)),
                    ("zone_type"@, JsonModel::Str(json::str_or(zone.get("type"@), "Unknown"@))),
                    ("owner_seat_id"@, json::int_json(json::int_or(zone.get("ownerSeatId"@), 0))),
                    ("visibility"@, JsonModel::Str(json::str_or(zone.get("visibility"@), ""@))),
                    (
                        "object_instance_ids"@,
                        json::ints_json(json::ints_in(zone.get("objectInstanceIds"@))),
                    ),
                ],
            ),
        ),
    }
}

/// Extracts a single zone descriptor, normalizing field names to `snake_case`.
pub fn extract_single_zone(zone: &Json) -> (payload: Option<Json>)
    ensures
        json::owned_model(payload) == zone_payload(zone@),
{
    match int_field(zone.get("zoneId")) {
        None => None,
        Some(zone_id) => {
            let mut object = JsonObject::new();
            object.push("zone_id", Json::integer(zone_id));
            object.push("zone_type", Json::string(str_field_or(zone.get("type"), "Unknown")));
            object.push("owner_seat_id", Json::integer(int_field_or(zone.get("ownerSeatId"), 0)));
            object.push("visibility", Json::string(str_field_or(zone.get("visibility"), "")));
            object.push("object_instance_ids", Json::ints(int_items(zone.get("objectInstanceIds"))));
            assert(object@ =~= zone_payload(zone@).unwrap()->Object_0);
            Some(object.finish())
        },
    }
}

/// The zones of an array, in its order, those that are none left out. None
/// where there is no array.
pub open spec fn zone_list(value: Option<JsonModel>) -> Seq<JsonModel> {
    match json::array_in(value) {
        Some(items) => json::filter_mapped(items, |z: JsonModel| zone_payload(z)),
        None => Seq::empty(),
    }
}

/// Extracts zone descriptors from the `gameStateMessage.zones` array.
///
/// Each zone in the log has the structure:
/// ```json
/// {
///   "zoneId": 30,
///   "type": "ZoneType_Hand",
///   "visibility": "Visibility_Public",
///   "ownerSeatId": 1,
///   "objectInstanceIds": [101, 102, 103]
/// }
/// ```
///
/// The output normalizes field names to `snake_case`.
pub fn extract_zones(gsm: Option<&Json>) -> (found: Vec<Json>)
    ensures
        json::item_models(found@) == zone_list(json::get_in(json::opt_model(gsm), "zones"@)),
{
    let mut found: Vec<Json> = Vec::new();
    assert(json::item_models(found@) =~= Seq::<JsonModel>::empty());
    match array_field(get_field(gsm, "zones")) {
        None => {},
        Some(items) => {
            let ghost all = json::item_models(items@);
            let ghost f = |z: JsonModel| zone_payload(z);
            let mut i: usize = 0;
            while i < items.len()
                invariant
                    i <= items@.len(),
                    all == json::item_models(items@),
                    f == (|z: JsonModel| zone_payload(z)),
                    json::item_models(found@) == json::filter_mapped(all.take(i as int), f),
                decreases items@.len() - i,
            {
                proof {
                    json::lemma_filter_mapped_step(all, f, i as int);
                }
                let ghost before = found@;
                match extract_single_zone(&items[i]) {
                    Some(payload) => {
                        found.push(payload);
                        assert(json::item_models(found@) =~= json::item_models(before).push(
                            payload@,
                        ));
                    },
                    None => {},
                }
                i += 1;
            }
            assert(all.take(i as int) =~= all);
        },
    }
    found
}

// ---------------------------------------------------------------------------
// Game objects
// ---------------------------------------------------------------------------

/// A game object with normalized fields. Nothing where it has no integer
/// `instanceId`.
pub open spec fn game_object_payload(obj: JsonModel) -> Option<JsonModel> {
    match json::int_in(obj.get("instanceId"@)) {
        None => None,
        Some(id) => Some(
            JsonModel::Object(
                seq![
                    ("instance_id"@, json::int_json(id)),
                    ("grp_id"@, json::int_json(json::int_or(obj.get("grpId"@), 0))),
                    ("object_type"@, JsonModel::Str(json::str_or(obj.get("type"@), "Unknown"@))),
                    ("zone_id"@, json::int_json(json::int_or(obj.get("zoneId"@), 0))),
                    ("visibility"@, JsonModel::Str(json::str_or(obj.get("visibility"@), ""@))),
                    ("owner_seat_id"@, json::int_json(json::int_or(obj.get("ownerSeatId"@), 0))),
                    (
                        "controller_seat_id"@,
                        json::int_json(json::int_or(obj.get("controllerSeatId"@), 0)),
                    ),
                    ("card_types"@, json::strs_json(json::strs_in(obj.get("cardTypes"@)))),
                    ("subtypes"@, json::strs_json(json::strs_in(obj.get("subtypes"@)))),
                    ("abilities"@, json::strs_json(json::strs_in(obj.get("abilities"@)))),
                    ("name"@, json::value_or(obj.get("name"@), JsonModel::Null)),
                    ("power"@, helpers::nested_value(obj.get("power"@))),
                    ("toughness"@, helpers::nested_value(obj.get("toughness"@))),
                ],
            ),
        ),
    }
}

/// Extracts a single game object, normalizing field names to `snake_case`.
pub fn extract_single_game_object(obj: &Json) -> (payload: Option<Json>)
    ensures
        json::owned_model(payload) == game_object_payload(obj@),
{
    match int_field(obj.get("instanceId")) {
        None => None,
        Some(instance_id) => {
            let mut object = JsonObject::new();
            object.push("instance_id", Json::integer(instance_id));
            object.push("grp_id", Json::integer(int_field_or(obj.get("grpId"), 0)));
            object.push("object_type", Json::string(str_field_or(obj.get("type"), "Unknown")));
            object.push("zone_id", Json::integer(int_field_or(obj.get("zoneId"), 0)));
            object.push("visibility", Json::string(str_field_or(obj.get("visibility"), "")));
            object.push("owner_seat_id", Json::integer(int_field_or(obj.get("ownerSeatId"), 0)));
            object.push(
                "controller_seat_id",
                Json::integer(int_field_or(obj.get("controllerSeatId"), 0)),
            );
            object.push("card_types", Json::strings(extract_string_array(obj.get("cardTypes"))));
            object.push("subtypes", Json::strings(extract_string_array(obj.get("subtypes"))));
            object.push("abilities", Json::strings(extract_string_array(obj.get("abilities"))));
            object.push("name", value_field_or(obj.get("name"), Json::Null));
            object.push("power", extract_nested_value(obj.get("power")));
            object.push("toughness", extract_nested_value(obj.get("toughness")));
            assert(object@ =~= game_object_payload(obj@).unwrap()->Object_0);
            Some(object.finish())
        },
    }
}

/// The game objects of an array, in its order, those that are none left out. None
/// where there is no array.
pub open spec fn game_object_list(value: Option<JsonModel>) -> Seq<JsonModel> {
    match json::array_in(value) {
        Some(items) => json::filter_mapped(items, |o: JsonModel| game_object_payload(o)),
        None => Seq::empty(),
    }
}

/// Extracts game object descriptors from the `gameStateMessage.gameObjects`
/// array.
///
/// The output normalizes field names to `snake_case`. Not all fields are
/// present in every object (incremental updates, non-card types, etc.).
pub fn extract_game_objects(gsm: Option<&Json>) -> (found: Vec<Json>)
    ensures
        json::item_models(found@) == game_object_list(json::get_in(json::opt_model(gsm), "gameObjects"@)),
{
    let mut found: Vec<Json> = Vec::new();
    assert(json::item_models(found@) =~= Seq::<JsonModel>::empty());
    match array_field(get_field(gsm, "gameObjects")) {
        None => {},
        Some(items) => {
            let ghost all = json::item_models(items@);
            let ghost f = |o: JsonModel| game_object_payload(o);
            let mut i: usize = 0;
            while i < items.len()
                invariant
                    i <= items@.len(),
                    all == json::item_models(items@),
                    f == (|o: JsonModel| game_object_payload(o)),
                    json::item_models(found@) == json::filter_mapped(all.take(i as int), f),
                decreases items@.len() - i,
            {
                proof {
                    json::lemma_filter_mapped_step(all, f, i as int);
                }
                let ghost before = found@;
                match extract_single_game_object(&items[i]) {
                    Some(payload) => {
                        found.push(payload);
                        assert(json::item_models(found@) =~= json::item_models(before).push(
                            payload@,
                        ));
                    },
                    None => {},
                }
                i += 1;
            }
            assert(all.take(i as int) =~= all);
        },
    }
    found
}

// ---------------------------------------------------------------------------
// Messages
// ---------------------------------------------------------------------------

/// The payload type of a message: that of a queued message where its GRE type
/// says so.
pub open spec fn payload_type(msg: JsonModel) -> Seq<char> {
    if json::str_or(msg.get("type"@), ""@) == QUEUED_GAME_STATE_MESSAGE_TYPE@ {
        "queued_game_state_message"@
    } else {
        "game_state_message"@
    }
}

/// The payload of a game state message.
pub open spec fn game_state_payload(msg: JsonModel) -> JsonModel {
    let gsm = msg.get("gameStateMessage"@);
    JsonModel::Object(
        seq![
            ("type"@, JsonModel::Str(payload_type(msg))),
            ("msg_id"@, json::int_json(json::int_or(msg.get("msgId"@), 0))),
            ("game_state_id"@, json::int_json(json::int_or(msg.get("gameStateId"@), 0))),
            ("zones"@, JsonModel::Array(zone_list(json::get_in(gsm, "zones"@)))),
            (
                "game_objects"@,
                JsonModel::Array(game_object_list(json::get_in(gsm, "gameObjects"@))),
            ),
            ("game_info"@, json::value_or(json::get_in(gsm, "gameInfo"@), JsonModel::Null)),
            ("turn_info"@, turn_info::turn_info_payload(gsm)),
            (
                "annotations"@,
                JsonModel::Array(annotations::annotation_list(json::get_in(gsm, "annotations"@))),
            ),
            (
                "persistent_annotations"@,
                JsonModel::Array(
                    annotations::annotation_list(json::get_in(gsm, "persistentAnnotations"@)),
                ),
            ),
            ("timers"@, JsonModel::Array(timer_list(json::get_in(gsm, "timers"@)))),
            (
                "diff_deleted_instance_ids"@,
                json::ints_json(json::ints_in(json::get_in(gsm, "diffDeletedInstanceIds"@))),
            ),
        ],
    )
}

/// Builds a structured payload from a `GameStateMessage` or
/// `QueuedGameStateMessage`.
///
/// The output payload has the shape:
///
/// ```json
/// {
///   "type": "game_state_message",
///   "msg_id": 5,
///   "game_state_id": 42,
///   "zones": [ { "zone_id": 1, "zone_type": "ZoneType_Hand", ... }, ... ],
///   "game_objects": [ { "instance_id": 100, "grp_id": 68398, ... }, ... ],
///   "game_info": { ... },
///   "turn_info": { "turn_number": 3, "phase": "Phase_Main1", ... },
///   "annotations": [ { "id": 145, "affector_id": 296, ... }, ... ],
///   "persistent_annotations": [ ... ],
///   "timers": [ { "timer_id": 9, "type": "TimerType_ActivePlayer", ... }, ... ],
///   "diff_deleted_instance_ids": [279, 282, 284]
/// }
/// ```
///
/// Incremental updates may include only a subset of zones and objects. Missing
/// fields default to empty arrays or null.
pub fn build_game_state_message_payload(gre_msg: &Json) -> (payload: Json)
    ensures
        payload@ == game_state_payload(gre_msg@),
{
    let gsm = gre_msg.get("gameStateMessage");
    let gre_type = str_field_or(gre_msg.get("type"), "");
    let payload_type = if str_eq(gre_type, QUEUED_GAME_STATE_MESSAGE_TYPE) {
        "queued_game_state_message"
    } else {
        "game_state_message"
    };
    let mut object = JsonObject::new();
    object.push("type", Json::string(payload_type));
    object.push("msg_id", Json::integer(int_field_or(gre_msg.get("msgId"), 0)));
    object.push("game_state_id", Json::integer(int_field_or(gre_msg.get("gameStateId"), 0)));
    object.push("zones", Json::array(extract_zones(gsm)));
    object.push("game_objects", Json::array(extract_game_objects(gsm)));
    object.push("game_info", value_field_or(get_field(gsm, "gameInfo"), Json::Null));
    object.push("turn_info", extract_turn_info(gsm));
    object.push("annotations", Json::array(extract_annotations(gsm)));
    object.push("persistent_annotations", Json::array(extract_persistent_annotations(gsm)));
    object.push("timers", Json::array(extract_timers(gsm)));
    object.push(
        "diff_deleted_instance_ids",
        Json::ints(int_items(get_field(gsm, "diffDeletedInstanceIds"))),
    );
    assert(object@ =~= game_state_payload(gre_msg@)->Object_0);
    object.finish()
}

// ---------------------------------------------------------------------------
// Laws
// ---------------------------------------------------------------------------

/// A timer has each optional field exactly where its source has it.
pub proof fn law_timer_fields_are_optional(timer: JsonModel)
    requires
        timer_payload(timer) is Some,
    ensures
        ({
            let payload = timer_payload(timer).unwrap();
            &&& payload.get("elapsed_sec"@) == json::opt_int(json::int_in(timer.get("elapsedSec"@)))
            &&& payload.get("elapsed_ms"@) == json::opt_int(json::int_in(timer.get("elapsedMs"@)))
            &&& payload.get("running"@) == bool_in(timer.get("running"@))
            &&& payload.get("warning_threshold_sec"@) == json::opt_int(
                json::int_in(timer.get("warningThresholdSec"@)),
            )
        }),
{
    reveal_strlit("timer_id");
    reveal_strlit("type");
    reveal_strlit("duration_sec");
    reveal_strlit("behavior");
    reveal_strlit("elapsed_sec");
    reveal_strlit("elapsed_ms");
    reveal_strlit("running");
    reveal_strlit("warning_threshold_sec");
    assert("timer_id"@.len() == 8 && "type"@.len() == 4 && "duration_sec"@.len() == 12
        && "behavior"@.len() == 8);
    assert("elapsed_sec"@.len() == 11 && "elapsed_ms"@.len() == 10 && "running"@.len() == 7
        && "warning_threshold_sec"@.len() == 21);
    let id = json::int_in(timer.get("timerId"@)).unwrap();
    let front = seq![
        ("timer_id"@, json::int_json(id)),
        ("type"@, JsonModel::Str(json::str_or(timer.get("type"@), ""@))),
        ("duration_sec"@, json::int_json(json::int_or(timer.get("durationSec"@), 0))),
        ("behavior"@, JsonModel::Str(json::str_or(timer.get("behavior"@), ""@))),
    ];
    lemma_timer_lookup(timer, front, "elapsed_sec"@);
    lemma_timer_lookup(timer, front, "elapsed_ms"@);
    lemma_timer_lookup(timer, front, "running"@);
    lemma_timer_lookup(timer, front, "warning_threshold_sec"@);
}

proof fn lemma_timer_lookup(timer: JsonModel, front: Seq<(Seq<char>, JsonModel)>, key: Seq<char>)
    requires
        forall|j: int| 0 <= j < front.len() ==> (#[trigger] front[j]).0 != key,
        "elapsed_sec"@.len() == 11,
        "elapsed_ms"@.len() == 10,
        "running"@.len() == 7,
        "warning_threshold_sec"@.len() == 21,
    ensures
        ({
            let a = json::opt_int(json::int_in(timer.get("elapsedSec"@)));
            let b = json::opt_int(json::int_in(timer.get("elapsedMs"@)));
            let c = bool_in(timer.get("running"@));
            let d = json::opt_int(json::int_in(timer.get("warningThresholdSec"@)));
            json::lookup(
                front + json::optional("elapsed_sec"@, a) + json::optional("elapsed_ms"@, b)
                    + json::optional("running"@, c) + json::optional("warning_threshold_sec"@, d),
                key,
            ) == if key == "elapsed_sec"@ {
                a
            } else if key == "elapsed_ms"@ {
                b
            } else if key == "running"@ {
                c
            } else if key == "warning_threshold_sec"@ {
                d
            } else {
                None
            }
        }),
{
    let a = json::opt_int(json::int_in(timer.get("elapsedSec"@)));
    let b = json::opt_int(json::int_in(timer.get("elapsedMs"@)));
    let c = bool_in(timer.get("running"@));
    let d = json::opt_int(json::int_in(timer.get("warningThresholdSec"@)));
    let oa = json::optional("elapsed_sec"@, a);
    let ob = json::optional("elapsed_ms"@, b);
    let oc = json::optional("running"@, c);
    let od = json::optional("warning_threshold_sec"@, d);
    json::lemma_lookup_concat(front + oa + ob + oc, od, key);
    json::lemma_lookup_concat(front + oa + ob, oc, key);
    json::lemma_lookup_concat(front + oa, ob, key);
    json::lemma_lookup_concat(front, oa, key);
    json::lemma_lookup_missing(front, key);
    json::lemma_lookup_optional("elapsed_sec"@, a, key);
    json::lemma_lookup_optional("elapsed_ms"@, b, key);
    json::lemma_lookup_optional("running"@, c, key);
    json::lemma_lookup_optional("warning_threshold_sec"@, d, key);
}

/// Where every zone of a message has an identifier, none is left out and each
/// keeps its place.
pub proof fn law_identified_zones_are_kept(zones: Seq<JsonModel>)
    requires
        forall|i: int|
            0 <= i < zones.len() ==> json::int_in((#[trigger] zones[i]).get("zoneId"@)) is Some,
    ensures
        zone_list(Some(JsonModel::Array(zones))).len() == zones.len(),
        forall|i: int|
            0 <= i < zones.len() ==> Some(
                #[trigger] zone_list(Some(JsonModel::Array(zones)))[i],
            ) == zone_payload(zones[i]),
{
    json::law_filter_keeps_accepted(zones, |z: JsonModel| zone_payload(z));
}

/// Where every game object of a message has an identifier, none is left out and
/// each keeps its place.
pub proof fn law_identified_objects_are_kept(objects: Seq<JsonModel>)
    requires
        forall|i: int|
            0 <= i < objects.len() ==> json::int_in((#[trigger] objects[i]).get("instanceId"@)) is Some,
    ensures
        game_object_list(Some(JsonModel::Array(objects))).len() == objects.len(),
        forall|i: int|
            0 <= i < objects.len() ==> Some(
                #[trigger] game_object_list(Some(JsonModel::Array(objects)))[i],
            ) == game_object_payload(objects[i]),
{
    json::law_filter_keeps_accepted(objects, |o: JsonModel| game_object_payload(o));
}

/// A game state without a `gameStateMessage` has empty lists and nulls.
pub proof fn law_absent_state_is_empty(msg: JsonModel)
    requires
        msg.get("gameStateMessage"@) is None,
    ensures
        game_state_payload(msg)->Object_0[3] == ("zones"@, JsonModel::Array(Seq::empty())),
        game_state_payload(msg)->Object_0[4] == ("game_objects"@, JsonModel::Array(Seq::empty())),
        game_state_payload(msg)->Object_0[5] == ("game_info"@, JsonModel::Null),
        game_state_payload(msg)->Object_0[6] == ("turn_info"@, JsonModel::Null),
        game_state_payload(msg)->Object_0[7] == ("annotations"@, JsonModel::Array(Seq::empty())),
        game_state_payload(msg)->Object_0[8] == (
            "persistent_annotations"@,
            JsonModel::Array(Seq::empty()),
        ),
        game_state_payload(msg)->Object_0[9] == ("timers"@, JsonModel::Array(Seq::empty())),
        game_state_payload(msg)->Object_0[10] == (
            "diff_deleted_instance_ids"@,
            JsonModel::Array(Seq::empty()),
        ),
{
    assert(json::ints_json(Seq::<i64>::empty())->Array_0 =~= Seq::<JsonModel>::empty());
}

/// A zone is well formed whatever its source is.
pub proof fn law_zone_is_well_formed(zone: JsonModel)
    ensures
        json::opt_well_formed(zone_payload(zone)),
{
    reveal_strlit("zone_id");
    reveal_strlit("zone_type");
    reveal_strlit("owner_seat_id");
    reveal_strlit("visibility");
    reveal_strlit("object_instance_ids");
    assert("zone_id"@.len() == 7 && "zone_type"@.len() == 9 && "owner_seat_id"@.len() == 13);
    assert("visibility"@.len() == 10 && "object_instance_ids"@.len() == 19);
    json::lemma_lists_well_formed(json::ints_in(zone.get("objectInstanceIds"@)), Seq::empty());
    match zone_payload(zone) {
        Some(payload) => {
            json::lemma_object_well_formed(payload->Object_0);
        },
        None => {},
    }
}

/// A game object is well formed where its source is.
pub proof fn law_game_object_is_well_formed(obj: JsonModel)
    requires
        json::well_formed(obj),
    ensures
        json::opt_well_formed(game_object_payload(obj)),
{
    lemma_object_names_differ(obj);
    json::lemma_get_well_formed(obj, "name"@);
    json::lemma_lists_well_formed(Seq::empty(), json::strs_in(obj.get("cardTypes"@)));
    json::lemma_lists_well_formed(Seq::empty(), json::strs_in(obj.get("subtypes"@)));
    json::lemma_lists_well_formed(Seq::empty(), json::strs_in(obj.get("abilities"@)));
    match game_object_payload(obj) {
        Some(payload) => {
            json::lemma_object_well_formed(payload->Object_0);
        },
        None => {},
    }
}

/// A timer is well formed whatever its source is.
pub proof fn law_timer_is_well_formed(timer: JsonModel)
    ensures
        json::opt_well_formed(timer_payload(timer)),
{
    reveal_strlit("timer_id");
    reveal_strlit("type");
    reveal_strlit("duration_sec");
    reveal_strlit("behavior");
    reveal_strlit("elapsed_sec");
    reveal_strlit("elapsed_ms");
    reveal_strlit("running");
    reveal_strlit("warning_threshold_sec");
    assert("timer_id"@.len() == 8 && "type"@.len() == 4 && "duration_sec"@.len() == 12);
    assert("behavior"@.len() == 8 && "elapsed_sec"@.len() == 11 && "elapsed_ms"@.len() == 10);
    assert("running"@.len() == 7 && "warning_threshold_sec"@.len() == 21);
    assert("timer_id"@[0] == 't' && "behavior"@[0] == 'b');
    match json::int_in(timer.get("timerId"@)) {
        None => {},
        Some(id) => {
            let m = seq![
                ("timer_id"@, json::int_json(id)),
                ("type"@, JsonModel::Str(json::str_or(timer.get("type"@), ""@))),
                ("duration_sec"@, json::int_json(json::int_or(timer.get("durationSec"@), 0))),
                ("behavior"@, JsonModel::Str(json::str_or(timer.get("behavior"@), ""@))),
            ];
            let a = json::opt_int(json::int_in(timer.get("elapsedSec"@)));
            let b = json::opt_int(json::int_in(timer.get("elapsedMs"@)));
            let c = bool_in(timer.get("running"@));
            let d = json::opt_int(json::int_in(timer.get("warningThresholdSec"@)));
            let ma = m + json::optional("elapsed_sec"@, a);
            let mb = ma + json::optional("elapsed_ms"@, b);
            let mc = mb + json::optional("running"@, c);
            json::lemma_object_well_formed(m);
            json::lemma_optional_keeps(m, "elapsed_sec"@, a);
            json::lemma_optional_lacks(m, "elapsed_sec"@, a, "elapsed_ms"@);
            json::lemma_optional_keeps(ma, "elapsed_ms"@, b);
            json::lemma_optional_lacks(m, "elapsed_sec"@, a, "running"@);
            json::lemma_optional_lacks(ma, "elapsed_ms"@, b, "running"@);
            json::lemma_optional_keeps(mb, "running"@, c);
            json::lemma_optional_lacks(m, "elapsed_sec"@, a, "warning_threshold_sec"@);
            json::lemma_optional_lacks(ma, "elapsed_ms"@, b, "warning_threshold_sec"@);
            json::lemma_optional_lacks(mb, "running"@, c, "warning_threshold_sec"@);
            json::lemma_optional_keeps(mc, "warning_threshold_sec"@, d);
        },
    }
}

/// The lists of a game state are well formed where their source is.
proof fn lemma_lists_are_well_formed(gsm: Option<JsonModel>)
    requires
        json::opt_well_formed(gsm),
    ensures
        json::all_well_formed(zone_list(json::get_in(gsm, "zones"@))),
        json::all_well_formed(game_object_list(json::get_in(gsm, "gameObjects"@))),
        json::all_well_formed(timer_list(json::get_in(gsm, "timers"@))),
{
    match json::array_in(json::get_in(gsm, "zones"@)) {
        Some(items) => {
            let f = |z: JsonModel| zone_payload(z);
            assert forall|i: int| 0 <= i < items.len() implies json::opt_well_formed(
                f(#[trigger] items[i]),
            ) by {
                law_zone_is_well_formed(items[i]);
            }
            json::lemma_filter_well_formed(items, f);
        },
        None => {},
    }
    json::lemma_get_in_well_formed(gsm, "gameObjects"@);
    match json::array_in(json::get_in(gsm, "gameObjects"@)) {
        Some(items) => {
            let f = |o: JsonModel| game_object_payload(o);
            assert forall|i: int| 0 <= i < items.len() implies json::opt_well_formed(
                f(#[trigger] items[i]),
            ) by {
                law_game_object_is_well_formed(items[i]);
            }
            json::lemma_filter_well_formed(items, f);
        },
        None => {},
    }
    match json::array_in(json::get_in(gsm, "timers"@)) {
        Some(items) => {
            let f = |t: JsonModel| timer_payload(t);
            assert forall|i: int| 0 <= i < items.len() implies json::opt_well_formed(
                f(#[trigger] items[i]),
            ) by {
                law_timer_is_well_formed(items[i]);
            }
            json::lemma_filter_well_formed(items, f);
        },
        None => {},
    }
}

/// The payload of a game state is well formed where its message is.
pub proof fn law_game_state_is_well_formed(msg: JsonModel)
    requires
        json::well_formed(msg),
    ensures
        json::well_formed(game_state_payload(msg)),
{
    lemma_state_names_differ(msg);
    let gsm = msg.get("gameStateMessage"@);
    json::lemma_get_well_formed(msg, "gameStateMessage"@);
    json::lemma_get_in_well_formed(gsm, "gameInfo"@);
    json::lemma_get_in_well_formed(gsm, "annotations"@);
    json::lemma_get_in_well_formed(gsm, "persistentAnnotations"@);
    lemma_lists_are_well_formed(gsm);
    turn_info::law_turn_info_is_well_formed(gsm);
    annotations::law_annotations_are_well_formed(json::get_in(gsm, "annotations"@));
    annotations::law_annotations_are_well_formed(json::get_in(gsm, "persistentAnnotations"@));
    json::lemma_lists_well_formed(
        json::ints_in(json::get_in(gsm, "diffDeletedInstanceIds"@)),
        Seq::empty(),
    );
    json::lemma_object_well_formed(game_state_payload(msg)->Object_0);
}

/// The names of a game object are told apart.
proof fn lemma_object_names_differ(obj: JsonModel)
    ensures
        game_object_payload(obj) matches Some(payload) ==> json::distinct_names(
            payload->Object_0,
        ),
{
    reveal_strlit("instance_id");
    reveal_strlit("grp_id");
    reveal_strlit("object_type");
    reveal_strlit("zone_id");
    reveal_strlit("visibility");
    reveal_strlit("owner_seat_id");
    reveal_strlit("controller_seat_id");
    reveal_strlit("card_types");
    reveal_strlit("subtypes");
    reveal_strlit("abilities");
    reveal_strlit("name");
    reveal_strlit("power");
    reveal_strlit("toughness");
    assert("instance_id"@.len() == 11 && "grp_id"@.len() == 6 && "object_type"@.len() == 11);
    assert("zone_id"@.len() == 7 && "visibility"@.len() == 10 && "owner_seat_id"@.len() == 13);
    assert("controller_seat_id"@.len() == 18 && "card_types"@.len() == 10);
    assert("subtypes"@.len() == 8 && "abilities"@.len() == 9 && "name"@.len() == 4);
    assert("power"@.len() == 5 && "toughness"@.len() == 9);
    assert("instance_id"@[0] == 'i' && "object_type"@[0] == 'o' && "visibility"@[0] == 'v');
    assert("card_types"@[0] == 'c' && "abilities"@[0] == 'a' && "toughness"@[0] == 't');
}

/// The names of a game state are told apart.
proof fn lemma_state_names_differ(msg: JsonModel)
    ensures
        json::distinct_names(game_state_payload(msg)->Object_0),
{
    reveal_strlit("type");
    reveal_strlit("msg_id");
    reveal_strlit("game_state_id");
    reveal_strlit("zones");
    reveal_strlit("game_objects");
    reveal_strlit("game_info");
    reveal_strlit("turn_info");
    reveal_strlit("annotations");
    reveal_strlit("persistent_annotations");
    reveal_strlit("timers");
    reveal_strlit("diff_deleted_instance_ids");
    assert("type"@.len() == 4 && "msg_id"@.len() == 6 && "game_state_id"@.len() == 13);
    assert("zones"@.len() == 5 && "game_objects"@.len() == 12 && "game_info"@.len() == 9);
    assert("turn_info"@.len() == 9 && "annotations"@.len() == 11);
    assert("persistent_annotations"@.len() == 22 && "timers"@.len() == 6);
    assert("diff_deleted_instance_ids"@.len() == 25);
    assert("msg_id"@[0] == 'm' && "timers"@[0] == 't' && "game_info"@[0] == 'g');
    assert("turn_info"@[0] == 't');
}

/// Every field of a game object comes from the member of its own name: the owner
/// from the owner, the controller from the controller. An object without an integer
/// `instanceId` is left out.
pub proof fn law_object_fields_are_their_own(obj: JsonModel)
    ensures
        game_object_payload(obj) is Some <==> fields::integer_of(obj.get("instanceId"@)) is Some,
        game_object_payload(obj) matches Some(payload) ==> {
            &&& fields::takes_int(payload.get("instance_id"@), obj.get("instanceId"@), 0)
            &&& fields::takes_int(payload.get("grp_id"@), obj.get("grpId"@), 0)
            &&& fields::takes_str(payload.get("object_type"@), obj.get("type"@), "Unknown"@)
            &&& fields::takes_int(payload.get("zone_id"@), obj.get("zoneId"@), 0)
            &&& fields::takes_str(payload.get("visibility"@), obj.get("visibility"@), ""@)
            &&& fields::takes_int(payload.get("owner_seat_id"@), obj.get("ownerSeatId"@), 0)
            &&& fields::takes_int(
                payload.get("controller_seat_id"@),
                obj.get("controllerSeatId"@),
                0,
            )
            &&& fields::lists_strs(payload.get("card_types"@), obj.get("cardTypes"@))
            &&& fields::lists_strs(payload.get("subtypes"@), obj.get("subtypes"@))
            &&& fields::lists_strs(payload.get("abilities"@), obj.get("abilities"@))
            &&& fields::takes_value(payload.get("name"@), obj.get("name"@), JsonModel::Null)
            &&& helpers::takes_nested(payload.get("power"@), obj.get("power"@))
            &&& helpers::takes_nested(payload.get("toughness"@), obj.get("toughness"@))
            &&& payload->Object_0.len() == 13
        },
{
    if game_object_payload(obj) is Some {
        lemma_object_names_differ(obj);
        let members = game_object_payload(obj).unwrap()->Object_0;
        json::lemma_lookup_all(members);
        assert(members[0].0 == "instance_id"@);
        assert(members[1].0 == "grp_id"@);
        assert(members[2].0 == "object_type"@);
        assert(members[3].0 == "zone_id"@);
        assert(members[4].0 == "visibility"@);
        assert(members[5].0 == "owner_seat_id"@);
        assert(members[6].0 == "controller_seat_id"@);
        assert(members[7].0 == "card_types"@);
        assert(members[8].0 == "subtypes"@);
        assert(members[9].0 == "abilities"@);
        assert(members[10].0 == "name"@);
        assert(members[11].0 == "power"@);
        assert(members[12].0 == "toughness"@);
        fields::lemma_lists_strs(obj.get("cardTypes"@));
        fields::lemma_lists_strs(obj.get("subtypes"@));
        fields::lemma_lists_strs(obj.get("abilities"@));
    }
}

/// Every field of a zone comes from the member of its own name. A zone without an
/// integer `zoneId` is left out.
pub proof fn law_zone_fields_are_their_own(zone: JsonModel)
    ensures
        zone_payload(zone) is Some <==> fields::integer_of(zone.get("zoneId"@)) is Some,
        zone_payload(zone) matches Some(payload) ==> {
            &&& fields::takes_int(payload.get("zone_id"@), zone.get("zoneId"@), 0)
            &&& fields::takes_str(payload.get("zone_type"@), zone.get("type"@), "Unknown"@)
            &&& fields::takes_int(payload.get("owner_seat_id"@), zone.get("ownerSeatId"@), 0)
            &&& fields::takes_str(payload.get("visibility"@), zone.get("visibility"@), ""@)
            &&& fields::lists_ints(
                payload.get("object_instance_ids"@),
                zone.get("objectInstanceIds"@),
            )
            &&& payload->Object_0.len() == 5
        },
{
    if zone_payload(zone) is Some {
        law_zone_is_well_formed(zone);
        let members = zone_payload(zone).unwrap()->Object_0;
        json::lemma_lookup_all(members);
        assert(members[0].0 == "zone_id"@);
        assert(members[1].0 == "zone_type"@);
        assert(members[2].0 == "owner_seat_id"@);
        assert(members[3].0 == "visibility"@);
        assert(members[4].0 == "object_instance_ids"@);
        fields::lemma_lists_ints(zone.get("objectInstanceIds"@));
    }
}

/// Every field of a timer comes from the member of its own name, those behind the
/// first four only where the timer has them. A timer without an integer `timerId`
/// is left out.
pub proof fn law_timer_fields_are_their_own(timer: JsonModel)
    ensures
        timer_payload(timer) is Some <==> fields::integer_of(timer.get("timerId"@)) is Some,
        timer_payload(timer) matches Some(payload) ==> {
            &&& fields::takes_int(payload.get("timer_id"@), timer.get("timerId"@), 0)
            &&& fields::takes_str(payload.get("type"@), timer.get("type"@), ""@)
            &&& fields::takes_int(payload.get("duration_sec"@), timer.get("durationSec"@), 0)
            &&& fields::takes_str(payload.get("behavior"@), timer.get("behavior"@), ""@)
            &&& fields::passes_int(payload.get("elapsed_sec"@), timer.get("elapsedSec"@))
            &&& fields::passes_int(payload.get("elapsed_ms"@), timer.get("elapsedMs"@))
            &&& fields::passes_bool(payload.get("running"@), timer.get("running"@))
            &&& fields::passes_int(
                payload.get("warning_threshold_sec"@),
                timer.get("warningThresholdSec"@),
            )
            &&& payload->Object_0.len() == 4 + fields::presence(payload.get("elapsed_sec"@))
                + fields::presence(payload.get("elapsed_ms"@)) + fields::presence(
                payload.get("running"@),
            ) + fields::presence(payload.get("warning_threshold_sec"@))
        },
{
    if timer_payload(timer) is Some {
        law_timer_is_well_formed(timer);
        law_timer_fields_are_optional(timer);
        let members = timer_payload(timer).unwrap()->Object_0;
        json::lemma_lookup_all(members);
        assert(members[0].0 == "timer_id"@);
        assert(members[1].0 == "type"@);
        assert(members[2].0 == "duration_sec"@);
        assert(members[3].0 == "behavior"@);
    }
}

/// A game state has the numbers of its message, and the lists, the game info and the
/// turn info of the `gameStateMessage` in it, each from the member of its own name.
pub proof fn law_state_fields_are_their_own(msg: JsonModel)
    ensures
        ({
            let payload = game_state_payload(msg);
            let gsm = msg.get("gameStateMessage"@);
            &&& fields::is_str(
                payload.get("type"@),
                if fields::is_str(msg.get("type"@), "GREMessageType_QueuedGameStateMessage"@) {
                    "queued_game_state_message"@
                } else {
                    "game_state_message"@
                },
            )
            &&& fields::takes_int(payload.get("msg_id"@), msg.get("msgId"@), 0)
            &&& fields::takes_int(payload.get("game_state_id"@), msg.get("gameStateId"@), 0)
            &&& fields::lists_identified(
                payload.get("zones"@),
                json::get_in(gsm, "zones"@),
                "zoneId"@,
                |z: JsonModel| zone_payload(z),
            )
            &&& fields::lists_identified(
                payload.get("game_objects"@),
                json::get_in(gsm, "gameObjects"@),
                "instanceId"@,
                |o: JsonModel| game_object_payload(o),
            )
            &&& fields::takes_value(
                payload.get("game_info"@),
                json::get_in(gsm, "gameInfo"@),
                JsonModel::Null,
            )
            &&& payload.get("turn_info"@) == Some(turn_info::turn_info_payload(gsm))
            &&& fields::lists_identified(
                payload.get("annotations"@),
                json::get_in(gsm, "annotations"@),
                "id"@,
                |a: JsonModel| annotations::annotation_payload(a),
            )
            &&& fields::lists_identified(
                payload.get("persistent_annotations"@),
                json::get_in(gsm, "persistentAnnotations"@),
                "id"@,
                |a: JsonModel| annotations::annotation_payload(a),
            )
            &&& fields::lists_identified(
                payload.get("timers"@),
                json::get_in(gsm, "timers"@),
                "timerId"@,
                |t: JsonModel| timer_payload(t),
            )
            &&& fields::lists_ints(
                payload.get("diff_deleted_instance_ids"@),
                json::get_in(gsm, "diffDeletedInstanceIds"@),
            )
            &&& payload->Object_0.len() == 11
        }),
{
    reveal_strlit("");
    reveal_strlit("GREMessageType_QueuedGameStateMessage");
    assert(""@.len() == 0 && QUEUED_GAME_STATE_MESSAGE_TYPE@.len() == 37);
    lemma_state_names_differ(msg);
    let gsm = msg.get("gameStateMessage"@);
    let members = game_state_payload(msg)->Object_0;
    json::lemma_lookup_all(members);
    assert(members[0].0 == "type"@);
    assert(members[1].0 == "msg_id"@);
    assert(members[2].0 == "game_state_id"@);
    assert(members[3].0 == "zones"@);
    assert(members[4].0 == "game_objects"@);
    assert(members[5].0 == "game_info"@);
    assert(members[6].0 == "turn_info"@);
    assert(members[7].0 == "annotations"@);
    assert(members[8].0 == "persistent_annotations"@);
    assert(members[9].0 == "timers"@);
    assert(members[10].0 == "diff_deleted_instance_ids"@);
    law_listed_by_identifier(json::get_in(gsm, "zones"@));
    law_listed_by_identifier(json::get_in(gsm, "gameObjects"@));
    law_listed_by_identifier(json::get_in(gsm, "timers"@));
    annotations::law_identified_annotations_are_listed(json::get_in(gsm, "annotations"@));
    annotations::law_identified_annotations_are_listed(
        json::get_in(gsm, "persistentAnnotations"@),
    );
    fields::lemma_lists_ints(json::get_in(gsm, "diffDeletedInstanceIds"@));
}

/// The zones, the game objects and the timers of a list are those of its items with
/// an identifier, in order.
pub proof fn law_listed_by_identifier(source: Option<JsonModel>)
    ensures
        fields::lists_identified(
            Some(JsonModel::Array(zone_list(source))),
            source,
            "zoneId"@,
            |z: JsonModel| zone_payload(z),
        ),
        fields::lists_identified(
            Some(JsonModel::Array(game_object_list(source))),
            source,
            "instanceId"@,
            |o: JsonModel| game_object_payload(o),
        ),
        fields::lists_identified(
            Some(JsonModel::Array(timer_list(source))),
            source,
            "timerId"@,
            |t: JsonModel| timer_payload(t),
        ),
{
    let z = |z: JsonModel| zone_payload(z);
    assert forall|v: JsonModel| fields::integer_of(v.get("zoneId"@)) is Some <==> (#[trigger] z(
        v,
    )) is Some by {}
    fields::lemma_lists_identified(source, "zoneId"@, z);
    let o = |o: JsonModel| game_object_payload(o);
    assert forall|v: JsonModel|
        fields::integer_of(v.get("instanceId"@)) is Some <==> (#[trigger] o(v)) is Some by {}
    fields::lemma_lists_identified(source, "instanceId"@, o);
    let t = |t: JsonModel| timer_payload(t);
    assert forall|v: JsonModel| fields::integer_of(v.get("timerId"@)) is Some <==> (#[trigger] t(
        v,
    )) is Some by {}
    fields::lemma_lists_identified(source, "timerId"@, t);
}

} // verus!
