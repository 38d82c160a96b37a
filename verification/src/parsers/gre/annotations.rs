//! Annotations extraction from `gameStateMessage.annotations` and
//! `gameStateMessage.persistentAnnotations`.
//!
//! Arena logs use a uniform `details` array of key-value pairs for
//! type-specific annotation data, e.g.:
//! ```json
//! {"key": "zone_src", "type": "KeyValuePairValueType_int32", "valueInt32": [31]}
//! ```
//!
//! The `type` field is an array of strings (e.g. `["AnnotationType_ZoneTransfer"]`).

use vstd::prelude::*;
use crate::fields;
use crate::json;
use crate::json::{
    array_field, first_item, get_field, int_field, int_field_or, int_items, str_field, str_field_or,
    str_items, Json, JsonModel, JsonObject,
};
use crate::text::str_eq;

verus! {

/// Annotation type for zone transfers (draw, play, exile, etc.).
pub const ANNOTATION_TYPE_ZONE_TRANSFER: &'static str = "AnnotationType_ZoneTransfer";

/// Annotation type for object ID changes (new instance IDs after zone moves).
pub const ANNOTATION_TYPE_OBJECT_ID_CHANGED: &'static str = "AnnotationType_ObjectIdChanged";

/// Annotation type for damage dealt to a player or permanent.
pub const ANNOTATION_TYPE_DAMAGE_DEALT: &'static str = "AnnotationType_DamageDealt";

/// Annotation type for counters added to a permanent (e.g. +1/+1).
pub const ANNOTATION_TYPE_COUNTER_ADDED: &'static str = "AnnotationType_CounterAdded";

/// Annotation type for targeting relationships.
pub const ANNOTATION_TYPE_TARGET_SPEC: &'static str = "AnnotationType_TargetSpec";

/// Annotation type for life total modifications.
pub const ANNOTATION_TYPE_MODIFIED_LIFE: &'static str = "AnnotationType_ModifiedLife";

/// Annotation type for power/toughness modifications applied to a permanent.
pub const ANNOTATION_TYPE_POWER_TOUGHNESS_MOD_CREATED: &'static str = "AnnotationType_PowerToughnessModCreated";

/// Annotation type for triggered ability attribution.
pub const ANNOTATION_TYPE_TRIGGERING_OBJECT: &'static str = "AnnotationType_TriggeringObject";

/// Annotation type for mana payments linking sources to spells.
pub const ANNOTATION_TYPE_MANA_PAID: &'static str = "AnnotationType_ManaPaid";

/// Annotation type for player actions (cast, activate, play land).
pub const ANNOTATION_TYPE_USER_ACTION_TAKEN: &'static str = "AnnotationType_UserActionTaken";

/// Annotation type for scry decisions (top/bottom card placement).
pub const ANNOTATION_TYPE_SCRY: &'static str = "AnnotationType_Scry";

/// Annotation type for library shuffles (reissues every library instanceId).
pub const ANNOTATION_TYPE_SHUFFLE: &'static str = "AnnotationType_Shuffle";

/// Annotation type for persistent instance designation (companion, conjured,
/// drafted, plus uncharacterized state flags).
pub const ANNOTATION_TYPE_DESIGNATION: &'static str = "AnnotationType_Designation";

// ---------------------------------------------------------------------------
// Details
// ---------------------------------------------------------------------------

/// Whether a detail is the one called `key`.
pub open spec fn is_detail(detail: JsonModel, key: Seq<char>) -> bool {
    json::str_in(detail.get("key"@)) == Some(key)
}

/// The first of the details that is called `key`.
pub open spec fn find_detail(details: Seq<JsonModel>, key: Seq<char>) -> Option<JsonModel>
    decreases details.len(),
{
    if details.len() == 0 {
        None
    } else if is_detail(details[0], key) {
        Some(details[0])
    } else {
        find_detail(details.drop_first(), key)
    }
}

/// The first integer of the detail called `key`.
pub open spec fn int_detail(details: Seq<JsonModel>, key: Seq<char>) -> Option<i64> {
    json::int_in(json::first_in(json::get_in(find_detail(details, key), "valueInt32"@)))
}

/// The first string of the detail called `key`.
pub open spec fn str_detail(details: Seq<JsonModel>, key: Seq<char>) -> Option<Seq<char>> {
    json::str_in(json::first_in(json::get_in(find_detail(details, key), "valueString"@)))
}

/// All integers of the detail called `key`.
pub open spec fn ints_detail(details: Seq<JsonModel>, key: Seq<char>) -> Seq<i64> {
    json::ints_in(json::get_in(find_detail(details, key), "valueInt32"@))
}

/// The first integer of the detail called `key`, or zero.
pub open spec fn int_detail_or(details: Seq<JsonModel>, key: Seq<char>) -> i64 {
    match int_detail(details, key) {
        Some(n) => n,
        None => 0,
    }
}

/// The first string of the detail called `key`, or the empty string.
pub open spec fn str_detail_or(details: Seq<JsonModel>, key: Seq<char>) -> Seq<char> {
    match str_detail(details, key) {
        Some(s) => s,
        None => ""@,
    }
}

fn first_detail<'a>(details: &'a Vec<Json>, key: &str) -> (found: Option<&'a Json>)
    ensures
        json::opt_model(found) == find_detail(json::item_models(details@), key@),
{
    let ghost all = json::item_models(details@);
    assert(all.skip(0) =~= all);
    let mut i: usize = 0;
    while i < details.len()
        invariant
            i <= details@.len(),
            all == json::item_models(details@),
            find_detail(all, key@) == find_detail(all.skip(i as int), key@),
        decreases details@.len() - i,
    {
        assert(all.skip(i as int).drop_first() =~= all.skip(i + 1));
        match str_field(details[i].get("key")) {
            Some(name) => {
                if str_eq(name, key) {
                    return Some(&details[i]);
                }
            },
            None => {},
        }
        i += 1;
    }
    None
}

/// Looks up an `i64` value from a `details` key-value pair array by key name.
///
/// Each entry has `{"key": "<name>", "valueInt32": [<val>]}`.
pub fn detail_int(details: &Vec<Json>, key: &str) -> (n: Option<i64>)
    ensures
        n == int_detail(json::item_models(details@), key@),
{
    int_field(first_item(get_field(first_detail(details, key), "valueInt32")))
}

/// Looks up a string value from a `details` key-value pair array by key name.
///
/// Each entry has `{"key": "<name>", "valueString": ["<val>"]}`.
pub fn detail_str<'a>(details: &'a Vec<Json>, key: &str) -> (s: Option<&'a str>)
    ensures
        match s {
            Some(t) => str_detail(json::item_models(details@), key@) == Some(t@),
            None => str_detail(json::item_models(details@), key@) is None,
        },
{
    str_field(first_item(get_field(first_detail(details, key), "valueString")))
}

/// Looks up all `i64` values from a `details` key-value pair array by key name.
///
/// Returns all of the `valueInt32` array, nothing where the key is missing or
/// has no values.
pub fn detail_int_array(details: &Vec<Json>, key: &str) -> (ns: Vec<i64>)
    ensures
        ns@ == ints_detail(json::item_models(details@), key@),
{
    int_items(get_field(first_detail(details, key), "valueInt32"))
}

fn detail_int_or(details: &Vec<Json>, key: &str) -> (n: i64)
    ensures
        n == int_detail_or(json::item_models(details@), key@),
{
    match detail_int(details, key) {
        Some(n) => n,
        None => 0,
    }
}

fn detail_str_or<'a>(details: &'a Vec<Json>, key: &str) -> (s: &'a str)
    ensures
        s@ == str_detail_or(json::item_models(details@), key@),
{
    match detail_str(details, key) {
        Some(s) => s,
        None => "",
    }
}

// ---------------------------------------------------------------------------
// Types
// ---------------------------------------------------------------------------

/// The first type of an annotation: a single string, or the first item of an
/// array where that is a string. Empty otherwise.
pub open spec fn annotation_kind(annotation: JsonModel) -> Seq<char> {
    let v = annotation.get("type"@);
    match json::str_in(v) {
        Some(s) => s,
        None => json::str_or(json::first_in(v), ""@),
    }
}

/// All types of an annotation: the strings of an array, or a single string.
pub open spec fn annotation_kinds(annotation: JsonModel) -> Seq<Seq<char>> {
    let v = annotation.get("type"@);
    match json::array_in(v) {
        Some(_) => json::strs_in(v),
        None => match json::str_in(v) {
            Some(s) => seq![s],
            None => Seq::empty(),
        },
    }
}

/// Reads the annotation `type` field, which may be an array of strings
/// (current format) or a single string (legacy format). Returns the first/only
/// type string, or an empty string when absent.
pub fn read_annotation_type(annotation: &Json) -> (kind: &str)
    ensures
        kind@ == annotation_kind(annotation@),
{
    let v = annotation.get("type");
    match str_field(v) {
        Some(s) => s,
        None => str_field_or(first_item(v), ""),
    }
}

/// Reads all annotation type strings from the `type` field. Handles both the
/// array format (`["A", "B"]`) and the legacy single-string format.
pub fn read_annotation_types(annotation: &Json) -> (kinds: Vec<String>)
    ensures
        json::string_models(kinds@) == annotation_kinds(annotation@),
{
    let v = annotation.get("type");
    match array_field(v) {
        Some(_) => str_items(v),
        None => {
            let mut kinds: Vec<String> = Vec::new();
            match str_field(v) {
                Some(s) => {
                    kinds.push(s.to_owned());
                },
                None => {},
            }
            assert(json::string_models(kinds@) =~= annotation_kinds(annotation@));
            kinds
        },
    }
}

// ---------------------------------------------------------------------------
// Type-specific fields
// ---------------------------------------------------------------------------

/// The fields of an `AnnotationType_ZoneTransfer` annotation.
pub open spec fn zone_transfer_fields(details: Seq<JsonModel>) -> Seq<(Seq<char>, JsonModel)> {
    seq![
        ("zone_src"@, json::int_json(int_detail_or(details, "zone_src"@))),
        ("zone_dest"@, json::int_json(int_detail_or(details, "zone_dest"@))),
        ("category"@, JsonModel::Str(str_detail_or(details, "category"@))),
    ]
}

fn add_zone_transfer_fields(obj: &mut JsonObject, details: &Vec<Json>)
    ensures
        final(obj)@ == old(obj)@ + zone_transfer_fields(json::item_models(details@)),
{
    obj.push("zone_src", Json::integer(detail_int_or(details, "zone_src")));
    obj.push("zone_dest", Json::integer(detail_int_or(details, "zone_dest")));
    obj.push("category", Json::string(detail_str_or(details, "category")));
    assert(obj@ =~= old(obj)@ + zone_transfer_fields(json::item_models(details@)));
}

/// The fields of an `AnnotationType_ObjectIdChanged` annotation.
pub open spec fn object_id_changed_fields(details: Seq<JsonModel>) -> Seq<(Seq<char>, JsonModel)> {
    seq![
        ("old_id"@, json::int_json(int_detail_or(details, "orig_id"@))),
        ("new_id"@, json::int_json(int_detail_or(details, "new_id"@))),
    ]
}

fn add_object_id_changed_fields(obj: &mut JsonObject, details: &Vec<Json>)
    ensures
        final(obj)@ == old(obj)@ + object_id_changed_fields(json::item_models(details@)),
{
    obj.push("old_id", Json::integer(detail_int_or(details, "orig_id")));
    obj.push("new_id", Json::integer(detail_int_or(details, "new_id")));
    assert(obj@ =~= old(obj)@ + object_id_changed_fields(json::item_models(details@)));
}

/// The fields of an `AnnotationType_DamageDealt` annotation.
pub open spec fn damage_dealt_fields(details: Seq<JsonModel>) -> Seq<(Seq<char>, JsonModel)> {
    seq![
        ("damage"@, json::int_json(int_detail_or(details, "damage"@))),
        ("damage_type"@, json::int_json(int_detail_or(details, "type"@))),
    ]
}

fn add_damage_dealt_fields(obj: &mut JsonObject, details: &Vec<Json>)
    ensures
        final(obj)@ == old(obj)@ + damage_dealt_fields(json::item_models(details@)),
{
    obj.push("damage", Json::integer(detail_int_or(details, "damage")));
    obj.push("damage_type", Json::integer(detail_int_or(details, "type")));
    assert(obj@ =~= old(obj)@ + damage_dealt_fields(json::item_models(details@)));
}

/// The fields of an `AnnotationType_CounterAdded` annotation.
pub open spec fn counter_added_fields(details: Seq<JsonModel>) -> Seq<(Seq<char>, JsonModel)> {
    seq![
        ("counter_type"@, json::int_json(int_detail_or(details, "counter_type"@))),
        ("amount"@, json::int_json(int_detail_or(details, "transaction_amount"@))),
    ]
}

fn add_counter_added_fields(obj: &mut JsonObject, details: &Vec<Json>)
    ensures
        final(obj)@ == old(obj)@ + counter_added_fields(json::item_models(details@)),
{
    obj.push("counter_type", Json::integer(detail_int_or(details, "counter_type")));
    obj.push("amount", Json::integer(detail_int_or(details, "transaction_amount")));
    assert(obj@ =~= old(obj)@ + counter_added_fields(json::item_models(details@)));
}

/// The fields of an `AnnotationType_TargetSpec` annotation.
pub open spec fn target_spec_fields(details: Seq<JsonModel>) -> Seq<(Seq<char>, JsonModel)> {
    seq![
        ("ability_grp_id"@, json::int_json(int_detail_or(details, "abilityGrpId"@))),
        ("target_index"@, json::int_json(int_detail_or(details, "index"@))),
    ]
}

fn add_target_spec_fields(obj: &mut JsonObject, details: &Vec<Json>)
    ensures
        final(obj)@ == old(obj)@ + target_spec_fields(json::item_models(details@)),
{
    obj.push("ability_grp_id", Json::integer(detail_int_or(details, "abilityGrpId")));
    obj.push("target_index", Json::integer(detail_int_or(details, "index")));
    assert(obj@ =~= old(obj)@ + target_spec_fields(json::item_models(details@)));
}

/// The fields of an `AnnotationType_ModifiedLife` annotation.
pub open spec fn modified_life_fields(details: Seq<JsonModel>) -> Seq<(Seq<char>, JsonModel)> {
    seq![
        ("life"@, json::int_json(int_detail_or(details, "life"@))),
    ]
}

fn add_modified_life_fields(obj: &mut JsonObject, details: &Vec<Json>)
    ensures
        final(obj)@ == old(obj)@ + modified_life_fields(json::item_models(details@)),
{
    obj.push("life", Json::integer(detail_int_or(details, "life")));
    assert(obj@ =~= old(obj)@ + modified_life_fields(json::item_models(details@)));
}

/// The fields of an `AnnotationType_PowerToughnessModCreated` annotation.
pub open spec fn pt_mod_fields(details: Seq<JsonModel>) -> Seq<(Seq<char>, JsonModel)> {
    seq![
        ("power"@, json::int_json(int_detail_or(details, "power"@))),
        ("toughness"@, json::int_json(int_detail_or(details, "toughness"@))),
    ]
}

fn add_pt_mod_fields(obj: &mut JsonObject, details: &Vec<Json>)
    ensures
        final(obj)@ == old(obj)@ + pt_mod_fields(json::item_models(details@)),
{
    obj.push("power", Json::integer(detail_int_or(details, "power")));
    obj.push("toughness", Json::integer(detail_int_or(details, "toughness")));
    assert(obj@ =~= old(obj)@ + pt_mod_fields(json::item_models(details@)));
}

/// The fields of an `AnnotationType_TriggeringObject` annotation.
pub open spec fn triggering_object_fields(details: Seq<JsonModel>) -> Seq<(Seq<char>, JsonModel)> {
    seq![
        ("source_zone"@, json::int_json(int_detail_or(details, "source_zone"@))),
    ]
}

fn add_triggering_object_fields(obj: &mut JsonObject, details: &Vec<Json>)
    ensures
        final(obj)@ == old(obj)@ + triggering_object_fields(json::item_models(details@)),
{
    obj.push("source_zone", Json::integer(detail_int_or(details, "source_zone")));
    assert(obj@ =~= old(obj)@ + triggering_object_fields(json::item_models(details@)));
}

/// The fields of an `AnnotationType_ManaPaid` annotation.
pub open spec fn mana_paid_fields(details: Seq<JsonModel>) -> Seq<(Seq<char>, JsonModel)> {
    seq![
        ("mana_payment_id"@, json::int_json(int_detail_or(details, "id"@))),
        ("color"@, json::int_json(int_detail_or(details, "color"@))),
    ]
}

fn add_mana_paid_fields(obj: &mut JsonObject, details: &Vec<Json>)
    ensures
        final(obj)@ == old(obj)@ + mana_paid_fields(json::item_models(details@)),
{
    obj.push("mana_payment_id", Json::integer(detail_int_or(details, "id")));
    obj.push("color", Json::integer(detail_int_or(details, "color")));
    assert(obj@ =~= old(obj)@ + mana_paid_fields(json::item_models(details@)));
}

/// The fields of an `AnnotationType_UserActionTaken` annotation.
pub open spec fn user_action_fields(details: Seq<JsonModel>) -> Seq<(Seq<char>, JsonModel)> {
    seq![
        ("action_type"@, json::int_json(int_detail_or(details, "actionType"@))),
        ("ability_grp_id"@, json::int_json(int_detail_or(details, "abilityGrpId"@))),
    ]
}

fn add_user_action_fields(obj: &mut JsonObject, details: &Vec<Json>)
    ensures
        final(obj)@ == old(obj)@ + user_action_fields(json::item_models(details@)),
{
    obj.push("action_type", Json::integer(detail_int_or(details, "actionType")));
    obj.push("ability_grp_id", Json::integer(detail_int_or(details, "abilityGrpId")));
    assert(obj@ =~= old(obj)@ + user_action_fields(json::item_models(details@)));
}

/// The fields of an `AnnotationType_Scry` annotation.
pub open spec fn scry_fields(details: Seq<JsonModel>) -> Seq<(Seq<char>, JsonModel)> {
    seq![
        ("top_ids"@, json::ints_json(ints_detail(details, "topIds"@))),
        ("bottom_ids"@, json::ints_json(ints_detail(details, "bottomIds"@))),
    ]
}

fn add_scry_fields(obj: &mut JsonObject, details: &Vec<Json>)
    ensures
        final(obj)@ == old(obj)@ + scry_fields(json::item_models(details@)),
{
    obj.push("top_ids", Json::ints(detail_int_array(details, "topIds")));
    obj.push("bottom_ids", Json::ints(detail_int_array(details, "bottomIds")));
    assert(obj@ =~= old(obj)@ + scry_fields(json::item_models(details@)));
}

/// The fields of an `AnnotationType_Shuffle` annotation.
pub open spec fn shuffle_fields(details: Seq<JsonModel>) -> Seq<(Seq<char>, JsonModel)> {
    seq![
        ("old_ids"@, json::ints_json(ints_detail(details, "OldIds"@))),
        ("new_ids"@, json::ints_json(ints_detail(details, "NewIds"@))),
    ]
}

fn add_shuffle_fields(obj: &mut JsonObject, details: &Vec<Json>)
    ensures
        final(obj)@ == old(obj)@ + shuffle_fields(json::item_models(details@)),
{
    obj.push("old_ids", Json::ints(detail_int_array(details, "OldIds")));
    obj.push("new_ids", Json::ints(detail_int_array(details, "NewIds")));
    assert(obj@ =~= old(obj)@ + shuffle_fields(json::item_models(details@)));
}

/// The instance that the annotation under construction designates: the first
/// of its affected ones, or zero.
pub open spec fn designated_instance(base: Seq<(Seq<char>, JsonModel)>) -> i64 {
    json::int_or(json::first_in(json::lookup(base, "affected_ids"@)), 0)
}

/// The fields of an `AnnotationType_Designation` annotation. Those behind the
/// first two are there only where the details hold them.
pub open spec fn designation_fields(
    base: Seq<(Seq<char>, JsonModel)>,
    details: Seq<JsonModel>,
) -> Seq<(Seq<char>, JsonModel)> {
    seq![
        ("instance_id"@, json::int_json(designated_instance(base))),
        ("designation_type"@, json::int_json(int_detail_or(details, "DesignationType"@))),
    ] + json::optional("conjuration_type"@, json::opt_str(str_detail(details, "conjuration_type"@)))
        + json::optional("source_grpid"@, json::opt_int(int_detail(details, "source_grpid"@)))
        + json::optional("grpid"@, json::opt_int(int_detail(details, "grpid"@))) + json::optional(
        "value"@,
        json::opt_int(int_detail(details, "value"@)),
    ) + json::optional("controller_id"@, json::opt_int(int_detail(details, "ControllerId"@)))
}

/// Adds Designation fields to an annotation result.
///
/// Always emits `instance_id` (the first of the `affected_ids` already on the
/// object) and `designation_type`. Each of `conjuration_type`, `source_grpid`,
/// `grpid`, `value` and `controller_id` is emitted only when its source key is
/// present in `details`, whatever the `DesignationType` value is.
fn add_designation_fields(obj: &mut JsonObject, details: &Vec<Json>)
    ensures
        final(obj)@ == old(obj)@ + designation_fields(old(obj)@, json::item_models(details@)),
{
    let instance_id: i64 = int_field_or(first_item(obj.get("affected_ids")), 0);
    obj.push("instance_id", Json::integer(instance_id));
    obj.push("designation_type", Json::integer(detail_int_or(details, "DesignationType")));
    obj.push_str("conjuration_type", detail_str(details, "conjuration_type"));
    obj.push_int("source_grpid", detail_int(details, "source_grpid"));
    obj.push_int("grpid", detail_int(details, "grpid"));
    obj.push_int("value", detail_int(details, "value"));
    obj.push_int("controller_id", detail_int(details, "ControllerId"));
    assert(obj@ =~= old(obj)@ + designation_fields(old(obj)@, json::item_models(details@)));
}

/// The fields that an annotation of the given type has beyond the base fields.
pub open spec fn type_fields(
    kind: Seq<char>,
    base: Seq<(Seq<char>, JsonModel)>,
    details: Seq<JsonModel>,
) -> Seq<(Seq<char>, JsonModel)> {
    if kind == ANNOTATION_TYPE_ZONE_TRANSFER@ {
        zone_transfer_fields(details)
    } else if kind == ANNOTATION_TYPE_OBJECT_ID_CHANGED@ {
        object_id_changed_fields(details)
    } else if kind == ANNOTATION_TYPE_DAMAGE_DEALT@ {
        damage_dealt_fields(details)
    } else if kind == ANNOTATION_TYPE_COUNTER_ADDED@ {
        counter_added_fields(details)
    } else if kind == ANNOTATION_TYPE_TARGET_SPEC@ {
        target_spec_fields(details)
    } else if kind == ANNOTATION_TYPE_MODIFIED_LIFE@ {
        modified_life_fields(details)
    } else if kind == ANNOTATION_TYPE_POWER_TOUGHNESS_MOD_CREATED@ {
        pt_mod_fields(details)
    } else if kind == ANNOTATION_TYPE_TRIGGERING_OBJECT@ {
        triggering_object_fields(details)
    } else if kind == ANNOTATION_TYPE_MANA_PAID@ {
        mana_paid_fields(details)
    } else if kind == ANNOTATION_TYPE_USER_ACTION_TAKEN@ {
        user_action_fields(details)
    } else if kind == ANNOTATION_TYPE_SCRY@ {
        scry_fields(details)
    } else if kind == ANNOTATION_TYPE_SHUFFLE@ {
        shuffle_fields(details)
    } else if kind == ANNOTATION_TYPE_DESIGNATION@ {
        designation_fields(base, details)
    } else {
        Seq::empty()
    }
}

/// Adds type-specific fields to an annotation result based on its primary type
/// and the `details` key-value pairs.
pub fn add_type_specific_fields(obj: &mut JsonObject, annotation_type: &str, details: &Vec<Json>)
    ensures
        final(obj)@ == old(obj)@ + type_fields(
            annotation_type@,
            old(obj)@,
            json::item_models(details@),
        ),
{
    if str_eq(annotation_type, ANNOTATION_TYPE_ZONE_TRANSFER) {
        add_zone_transfer_fields(obj, details);
    } else if str_eq(annotation_type, ANNOTATION_TYPE_OBJECT_ID_CHANGED) {
        add_object_id_changed_fields(obj, details);
    } else if str_eq(annotation_type, ANNOTATION_TYPE_DAMAGE_DEALT) {
        add_damage_dealt_fields(obj, details);
    } else if str_eq(annotation_type, ANNOTATION_TYPE_COUNTER_ADDED) {
        add_counter_added_fields(obj, details);
    } else if str_eq(annotation_type, ANNOTATION_TYPE_TARGET_SPEC) {
        add_target_spec_fields(obj, details);
    } else if str_eq(annotation_type, ANNOTATION_TYPE_MODIFIED_LIFE) {
        add_modified_life_fields(obj, details);
    } else if str_eq(annotation_type, ANNOTATION_TYPE_POWER_TOUGHNESS_MOD_CREATED) {
        add_pt_mod_fields(obj, details);
    } else if str_eq(annotation_type, ANNOTATION_TYPE_TRIGGERING_OBJECT) {
        add_triggering_object_fields(obj, details);
    } else if str_eq(annotation_type, ANNOTATION_TYPE_MANA_PAID) {
        add_mana_paid_fields(obj, details);
    } else if str_eq(annotation_type, ANNOTATION_TYPE_USER_ACTION_TAKEN) {
        add_user_action_fields(obj, details);
    } else if str_eq(annotation_type, ANNOTATION_TYPE_SCRY) {
        add_scry_fields(obj, details);
    } else if str_eq(annotation_type, ANNOTATION_TYPE_SHUFFLE) {
        add_shuffle_fields(obj, details);
    } else if str_eq(annotation_type, ANNOTATION_TYPE_DESIGNATION) {
        add_designation_fields(obj, details);
    } else {
        assert(obj@ =~= old(obj)@ + Seq::<(Seq<char>, JsonModel)>::empty());
    }
}

// ---------------------------------------------------------------------------
// Annotations
// ---------------------------------------------------------------------------

/// The fields that every annotation has.
pub open spec fn base_fields(annotation: JsonModel, id: i64) -> Seq<(Seq<char>, JsonModel)> {
    seq![
        ("id"@, json::int_json(id)),
        ("affector_id"@, json::int_json(json::int_or(annotation.get("affectorId"@), 0))),
        ("affected_ids"@, json::ints_json(json::ints_in(annotation.get("affectedIds"@)))),
        ("type"@, JsonModel::Str(annotation_kind(annotation))),
        ("types"@, json::strs_json(annotation_kinds(annotation))),
    ]
}

/// An annotation with normalized fields. Nothing where it has no integer `id`.
pub open spec fn annotation_payload(annotation: JsonModel) -> Option<JsonModel> {
    match json::int_in(annotation.get("id"@)) {
        None => None,
        Some(id) => {
            let base = base_fields(annotation, id);
            match json::array_in(annotation.get("details"@)) {
                Some(details) => Some(
                    JsonModel::Object(
                        base + type_fields(annotation_kind(annotation), base, details),
                    ),
                ),
                None => Some(JsonModel::Object(base)),
            }
        },
    }
}

/// Extracts a single annotation, normalizing base fields and adding
/// type-specific data for known annotation types.
pub fn extract_single_annotation(annotation: &Json) -> (payload: Option<Json>)
    ensures
        json::owned_model(payload) == annotation_payload(annotation@),
{
    match int_field(annotation.get("id")) {
        None => None,
        Some(id) => {
            let annotation_type = read_annotation_type(annotation);
            let annotation_types = read_annotation_types(annotation);
            let mut result = JsonObject::new();
            result.push("id", Json::integer(id));
            result.push(
                "affector_id",
                Json::integer(int_field_or(annotation.get("affectorId"), 0)),
            );
            result.push("affected_ids", Json::ints(int_items(annotation.get("affectedIds"))));
            result.push("type", Json::string(annotation_type));
            result.push("types", Json::strings(annotation_types));
            assert(result@ =~= base_fields(annotation@, id));
            match array_field(annotation.get("details")) {
                Some(details) => {
                    add_type_specific_fields(&mut result, annotation_type, details);
                },
                None => {},
            }
            Some(result.finish())
        },
    }
}

/// The annotations of an array, in its order, those without an `id` left out.
/// None where there is no array.
pub open spec fn annotation_list(value: Option<JsonModel>) -> Seq<JsonModel> {
    match json::array_in(value) {
        Some(items) => json::filter_mapped(items, |a: JsonModel| annotation_payload(a)),
        None => Seq::empty(),
    }
}

fn annotations_in(value: Option<&Json>) -> (annotations: Vec<Json>)
    ensures
        json::item_models(annotations@) == annotation_list(json::opt_model(value)),
{
    let mut annotations: Vec<Json> = Vec::new();
    assert(json::item_models(annotations@) =~= Seq::<JsonModel>::empty());
    match array_field(value) {
        None => {},
        Some(items) => {
            let ghost all = json::item_models(items@);
            let ghost f = |a: JsonModel| annotation_payload(a);
            let mut i: usize = 0;
            while i < items.len()
                invariant
                    i <= items@.len(),
                    all == json::item_models(items@),
                    f == (|a: JsonModel| annotation_payload(a)),
                    json::item_models(annotations@) == json::filter_mapped(all.take(i as int), f),
                decreases items@.len() - i,
            {
                proof {
                    json::lemma_filter_mapped_step(all, f, i as int);
                }
                let ghost before = annotations@;
                match extract_single_annotation(&items[i]) {
                    Some(a) => {
                        annotations.push(a);
                        assert(json::item_models(annotations@) =~= json::item_models(before).push(
                            a@,
                        ));
                    },
                    None => {},
                }
                i += 1;
            }
            assert(all.take(i as int) =~= all);
        },
    }
    annotations
}

/// Extracts annotations from the `gameStateMessage.annotations` array.
///
/// Each annotation has at minimum `id`, `affectorId`, `affectedIds`, and
/// `type`. Special handling normalizes type-specific data:
///
/// - **`AnnotationType_ZoneTransfer`**: `zone_src`, `zone_dest`, `category`
/// - **`AnnotationType_ObjectIdChanged`**: `old_id`, `new_id`
/// - **`AnnotationType_DamageDealt`**: `damage`, `damage_type`
/// - **`AnnotationType_CounterAdded`**: `counter_type`, `amount`
/// - **`AnnotationType_TargetSpec`**: `ability_grp_id`, `target_index`
/// - **`AnnotationType_ModifiedLife`**: `life`
/// - **`AnnotationType_PowerToughnessModCreated`**: `power`, `toughness`
/// - **`AnnotationType_TriggeringObject`**: `source_zone`
/// - **`AnnotationType_ManaPaid`**: `mana_payment_id`, `color`
/// - **`AnnotationType_UserActionTaken`**: `action_type`, `ability_grp_id`
/// - **`AnnotationType_Scry`**: `top_ids`, `bottom_ids`
/// - **`AnnotationType_Shuffle`**: `old_ids`, `new_ids`
/// - **`AnnotationType_Designation`**: `instance_id`, `designation_type`, plus
///   any of `conjuration_type`, `source_grpid`, `grpid`, `value`,
///   `controller_id` that are present in `details`
/// - **All other types**: passed through with base fields only.
///
/// Returns an empty `Vec` when `annotations` is absent or empty.
pub fn extract_annotations(gsm: Option<&Json>) -> (annotations: Vec<Json>)
    ensures
        json::item_models(annotations@) == annotation_list(
            json::get_in(json::opt_model(gsm), "annotations"@),
        ),
{
    annotations_in(get_field(gsm, "annotations"))
}

/// Extracts persistent annotations from the
/// `gameStateMessage.persistentAnnotations` array.
///
/// Persistent annotations accumulate across game state updates (unlike
/// ephemeral `annotations`, which appear only in the diff). They are extracted
/// like regular annotations.
///
/// Returns an empty `Vec` when `persistentAnnotations` is absent or empty.
pub fn extract_persistent_annotations(gsm: Option<&Json>) -> (annotations: Vec<Json>)
    ensures
        json::item_models(annotations@) == annotation_list(
            json::get_in(json::opt_model(gsm), "persistentAnnotations"@),
        ),
{
    annotations_in(get_field(gsm, "persistentAnnotations"))
}

// ---------------------------------------------------------------------------
// Laws
// ---------------------------------------------------------------------------

/// Every extracted annotation starts with the base fields.
pub proof fn law_annotation_has_base(annotation: JsonModel)
    requires
        annotation_payload(annotation) is Some,
    ensures
        annotation_payload(annotation).unwrap() is Object,
        base_fields(annotation, json::int_in(annotation.get("id"@)).unwrap()).is_prefix_of(
            annotation_payload(annotation).unwrap()->Object_0,
        ),
{
    let id = json::int_in(annotation.get("id"@)).unwrap();
    let base = base_fields(annotation, id);
    let members = annotation_payload(annotation).unwrap()->Object_0;
    assert(base =~= members.subrange(0, base.len() as int));
}

/// Whether an annotation type has fields of its own.
pub open spec fn known_type(kind: Seq<char>) -> bool {
    ||| kind == ANNOTATION_TYPE_ZONE_TRANSFER@
    ||| kind == ANNOTATION_TYPE_OBJECT_ID_CHANGED@
    ||| kind == ANNOTATION_TYPE_DAMAGE_DEALT@
    ||| kind == ANNOTATION_TYPE_COUNTER_ADDED@
    ||| kind == ANNOTATION_TYPE_TARGET_SPEC@
    ||| kind == ANNOTATION_TYPE_MODIFIED_LIFE@
    ||| kind == ANNOTATION_TYPE_POWER_TOUGHNESS_MOD_CREATED@
    ||| kind == ANNOTATION_TYPE_TRIGGERING_OBJECT@
    ||| kind == ANNOTATION_TYPE_MANA_PAID@
    ||| kind == ANNOTATION_TYPE_USER_ACTION_TAKEN@
    ||| kind == ANNOTATION_TYPE_SCRY@
    ||| kind == ANNOTATION_TYPE_SHUFFLE@
    ||| kind == ANNOTATION_TYPE_DESIGNATION@
}

/// An annotation of any other type is passed through with base fields only.
pub proof fn law_other_types_have_base_only(annotation: JsonModel, id: i64)
    requires
        json::int_in(annotation.get("id"@)) == Some(id),
        !known_type(annotation_kind(annotation)),
    ensures
        annotation_payload(annotation) == Some(JsonModel::Object(base_fields(annotation, id))),
{
    let base = base_fields(annotation, id);
    assert(base + Seq::<(Seq<char>, JsonModel)>::empty() =~= base);
}

/// The instance that an annotation designates is the first that it affects, or
/// zero where it affects none.
pub proof fn law_designation_names_first_affected(annotation: JsonModel, id: i64)
    ensures
        designated_instance(base_fields(annotation, id)) == {
            let affected = json::ints_in(annotation.get("affectedIds"@));
            if affected.len() > 0 {
                affected[0]
            } else {
                0
            }
        },
{
    lemma_base_names();
    let base = base_fields(annotation, id);
    assert(base[0].0.len() == 2 && base[1].0.len() == 11 && base[2].0.len() == 12);
    json::lemma_lookup_at(base, 2);
}

/// The names of a designation are told apart.
proof fn lemma_designation_names()
    ensures
        "id"@.len() == 2,
        "affector_id"@.len() == 11,
        "affected_ids"@.len() == 12,
        "type"@.len() == 4,
        "types"@.len() == 5,
        "instance_id"@.len() == 11,
        "designation_type"@.len() == 16,
        "conjuration_type"@.len() == 16,
        "source_grpid"@.len() == 12,
        "grpid"@.len() == 5,
        "value"@.len() == 5,
        "controller_id"@.len() == 13,
        "affector_id"@ != "instance_id"@,
        "designation_type"@ != "conjuration_type"@,
        "affected_ids"@ != "source_grpid"@,
        "types"@ != "grpid"@,
        "types"@ != "value"@,
        "grpid"@ != "value"@,
{
    lemma_base_names();
    reveal_strlit("instance_id");
    reveal_strlit("designation_type");
    reveal_strlit("conjuration_type");
    reveal_strlit("source_grpid");
    reveal_strlit("grpid");
    reveal_strlit("value");
    reveal_strlit("controller_id");
    assert("instance_id"@[0] == 'i');
    assert("designation_type"@[0] == 'd' && "conjuration_type"@[0] == 'c');
    assert("source_grpid"@[0] == 's');
    assert("grpid"@[0] == 'g' && "value"@[0] == 'v');
}

/// A designation has each optional field exactly where its details hold it,
/// whatever type of designation it is.
pub proof fn law_designation_is_permissive(
    annotation: JsonModel,
    details: Seq<JsonModel>,
)
    requires
        json::int_in(annotation.get("id"@)) is Some,
        annotation_kind(annotation) == ANNOTATION_TYPE_DESIGNATION@,
        json::array_in(annotation.get("details"@)) == Some(details),
    ensures
        annotation_payload(annotation) is Some,
        ({
            let payload = annotation_payload(annotation).unwrap();
            &&& payload.get("conjuration_type"@) == json::opt_str(
                str_detail(details, "conjuration_type"@),
            )
            &&& payload.get("source_grpid"@) == json::opt_int(int_detail(details, "source_grpid"@))
            &&& payload.get("grpid"@) == json::opt_int(int_detail(details, "grpid"@))
            &&& payload.get("value"@) == json::opt_int(int_detail(details, "value"@))
            &&& payload.get("controller_id"@) == json::opt_int(
                int_detail(details, "ControllerId"@),
            )
        }),
{
    lemma_designation_names();
    lemma_designation_is_told_apart();
    let id = json::int_in(annotation.get("id"@)).unwrap();
    let base = base_fields(annotation, id);
    lemma_designation_lookup(base, details, "conjuration_type"@);
    lemma_designation_lookup(base, details, "source_grpid"@);
    lemma_designation_lookup(base, details, "grpid"@);
    lemma_designation_lookup(base, details, "value"@);
    lemma_designation_lookup(base, details, "controller_id"@);
}

/// The designation type is none of the others.
proof fn lemma_designation_is_told_apart()
    ensures
        ANNOTATION_TYPE_DESIGNATION@ != ANNOTATION_TYPE_ZONE_TRANSFER@,
        ANNOTATION_TYPE_DESIGNATION@ != ANNOTATION_TYPE_OBJECT_ID_CHANGED@,
        ANNOTATION_TYPE_DESIGNATION@ != ANNOTATION_TYPE_DAMAGE_DEALT@,
        ANNOTATION_TYPE_DESIGNATION@ != ANNOTATION_TYPE_COUNTER_ADDED@,
        ANNOTATION_TYPE_DESIGNATION@ != ANNOTATION_TYPE_TARGET_SPEC@,
        ANNOTATION_TYPE_DESIGNATION@ != ANNOTATION_TYPE_MODIFIED_LIFE@,
        ANNOTATION_TYPE_DESIGNATION@ != ANNOTATION_TYPE_POWER_TOUGHNESS_MOD_CREATED@,
        ANNOTATION_TYPE_DESIGNATION@ != ANNOTATION_TYPE_TRIGGERING_OBJECT@,
        ANNOTATION_TYPE_DESIGNATION@ != ANNOTATION_TYPE_MANA_PAID@,
        ANNOTATION_TYPE_DESIGNATION@ != ANNOTATION_TYPE_USER_ACTION_TAKEN@,
        ANNOTATION_TYPE_DESIGNATION@ != ANNOTATION_TYPE_SCRY@,
        ANNOTATION_TYPE_DESIGNATION@ != ANNOTATION_TYPE_SHUFFLE@,
{
    reveal_strlit("AnnotationType_Designation");
    reveal_strlit("AnnotationType_ZoneTransfer");
    reveal_strlit("AnnotationType_ObjectIdChanged");
    reveal_strlit("AnnotationType_DamageDealt");
    reveal_strlit("AnnotationType_CounterAdded");
    reveal_strlit("AnnotationType_TargetSpec");
    reveal_strlit("AnnotationType_ModifiedLife");
    reveal_strlit("AnnotationType_PowerToughnessModCreated");
    reveal_strlit("AnnotationType_TriggeringObject");
    reveal_strlit("AnnotationType_ManaPaid");
    reveal_strlit("AnnotationType_UserActionTaken");
    reveal_strlit("AnnotationType_Scry");
    reveal_strlit("AnnotationType_Shuffle");
    assert(ANNOTATION_TYPE_DESIGNATION@[15] == 'D');
    assert(ANNOTATION_TYPE_DESIGNATION@[16] == 'e');
    assert(ANNOTATION_TYPE_ZONE_TRANSFER@[15] == 'Z');
    assert(ANNOTATION_TYPE_OBJECT_ID_CHANGED@[15] == 'O');
    assert(ANNOTATION_TYPE_DAMAGE_DEALT@[16] == 'a');
    assert(ANNOTATION_TYPE_COUNTER_ADDED@[15] == 'C');
    assert(ANNOTATION_TYPE_TARGET_SPEC@[15] == 'T');
    assert(ANNOTATION_TYPE_MODIFIED_LIFE@[15] == 'M');
    assert(ANNOTATION_TYPE_POWER_TOUGHNESS_MOD_CREATED@[15] == 'P');
    assert(ANNOTATION_TYPE_TRIGGERING_OBJECT@[15] == 'T');
    assert(ANNOTATION_TYPE_MANA_PAID@[15] == 'M');
    assert(ANNOTATION_TYPE_USER_ACTION_TAKEN@[15] == 'U');
    assert(ANNOTATION_TYPE_SCRY@[15] == 'S');
    assert(ANNOTATION_TYPE_SHUFFLE@[15] == 'S');
}

/// A name that is none of those in front is looked up among the optional
/// fields.
proof fn lemma_designation_lookup(
    base: Seq<(Seq<char>, JsonModel)>,
    details: Seq<JsonModel>,
    key: Seq<char>,
)
    requires
        forall|j: int| 0 <= j < base.len() ==> (#[trigger] base[j]).0 != key,
        key != "instance_id"@,
        key != "designation_type"@,
    ensures
        json::lookup(base + designation_fields(base, details), key) == {
            let a = if "conjuration_type"@ == key {
                json::opt_str(str_detail(details, "conjuration_type"@))
            } else {
                None
            };
            let b = if "source_grpid"@ == key {
                json::opt_int(int_detail(details, "source_grpid"@))
            } else {
                None
            };
            let c = if "grpid"@ == key {
                json::opt_int(int_detail(details, "grpid"@))
            } else {
                None
            };
            let d = if "value"@ == key {
                json::opt_int(int_detail(details, "value"@))
            } else {
                None
            };
            let e = if "controller_id"@ == key {
                json::opt_int(int_detail(details, "ControllerId"@))
            } else {
                None
            };
            if a is Some {
                a
            } else if b is Some {
                b
            } else if c is Some {
                c
            } else if d is Some {
                d
            } else {
                e
            }
        },
{
    let front = seq![
        ("instance_id"@, json::int_json(designated_instance(base))),
        ("designation_type"@, json::int_json(int_detail_or(details, "DesignationType"@))),
    ];
    let a = json::optional(
        "conjuration_type"@,
        json::opt_str(str_detail(details, "conjuration_type"@)),
    );
    let b = json::optional("source_grpid"@, json::opt_int(int_detail(details, "source_grpid"@)));
    let c = json::optional("grpid"@, json::opt_int(int_detail(details, "grpid"@)));
    let d = json::optional("value"@, json::opt_int(int_detail(details, "value"@)));
    let e = json::optional("controller_id"@, json::opt_int(int_detail(details, "ControllerId"@)));
    json::lemma_lookup_concat(base, designation_fields(base, details), key);
    json::lemma_lookup_missing(base, key);
    json::lemma_lookup_concat(front + a + b + c + d, e, key);
    json::lemma_lookup_concat(front + a + b + c, d, key);
    json::lemma_lookup_concat(front + a + b, c, key);
    json::lemma_lookup_concat(front + a, b, key);
    json::lemma_lookup_concat(front, a, key);
    json::lemma_lookup_missing(front, key);
    json::lemma_lookup_optional(
        "conjuration_type"@,
        json::opt_str(str_detail(details, "conjuration_type"@)),
        key,
    );
    json::lemma_lookup_optional(
        "source_grpid"@,
        json::opt_int(int_detail(details, "source_grpid"@)),
        key,
    );
    json::lemma_lookup_optional("grpid"@, json::opt_int(int_detail(details, "grpid"@)), key);
    json::lemma_lookup_optional("value"@, json::opt_int(int_detail(details, "value"@)), key);
    json::lemma_lookup_optional(
        "controller_id"@,
        json::opt_int(int_detail(details, "ControllerId"@)),
        key,
    );
}

/// The base names by their lengths and their first letters.
proof fn lemma_base_names()
    ensures
        "id"@.len() == 2,
        "affector_id"@.len() == 11,
        "affector_id"@[0] == 'a',
        "affector_id"@[1] == 'f',
        "affected_ids"@.len() == 12,
        "affected_ids"@[0] == 'a',
        "type"@.len() == 4,
        "type"@[0] == 't',
        "types"@.len() == 5,
        "types"@[0] == 't',
{
    reveal_strlit("id");
    reveal_strlit("affector_id");
    reveal_strlit("affected_ids");
    reveal_strlit("type");
    reveal_strlit("types");
}

/// The base fields are distinct and well formed.
proof fn lemma_base_is_well_formed(annotation: JsonModel, id: i64)
    ensures
        json::distinct_names(base_fields(annotation, id)),
        json::well_formed(JsonModel::Object(base_fields(annotation, id))),
{
    lemma_base_names();
    json::lemma_lists_well_formed(json::ints_in(annotation.get("affectedIds"@)), Seq::empty());
    json::lemma_lists_well_formed(Seq::empty(), annotation_kinds(annotation));
    json::lemma_object_well_formed(base_fields(annotation, id));
}

proof fn lemma_zone_transfer_is_well_formed(annotation: JsonModel, id: i64, details: Seq<JsonModel>)
    ensures
        json::well_formed(
            JsonModel::Object(base_fields(annotation, id) + zone_transfer_fields(details)),
        ),
{
    lemma_base_is_well_formed(annotation, id);
    lemma_base_names();
    reveal_strlit("zone_src");
    reveal_strlit("zone_dest");
    reveal_strlit("category");
    assert("zone_src"@.len() == 8);
    assert("zone_dest"@.len() == 9 && "category"@.len() == 8);
    assert("zone_src"@[0] == 'z' && "category"@[0] == 'c');
    json::lemma_object_well_formed(base_fields(annotation, id) + zone_transfer_fields(details));
}

proof fn lemma_object_id_changed_is_well_formed(annotation: JsonModel, id: i64, details: Seq<JsonModel>)
    ensures
        json::well_formed(
            JsonModel::Object(base_fields(annotation, id) + object_id_changed_fields(details)),
        ),
{
    lemma_base_is_well_formed(annotation, id);
    lemma_base_names();
    reveal_strlit("old_id");
    reveal_strlit("new_id");
    assert("old_id"@.len() == 6);
    assert("new_id"@.len() == 6);
    assert("old_id"@[0] == 'o' && "new_id"@[0] == 'n');
    json::lemma_object_well_formed(base_fields(annotation, id) + object_id_changed_fields(details));
}

proof fn lemma_damage_dealt_is_well_formed(annotation: JsonModel, id: i64, details: Seq<JsonModel>)
    ensures
        json::well_formed(
            JsonModel::Object(base_fields(annotation, id) + damage_dealt_fields(details)),
        ),
{
    lemma_base_is_well_formed(annotation, id);
    lemma_base_names();
    reveal_strlit("damage");
    reveal_strlit("damage_type");
    assert("damage"@.len() == 6);
    assert("damage_type"@.len() == 11);
    assert("damage_type"@[0] == 'd');
    json::lemma_object_well_formed(base_fields(annotation, id) + damage_dealt_fields(details));
}

proof fn lemma_counter_added_is_well_formed(annotation: JsonModel, id: i64, details: Seq<JsonModel>)
    ensures
        json::well_formed(
            JsonModel::Object(base_fields(annotation, id) + counter_added_fields(details)),
        ),
{
    lemma_base_is_well_formed(annotation, id);
    lemma_base_names();
    reveal_strlit("counter_type");
    reveal_strlit("amount");
    assert("counter_type"@.len() == 12);
    assert("amount"@.len() == 6);
    assert("counter_type"@[0] == 'c');
    json::lemma_object_well_formed(base_fields(annotation, id) + counter_added_fields(details));
}

proof fn lemma_target_spec_is_well_formed(annotation: JsonModel, id: i64, details: Seq<JsonModel>)
    ensures
        json::well_formed(
            JsonModel::Object(base_fields(annotation, id) + target_spec_fields(details)),
        ),
{
    lemma_base_is_well_formed(annotation, id);
    lemma_base_names();
    reveal_strlit("ability_grp_id");
    reveal_strlit("target_index");
    assert("ability_grp_id"@.len() == 14);
    assert("target_index"@.len() == 12);
    assert("target_index"@[0] == 't');
    json::lemma_object_well_formed(base_fields(annotation, id) + target_spec_fields(details));
}

proof fn lemma_modified_life_is_well_formed(annotation: JsonModel, id: i64, details: Seq<JsonModel>)
    ensures
        json::well_formed(
            JsonModel::Object(base_fields(annotation, id) + modified_life_fields(details)),
        ),
{
    lemma_base_is_well_formed(annotation, id);
    lemma_base_names();
    reveal_strlit("life");
    assert("life"@.len() == 4);
    assert("life"@[0] == 'l');
    json::lemma_object_well_formed(base_fields(annotation, id) + modified_life_fields(details));
}

proof fn lemma_pt_mod_is_well_formed(annotation: JsonModel, id: i64, details: Seq<JsonModel>)
    ensures
        json::well_formed(
            JsonModel::Object(base_fields(annotation, id) + pt_mod_fields(details)),
        ),
{
    lemma_base_is_well_formed(annotation, id);
    lemma_base_names();
    reveal_strlit("power");
    reveal_strlit("toughness");
    assert("power"@.len() == 5);
    assert("toughness"@.len() == 9);
    assert("power"@[0] == 'p');
    json::lemma_object_well_formed(base_fields(annotation, id) + pt_mod_fields(details));
}

proof fn lemma_triggering_object_is_well_formed(annotation: JsonModel, id: i64, details: Seq<JsonModel>)
    ensures
        json::well_formed(
            JsonModel::Object(base_fields(annotation, id) + triggering_object_fields(details)),
        ),
{
    lemma_base_is_well_formed(annotation, id);
    lemma_base_names();
    reveal_strlit("source_zone");
    assert("source_zone"@.len() == 11);
    assert("source_zone"@[0] == 's');
    json::lemma_object_well_formed(base_fields(annotation, id) + triggering_object_fields(details));
}

proof fn lemma_mana_paid_is_well_formed(annotation: JsonModel, id: i64, details: Seq<JsonModel>)
    ensures
        json::well_formed(
            JsonModel::Object(base_fields(annotation, id) + mana_paid_fields(details)),
        ),
{
    lemma_base_is_well_formed(annotation, id);
    lemma_base_names();
    reveal_strlit("mana_payment_id");
    reveal_strlit("color");
    assert("mana_payment_id"@.len() == 15);
    assert("color"@.len() == 5);
    assert("color"@[0] == 'c');
    json::lemma_object_well_formed(base_fields(annotation, id) + mana_paid_fields(details));
}

proof fn lemma_user_action_is_well_formed(annotation: JsonModel, id: i64, details: Seq<JsonModel>)
    ensures
        json::well_formed(
            JsonModel::Object(base_fields(annotation, id) + user_action_fields(details)),
        ),
{
    lemma_base_is_well_formed(annotation, id);
    lemma_base_names();
    reveal_strlit("action_type");
    reveal_strlit("ability_grp_id");
    assert("action_type"@.len() == 11);
    assert("ability_grp_id"@.len() == 14);
    assert("action_type"@[1] == 'c');
    json::lemma_object_well_formed(base_fields(annotation, id) + user_action_fields(details));
}

proof fn lemma_scry_is_well_formed(annotation: JsonModel, id: i64, details: Seq<JsonModel>)
    ensures
        json::well_formed(
            JsonModel::Object(base_fields(annotation, id) + scry_fields(details)),
        ),
{
    lemma_base_is_well_formed(annotation, id);
    lemma_base_names();
    reveal_strlit("top_ids");
    reveal_strlit("bottom_ids");
    assert("top_ids"@.len() == 7);
    assert("bottom_ids"@.len() == 10);
    json::lemma_lists_well_formed(ints_detail(details, "topIds"@), Seq::empty());
    json::lemma_lists_well_formed(ints_detail(details, "bottomIds"@), Seq::empty());
    json::lemma_object_well_formed(base_fields(annotation, id) + scry_fields(details));
}

proof fn lemma_shuffle_is_well_formed(annotation: JsonModel, id: i64, details: Seq<JsonModel>)
    ensures
        json::well_formed(
            JsonModel::Object(base_fields(annotation, id) + shuffle_fields(details)),
        ),
{
    lemma_base_is_well_formed(annotation, id);
    lemma_base_names();
    reveal_strlit("old_ids");
    reveal_strlit("new_ids");
    assert("old_ids"@.len() == 7);
    assert("new_ids"@.len() == 7);
    assert("old_ids"@[0] == 'o' && "new_ids"@[0] == 'n');
    json::lemma_lists_well_formed(ints_detail(details, "OldIds"@), Seq::empty());
    json::lemma_lists_well_formed(ints_detail(details, "NewIds"@), Seq::empty());
    json::lemma_object_well_formed(base_fields(annotation, id) + shuffle_fields(details));
}

/// The optional fields of a designation keep an object well formed.
proof fn lemma_designation_tail_keeps(
    m0: Seq<(Seq<char>, JsonModel)>,
    details: Seq<JsonModel>,
)
    requires
        json::well_formed(JsonModel::Object(m0)),
        json::lacks(m0, "conjuration_type"@),
        json::lacks(m0, "source_grpid"@),
        json::lacks(m0, "grpid"@),
        json::lacks(m0, "value"@),
        json::lacks(m0, "controller_id"@),
    ensures
        json::well_formed(
            JsonModel::Object(
                m0 + json::optional(
                    "conjuration_type"@,
                    json::opt_str(str_detail(details, "conjuration_type"@)),
                ) + json::optional(
                    "source_grpid"@,
                    json::opt_int(int_detail(details, "source_grpid"@)),
                ) + json::optional("grpid"@, json::opt_int(int_detail(details, "grpid"@)))
                    + json::optional("value"@, json::opt_int(int_detail(details, "value"@)))
                    + json::optional(
                    "controller_id"@,
                    json::opt_int(int_detail(details, "ControllerId"@)),
                ),
            ),
        ),
{
    lemma_designation_names();
    let v0 = json::opt_str(str_detail(details, "conjuration_type"@));
    let v1 = json::opt_int(int_detail(details, "source_grpid"@));
    let v2 = json::opt_int(int_detail(details, "grpid"@));
    let v3 = json::opt_int(int_detail(details, "value"@));
    let v4 = json::opt_int(int_detail(details, "ControllerId"@));
    let m1 = m0 + json::optional("conjuration_type"@, v0);
    let m2 = m1 + json::optional("source_grpid"@, v1);
    let m3 = m2 + json::optional("grpid"@, v2);
    let m4 = m3 + json::optional("value"@, v3);
    json::lemma_optional_keeps(m0, "conjuration_type"@, v0);
    json::lemma_optional_lacks(m0, "conjuration_type"@, v0, "source_grpid"@);
    json::lemma_optional_keeps(m1, "source_grpid"@, v1);
    json::lemma_optional_lacks(m0, "conjuration_type"@, v0, "grpid"@);
    json::lemma_optional_lacks(m1, "source_grpid"@, v1, "grpid"@);
    json::lemma_optional_keeps(m2, "grpid"@, v2);
    json::lemma_optional_lacks(m0, "conjuration_type"@, v0, "value"@);
    json::lemma_optional_lacks(m1, "source_grpid"@, v1, "value"@);
    json::lemma_optional_lacks(m2, "grpid"@, v2, "value"@);
    json::lemma_optional_keeps(m3, "value"@, v3);
    json::lemma_optional_lacks(m0, "conjuration_type"@, v0, "controller_id"@);
    json::lemma_optional_lacks(m1, "source_grpid"@, v1, "controller_id"@);
    json::lemma_optional_lacks(m2, "grpid"@, v2, "controller_id"@);
    json::lemma_optional_lacks(m3, "value"@, v3, "controller_id"@);
    json::lemma_optional_keeps(m4, "controller_id"@, v4);
}

proof fn lemma_designation_is_well_formed(annotation: JsonModel, id: i64, details: Seq<JsonModel>)
    ensures
        json::well_formed(
            JsonModel::Object(
                base_fields(annotation, id) + designation_fields(
                    base_fields(annotation, id),
                    details,
                ),
            ),
        ),
{
    lemma_base_is_well_formed(annotation, id);
    lemma_designation_names();
    let base = base_fields(annotation, id);
    let m0 = base + seq![
        ("instance_id"@, json::int_json(designated_instance(base))),
        ("designation_type"@, json::int_json(int_detail_or(details, "DesignationType"@))),
    ];
    json::lemma_object_well_formed(m0);
    lemma_designation_tail_keeps(m0, details);
    assert(base + designation_fields(base, details) =~= m0 + json::optional(
        "conjuration_type"@,
        json::opt_str(str_detail(details, "conjuration_type"@)),
    ) + json::optional("source_grpid"@, json::opt_int(int_detail(details, "source_grpid"@)))
        + json::optional("grpid"@, json::opt_int(int_detail(details, "grpid"@))) + json::optional(
        "value"@,
        json::opt_int(int_detail(details, "value"@)),
    ) + json::optional("controller_id"@, json::opt_int(int_detail(details, "ControllerId"@))));
}

/// An annotation is well formed whatever its source is.
pub proof fn law_annotation_is_well_formed(annotation: JsonModel)
    ensures
        json::opt_well_formed(annotation_payload(annotation)),
{
    match json::int_in(annotation.get("id"@)) {
        None => {},
        Some(id) => {
            lemma_base_is_well_formed(annotation, id);
            let base = base_fields(annotation, id);
            match json::array_in(annotation.get("details"@)) {
                None => {},
                Some(details) => {
                    lemma_zone_transfer_is_well_formed(annotation, id, details);
                    lemma_object_id_changed_is_well_formed(annotation, id, details);
                    lemma_damage_dealt_is_well_formed(annotation, id, details);
                    lemma_counter_added_is_well_formed(annotation, id, details);
                    lemma_target_spec_is_well_formed(annotation, id, details);
                    lemma_modified_life_is_well_formed(annotation, id, details);
                    lemma_pt_mod_is_well_formed(annotation, id, details);
                    lemma_triggering_object_is_well_formed(annotation, id, details);
                    lemma_mana_paid_is_well_formed(annotation, id, details);
                    lemma_user_action_is_well_formed(annotation, id, details);
                    lemma_scry_is_well_formed(annotation, id, details);
                    lemma_shuffle_is_well_formed(annotation, id, details);
                    lemma_designation_is_well_formed(annotation, id, details);
                    assert(base + Seq::<(Seq<char>, JsonModel)>::empty() =~= base);
                },
            }
        },
    }
}

/// All annotations of a list are well formed whatever their source is.
pub proof fn law_annotations_are_well_formed(value: Option<JsonModel>)
    ensures
        json::all_well_formed(annotation_list(value)),
{
    match json::array_in(value) {
        Some(items) => {
            let f = |a: JsonModel| annotation_payload(a);
            assert forall|i: int| 0 <= i < items.len() implies json::opt_well_formed(
                f(#[trigger] items[i]),
            ) by {
                law_annotation_is_well_formed(items[i]);
            }
            json::lemma_filter_well_formed(items, f);
        },
        None => {},
    }
}

/// The types by their lengths and their letters behind the common prefix.
proof fn lemma_types_told_apart()
    ensures
        "AnnotationType_ZoneTransfer"@.len() == 27,
        "AnnotationType_ZoneTransfer"@[15] == 'Z',
        "AnnotationType_ObjectIdChanged"@.len() == 30,
        "AnnotationType_ObjectIdChanged"@[15] == 'O',
        "AnnotationType_DamageDealt"@.len() == 26,
        "AnnotationType_DamageDealt"@[15] == 'D',
        "AnnotationType_CounterAdded"@.len() == 27,
        "AnnotationType_CounterAdded"@[15] == 'C',
        "AnnotationType_TargetSpec"@.len() == 25,
        "AnnotationType_TargetSpec"@[15] == 'T',
        "AnnotationType_ModifiedLife"@.len() == 27,
        "AnnotationType_ModifiedLife"@[15] == 'M',
        "AnnotationType_PowerToughnessModCreated"@.len() == 39,
        "AnnotationType_PowerToughnessModCreated"@[15] == 'P',
        "AnnotationType_TriggeringObject"@.len() == 31,
        "AnnotationType_TriggeringObject"@[15] == 'T',
        "AnnotationType_ManaPaid"@.len() == 23,
        "AnnotationType_ManaPaid"@[15] == 'M',
        "AnnotationType_UserActionTaken"@.len() == 30,
        "AnnotationType_UserActionTaken"@[15] == 'U',
        "AnnotationType_Scry"@.len() == 19,
        "AnnotationType_Scry"@[15] == 'S',
        "AnnotationType_Shuffle"@.len() == 22,
        "AnnotationType_Shuffle"@[15] == 'S',
        "AnnotationType_Designation"@.len() == 26,
        "AnnotationType_Designation"@[15] == 'D',
        "AnnotationType_DamageDealt"@[16] == 'a',
        "AnnotationType_Designation"@[16] == 'e',
{
    reveal_strlit("AnnotationType_ZoneTransfer");
    reveal_strlit("AnnotationType_ObjectIdChanged");
    reveal_strlit("AnnotationType_DamageDealt");
    reveal_strlit("AnnotationType_CounterAdded");
    reveal_strlit("AnnotationType_TargetSpec");
    reveal_strlit("AnnotationType_ModifiedLife");
    reveal_strlit("AnnotationType_PowerToughnessModCreated");
    reveal_strlit("AnnotationType_TriggeringObject");
    reveal_strlit("AnnotationType_ManaPaid");
    reveal_strlit("AnnotationType_UserActionTaken");
    reveal_strlit("AnnotationType_Scry");
    reveal_strlit("AnnotationType_Shuffle");
    reveal_strlit("AnnotationType_Designation");
}

/// Whether an annotation's type is the given one: as its only type, or as the
/// first of several.
pub open spec fn first_type_is(annotation: JsonModel, kind: Seq<char>) -> bool {
    match annotation.get("type"@) {
        Some(JsonModel::Str(s)) => s == kind,
        Some(JsonModel::Array(kinds)) => kinds.len() > 0 && kinds[0] == JsonModel::Str(kind),
        _ => false,
    }
}

/// Whether the detail at `i` is the first that is called `key`.
pub open spec fn first_called(details: Seq<JsonModel>, key: Seq<char>, i: int) -> bool {
    &&& 0 <= i < details.len()
    &&& fields::is_str(details[i].get("key"@), key)
    &&& forall|j: int| 0 <= j < i ==> !fields::is_str((#[trigger] details[j]).get("key"@), key)
}

/// Whether no detail is called `key`.
pub open spec fn none_called(details: Seq<JsonModel>, key: Seq<char>) -> bool {
    forall|j: int|
        0 <= j < details.len() ==> !fields::is_str((#[trigger] details[j]).get("key"@), key)
}

/// What stands first in a list.
pub open spec fn front_of(list: Option<JsonModel>) -> Option<JsonModel> {
    match list {
        Some(JsonModel::Array(items)) => if items.len() > 0 {
            Some(items[0])
        } else {
            None
        },
        _ => None,
    }
}

/// The field is the first integer of the first detail called `key`, or zero.
pub open spec fn takes_int_detail(
    field: Option<JsonModel>,
    details: Seq<JsonModel>,
    key: Seq<char>,
) -> bool {
    &&& forall|i: int| #[trigger]
        first_called(details, key, i) ==> fields::takes_int(
            field,
            front_of(details[i].get("valueInt32"@)),
            0,
        )
    &&& none_called(details, key) ==> fields::is_int(field, 0)
}

/// The field is the first string of the first detail called `key`, or empty.
pub open spec fn takes_str_detail(
    field: Option<JsonModel>,
    details: Seq<JsonModel>,
    key: Seq<char>,
) -> bool {
    &&& forall|i: int| #[trigger]
        first_called(details, key, i) ==> fields::takes_str(
            field,
            front_of(details[i].get("valueString"@)),
            ""@,
        )
    &&& none_called(details, key) ==> fields::is_str(field, ""@)
}

/// The field lists the integers of the first detail called `key`.
pub open spec fn lists_int_detail(
    field: Option<JsonModel>,
    details: Seq<JsonModel>,
    key: Seq<char>,
) -> bool {
    &&& forall|i: int| #[trigger]
        first_called(details, key, i) ==> fields::lists_ints(
            field,
            details[i].get("valueInt32"@),
        )
    &&& none_called(details, key) ==> field == Some(JsonModel::Array(Seq::empty()))
}

/// The field is the first integer of the first detail called `key`, and missing
/// where there is none.
pub open spec fn passes_int_detail(
    field: Option<JsonModel>,
    details: Seq<JsonModel>,
    key: Seq<char>,
) -> bool {
    &&& forall|i: int| #[trigger]
        first_called(details, key, i) ==> fields::passes_int(
            field,
            front_of(details[i].get("valueInt32"@)),
        )
    &&& none_called(details, key) ==> field is None
}

/// The field is the first string of the first detail called `key`, and missing
/// where there is none.
pub open spec fn passes_str_detail(
    field: Option<JsonModel>,
    details: Seq<JsonModel>,
    key: Seq<char>,
) -> bool {
    &&& forall|i: int| #[trigger]
        first_called(details, key, i) ==> fields::passes_str(
            field,
            front_of(details[i].get("valueString"@)),
        )
    &&& none_called(details, key) ==> field is None
}

/// The detail that is found is the first that is called `key`.
pub proof fn law_first_detail_is_found(details: Seq<JsonModel>, key: Seq<char>)
    ensures
        forall|i: int| #[trigger]
            first_called(details, key, i) ==> find_detail(details, key) == Some(details[i]),
        none_called(details, key) ==> find_detail(details, key) is None,
    decreases details.len(),
{
    if details.len() > 0 {
        let rest = details.drop_first();
        law_first_detail_is_found(rest, key);
        assert forall|i: int| #[trigger] first_called(details, key, i) implies find_detail(
            details,
            key,
        ) == Some(details[i]) by {
            if i > 0 {
                assert(!fields::is_str(details[0].get("key"@), key));
                assert(first_called(rest, key, i - 1)) by {
                    assert forall|j: int| 0 <= j < i - 1 implies !fields::is_str(
                        (#[trigger] rest[j]).get("key"@),
                        key,
                    ) by {
                        assert(rest[j] == details[j + 1]);
                    }
                }
            }
        }
        if none_called(details, key) {
            assert(!fields::is_str(details[0].get("key"@), key));
            assert forall|j: int| 0 <= j < rest.len() implies !fields::is_str(
                (#[trigger] rest[j]).get("key"@),
                key,
            ) by {
                assert(rest[j] == details[j + 1]);
            }
        }
    }
}

/// What is read of a detail is what the first one of its name holds.
pub proof fn law_details_are_read_by_name(details: Seq<JsonModel>, key: Seq<char>)
    ensures
        takes_int_detail(Some(json::int_json(int_detail_or(details, key))), details, key),
        takes_str_detail(Some(JsonModel::Str(str_detail_or(details, key))), details, key),
        lists_int_detail(Some(json::ints_json(ints_detail(details, key))), details, key),
        passes_int_detail(json::opt_int(int_detail(details, key)), details, key),
        passes_str_detail(json::opt_str(str_detail(details, key)), details, key),
{
    law_first_detail_is_found(details, key);
    fields::lemma_lists_ints(json::get_in(find_detail(details, key), "valueInt32"@));
}

/// The members of an annotation with details, each found under its name.
proof fn lemma_annotation_members(annotation: JsonModel, details: Seq<JsonModel>)
    requires
        fields::integer_of(annotation.get("id"@)) is Some,
        annotation.get("details"@) == Some(JsonModel::Array(details)),
    ensures
        annotation_payload(annotation) is Some,
        annotation_payload(annotation).unwrap() is Object,
        ({
            let base = base_fields(annotation, json::int_in(annotation.get("id"@)).unwrap());
            let own = type_fields(annotation_kind(annotation), base, details);
            let members = annotation_payload(annotation).unwrap()->Object_0;
            &&& base.len() == 5
            &&& members == base + own
            &&& forall|i: int|
                0 <= i < own.len() ==> json::lookup(members, (#[trigger] own[i]).0) == Some(
                    own[i].1,
                )
        }),
{
    let base = base_fields(annotation, json::int_in(annotation.get("id"@)).unwrap());
    let own = type_fields(annotation_kind(annotation), base, details);
    let members = annotation_payload(annotation).unwrap()->Object_0;
    law_annotation_is_well_formed(annotation);
    json::lemma_lookup_all(members);
    assert forall|i: int| 0 <= i < own.len() implies json::lookup(members, (#[trigger] own[i]).0)
        == Some(own[i].1) by {
        assert(members[5 + i] == own[i]);
    }
}

/// A zone transfer names the zones it leads from and to, and its category.
pub proof fn law_zone_transfer_is_read(annotation: JsonModel, details: Seq<JsonModel>)
    requires
        fields::integer_of(annotation.get("id"@)) is Some,
        first_type_is(annotation, "AnnotationType_ZoneTransfer"@),
        annotation.get("details"@) == Some(JsonModel::Array(details)),
    ensures
        annotation_payload(annotation) is Some,
        ({
            let payload = annotation_payload(annotation).unwrap();
            &&& takes_int_detail(payload.get("zone_src"@), details, "zone_src"@)
            &&& takes_int_detail(payload.get("zone_dest"@), details, "zone_dest"@)
            &&& takes_str_detail(payload.get("category"@), details, "category"@)
            &&& payload->Object_0.len() == 8
        }),
{
    lemma_types_told_apart();
    lemma_annotation_members(annotation, details);
    let base = base_fields(annotation, json::int_in(annotation.get("id"@)).unwrap());
    let own = type_fields(annotation_kind(annotation), base, details);
    assert(own[0].0 == "zone_src"@);
    assert(own[1].0 == "zone_dest"@);
    assert(own[2].0 == "category"@);
    law_details_are_read_by_name(details, "zone_src"@);
    law_details_are_read_by_name(details, "zone_dest"@);
    law_details_are_read_by_name(details, "category"@);
}

/// A change of object identifiers names the old one and the new one.
pub proof fn law_object_id_change_is_read(annotation: JsonModel, details: Seq<JsonModel>)
    requires
        fields::integer_of(annotation.get("id"@)) is Some,
        first_type_is(annotation, "AnnotationType_ObjectIdChanged"@),
        annotation.get("details"@) == Some(JsonModel::Array(details)),
    ensures
        annotation_payload(annotation) is Some,
        ({
            let payload = annotation_payload(annotation).unwrap();
            &&& takes_int_detail(payload.get("old_id"@), details, "orig_id"@)
            &&& takes_int_detail(payload.get("new_id"@), details, "new_id"@)
            &&& payload->Object_0.len() == 7
        }),
{
    lemma_types_told_apart();
    lemma_annotation_members(annotation, details);
    let base = base_fields(annotation, json::int_in(annotation.get("id"@)).unwrap());
    let own = type_fields(annotation_kind(annotation), base, details);
    assert(own[0].0 == "old_id"@);
    assert(own[1].0 == "new_id"@);
    law_details_are_read_by_name(details, "orig_id"@);
    law_details_are_read_by_name(details, "new_id"@);
}

/// Damage has its amount and its type.
pub proof fn law_damage_is_read(annotation: JsonModel, details: Seq<JsonModel>)
    requires
        fields::integer_of(annotation.get("id"@)) is Some,
        first_type_is(annotation, "AnnotationType_DamageDealt"@),
        annotation.get("details"@) == Some(JsonModel::Array(details)),
    ensures
        annotation_payload(annotation) is Some,
        ({
            let payload = annotation_payload(annotation).unwrap();
            &&& takes_int_detail(payload.get("damage"@), details, "damage"@)
            &&& takes_int_detail(payload.get("damage_type"@), details, "type"@)
            &&& payload->Object_0.len() == 7
        }),
{
    lemma_types_told_apart();
    lemma_annotation_members(annotation, details);
    let base = base_fields(annotation, json::int_in(annotation.get("id"@)).unwrap());
    let own = type_fields(annotation_kind(annotation), base, details);
    assert(own[0].0 == "damage"@);
    assert(own[1].0 == "damage_type"@);
    law_details_are_read_by_name(details, "damage"@);
    law_details_are_read_by_name(details, "type"@);
}

/// Added counters have their type and their number.
pub proof fn law_counters_are_read(annotation: JsonModel, details: Seq<JsonModel>)
    requires
        fields::integer_of(annotation.get("id"@)) is Some,
        first_type_is(annotation, "AnnotationType_CounterAdded"@),
        annotation.get("details"@) == Some(JsonModel::Array(details)),
    ensures
        annotation_payload(annotation) is Some,
        ({
            let payload = annotation_payload(annotation).unwrap();
            &&& takes_int_detail(payload.get("counter_type"@), details, "counter_type"@)
            &&& takes_int_detail(payload.get("amount"@), details, "transaction_amount"@)
            &&& payload->Object_0.len() == 7
        }),
{
    lemma_types_told_apart();
    lemma_annotation_members(annotation, details);
    let base = base_fields(annotation, json::int_in(annotation.get("id"@)).unwrap());
    let own = type_fields(annotation_kind(annotation), base, details);
    assert(own[0].0 == "counter_type"@);
    assert(own[1].0 == "amount"@);
    law_details_are_read_by_name(details, "counter_type"@);
    law_details_are_read_by_name(details, "transaction_amount"@);
}

/// A target names the ability and the place of the target.
pub proof fn law_target_is_read(annotation: JsonModel, details: Seq<JsonModel>)
    requires
        fields::integer_of(annotation.get("id"@)) is Some,
        first_type_is(annotation, "AnnotationType_TargetSpec"@),
        annotation.get("details"@) == Some(JsonModel::Array(details)),
    ensures
        annotation_payload(annotation) is Some,
        ({
            let payload = annotation_payload(annotation).unwrap();
            &&& takes_int_detail(payload.get("ability_grp_id"@), details, "abilityGrpId"@)
            &&& takes_int_detail(payload.get("target_index"@), details, "index"@)
            &&& payload->Object_0.len() == 7
        }),
{
    lemma_types_told_apart();
    lemma_annotation_members(annotation, details);
    let base = base_fields(annotation, json::int_in(annotation.get("id"@)).unwrap());
    let own = type_fields(annotation_kind(annotation), base, details);
    assert(own[0].0 == "ability_grp_id"@);
    assert(own[1].0 == "target_index"@);
    law_details_are_read_by_name(details, "abilityGrpId"@);
    law_details_are_read_by_name(details, "index"@);
}

/// A change of life has its amount.
pub proof fn law_life_is_read(annotation: JsonModel, details: Seq<JsonModel>)
    requires
        fields::integer_of(annotation.get("id"@)) is Some,
        first_type_is(annotation, "AnnotationType_ModifiedLife"@),
        annotation.get("details"@) == Some(JsonModel::Array(details)),
    ensures
        annotation_payload(annotation) is Some,
        ({
            let payload = annotation_payload(annotation).unwrap();
            &&& takes_int_detail(payload.get("life"@), details, "life"@)
            &&& payload->Object_0.len() == 6
        }),
{
    lemma_types_told_apart();
    lemma_annotation_members(annotation, details);
    let base = base_fields(annotation, json::int_in(annotation.get("id"@)).unwrap());
    let own = type_fields(annotation_kind(annotation), base, details);
    assert(own[0].0 == "life"@);
    law_details_are_read_by_name(details, "life"@);
}

/// A change of power and toughness has both amounts.
pub proof fn law_power_and_toughness_are_read(annotation: JsonModel, details: Seq<JsonModel>)
    requires
        fields::integer_of(annotation.get("id"@)) is Some,
        first_type_is(annotation, "AnnotationType_PowerToughnessModCreated"@),
        annotation.get("details"@) == Some(JsonModel::Array(details)),
    ensures
        annotation_payload(annotation) is Some,
        ({
            let payload = annotation_payload(annotation).unwrap();
            &&& takes_int_detail(payload.get("power"@), details, "power"@)
            &&& takes_int_detail(payload.get("toughness"@), details, "toughness"@)
            &&& payload->Object_0.len() == 7
        }),
{
    lemma_types_told_apart();
    lemma_annotation_members(annotation, details);
    let base = base_fields(annotation, json::int_in(annotation.get("id"@)).unwrap());
    let own = type_fields(annotation_kind(annotation), base, details);
    assert(own[0].0 == "power"@);
    assert(own[1].0 == "toughness"@);
    law_details_are_read_by_name(details, "power"@);
    law_details_are_read_by_name(details, "toughness"@);
}

/// A triggering object names the zone of its source.
pub proof fn law_trigger_is_read(annotation: JsonModel, details: Seq<JsonModel>)
    requires
        fields::integer_of(annotation.get("id"@)) is Some,
        first_type_is(annotation, "AnnotationType_TriggeringObject"@),
        annotation.get("details"@) == Some(JsonModel::Array(details)),
    ensures
        annotation_payload(annotation) is Some,
        ({
            let payload = annotation_payload(annotation).unwrap();
            &&& takes_int_detail(payload.get("source_zone"@), details, "source_zone"@)
            &&& payload->Object_0.len() == 6
        }),
{
    lemma_types_told_apart();
    lemma_annotation_members(annotation, details);
    let base = base_fields(annotation, json::int_in(annotation.get("id"@)).unwrap());
    let own = type_fields(annotation_kind(annotation), base, details);
    assert(own[0].0 == "source_zone"@);
    law_details_are_read_by_name(details, "source_zone"@);
}

/// A mana payment has its identifier and its color.
pub proof fn law_mana_payment_is_read(annotation: JsonModel, details: Seq<JsonModel>)
    requires
        fields::integer_of(annotation.get("id"@)) is Some,
        first_type_is(annotation, "AnnotationType_ManaPaid"@),
        annotation.get("details"@) == Some(JsonModel::Array(details)),
    ensures
        annotation_payload(annotation) is Some,
        ({
            let payload = annotation_payload(annotation).unwrap();
            &&& takes_int_detail(payload.get("mana_payment_id"@), details, "id"@)
            &&& takes_int_detail(payload.get("color"@), details, "color"@)
            &&& payload->Object_0.len() == 7
        }),
{
    lemma_types_told_apart();
    lemma_annotation_members(annotation, details);
    let base = base_fields(annotation, json::int_in(annotation.get("id"@)).unwrap());
    let own = type_fields(annotation_kind(annotation), base, details);
    assert(own[0].0 == "mana_payment_id"@);
    assert(own[1].0 == "color"@);
    law_details_are_read_by_name(details, "id"@);
    law_details_are_read_by_name(details, "color"@);
}

/// A player's action has its type and the ability it uses.
pub proof fn law_user_action_is_read(annotation: JsonModel, details: Seq<JsonModel>)
    requires
        fields::integer_of(annotation.get("id"@)) is Some,
        first_type_is(annotation, "AnnotationType_UserActionTaken"@),
        annotation.get("details"@) == Some(JsonModel::Array(details)),
    ensures
        annotation_payload(annotation) is Some,
        ({
            let payload = annotation_payload(annotation).unwrap();
            &&& takes_int_detail(payload.get("action_type"@), details, "actionType"@)
            &&& takes_int_detail(payload.get("ability_grp_id"@), details, "abilityGrpId"@)
            &&& payload->Object_0.len() == 7
        }),
{
    lemma_types_told_apart();
    lemma_annotation_members(annotation, details);
    let base = base_fields(annotation, json::int_in(annotation.get("id"@)).unwrap());
    let own = type_fields(annotation_kind(annotation), base, details);
    assert(own[0].0 == "action_type"@);
    assert(own[1].0 == "ability_grp_id"@);
    law_details_are_read_by_name(details, "actionType"@);
    law_details_are_read_by_name(details, "abilityGrpId"@);
}

/// A scry lists the cards put on top and those put on the bottom.
pub proof fn law_scry_is_read(annotation: JsonModel, details: Seq<JsonModel>)
    requires
        fields::integer_of(annotation.get("id"@)) is Some,
        first_type_is(annotation, "AnnotationType_Scry"@),
        annotation.get("details"@) == Some(JsonModel::Array(details)),
    ensures
        annotation_payload(annotation) is Some,
        ({
            let payload = annotation_payload(annotation).unwrap();
            &&& lists_int_detail(payload.get("top_ids"@), details, "topIds"@)
            &&& lists_int_detail(payload.get("bottom_ids"@), details, "bottomIds"@)
            &&& payload->Object_0.len() == 7
        }),
{
    lemma_types_told_apart();
    lemma_annotation_members(annotation, details);
    let base = base_fields(annotation, json::int_in(annotation.get("id"@)).unwrap());
    let own = type_fields(annotation_kind(annotation), base, details);
    assert(own[0].0 == "top_ids"@);
    assert(own[1].0 == "bottom_ids"@);
    law_details_are_read_by_name(details, "topIds"@);
    law_details_are_read_by_name(details, "bottomIds"@);
}

/// A shuffle lists the old identifiers and the new ones.
pub proof fn law_shuffle_is_read(annotation: JsonModel, details: Seq<JsonModel>)
    requires
        fields::integer_of(annotation.get("id"@)) is Some,
        first_type_is(annotation, "AnnotationType_Shuffle"@),
        annotation.get("details"@) == Some(JsonModel::Array(details)),
    ensures
        annotation_payload(annotation) is Some,
        ({
            let payload = annotation_payload(annotation).unwrap();
            &&& lists_int_detail(payload.get("old_ids"@), details, "OldIds"@)
            &&& lists_int_detail(payload.get("new_ids"@), details, "NewIds"@)
            &&& payload->Object_0.len() == 7
        }),
{
    lemma_types_told_apart();
    lemma_annotation_members(annotation, details);
    let base = base_fields(annotation, json::int_in(annotation.get("id"@)).unwrap());
    let own = type_fields(annotation_kind(annotation), base, details);
    assert(own[0].0 == "old_ids"@);
    assert(own[1].0 == "new_ids"@);
    law_details_are_read_by_name(details, "OldIds"@);
    law_details_are_read_by_name(details, "NewIds"@);
}

/// A designation names the first instance that it affects and its type, and has
/// each further field exactly where its details hold it.
pub proof fn law_designation_is_read(annotation: JsonModel, details: Seq<JsonModel>)
    requires
        fields::integer_of(annotation.get("id"@)) is Some,
        first_type_is(annotation, "AnnotationType_Designation"@),
        annotation.get("details"@) == Some(JsonModel::Array(details)),
    ensures
        annotation_payload(annotation) is Some,
        ({
            let payload = annotation_payload(annotation).unwrap();
            &&& payload.get("affected_ids"@) matches Some(JsonModel::Array(affected))
            &&& payload.get("instance_id"@) == if affected.len() > 0 {
                Some(affected[0])
            } else {
                Some(fields::written(0))
            }
            &&& takes_int_detail(payload.get("designation_type"@), details, "DesignationType"@)
            &&& passes_str_detail(payload.get("conjuration_type"@), details, "conjuration_type"@)
            &&& passes_int_detail(payload.get("source_grpid"@), details, "source_grpid"@)
            &&& passes_int_detail(payload.get("grpid"@), details, "grpid"@)
            &&& passes_int_detail(payload.get("value"@), details, "value"@)
            &&& passes_int_detail(payload.get("controller_id"@), details, "ControllerId"@)
            &&& payload->Object_0.len() == 7 + fields::presence(payload.get("conjuration_type"@))
                + fields::presence(payload.get("source_grpid"@)) + fields::presence(payload.get("grpid"@))
                + fields::presence(payload.get("value"@)) + fields::presence(payload.get("controller_id"@))
        }),
{
    lemma_types_told_apart();
    lemma_annotation_members(annotation, details);
    let id = json::int_in(annotation.get("id"@)).unwrap();
    let base = base_fields(annotation, id);
    let own = type_fields(annotation_kind(annotation), base, details);
    let members = annotation_payload(annotation).unwrap()->Object_0;
    law_annotation_is_well_formed(annotation);
    json::lemma_lookup_all(members);
    assert(members[2] == base[2]);
    assert(own[0].0 == "instance_id"@);
    assert(own[1].0 == "designation_type"@);
    law_designation_names_first_affected(annotation, id);
    law_designation_is_permissive(annotation, details);
    law_details_are_read_by_name(details, "DesignationType"@);
    law_details_are_read_by_name(details, "conjuration_type"@);
    law_details_are_read_by_name(details, "source_grpid"@);
    law_details_are_read_by_name(details, "grpid"@);
    law_details_are_read_by_name(details, "value"@);
    law_details_are_read_by_name(details, "ControllerId"@);
}

/// Every annotation with an integer `id` keeps its identifier, what it affects and
/// by what, and its types. One without is left out.
pub proof fn law_annotation_base_is_read(annotation: JsonModel)
    ensures
        annotation_payload(annotation) is Some <==> fields::integer_of(annotation.get("id"@))
            is Some,
        annotation_payload(annotation) matches Some(payload) ==> {
            &&& fields::takes_int(payload.get("id"@), annotation.get("id"@), 0)
            &&& fields::takes_int(payload.get("affector_id"@), annotation.get("affectorId"@), 0)
            &&& fields::lists_ints(payload.get("affected_ids"@), annotation.get("affectedIds"@))
            &&& match annotation.get("type"@) {
                Some(JsonModel::Str(kind)) => {
                    &&& fields::is_str(payload.get("type"@), kind)
                    &&& payload.get("types"@) == Some(JsonModel::Array(seq![JsonModel::Str(kind)]))
                },
                other => {
                    &&& fields::takes_str(payload.get("type"@), front_of(other), ""@)
                    &&& fields::lists_strs(payload.get("types"@), other)
                },
            }
        },
{
    match json::int_in(annotation.get("id"@)) {
        None => {},
        Some(id) => {
            let base = base_fields(annotation, id);
            let members = annotation_payload(annotation).unwrap()->Object_0;
            law_annotation_is_well_formed(annotation);
            json::lemma_lookup_all(members);
            assert forall|i: int| 0 <= i < 5 implies members[i] == #[trigger] base[i] by {}
            assert(members[0] == base[0]);
            assert(members[1] == base[1]);
            assert(members[2] == base[2]);
            assert(members[3] == base[3]);
            assert(members[4] == base[4]);
            fields::lemma_lists_ints(annotation.get("affectedIds"@));
            fields::lemma_lists_strs(annotation.get("type"@));
            match annotation.get("type"@) {
                Some(JsonModel::Str(kind)) => {
                    assert(json::strs_json(seq![kind])->Array_0 =~= seq![JsonModel::Str(kind)]);
                },
                _ => {
                    assert(json::strs_json(Seq::<Seq<char>>::empty())->Array_0 =~= Seq::<
                        JsonModel,
                    >::empty());
                },
            }
        },
    }
}

/// An annotation of a type without fields of its own, or without a list of details,
/// has the fields that every annotation has and no more.
pub proof fn law_plain_annotation_has_no_more(annotation: JsonModel)
    requires
        fields::integer_of(annotation.get("id"@)) is Some,
        !(annotation.get("details"@) matches Some(JsonModel::Array(_))) || {
            &&& !first_type_is(annotation, "AnnotationType_ZoneTransfer"@)
            &&& !first_type_is(annotation, "AnnotationType_ObjectIdChanged"@)
            &&& !first_type_is(annotation, "AnnotationType_DamageDealt"@)
            &&& !first_type_is(annotation, "AnnotationType_CounterAdded"@)
            &&& !first_type_is(annotation, "AnnotationType_TargetSpec"@)
            &&& !first_type_is(annotation, "AnnotationType_ModifiedLife"@)
            &&& !first_type_is(annotation, "AnnotationType_PowerToughnessModCreated"@)
            &&& !first_type_is(annotation, "AnnotationType_TriggeringObject"@)
            &&& !first_type_is(annotation, "AnnotationType_ManaPaid"@)
            &&& !first_type_is(annotation, "AnnotationType_UserActionTaken"@)
            &&& !first_type_is(annotation, "AnnotationType_Scry"@)
            &&& !first_type_is(annotation, "AnnotationType_Shuffle"@)
            &&& !first_type_is(annotation, "AnnotationType_Designation"@)
        },
    ensures
        annotation_payload(annotation) is Some,
        annotation_payload(annotation).unwrap()->Object_0.len() == 5,
{
    lemma_types_told_apart();
    reveal_strlit("");
    assert(""@.len() == 0);
    let id = json::int_in(annotation.get("id"@)).unwrap();
    let base = base_fields(annotation, id);
    let kind = annotation_kind(annotation);
    assert(kind != ""@ ==> first_type_is(annotation, kind));
    assert(base + Seq::<(Seq<char>, JsonModel)>::empty() =~= base);
}

/// The annotations of a list are those of its items with an integer `id`, in order.
pub proof fn law_identified_annotations_are_listed(source: Option<JsonModel>)
    ensures
        fields::lists_identified(
            Some(JsonModel::Array(annotation_list(source))),
            source,
            "id"@,
            |a: JsonModel| annotation_payload(a),
        ),
{
    let f = |a: JsonModel| annotation_payload(a);
    assert forall|v: JsonModel| fields::integer_of(v.get("id"@)) is Some <==> (#[trigger] f(v))
        is Some by {}
    fields::lemma_lists_identified(source, "id"@, f);
}

} // verus!
