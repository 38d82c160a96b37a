//! Turn info extraction from `gameStateMessage.turnInfo`.

use vstd::prelude::*;
use crate::fields;
use crate::json;
use crate::json::{get_field, int_field_or, str_field_or, Json, JsonModel, JsonObject};

verus! {

/// The turn info of a game state message: null where `turnInfo` is absent or
/// no object, otherwise its fields, with defaults for those that are missing.
pub open spec fn turn_info_payload(gsm: Option<JsonModel>) -> JsonModel {
    match json::get_in(gsm, "turnInfo"@) {
        Some(info) => if info is Object {
            JsonModel::Object(
                seq![
                    ("turn_number"@, json::int_json(json::int_or(info.get("turnNumber"@), 0))),
                    ("phase"@, JsonModel::Str(json::str_or(info.get("phase"@), ""@))),
                    ("step"@, JsonModel::Str(json::str_or(info.get("step"@), ""@))),
                    ("active_player"@, json::int_json(json::int_or(info.get("activePlayer"@), 0))),
                    (
                        "decision_player"@,
                        json::int_json(json::int_or(info.get("decisionPlayer"@), 0)),
                    ),
                ],
            )
        } else {
            JsonModel::Null
        },
        None => JsonModel::Null,
    }
}

/// Extracts structured turn info from `gameStateMessage.turnInfo`.
///
/// Null where `turnInfo` is absent or no object. Missing fields of a partial
/// `turnInfo` become `0` or the empty string.
pub fn extract_turn_info(gsm: Option<&Json>) -> (payload: Json)
    ensures
        payload@ == turn_info_payload(json::opt_model(gsm)),
{
    let turn_info = get_field(gsm, "turnInfo");
    match turn_info {
        None => Json::Null,
        Some(info) => {
            if !info.is_object() {
                return Json::Null;
            }
            let mut object = JsonObject::new();
            object.push("turn_number", Json::integer(int_field_or(info.get("turnNumber"), 0)));
            object.push("phase", Json::string(str_field_or(info.get("phase"), "")));
            object.push("step", Json::string(str_field_or(info.get("step"), "")));
            object.push("active_player", Json::integer(int_field_or(info.get("activePlayer"), 0)));
            object.push(
                "decision_player",
                Json::integer(int_field_or(info.get("decisionPlayer"), 0)),
            );
            assert(object@ =~= turn_info_payload(json::opt_model(gsm))->Object_0);
            object.finish()
        },
    }
}

/// Turn info is well formed whatever its source is.
pub proof fn law_turn_info_is_well_formed(gsm: Option<JsonModel>)
    ensures
        json::well_formed(turn_info_payload(gsm)),
{
    reveal_strlit("turn_number");
    reveal_strlit("phase");
    reveal_strlit("step");
    reveal_strlit("active_player");
    reveal_strlit("decision_player");
    assert("turn_number"@.len() == 11 && "phase"@.len() == 5 && "step"@.len() == 4);
    assert("active_player"@.len() == 13 && "decision_player"@.len() == 15);
    if turn_info_payload(gsm) is Object {
        json::lemma_object_well_formed(turn_info_payload(gsm)->Object_0);
    }
}

/// Every field of the turn info comes from the member of its own name. Without an
/// object under `turnInfo` there is none.
pub proof fn law_turn_fields_are_their_own(gsm: Option<JsonModel>)
    ensures
        match json::get_in(gsm, "turnInfo"@) {
            Some(JsonModel::Object(members)) => {
                let info = JsonModel::Object(members);
                let payload = turn_info_payload(gsm);
                &&& fields::takes_int(payload.get("turn_number"@), info.get("turnNumber"@), 0)
                &&& fields::takes_str(payload.get("phase"@), info.get("phase"@), ""@)
                &&& fields::takes_str(payload.get("step"@), info.get("step"@), ""@)
                &&& fields::takes_int(payload.get("active_player"@), info.get("activePlayer"@), 0)
                &&& fields::takes_int(
                    payload.get("decision_player"@),
                    info.get("decisionPlayer"@),
                    0,
                )
                &&& payload->Object_0.len() == 5
            },
            _ => turn_info_payload(gsm) == JsonModel::Null,
        },
{
    if turn_info_payload(gsm) is Object {
        law_turn_info_is_well_formed(gsm);
        let members = turn_info_payload(gsm)->Object_0;
        json::lemma_lookup_all(members);
        assert(members[0].0 == "turn_number"@);
        assert(members[1].0 == "phase"@);
        assert(members[2].0 == "step"@);
        assert(members[3].0 == "active_player"@);
        assert(members[4].0 == "decision_player"@);
    }
}

} // verus!
