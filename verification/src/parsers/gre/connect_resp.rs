//! `ConnectResp` payload builder for GRE `GREMessageType_ConnectResp` messages.

use vstd::prelude::*;
use crate::fields;
use crate::json;
use crate::json::{get_field, int_field_or, int_items, value_field_or, Json, JsonModel, JsonObject};

verus! {

/// The payload of a `ConnectResp` message in an event.
pub open spec fn connect_resp_payload(msg: JsonModel, full_event: JsonModel) -> JsonModel {
    let resp = msg.get("connectResp"@);
    let deck = json::get_in(resp, "deckMessage"@);
    JsonModel::Object(
        seq![
            ("type"@, JsonModel::Str("connect_resp"@)),
            ("deck_cards"@, json::ints_json(json::ints_in(json::get_in(deck, "deckCards"@)))),
            (
                "sideboard_cards"@,
                json::ints_json(json::ints_in(json::get_in(deck, "sideboardCards"@))),
            ),
            ("system_seat_ids"@, json::ints_json(json::ints_in(msg.get("systemSeatIds"@)))),
            ("msg_id"@, json::int_json(json::int_or(msg.get("msgId"@), 0))),
            ("game_state_id"@, json::int_json(json::int_or(msg.get("gameStateId"@), 0))),
            (
                "settings"@,
                json::value_or(json::get_in(resp, "settings"@), JsonModel::Object(Seq::empty())),
            ),
            ("raw_connect_resp"@, full_event),
        ],
    )
}

/// Builds a structured payload from the `ConnectResp` message.
///
/// Extracts key fields from the nested JSON structure into a flat(ter) payload
/// for downstream consumers (deck tracker, overlay).
pub fn build_connect_resp_payload(connect_resp_msg: &Json, full_event: &Json) -> (payload: Json)
    ensures
        payload@ == connect_resp_payload(connect_resp_msg@, full_event@),
{
    let connect_resp = connect_resp_msg.get("connectResp");
    let deck_message = get_field(connect_resp, "deckMessage");
    let deck_cards = extract_card_ids(get_field(deck_message, "deckCards"));
    let sideboard_cards = extract_card_ids(get_field(deck_message, "sideboardCards"));
    let system_seat_ids = int_items(connect_resp_msg.get("systemSeatIds"));

    let mut object = JsonObject::new();
    object.push("type", Json::string("connect_resp"));
    object.push("deck_cards", Json::ints(deck_cards));
    object.push("sideboard_cards", Json::ints(sideboard_cards));
    object.push("system_seat_ids", Json::ints(system_seat_ids));
    object.push("msg_id", Json::integer(int_field_or(connect_resp_msg.get("msgId"), 0)));
    object.push(
        "game_state_id",
        Json::integer(int_field_or(connect_resp_msg.get("gameStateId"), 0)),
    );
    object.push(
        "settings",
        value_field_or(get_field(connect_resp, "settings"), JsonObject::new().finish()),
    );
    object.push("raw_connect_resp", full_event.clone());
    assert(object@ =~= connect_resp_payload(connect_resp_msg@, full_event@)->Object_0);
    object.finish()
}

/// Extracts an array of card GRP IDs from a JSON array value.
///
/// Collects all integer values of the array, silently skipping any non-integer
/// entries.
pub fn extract_card_ids(cards_value: Option<&Json>) -> (ids: Vec<i64>)
    ensures
        ids@ == json::ints_in(json::opt_model(cards_value)),
{
    int_items(cards_value)
}

/// The payload of a connection response is well formed where its event is.
pub proof fn law_connect_resp_is_well_formed(msg: JsonModel, full_event: JsonModel)
    requires
        json::well_formed(msg),
        json::well_formed(full_event),
    ensures
        json::well_formed(connect_resp_payload(msg, full_event)),
{
    lemma_names_differ(msg, full_event);
    let resp = msg.get("connectResp"@);
    let deck = json::get_in(resp, "deckMessage"@);
    json::lemma_get_well_formed(msg, "connectResp"@);
    json::lemma_get_in_well_formed(resp, "settings"@);
    json::lemma_lists_well_formed(json::ints_in(json::get_in(deck, "deckCards"@)), Seq::empty());
    json::lemma_lists_well_formed(
        json::ints_in(json::get_in(deck, "sideboardCards"@)),
        Seq::empty(),
    );
    json::lemma_lists_well_formed(json::ints_in(msg.get("systemSeatIds"@)), Seq::empty());
    json::lemma_object_well_formed(connect_resp_payload(msg, full_event)->Object_0);
}

/// The names of a connection response are told apart.
proof fn lemma_names_differ(msg: JsonModel, full_event: JsonModel)
    ensures
        json::distinct_names(connect_resp_payload(msg, full_event)->Object_0),
{
    reveal_strlit("type");
    reveal_strlit("deck_cards");
    reveal_strlit("sideboard_cards");
    reveal_strlit("system_seat_ids");
    reveal_strlit("msg_id");
    reveal_strlit("game_state_id");
    reveal_strlit("settings");
    reveal_strlit("raw_connect_resp");
    assert("type"@.len() == 4 && "deck_cards"@.len() == 10 && "sideboard_cards"@.len() == 15);
    assert("system_seat_ids"@.len() == 15 && "msg_id"@.len() == 6);
    assert("game_state_id"@.len() == 13 && "settings"@.len() == 8);
    assert("raw_connect_resp"@.len() == 16);
    assert("sideboard_cards"@[1] == 'i' && "system_seat_ids"@[1] == 'y');
}

/// Every field of a connection response comes from the member of its own name: the
/// deck and the sideboard from the deck message, the seats and numbers from the
/// message, the settings from the response. The whole event is kept.
pub proof fn law_connection_fields_are_their_own(msg: JsonModel, full_event: JsonModel)
    ensures
        ({
            let payload = connect_resp_payload(msg, full_event);
            let resp = msg.get("connectResp"@);
            let deck = json::get_in(resp, "deckMessage"@);
            &&& fields::is_str(payload.get("type"@), "connect_resp"@)
            &&& fields::lists_ints(payload.get("deck_cards"@), json::get_in(deck, "deckCards"@))
            &&& fields::lists_ints(
                payload.get("sideboard_cards"@),
                json::get_in(deck, "sideboardCards"@),
            )
            &&& fields::lists_ints(payload.get("system_seat_ids"@), msg.get("systemSeatIds"@))
            &&& fields::takes_int(payload.get("msg_id"@), msg.get("msgId"@), 0)
            &&& fields::takes_int(payload.get("game_state_id"@), msg.get("gameStateId"@), 0)
            &&& fields::takes_value(
                payload.get("settings"@),
                json::get_in(resp, "settings"@),
                JsonModel::Object(Seq::empty()),
            )
            &&& payload.get("raw_connect_resp"@) == Some(full_event)
            &&& payload->Object_0.len() == 8
        }),
{
    lemma_names_differ(msg, full_event);
    let deck = json::get_in(msg.get("connectResp"@), "deckMessage"@);
    let members = connect_resp_payload(msg, full_event)->Object_0;
    json::lemma_lookup_all(members);
    assert(members[0].0 == "type"@);
    assert(members[1].0 == "deck_cards"@);
    assert(members[2].0 == "sideboard_cards"@);
    assert(members[3].0 == "system_seat_ids"@);
    assert(members[4].0 == "msg_id"@);
    assert(members[5].0 == "game_state_id"@);
    assert(members[6].0 == "settings"@);
    assert(members[7].0 == "raw_connect_resp"@);
    fields::lemma_lists_ints(json::get_in(deck, "deckCards"@));
    fields::lemma_lists_ints(json::get_in(deck, "sideboardCards"@));
    fields::lemma_lists_ints(msg.get("systemSeatIds"@));
}

} // verus!
