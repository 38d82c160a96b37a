//! Game result detection and payload builder for `GameStage_GameOver` messages.

use vstd::prelude::*;
use crate::fields;
use crate::json;
use crate::json::{
    array_field, get_field, int_field_or, str_field, str_field_or, value_field_or, Json, JsonModel,
    JsonObject,
};
use crate::text::str_eq;

verus! {

/// Game info stage value indicating the game has ended.
pub const GAME_STAGE_GAME_OVER: &'static str = "GameStage_GameOver";

/// Match state value indicating the overall match has ended.
pub const MATCH_STATE_MATCH_COMPLETE: &'static str = "MatchState_MatchComplete";

/// Scope of a result that is about one game.
pub const MATCH_SCOPE_GAME: &'static str = "MatchScope_Game";

/// The `gameInfo` of a message.
pub open spec fn game_info_of(msg: JsonModel) -> Option<JsonModel> {
    json::get_in(msg.get("gameStateMessage"@), "gameInfo"@)
}

/// Whether a message is about a finished game.
pub open spec fn game_over(msg: JsonModel) -> bool {
    json::str_in(json::get_in(game_info_of(msg), "stage"@)) == Some(GAME_STAGE_GAME_OVER@)
}

/// Whether a message is about a finished match.
pub open spec fn match_complete(msg: JsonModel) -> bool {
    json::str_in(json::get_in(game_info_of(msg), "matchState"@)) == Some(MATCH_STATE_MATCH_COMPLETE@)
}

/// Whether a value is an array with at least one item.
pub open spec fn nonempty_array(value: Option<JsonModel>) -> bool {
    match json::array_in(value) {
        Some(items) => items.len() > 0,
        None => false,
    }
}

/// Whether a message carries annotations of either sort.
pub open spec fn annotated(msg: JsonModel) -> bool {
    let gsm = msg.get("gameStateMessage"@);
    nonempty_array(json::get_in(gsm, "annotations"@)) || nonempty_array(
        json::get_in(gsm, "persistentAnnotations"@),
    )
}

/// Whether the string in `value` is `expected`.
fn is_str(value: Option<&Json>, expected: &str) -> (b: bool)
    ensures
        b == (json::str_in(json::opt_model(value)) == Some(expected@)),
{
    match str_field(value) {
        Some(s) => str_eq(s, expected),
        None => false,
    }
}

fn game_info_field(gre_msg: &Json) -> (info: Option<&Json>)
    ensures
        json::opt_model(info) == game_info_of(gre_msg@),
{
    get_field(gre_msg.get("gameStateMessage"), "gameInfo")
}

/// Returns `true` if the GRE message contains `GameStage_GameOver` in
/// `gameStateMessage.gameInfo.stage`.
pub fn is_game_over(gre_msg: &Json) -> (over: bool)
    ensures
        over == game_over(gre_msg@),
{
    is_str(get_field(game_info_field(gre_msg), "stage"), GAME_STAGE_GAME_OVER)
}

/// Returns `true` if the GRE message has
/// `matchState == MatchState_MatchComplete`.
///
/// Arena batches two `GameStage_GameOver` messages per game end:
/// `MatchState_GameComplete` (game scope) and `MatchState_MatchComplete` (match
/// scope). Only the game-complete signal is emitted, to avoid duplicates and to
/// keep consistent semantics for Bo1 and Bo3.
pub fn is_match_complete(gre_msg: &Json) -> (complete: bool)
    ensures
        complete == match_complete(gre_msg@),
{
    is_str(get_field(game_info_field(gre_msg), "matchState"), MATCH_STATE_MATCH_COMPLETE)
}

fn is_nonempty_array(value: Option<&Json>) -> (b: bool)
    ensures
        b == nonempty_array(json::opt_model(value)),
{
    match array_field(value) {
        Some(items) => items.len() > 0,
        None => false,
    }
}

/// Returns `true` if the GRE message's `gameStateMessage` carries any
/// annotation data: a non-empty `annotations` or `persistentAnnotations` array.
///
/// The killing damage that ends a match rides in the annotations of the
/// game-over message, so such a message is also emitted as a game state.
pub fn has_annotation_data(gre_msg: &Json) -> (b: bool)
    ensures
        b == annotated(gre_msg@),
{
    let gsm = gre_msg.get("gameStateMessage");
    is_nonempty_array(get_field(gsm, "annotations")) || is_nonempty_array(
        get_field(gsm, "persistentAnnotations"),
    )
}

/// Whether a result is about one game.
pub open spec fn game_scoped(result: JsonModel) -> bool {
    json::str_in(result.get("scope"@)) == Some(MATCH_SCOPE_GAME@)
}

/// The last of the results that is about one game.
pub open spec fn latest_game_result(results: Seq<JsonModel>) -> Option<JsonModel>
    decreases results.len(),
{
    if results.len() == 0 {
        None
    } else if game_scoped(results.last()) {
        Some(results.last())
    } else {
        latest_game_result(results.drop_last())
    }
}

/// The last result in a message's `gameInfo` that is about one game.
pub open spec fn game_result_of(msg: JsonModel) -> Option<JsonModel> {
    match json::array_in(json::get_in(game_info_of(msg), "results"@)) {
        Some(results) => latest_game_result(results),
        None => None,
    }
}

/// The payload of a game result message.
pub open spec fn game_result_payload(msg: JsonModel) -> JsonModel {
    let info = game_info_of(msg);
    let result = game_result_of(msg);
    JsonModel::Object(
        seq![
            ("type"@, JsonModel::Str("game_result"@)),
            ("source"@, JsonModel::Str("gre_game_state"@)),
            ("stage"@, JsonModel::Str(json::str_or(json::get_in(info, "stage"@), ""@))),
            ("match_state"@, JsonModel::Str(json::str_or(json::get_in(info, "matchState"@), ""@))),
            (
                "results"@,
                json::value_or(json::get_in(info, "results"@), JsonModel::Array(Seq::empty())),
            ),
            (
                "winning_team_id"@,
                json::int_json(json::int_or(json::get_in(result, "winningTeamId"@), 0)),
            ),
            ("result_type"@, JsonModel::Str(json::str_or(json::get_in(result, "result"@), ""@))),
            ("reason"@, JsonModel::Str(json::str_or(json::get_in(result, "reason"@), ""@))),
            ("game_info"@, json::value_or(info, JsonModel::Null)),
        ],
    )
}

/// Searches the results from the back: new ones are appended in Bo3 matches,
/// and the latest is the one that counts.
fn find_game_result(value: Option<&Json>) -> (found: Option<&Json>)
    ensures
        json::opt_model(found) == match json::array_in(json::opt_model(value)) {
            Some(results) => latest_game_result(results),
            None => None,
        },
{
    match array_field(value) {
        None => None,
        Some(results) => {
            let ghost all = json::item_models(results@);
            let mut n: usize = results.len();
            assert(all.take(n as int) =~= all);
            while n > 0
                invariant
                    n <= results@.len(),
                    all == json::item_models(results@),
                    json::array_in(json::opt_model(value)) == Some(all),
                    latest_game_result(all) == latest_game_result(all.take(n as int)),
                decreases n,
            {
                assert(all.take(n as int).drop_last() =~= all.take(n - 1));
                if is_str(results[n - 1].get("scope"), MATCH_SCOPE_GAME) {
                    return Some(&results[n - 1]);
                }
                n -= 1;
            }
            None
        },
    }
}

/// Builds a structured payload for a game result extracted from a GRE
/// `GameStateMessage` with `GameStage_GameOver`.
///
/// The output payload has the shape:
///
/// ```json
/// {
///   "type": "game_result",
///   "source": "gre_game_state",
///   "stage": "GameStage_GameOver",
///   "match_state": "MatchState_GameComplete",
///   "results": [...],
///   "winning_team_id": 1,
///   "result_type": "ResultType_WinLoss",
///   "reason": "ResultReason_Game",
///   "game_info": { ... }
/// }
/// ```
pub fn build_game_result_payload(gre_msg: &Json) -> (payload: Json)
    ensures
        payload@ == game_result_payload(gre_msg@),
{
    let game_info = game_info_field(gre_msg);
    let result = find_game_result(get_field(game_info, "results"));
    let mut object = JsonObject::new();
    object.push("type", Json::string("game_result"));
    object.push("source", Json::string("gre_game_state"));
    object.push("stage", Json::string(str_field_or(get_field(game_info, "stage"), "")));
    object.push("match_state", Json::string(str_field_or(get_field(game_info, "matchState"), "")));
    object.push(
        "results",
        value_field_or(get_field(game_info, "results"), Json::array(Vec::new())),
    );
    object.push(
        "winning_team_id",
        Json::integer(int_field_or(get_field(result, "winningTeamId"), 0)),
    );
    object.push("result_type", Json::string(str_field_or(get_field(result, "result"), "")));
    object.push("reason", Json::string(str_field_or(get_field(result, "reason"), "")));
    object.push("game_info", value_field_or(game_info, Json::Null));
    assert(object@ =~= game_result_payload(gre_msg@)->Object_0) by {
        assert(json::item_models(Seq::<Json>::empty()) =~= Seq::<JsonModel>::empty());
    }
    object.finish()
}

// ---------------------------------------------------------------------------
// Laws
// ---------------------------------------------------------------------------

/// The result that counts is the last one about a game: no later one is.
pub proof fn law_latest_result_counts(results: Seq<JsonModel>)
    ensures
        match latest_game_result(results) {
            Some(r) => exists|i: int|
                0 <= i < results.len() && #[trigger] results[i] == r && game_scoped(r) && (forall|
                    j: int,
                |
                    i < j < results.len() ==> !game_scoped(#[trigger] results[j])),
            None => forall|j: int| 0 <= j < results.len() ==> !game_scoped(#[trigger] results[j]),
        },
    decreases results.len(),
{
    if results.len() > 0 {
        let n = results.len() - 1;
        if game_scoped(results.last()) {
            assert(results[n] == results.last());
        } else {
            let front = results.drop_last();
            law_latest_result_counts(front);
            assert forall|j: int| 0 <= j < n implies front[j] == #[trigger] results[j] by {}
            match latest_game_result(front) {
                Some(r) => {
                    let i = choose|i: int|
                        0 <= i < front.len() && #[trigger] front[i] == r && game_scoped(r) && (
                        forall|j: int|
                            i < j < front.len() ==> !game_scoped(#[trigger] front[j]));
                    assert(results[i] == r);
                    assert forall|j: int| i < j < results.len() implies !game_scoped(
                        #[trigger] results[j],
                    ) by {
                        if j < n {
                            assert(!game_scoped(front[j]));
                        }
                    }
                },
                None => {
                    assert forall|j: int| 0 <= j < results.len() implies !game_scoped(
                        #[trigger] results[j],
                    ) by {
                        if j < n {
                            assert(!game_scoped(front[j]));
                        }
                    }
                },
            }
        }
    }
}

/// A result about a game that is appended is the one that counts from then on.
pub proof fn law_appended_result_counts(results: Seq<JsonModel>, result: JsonModel)
    requires
        game_scoped(result),
    ensures
        latest_game_result(results.push(result)) == Some(result),
{
    assert(results.push(result).last() == result);
}

/// A result about the match as a whole does not replace that of its last game.
pub proof fn law_match_result_is_passed_over(results: Seq<JsonModel>, result: JsonModel)
    requires
        !game_scoped(result),
    ensures
        latest_game_result(results.push(result)) == latest_game_result(results),
{
    assert(results.push(result).drop_last() =~= results);
}

/// The payload of a game result is well formed where its message is.
pub proof fn law_game_result_is_well_formed(msg: JsonModel)
    requires
        json::well_formed(msg),
    ensures
        json::well_formed(game_result_payload(msg)),
{
    lemma_names_differ(msg);
    json::lemma_get_well_formed(msg, "gameStateMessage"@);
    json::lemma_get_in_well_formed(msg.get("gameStateMessage"@), "gameInfo"@);
    json::lemma_get_in_well_formed(game_info_of(msg), "results"@);
    json::lemma_object_well_formed(game_result_payload(msg)->Object_0);
}

/// The names of a game result are told apart.
proof fn lemma_names_differ(msg: JsonModel)
    ensures
        json::distinct_names(game_result_payload(msg)->Object_0),
{
    reveal_strlit("type");
    reveal_strlit("source");
    reveal_strlit("stage");
    reveal_strlit("match_state");
    reveal_strlit("results");
    reveal_strlit("winning_team_id");
    reveal_strlit("result_type");
    reveal_strlit("reason");
    reveal_strlit("game_info");
    assert("type"@.len() == 4 && "source"@.len() == 6 && "stage"@.len() == 5);
    assert("match_state"@.len() == 11 && "results"@.len() == 7 && "winning_team_id"@.len() == 15);
    assert("result_type"@.len() == 11 && "reason"@.len() == 6 && "game_info"@.len() == 9);
    assert("source"@[0] == 's' && "reason"@[0] == 'r' && "match_state"@[0] == 'm');
    assert("result_type"@[0] == 'r');
}

/// The fields of a game result come from the last result about a game in the
/// message's list, all three from that one, whatever stands before it and
/// whatever results of the match stand behind it.
pub proof fn law_result_is_of_latest_game(
    msg: JsonModel,
    before: Seq<JsonModel>,
    result: JsonModel,
    after: Seq<JsonModel>,
)
    requires
        json::get_in(
            json::get_in(msg.get("gameStateMessage"@), "gameInfo"@),
            "results"@,
        ) == Some(JsonModel::Array(before.push(result) + after)),
        fields::is_str(result.get("scope"@), "MatchScope_Game"@),
        forall|i: int|
            0 <= i < after.len() ==> !fields::is_str(
                (#[trigger] after[i]).get("scope"@),
                "MatchScope_Game"@,
            ),
    ensures
        ({
            let payload = game_result_payload(msg);
            &&& fields::takes_int(
                payload.get("winning_team_id"@),
                result.get("winningTeamId"@),
                0,
            )
            &&& fields::takes_str(payload.get("result_type"@), result.get("result"@), ""@)
            &&& fields::takes_str(payload.get("reason"@), result.get("reason"@), ""@)
        }),
{
    lemma_latest_is(before, result, after);
    lemma_names_differ(msg);
    let members = game_result_payload(msg)->Object_0;
    json::lemma_lookup_all(members);
    assert(members[5].0 == "winning_team_id"@);
    assert(members[6].0 == "result_type"@);
    assert(members[7].0 == "reason"@);
}

proof fn lemma_latest_is(before: Seq<JsonModel>, result: JsonModel, after: Seq<JsonModel>)
    requires
        game_scoped(result),
        forall|i: int| 0 <= i < after.len() ==> !game_scoped(#[trigger] after[i]),
    ensures
        latest_game_result(before.push(result) + after) == Some(result),
    decreases after.len(),
{
    let all = before.push(result) + after;
    if after.len() == 0 {
        assert(all =~= before.push(result));
        assert(all.last() == result);
    } else {
        let rest = after.drop_last();
        assert(all.last() == after[after.len() - 1]);
        assert(all.drop_last() =~= before.push(result) + rest);
        assert forall|i: int| 0 <= i < rest.len() implies !game_scoped(#[trigger] rest[i]) by {
            assert(rest[i] == after[i]);
        }
        lemma_latest_is(before, result, rest);
    }
}

/// Where no result is about a game, or there is no list of them, the fields are
/// zero and empty.
pub proof fn law_result_without_game_is_blank(msg: JsonModel)
    requires
        match json::get_in(
            json::get_in(msg.get("gameStateMessage"@), "gameInfo"@),
            "results"@,
        ) {
            Some(JsonModel::Array(results)) => forall|i: int|
                0 <= i < results.len() ==> !fields::is_str(
                    (#[trigger] results[i]).get("scope"@),
                    "MatchScope_Game"@,
                ),
            _ => true,
        },
    ensures
        fields::is_int(game_result_payload(msg).get("winning_team_id"@), 0),
        fields::is_str(game_result_payload(msg).get("result_type"@), ""@),
        fields::is_str(game_result_payload(msg).get("reason"@), ""@),
{
    match json::array_in(json::get_in(game_info_of(msg), "results"@)) {
        Some(results) => {
            assert forall|i: int| 0 <= i < results.len() implies !game_scoped(
                #[trigger] results[i],
            ) by {
                assert(!fields::is_str(results[i].get("scope"@), "MatchScope_Game"@));
            }
            law_latest_result_counts(results);
        },
        None => {},
    }
    lemma_names_differ(msg);
    let members = game_result_payload(msg)->Object_0;
    json::lemma_lookup_all(members);
    assert(members[5].0 == "winning_team_id"@);
    assert(members[6].0 == "result_type"@);
    assert(members[7].0 == "reason"@);
}

/// The other fields of a game result are those of the message's `gameInfo`, and
/// there are no more.
pub proof fn law_result_keeps_game_info(msg: JsonModel)
    ensures
        ({
            let payload = game_result_payload(msg);
            let info = json::get_in(msg.get("gameStateMessage"@), "gameInfo"@);
            &&& fields::is_str(payload.get("type"@), "game_result"@)
            &&& fields::is_str(payload.get("source"@), "gre_game_state"@)
            &&& fields::takes_str(payload.get("stage"@), json::get_in(info, "stage"@), ""@)
            &&& fields::takes_str(
                payload.get("match_state"@),
                json::get_in(info, "matchState"@),
                ""@,
            )
            &&& fields::takes_value(
                payload.get("results"@),
                json::get_in(info, "results"@),
                JsonModel::Array(Seq::empty()),
            )
            &&& fields::takes_value(payload.get("game_info"@), info, JsonModel::Null)
            &&& payload->Object_0.len() == 9
        }),
{
    lemma_names_differ(msg);
    let members = game_result_payload(msg)->Object_0;
    json::lemma_lookup_all(members);
    assert(members[0].0 == "type"@);
    assert(members[1].0 == "source"@);
    assert(members[2].0 == "stage"@);
    assert(members[3].0 == "match_state"@);
    assert(members[4].0 == "results"@);
    assert(members[8].0 == "game_info"@);
}

/// A game is over where the stage says so, and a match where its state says so.
pub proof fn law_ends_are_told_by_game_info(msg: JsonModel)
    ensures
        ({
            let info = json::get_in(msg.get("gameStateMessage"@), "gameInfo"@);
            &&& game_over(msg) <==> fields::is_str(
                json::get_in(info, "stage"@),
                "GameStage_GameOver"@,
            )
            &&& match_complete(msg) <==> fields::is_str(
                json::get_in(info, "matchState"@),
                "MatchState_MatchComplete"@,
            )
        }),
{
}

/// A message carries annotations where either list of them has an item.
pub proof fn law_annotated_where_a_list_has_items(msg: JsonModel)
    ensures
        ({
            let gsm = msg.get("gameStateMessage"@);
            annotated(msg) <==> {
                ||| json::get_in(gsm, "annotations"@) matches Some(JsonModel::Array(items))
                    && items.len() > 0
                ||| json::get_in(gsm, "persistentAnnotations"@) matches Some(
                    JsonModel::Array(items),
                ) && items.len() > 0
            }
        }),
{
}

} // verus!
