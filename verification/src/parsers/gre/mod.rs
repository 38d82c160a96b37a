//! GRE message parsers for `greToClientEvent` payloads.
//!
//! Covers `GameStateMessage` (zones, game objects), `ConnectResp` (initial game
//! configuration), `QueuedGameStateMessage`, and low-value noise types
//! (`UIMessage`, `TimerStateMessage`, `SetSettingsResp`).
//!
//! # Message types handled
//!
//! | GRE Type | Payload Key | Extracted Fields |
//! |----------|-------------|------------------|
//! | `GREMessageType_ConnectResp` | `connectResp` | Decklist, sideboard, seat IDs, settings |
//! | `GREMessageType_GameStateMessage` | `gameStateMessage` | Zones, game objects, game info |
//! | `GREMessageType_QueuedGameStateMessage` | `gameStateMessage` | Same as `GameStateMessage` |
//! | `GREMessageType_UIMessage` | | Claimed as noise (emotes, hover notifications) |
//! | `GREMessageType_TimerStateMessage` | | Claimed as noise (turn timer state) |
//! | `GREMessageType_SetSettingsResp` | | Claimed as noise (settings acknowledgment) |
//!
//! One log entry may hold several messages. A `ConnectResp` is emitted first,
//! then every game state message in the order of the entry. Where none of these
//! gives an event, the entry is claimed for the noise it holds.
//!
//! Most messages are emitted as game states. When `gameInfo.stage` equals
//! `GameStage_GameOver` a message is emitted as a game result, behind a game
//! state where it carries annotations. The message that ends the match as a
//! whole repeats the result of its last game and is not emitted.

use vstd::prelude::*;
use crate::events;
use crate::events::{
    EventKind, EventMetadata, EventModel, GameEvent, GameResultEvent, GameStateEvent, MetadataModel,
};
use crate::fields;
use crate::json;
use crate::json::{array_field, get_field, str_field, Json, JsonModel, JsonObject};
use crate::log::entry::LogEntry;
use crate::log::timestamp::Timestamp;
use crate::parsers::api_common;
use crate::parsers::api_common::parse_json_from_body;
use crate::text;
use crate::text::{contains, str_eq};

pub mod annotations;
pub mod connect_resp;
pub mod game_result;
pub mod game_state;
pub mod helpers;
pub mod turn_info;

verus! {

/// Marker that identifies a GRE-to-client event entry in the log.
pub const GRE_TO_CLIENT_MARKER: &'static str = "greToClientEvent";

/// GRE message type for the initial connection response.
pub const CONNECT_RESP_TYPE: &'static str = "GREMessageType_ConnectResp";

/// GRE message type for game state updates.
pub const GAME_STATE_MESSAGE_TYPE: &'static str = "GREMessageType_GameStateMessage";

/// GRE message type for UI messages (opponent emotes, hover notifications).
pub const UI_MESSAGE_TYPE: &'static str = "GREMessageType_UIMessage";

/// GRE message type for turn timer state updates.
pub const TIMER_STATE_MESSAGE_TYPE: &'static str = "GREMessageType_TimerStateMessage";

/// GRE message type for settings acknowledgment responses.
pub const SET_SETTINGS_RESP_TYPE: &'static str = "GREMessageType_SetSettingsResp";

// ---------------------------------------------------------------------------
// What an entry's messages are emitted as
// ---------------------------------------------------------------------------

/// The messages of an event, nested under `greToClientEvent` or at the top
/// level. Nothing where there is no array of them or it is empty.
pub open spec fn messages_in(parsed: JsonModel) -> Option<Seq<JsonModel>> {
    let nested = json::get_in(parsed.get("greToClientEvent"@), "greToClientMessages"@);
    let value = match nested {
        Some(_) => nested,
        None => parsed.get("greToClientMessages"@),
    };
    match json::array_in(value) {
        Some(messages) => if messages.len() > 0 {
            Some(messages)
        } else {
            None
        },
        None => None,
    }
}

/// Whether a message is of the given type.
pub open spec fn is_type(msg: JsonModel, msg_type: Seq<char>) -> bool {
    json::str_in(msg.get("type"@)) == Some(msg_type)
}

/// The first message of the given type.
pub open spec fn message_of_type(
    messages: Seq<JsonModel>,
    msg_type: Seq<char>,
) -> Option<JsonModel>
    decreases messages.len(),
{
    if messages.len() == 0 {
        None
    } else if is_type(messages[0], msg_type) {
        Some(messages[0])
    } else {
        message_of_type(messages.drop_first(), msg_type)
    }
}

/// Whether a message holds a game state, queued or not.
pub open spec fn is_game_state(msg: JsonModel) -> bool {
    is_type(msg, GAME_STATE_MESSAGE_TYPE@) || is_type(
        msg,
        game_state::QUEUED_GAME_STATE_MESSAGE_TYPE@,
    )
}

/// A game state event with the given payload.
pub open spec fn state_event(payload: JsonModel, metadata: MetadataModel) -> EventModel {
    EventModel { kind: EventKind::GameState, metadata, payload }
}

/// A game result event with the given payload.
pub open spec fn result_event(payload: JsonModel, metadata: MetadataModel) -> EventModel {
    EventModel { kind: EventKind::GameResult, metadata, payload }
}

/// What one game state message is emitted as.
pub open spec fn message_events(msg: JsonModel, metadata: MetadataModel) -> Seq<EventModel> {
    let state = state_event(game_state::game_state_payload(msg), metadata);
    let result = result_event(game_result::game_result_payload(msg), metadata);
    if !game_result::game_over(msg) {
        seq![state]
    } else if game_result::match_complete(msg) {
        Seq::empty()
    } else if game_result::annotated(msg) {
        seq![state, result]
    } else {
        seq![result]
    }
}

/// What the game state messages among the given ones are emitted as, in their
/// order.
pub open spec fn game_state_events(
    messages: Seq<JsonModel>,
    metadata: MetadataModel,
) -> Seq<EventModel>
    decreases messages.len(),
{
    if messages.len() == 0 {
        Seq::empty()
    } else {
        let front = game_state_events(messages.drop_last(), metadata);
        if is_game_state(messages.last()) {
            front + message_events(messages.last(), metadata)
        } else {
            front
        }
    }
}

/// What the first connection response is emitted as.
pub open spec fn connect_events(
    messages: Seq<JsonModel>,
    parsed: JsonModel,
    metadata: MetadataModel,
) -> Seq<EventModel> {
    match message_of_type(messages, CONNECT_RESP_TYPE@) {
        Some(msg) => seq![
            state_event(connect_resp::connect_resp_payload(msg, parsed), metadata),
        ],
        None => Seq::empty(),
    }
}

/// The payload that claims an entry for a type of noise.
pub open spec fn noise_payload(msg_type: Seq<char>) -> JsonModel {
    JsonModel::Object(seq![("recognized_type"@, JsonModel::Str(msg_type))])
}

/// The type of noise that an entry is claimed for.
pub open spec fn noise_type(messages: Seq<JsonModel>) -> Option<Seq<char>> {
    if message_of_type(messages, UI_MESSAGE_TYPE@) is Some {
        Some(UI_MESSAGE_TYPE@)
    } else if message_of_type(messages, TIMER_STATE_MESSAGE_TYPE@) is Some {
        Some(TIMER_STATE_MESSAGE_TYPE@)
    } else if message_of_type(messages, SET_SETTINGS_RESP_TYPE@) is Some {
        Some(SET_SETTINGS_RESP_TYPE@)
    } else {
        None
    }
}

/// What noise is emitted as.
pub open spec fn noise_events(
    messages: Seq<JsonModel>,
    metadata: MetadataModel,
) -> Seq<EventModel> {
    match noise_type(messages) {
        Some(t) => seq![state_event(noise_payload(t), metadata)],
        None => Seq::empty(),
    }
}

/// The events that are not noise.
pub open spec fn real_events(
    messages: Seq<JsonModel>,
    parsed: JsonModel,
    metadata: MetadataModel,
) -> Seq<EventModel> {
    connect_events(messages, parsed, metadata) + game_state_events(messages, metadata)
}

/// What an event is emitted as: noise only where there is nothing else.
pub open spec fn gre_events(parsed: JsonModel, metadata: MetadataModel) -> Seq<EventModel> {
    match messages_in(parsed) {
        Some(messages) => {
            let found = real_events(messages, parsed, metadata);
            if found.len() > 0 {
                found
            } else {
                noise_events(messages, metadata)
            }
        },
        None => Seq::empty(),
    }
}

/// What an entry with the given text and time is emitted as.
pub open spec fn gre_claim(body: Seq<char>, timestamp: Option<Timestamp>) -> Seq<EventModel> {
    if text::has_text(body, GRE_TO_CLIENT_MARKER@) {
        match api_common::body_json(body) {
            Some(parsed) => gre_events(parsed, events::entry_metadata(timestamp, body)),
            None => Seq::empty(),
        }
    } else {
        Seq::empty()
    }
}

// ---------------------------------------------------------------------------
// Entry points
// ---------------------------------------------------------------------------

/// Attempts to parse a [`LogEntry`] as a GRE event.
///
/// Returns the events that the entry's messages are emitted as, or none where
/// the entry does not match.
///
/// The `timestamp` is `None` when the log entry header did not contain a
/// parseable timestamp. It is passed through to [`EventMetadata`] so that
/// downstream consumers can distinguish real and missing timestamps.
pub fn try_parse(entry: &LogEntry, timestamp: Option<Timestamp>) -> (emitted: Vec<GameEvent>)
    ensures
        events::event_models(emitted@) == gre_claim(entry.body@, timestamp),
        events::all_sound(events::event_models(emitted@)),
{
    let body = entry.body.as_str();
    if contains(body, GRE_TO_CLIENT_MARKER) {
        match parse_json_from_body(body) {
            Some(parsed) => {
                proof {
                    law_events_are_well_formed(
                        parsed@,
                        events::entry_metadata(timestamp, body@),
                    );
                }
                return parse_messages(&parsed, body, timestamp);
            },
            None => {},
        }
    }
    let none: Vec<GameEvent> = Vec::new();
    assert(events::event_models(none@) =~= Seq::<EventModel>::empty());
    none
}

/// Emits the events of a parsed `greToClientEvent`.
pub fn parse_messages(
    parsed: &Json,
    body: &str,
    timestamp: Option<Timestamp>,
) -> (emitted: Vec<GameEvent>)
    ensures
        events::event_models(emitted@) == gre_events(
            parsed@,
            events::entry_metadata(timestamp, body@),
        ),
{
    let ghost metadata = events::entry_metadata(timestamp, body@);
    let mut emitted: Vec<GameEvent> = Vec::new();
    assert(events::event_models(emitted@) =~= Seq::<EventModel>::empty());
    match extract_gre_messages(parsed) {
        None => {},
        Some(messages) => {
            let ghost all = json::item_models(messages@);
            match find_message_by_type(messages, CONNECT_RESP_TYPE) {
                Some(msg) => {
                    let payload = connect_resp::build_connect_resp_payload(msg, parsed);
                    push_state(&mut emitted, payload, body, timestamp);
                },
                None => {},
            }
            assert(events::event_models(emitted@) =~= connect_events(all, parsed@, metadata)
                + game_state_events(all.take(0), metadata));
            let mut i: usize = 0;
            while i < messages.len()
                invariant
                    i <= messages@.len(),
                    all == json::item_models(messages@),
                    metadata == events::entry_metadata(timestamp, body@),
                    events::event_models(emitted@) == connect_events(all, parsed@, metadata)
                        + game_state_events(all.take(i as int), metadata),
                decreases messages@.len() - i,
            {
                let ghost front = game_state_events(all.take(i as int), metadata);
                assert(all.take(i + 1).drop_last() =~= all.take(i as int));
                assert(all.take(i + 1).last() == all[i as int]);
                if is_game_state_message(&messages[i]) {
                    emit_gsm_events(&mut emitted, &messages[i], body, timestamp);
                    assert(events::event_models(emitted@) =~= connect_events(all, parsed@, metadata)
                        + (front + message_events(all[i as int], metadata)));
                }
                i += 1;
            }
            assert(all.take(i as int) =~= all);
            if emitted.len() == 0 {
                assert(real_events(all, parsed@, metadata).len() == 0);
                match find_noise_type(messages) {
                    Some(t) => {
                        let mut object = JsonObject::new();
                        object.push("recognized_type", Json::string(t));
                        assert(object@ =~= noise_payload(t@)->Object_0);
                        push_state(&mut emitted, object.finish(), body, timestamp);
                    },
                    None => {},
                }
                assert(events::event_models(emitted@) =~= noise_events(all, metadata));
            } else {
                assert(real_events(all, parsed@, metadata).len() > 0);
            }
        },
    }
    emitted
}

/// Emits one game state message.
///
/// A game-over message is emitted as a game result, behind a game state where
/// it carries annotations. One that also completes the match is not emitted.
pub fn emit_gsm_events(
    emitted: &mut Vec<GameEvent>,
    msg: &Json,
    body: &str,
    timestamp: Option<Timestamp>,
)
    ensures
        events::event_models(final(emitted)@) == events::event_models(old(emitted)@)
            + message_events(msg@, events::entry_metadata(timestamp, body@)),
{
    let ghost metadata = events::entry_metadata(timestamp, body@);
    if game_result::is_game_over(msg) {
        if !game_result::is_match_complete(msg) {
            if game_result::has_annotation_data(msg) {
                push_state(
                    emitted,
                    game_state::build_game_state_message_payload(msg),
                    body,
                    timestamp,
                );
            }
            push_result(emitted, game_result::build_game_result_payload(msg), body, timestamp);
        }
    } else {
        push_state(emitted, game_state::build_game_state_message_payload(msg), body, timestamp);
    }
    assert(events::event_models(emitted@) =~= events::event_models(old(emitted)@) + message_events(
        msg@,
        metadata,
    ));
}

fn push_state(
    emitted: &mut Vec<GameEvent>,
    payload: Json,
    body: &str,
    timestamp: Option<Timestamp>,
)
    ensures
        events::event_models(final(emitted)@) == events::event_models(old(emitted)@).push(
            state_event(payload@, events::entry_metadata(timestamp, body@)),
        ),
{
    let metadata = EventMetadata::of_entry(timestamp, body);
    emitted.push(GameEvent::GameState(GameStateEvent::new(metadata, payload)));
    assert(events::event_models(emitted@) =~= events::event_models(old(emitted)@).push(
        state_event(payload@, events::entry_metadata(timestamp, body@)),
    ));
}

fn push_result(
    emitted: &mut Vec<GameEvent>,
    payload: Json,
    body: &str,
    timestamp: Option<Timestamp>,
)
    ensures
        events::event_models(final(emitted)@) == events::event_models(old(emitted)@).push(
            result_event(payload@, events::entry_metadata(timestamp, body@)),
        ),
{
    let metadata = EventMetadata::of_entry(timestamp, body);
    emitted.push(GameEvent::GameResult(GameResultEvent::new(metadata, payload)));
    assert(events::event_models(emitted@) =~= events::event_models(old(emitted)@).push(
        result_event(payload@, events::entry_metadata(timestamp, body@)),
    ));
}

// ---------------------------------------------------------------------------
// GRE message extraction helpers
// ---------------------------------------------------------------------------

/// Extracts the `greToClientMessages` array from the parsed JSON.
///
/// Handles both the nested format
/// (`{ "greToClientEvent": { "greToClientMessages": [...] } }`) and the flat
/// format (`{ "greToClientMessages": [...] }`).
pub fn extract_gre_messages(parsed: &Json) -> (messages: Option<&Vec<Json>>)
    ensures
        match messages {
            Some(m) => messages_in(parsed@) == Some(json::item_models(m@)),
            None => messages_in(parsed@) is None,
        },
{
    let nested = get_field(parsed.get("greToClientEvent"), "greToClientMessages");
    let value = match nested {
        Some(_) => nested,
        None => parsed.get("greToClientMessages"),
    };
    match array_field(value) {
        Some(messages) => if messages.len() > 0 {
            Some(messages)
        } else {
            None
        },
        None => None,
    }
}

/// Whether a message is of the given type.
fn has_type(msg: &Json, msg_type: &str) -> (b: bool)
    ensures
        b == is_type(msg@, msg_type@),
{
    match str_field(msg.get("type")) {
        Some(t) => str_eq(t, msg_type),
        None => false,
    }
}

fn is_game_state_message(msg: &Json) -> (b: bool)
    ensures
        b == is_game_state(msg@),
{
    has_type(msg, GAME_STATE_MESSAGE_TYPE) || has_type(
        msg,
        game_state::QUEUED_GAME_STATE_MESSAGE_TYPE,
    )
}

/// Searches the `greToClientMessages` array for a message with the given type.
pub fn find_message_by_type<'a>(
    messages: &'a Vec<Json>,
    msg_type: &str,
) -> (found: Option<&'a Json>)
    ensures
        json::opt_model(found) == message_of_type(json::item_models(messages@), msg_type@),
{
    let ghost all = json::item_models(messages@);
    assert(all.skip(0) =~= all);
    let mut i: usize = 0;
    while i < messages.len()
        invariant
            i <= messages@.len(),
            all == json::item_models(messages@),
            message_of_type(all, msg_type@) == message_of_type(all.skip(i as int), msg_type@),
        decreases messages@.len() - i,
    {
        assert(all.skip(i as int).drop_first() =~= all.skip(i + 1));
        if has_type(&messages[i], msg_type) {
            return Some(&messages[i]);
        }
        i += 1;
    }
    None
}

/// The first of the noise types that a message has.
fn find_noise_type(messages: &Vec<Json>) -> (found: Option<&'static str>)
    ensures
        match found {
            Some(t) => noise_type(json::item_models(messages@)) == Some(t@),
            None => noise_type(json::item_models(messages@)) is None,
        },
{
    if find_message_by_type(messages, UI_MESSAGE_TYPE).is_some() {
        Some(UI_MESSAGE_TYPE)
    } else if find_message_by_type(messages, TIMER_STATE_MESSAGE_TYPE).is_some() {
        Some(TIMER_STATE_MESSAGE_TYPE)
    } else if find_message_by_type(messages, SET_SETTINGS_RESP_TYPE).is_some() {
        Some(SET_SETTINGS_RESP_TYPE)
    } else {
        None
    }
}

// ---------------------------------------------------------------------------
// Laws
// ---------------------------------------------------------------------------

/// Every event of an entry carries the entry's metadata.
pub proof fn law_events_share_metadata(parsed: JsonModel, metadata: MetadataModel, i: int)
    requires
        0 <= i < gre_events(parsed, metadata).len(),
    ensures
        gre_events(parsed, metadata)[i].metadata == metadata,
{
    let messages = messages_in(parsed).unwrap();
    let connect = connect_events(messages, parsed, metadata);
    if real_events(messages, parsed, metadata).len() > 0 {
        if i >= connect.len() {
            lemma_state_events(messages, metadata, i - connect.len());
        }
    }
}

proof fn lemma_state_events(messages: Seq<JsonModel>, metadata: MetadataModel, i: int)
    requires
        0 <= i < game_state_events(messages, metadata).len(),
    ensures
        game_state_events(messages, metadata)[i].metadata == metadata,
        game_state_events(messages, metadata)[i].payload is Object,
        game_state_events(messages, metadata)[i].kind == EventKind::GameState
            || game_state_events(messages, metadata)[i].kind == EventKind::GameResult,
    decreases messages.len(),
{
    let front = game_state_events(messages.drop_last(), metadata);
    if i < front.len() {
        lemma_state_events(messages.drop_last(), metadata, i);
    }
}

/// Every event of an entry is a game state or a game result, and its payload is
/// an object.
pub proof fn law_events_are_states_or_results(parsed: JsonModel, metadata: MetadataModel, i: int)
    requires
        0 <= i < gre_events(parsed, metadata).len(),
    ensures
        gre_events(parsed, metadata)[i].kind == EventKind::GameState || gre_events(
            parsed,
            metadata,
        )[i].kind == EventKind::GameResult,
        gre_events(parsed, metadata)[i].payload is Object,
{
    let messages = messages_in(parsed).unwrap();
    let connect = connect_events(messages, parsed, metadata);
    if real_events(messages, parsed, metadata).len() > 0 {
        if i >= connect.len() {
            lemma_state_events(messages, metadata, i - connect.len());
        }
    }
}

/// Messages are emitted one behind the other: a batch of two runs of messages
/// gives what the first run gives, and then what the second gives.
pub proof fn law_batches_concatenate(
    a: Seq<JsonModel>,
    b: Seq<JsonModel>,
    metadata: MetadataModel,
)
    ensures
        game_state_events(a + b, metadata) == game_state_events(a, metadata) + game_state_events(
            b,
            metadata,
        ),
    decreases b.len(),
{
    let whole = game_state_events(a, metadata) + game_state_events(b, metadata);
    if b.len() == 0 {
        assert(a + b =~= a);
        assert(game_state_events(a + b, metadata) =~= whole);
    } else {
        assert((a + b).drop_last() =~= a + b.drop_last());
        assert((a + b).last() == b.last());
        law_batches_concatenate(a, b.drop_last(), metadata);
        assert(game_state_events(a + b, metadata) =~= whole);
    }
}

/// A message of a game in progress is emitted as one game state.
pub proof fn law_running_game_is_state(msg: JsonModel, metadata: MetadataModel)
    requires
        !game_result::game_over(msg),
    ensures
        message_events(msg, metadata) == seq![
            state_event(game_state::game_state_payload(msg), metadata),
        ],
{
}

/// The message that completes the match is not emitted, whatever it carries.
pub proof fn law_match_complete_is_suppressed(msg: JsonModel, metadata: MetadataModel)
    requires
        game_result::game_over(msg),
        game_result::match_complete(msg),
    ensures
        message_events(msg, metadata).len() == 0,
{
}

/// The end of a game is emitted as one game result, which comes last. A game
/// state comes before it exactly where the message carries annotations.
pub proof fn law_game_end_is_one_result(msg: JsonModel, metadata: MetadataModel)
    requires
        game_result::game_over(msg),
        !game_result::match_complete(msg),
    ensures
        message_events(msg, metadata).last() == result_event(
            game_result::game_result_payload(msg),
            metadata,
        ),
        message_events(msg, metadata).len() == if game_result::annotated(msg) {
            2int
        } else {
            1int
        },
        game_result::annotated(msg) ==> message_events(msg, metadata)[0] == state_event(
            game_state::game_state_payload(msg),
            metadata,
        ),
{
}

/// How many of the messages end a game without ending the match.
pub open spec fn game_ends(messages: Seq<JsonModel>) -> nat
    decreases messages.len(),
{
    if messages.len() == 0 {
        0
    } else {
        let msg = messages.last();
        game_ends(messages.drop_last()) + if is_game_state(msg) && game_result::game_over(msg)
            && !game_result::match_complete(msg) {
            1nat
        } else {
            0nat
        }
    }
}

/// How many of the events are game results.
pub open spec fn result_count(emitted: Seq<EventModel>) -> nat
    decreases emitted.len(),
{
    if emitted.len() == 0 {
        0
    } else {
        result_count(emitted.drop_last()) + if emitted.last().kind == EventKind::GameResult {
            1nat
        } else {
            0nat
        }
    }
}

proof fn lemma_result_count_concat(a: Seq<EventModel>, b: Seq<EventModel>)
    ensures
        result_count(a + b) == result_count(a) + result_count(b),
    decreases b.len(),
{
    if b.len() == 0 {
        assert(a + b =~= a);
    } else {
        assert((a + b).drop_last() =~= a + b.drop_last());
        assert((a + b).last() == b.last());
        lemma_result_count_concat(a, b.drop_last());
    }
}

/// A batch gives one game result for each message that ends a game, and none
/// besides: the message that ends the match does not count the last game twice.
pub proof fn law_one_result_per_game_end(messages: Seq<JsonModel>, metadata: MetadataModel)
    ensures
        result_count(game_state_events(messages, metadata)) == game_ends(messages),
    decreases messages.len(),
{
    if messages.len() > 0 {
        law_one_result_per_game_end(messages.drop_last(), metadata);
        let msg = messages.last();
        if is_game_state(msg) {
            let front = game_state_events(messages.drop_last(), metadata);
            lemma_result_count_concat(front, message_events(msg, metadata));
            reveal_with_fuel(result_count, 3);
        }
    }
}

/// A connection response is emitted before everything else in its entry.
pub proof fn law_connect_resp_comes_first(parsed: JsonModel, metadata: MetadataModel)
    requires
        messages_in(parsed) is Some,
        message_of_type(messages_in(parsed).unwrap(), CONNECT_RESP_TYPE@) is Some,
    ensures
        gre_events(parsed, metadata).len() > 0,
        gre_events(parsed, metadata)[0] == state_event(
            connect_resp::connect_resp_payload(
                message_of_type(messages_in(parsed).unwrap(), CONNECT_RESP_TYPE@).unwrap(),
                parsed,
            ),
            metadata,
        ),
{
    let messages = messages_in(parsed).unwrap();
    let connect = connect_events(messages, parsed, metadata);
    assert(real_events(messages, parsed, metadata)[0] == connect[0]);
}

/// An entry is claimed for noise only where nothing else in it is emitted: one
/// game state message that is not suppressed rules noise out.
pub proof fn law_noise_yields(parsed: JsonModel, metadata: MetadataModel, i: int)
    requires
        messages_in(parsed) is Some,
        0 <= i < messages_in(parsed).unwrap().len(),
        is_game_state(messages_in(parsed).unwrap()[i]),
        message_events(messages_in(parsed).unwrap()[i], metadata).len() > 0,
    ensures
        gre_events(parsed, metadata) == real_events(
            messages_in(parsed).unwrap(),
            parsed,
            metadata,
        ),
{
    let messages = messages_in(parsed).unwrap();
    let front = messages.take(i + 1);
    let back = messages.skip(i + 1);
    assert(front + back =~= messages);
    law_batches_concatenate(front, back, metadata);
    assert(front.last() == messages[i]);
}

/// Messages of other types are passed over.
pub proof fn law_other_messages_are_dropped(
    messages: Seq<JsonModel>,
    msg: JsonModel,
    metadata: MetadataModel,
)
    requires
        !is_game_state(msg),
    ensures
        game_state_events(messages.push(msg), metadata) == game_state_events(messages, metadata),
{
    assert(messages.push(msg).drop_last() =~= messages);
}

proof fn lemma_message_well_formed(messages: Seq<JsonModel>, msg_type: Seq<char>)
    requires
        json::all_well_formed(messages),
    ensures
        json::opt_well_formed(message_of_type(messages, msg_type)),
    decreases messages.len(),
{
    if messages.len() > 0 {
        let rest = messages.drop_first();
        assert(json::well_formed(messages[0]));
        assert forall|i: int| 0 <= i < rest.len() implies json::well_formed(#[trigger] rest[i]) by {
            assert(rest[i] == messages[i + 1]);
        }
        lemma_message_well_formed(rest, msg_type);
    }
}

proof fn lemma_state_events_well_formed(messages: Seq<JsonModel>, metadata: MetadataModel)
    requires
        json::all_well_formed(messages),
    ensures
        events::all_sound(game_state_events(messages, metadata)),
    decreases messages.len(),
{
    if messages.len() > 0 {
        let front = messages.drop_last();
        let msg = messages.last();
        assert(json::well_formed(messages[messages.len() - 1]));
        assert forall|i: int| 0 <= i < front.len() implies json::well_formed(
            #[trigger] front[i],
        ) by {
            assert(front[i] == messages[i]);
        }
        lemma_state_events_well_formed(front, metadata);
        game_state::law_game_state_is_well_formed(msg);
        game_result::law_game_result_is_well_formed(msg);
    }
}

/// The payload of every event is well formed where the entry's JSON is.
pub proof fn law_events_are_well_formed(parsed: JsonModel, metadata: MetadataModel)
    requires
        json::well_formed(parsed),
    ensures
        events::all_sound(gre_events(parsed, metadata)),
{
    json::lemma_get_well_formed(parsed, "greToClientEvent"@);
    json::lemma_get_in_well_formed(parsed.get("greToClientEvent"@), "greToClientMessages"@);
    json::lemma_get_well_formed(parsed, "greToClientMessages"@);
    match messages_in(parsed) {
        Some(messages) => {
            lemma_message_well_formed(messages, CONNECT_RESP_TYPE@);
            lemma_state_events_well_formed(messages, metadata);
            match message_of_type(messages, CONNECT_RESP_TYPE@) {
                Some(msg) => {
                    connect_resp::law_connect_resp_is_well_formed(msg, parsed);
                },
                None => {},
            }
            match noise_type(messages) {
                Some(t) => {
                    json::lemma_object_well_formed(noise_payload(t)->Object_0);
                },
                None => {},
            }
        },
        None => {},
    }
}

/// Messages are found alike in the nested and in the flat format.
pub proof fn law_nested_and_flat_agree(messages: Seq<JsonModel>)
    requires
        messages.len() > 0,
    ensures
        ({
            let flat = JsonModel::Object(
                seq![("greToClientMessages"@, JsonModel::Array(messages))],
            );
            let nested = JsonModel::Object(seq![("greToClientEvent"@, flat)]);
            messages_in(flat) == Some(messages) && messages_in(nested) == Some(messages)
        }),
{
    reveal_strlit("greToClientEvent");
    reveal_strlit("greToClientMessages");
    assert("greToClientEvent"@.len() == 16 && "greToClientMessages"@.len() == 19);
    let flat = seq![("greToClientMessages"@, JsonModel::Array(messages))];
    let nested = seq![("greToClientEvent"@, JsonModel::Object(flat))];
    json::lemma_lookup_at(flat, 0);
    json::lemma_lookup_missing(flat, "greToClientEvent"@);
    json::lemma_lookup_at(nested, 0);
}

/// The messages of an event stand under `greToClientEvent`, or else at the top level.
/// They are there only where they are a list with an item.
pub proof fn law_messages_are_found(parsed: JsonModel)
    ensures
        messages_in(parsed) == match (match json::get_in(
            parsed.get("greToClientEvent"@),
            "greToClientMessages"@,
        ) {
            Some(nested) => Some(nested),
            None => parsed.get("greToClientMessages"@),
        }) {
            Some(JsonModel::Array(messages)) => if messages.len() > 0 {
                Some(messages)
            } else {
                None
            },
            _ => None,
        },
{
}

/// The message that is found for a type is the first that has it.
pub proof fn law_first_message_of_type_is_found(
    messages: Seq<JsonModel>,
    msg_type: Seq<char>,
    i: int,
)
    requires
        0 <= i <= messages.len(),
        forall|j: int|
            0 <= j < i ==> !fields::is_str((#[trigger] messages[j]).get("type"@), msg_type),
        i < messages.len() ==> fields::is_str(messages[i].get("type"@), msg_type),
    ensures
        message_of_type(messages, msg_type) == if i < messages.len() {
            Some(messages[i])
        } else {
            None
        },
    decreases messages.len(),
{
    if i > 0 {
        let rest = messages.drop_first();
        assert(!fields::is_str(messages[0].get("type"@), msg_type));
        assert forall|j: int| 0 <= j < i - 1 implies !fields::is_str(
            (#[trigger] rest[j]).get("type"@),
            msg_type,
        ) by {
            assert(rest[j] == messages[j + 1]);
        }
        law_first_message_of_type_is_found(rest, msg_type, i - 1);
    }
}

/// Whether an event is a game state with the given payload.
pub open spec fn tells_state(
    event: EventModel,
    payload: JsonModel,
    metadata: MetadataModel,
) -> bool {
    &&& event.kind == EventKind::GameState
    &&& event.payload == payload
    &&& event.metadata == metadata
}

/// Whether an event is a game result with the given payload.
pub open spec fn tells_result(
    event: EventModel,
    payload: JsonModel,
    metadata: MetadataModel,
) -> bool {
    &&& event.kind == EventKind::GameResult
    &&& event.payload == payload
    &&& event.metadata == metadata
}

/// A lone game state message, queued or not, is emitted as its state while the game
/// runs, as its result where the game ends, with its state before that where it
/// carries annotations, and not at all where the match ends with it. Any other
/// message is not emitted as a state or a result.
pub proof fn law_lone_message_is_emitted(msg: JsonModel, metadata: MetadataModel)
    ensures
        ({
            let emitted = game_state_events(seq![msg], metadata);
            let state = game_state::game_state_payload(msg);
            let result = game_result::game_result_payload(msg);
            if !fields::is_str(msg.get("type"@), "GREMessageType_GameStateMessage"@)
                && !fields::is_str(msg.get("type"@), "GREMessageType_QueuedGameStateMessage"@) {
                emitted.len() == 0
            } else if !game_result::game_over(msg) {
                emitted.len() == 1 && tells_state(emitted[0], state, metadata)
            } else if game_result::match_complete(msg) {
                emitted.len() == 0
            } else if game_result::annotated(msg) {
                &&& emitted.len() == 2
                &&& tells_state(emitted[0], state, metadata)
                &&& tells_result(emitted[1], result, metadata)
            } else {
                emitted.len() == 1 && tells_result(emitted[0], result, metadata)
            }
        }),
{
    assert(seq![msg].drop_last() =~= Seq::<JsonModel>::empty());
    assert(seq![msg].last() == msg);
    assert(game_state_events(Seq::empty(), metadata).len() == 0);
    if is_game_state(msg) {
        assert(game_state_events(seq![msg], metadata) =~= message_events(msg, metadata));
    }
}

/// No messages are emitted as nothing.
pub proof fn law_no_messages_no_events(metadata: MetadataModel)
    ensures
        game_state_events(Seq::empty(), metadata).len() == 0,
{
}

/// An event is emitted as its first connection response, where it has one, and then
/// its game states and results in order. Only where there is none of these is it
/// emitted as the noise that it holds, of which UI messages come before timers and
/// those before settings.
pub proof fn law_event_is_emitted_in_order(parsed: JsonModel, metadata: MetadataModel)
    ensures
        match messages_in(parsed) {
            Some(messages) => {
                let emitted = gre_events(parsed, metadata);
                let played = game_state_events(messages, metadata);
                match message_of_type(messages, "GREMessageType_ConnectResp"@) {
                    Some(msg) => {
                        &&& emitted.len() == 1 + played.len()
                        &&& tells_state(
                            emitted[0],
                            connect_resp::connect_resp_payload(msg, parsed),
                            metadata,
                        )
                        &&& emitted.skip(1) == played
                    },
                    None => if played.len() > 0 {
                        emitted == played
                    } else if message_of_type(messages, "GREMessageType_UIMessage"@) is Some {
                        tells_noise(emitted, "GREMessageType_UIMessage"@, metadata)
                    } else if message_of_type(messages, "GREMessageType_TimerStateMessage"@)
                        is Some {
                        tells_noise(emitted, "GREMessageType_TimerStateMessage"@, metadata)
                    } else if message_of_type(messages, "GREMessageType_SetSettingsResp"@)
                        is Some {
                        tells_noise(emitted, "GREMessageType_SetSettingsResp"@, metadata)
                    } else {
                        emitted.len() == 0
                    },
                }
            },
            None => gre_events(parsed, metadata).len() == 0,
        },
{
    match messages_in(parsed) {
        Some(messages) => {
            let played = game_state_events(messages, metadata);
            let connect = connect_events(messages, parsed, metadata);
            assert(real_events(messages, parsed, metadata).len() == connect.len() + played.len());
            match message_of_type(messages, CONNECT_RESP_TYPE@) {
                Some(_) => {
                    assert((connect + played)[0] == connect[0]);
                    assert((connect + played).skip(1) =~= played);
                },
                None => {
                    assert(connect + played =~= played);
                    match noise_type(messages) {
                        Some(t) => {
                            json::lemma_lookup_at(noise_payload(t)->Object_0, 0);
                        },
                        None => {},
                    }
                },
            }
        },
        None => {},
    }
}

/// Whether events are the one game state that claims an entry for a type of noise.
pub open spec fn tells_noise(
    emitted: Seq<EventModel>,
    msg_type: Seq<char>,
    metadata: MetadataModel,
) -> bool {
    &&& emitted.len() == 1
    &&& emitted[0].kind == EventKind::GameState
    &&& emitted[0].metadata == metadata
    &&& emitted[0].payload is Object
    &&& emitted[0].payload->Object_0.len() == 1
    &&& fields::is_str(emitted[0].payload.get("recognized_type"@), msg_type)
}

/// An entry is emitted for the event that its JSON is, exactly where it names the
/// marker.
pub proof fn law_entries_need_the_marker(body: Seq<char>, timestamp: Option<Timestamp>)
    ensures
        match api_common::body_json(body) {
            Some(parsed) => if text::has_text(body, "greToClientEvent"@) {
                gre_claim(body, timestamp) == gre_events(
                    parsed,
                    events::entry_metadata(timestamp, body),
                )
            } else {
                gre_claim(body, timestamp).len() == 0
            },
            None => gre_claim(body, timestamp).len() == 0,
        },
{
}

} // verus!
