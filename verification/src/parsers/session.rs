//! Session event parser: login, account ID, display name, and logout.
//!
//! Recognizes three log signatures that establish and terminate player
//! identity within a session:
//!
//! | Signature | Meaning |
//! |-----------|---------|
//! | `Updated account. DisplayName:` | Account identity (display name + account ID) |
//! | `authenticateResponse` | Login confirmation (screen name in JSON) |
//! | `FrontDoorConnection.Close` | Logout / disconnect |
//!
//! These are the first meaningful events in any log and are used to tag all
//! subsequent events with the active player identity.

use vstd::prelude::*;
use crate::events;
use crate::events::{EventKind, EventMetadata, EventModel, GameEvent, SessionEvent};
use crate::fields;
use crate::json;
use crate::json::{str_field, Json, JsonModel, JsonObject};
use crate::json_text::parse_json;
use crate::log::entry::LogEntry;
use crate::log::timestamp::Timestamp;
use crate::parsers::api_common;
use crate::scan;
use crate::scan::find_object;
use crate::text;
use crate::text::{
    before_char, contains, first_line, piece_after, strip_prefix, trim, trim_start,
};

verus! {

/// Header of entries from the client's main logger.
pub const UNITY_HEADER: &'static str = "[UnityCrossThreadLogger]";

/// Header of entries from the game rules engine.
pub const CLIENT_GRE_HEADER: &'static str = "[Client GRE]";

/// Prefix that introduces account identity lines in the log.
pub const ACCOUNT_UPDATE_PREFIX: &'static str = "Updated account. DisplayName:";

/// Label of the account identifier in account identity lines.
pub const ACCOUNT_ID_LABEL: &'static str = "AccountID:";

/// Marker for authentication response entries.
pub const AUTHENTICATE_RESPONSE_MARKER: &'static str = "authenticateResponse";

/// Marker for front door connection close (logout/disconnect).
pub const FRONT_DOOR_CLOSE_MARKER: &'static str = "FrontDoorConnection.Close";

// ---------------------------------------------------------------------------
// What an entry is emitted as
// ---------------------------------------------------------------------------

/// The content of an entry: what stands on its first line behind a recognized
/// header, leading whitespace aside, or the whole body where there is no such
/// header.
pub open spec fn header_content(body: Seq<char>) -> Seq<char> {
    let line = text::line_of(body);
    match text::without_prefix(line, UNITY_HEADER@) {
        Some(rest) => text::trimmed_start(rest),
        None => match text::without_prefix(line, CLIENT_GRE_HEADER@) {
            Some(rest) => text::trimmed_start(rest),
            None => body,
        },
    }
}

/// What stands behind the first `label`, up to the next comma, whitespace at
/// either end aside. Empty where `label` is missing.
pub open spec fn labelled(content: Seq<char>, label: Seq<char>) -> Seq<char> {
    match text::piece_behind(content, label) {
        Some(piece) => text::trimmed(text::before_first(piece, ',')),
        None => ""@,
    }
}

/// The payload of an account identity line.
pub open spec fn account_update(content: Seq<char>) -> Option<JsonModel> {
    if text::has_text(content, ACCOUNT_UPDATE_PREFIX@) {
        Some(
            JsonModel::Object(
                seq![
                    ("type"@, JsonModel::Str("session_account_update"@)),
                    ("display_name"@, JsonModel::Str(labelled(content, ACCOUNT_UPDATE_PREFIX@))),
                    ("account_id"@, JsonModel::Str(labelled(content, ACCOUNT_ID_LABEL@))),
                ],
            ),
        )
    } else {
        None
    }
}

/// The first string under `screenName` in a member that is itself an object.
pub open spec fn nested_screen_name(members: Seq<(Seq<char>, JsonModel)>) -> Option<Seq<char>>
    decreases members.len(),
{
    if members.len() == 0 {
        None
    } else {
        match json::str_in(members[0].1.get("screenName"@)) {
            Some(name) => Some(name),
            None => nested_screen_name(members.drop_first()),
        }
    }
}

/// The string under `screenName` at the top level or one level below.
pub open spec fn screen_name(value: JsonModel) -> Option<Seq<char>> {
    match json::str_in(value.get("screenName"@)) {
        Some(name) => Some(name),
        None => match value {
            JsonModel::Object(members) => nested_screen_name(members),
            _ => None,
        },
    }
}

/// The payload of a login confirmation, given the response where it could be
/// read.
pub open spec fn authenticate_payload(response: Option<JsonModel>) -> JsonModel {
    match response {
        Some(parsed) => JsonModel::Object(
            seq![
                ("type"@, JsonModel::Str("session_authenticate"@)),
                (
                    "screen_name"@,
                    JsonModel::Str(
                        match screen_name(parsed) {
                            Some(name) => name,
                            None => ""@,
                        },
                    ),
                ),
                ("raw_response"@, parsed),
            ],
        ),
        None => JsonModel::Object(
            seq![
                ("type"@, JsonModel::Str("session_authenticate"@)),
                ("screen_name"@, JsonModel::Str(""@)),
            ],
        ),
    }
}

/// The payload of an entry that holds a login confirmation.
pub open spec fn authenticate_response(body: Seq<char>) -> Option<JsonModel> {
    if text::has_text(body, AUTHENTICATE_RESPONSE_MARKER@) {
        Some(authenticate_payload(api_common::body_json(body)))
    } else {
        None
    }
}

/// The payload of a disconnect.
pub open spec fn disconnect_payload() -> JsonModel {
    JsonModel::Object(seq![("type"@, JsonModel::Str("session_disconnect"@))])
}

/// The payload of a session entry: an account identity before a login
/// confirmation before a disconnect.
pub open spec fn session_payload(body: Seq<char>) -> Option<JsonModel> {
    let content = header_content(body);
    match account_update(content) {
        Some(payload) => Some(payload),
        None => match authenticate_response(body) {
            Some(payload) => Some(payload),
            None => if text::has_text(content, FRONT_DOOR_CLOSE_MARKER@) {
                Some(disconnect_payload())
            } else {
                None
            },
        },
    }
}

/// What an entry is emitted as.
pub open spec fn session_claim(
    body: Seq<char>,
    timestamp: Option<Timestamp>,
) -> Option<EventModel> {
    match session_payload(body) {
        Some(payload) => Some(
            EventModel {
                kind: EventKind::Session,
                metadata: events::entry_metadata(timestamp, body),
                payload,
            },
        ),
        None => None,
    }
}

// ---------------------------------------------------------------------------
// Parsing
// ---------------------------------------------------------------------------

/// Attempts to parse a [`LogEntry`] as a session event.
///
/// Returns a session event if the entry matches one of the three recognized
/// session signatures, or `None` if the entry is not a session event.
pub fn try_parse(entry: &LogEntry, timestamp: Option<Timestamp>) -> (event: Option<GameEvent>)
    ensures
        events::opt_event(event) == session_claim(entry.body@, timestamp),
        events::opt_sound(events::opt_event(event)),
{
    let body = entry.body.as_str();
    match find_payload(body) {
        Some(payload) => {
            let metadata = EventMetadata::of_entry(timestamp, body);
            Some(GameEvent::Session(SessionEvent::new(metadata, payload)))
        },
        None => None,
    }
}

fn find_payload(body: &str) -> (payload: Option<Json>)
    ensures
        json::owned_model(payload) == session_payload(body@),
        json::opt_well_formed(json::owned_model(payload)),
{
    let content = strip_header_prefix(body);
    if let Some(payload) = try_parse_account_update(content) {
        return Some(payload);
    }
    if let Some(payload) = try_parse_authenticate_response(body) {
        return Some(payload);
    }
    if try_match_front_door_close(content) {
        let mut object = JsonObject::new();
        object.push("type", Json::string("session_disconnect"));
        assert(object@ =~= disconnect_payload()->Object_0);
        proof {
            json::lemma_object_well_formed(object@);
        }
        return Some(object.finish());
    }
    None
}

/// Strips the `[UnityCrossThreadLogger]` or `[Client GRE]` bracket prefix from
/// the first line of the body, returning the remaining content.
///
/// If the body does not start with a recognized bracket prefix, returns the full
/// body unchanged.
pub fn strip_header_prefix(body: &str) -> (content: &str)
    ensures
        content@ == header_content(body@),
{
    let line = first_line(body);
    match strip_prefix(line, UNITY_HEADER) {
        Some(rest) => trim_start(rest),
        None => match strip_prefix(line, CLIENT_GRE_HEADER) {
            Some(rest) => trim_start(rest),
            None => body,
        },
    }
}

fn labelled_part<'a>(content: &'a str, label: &str) -> (part: &'a str)
    ensures
        part@ == labelled(content@, label@),
{
    match piece_after(content, label) {
        Some(piece) => trim(before_char(piece, ',')),
        None => "",
    }
}

/// Attempts to parse an `Updated account. DisplayName:` line.
///
/// Expected format (after header stripping):
/// ```text
/// Updated account. DisplayName:SomeName, AccountID:abc123def456, ...
/// ```
///
/// Extracts `DisplayName` and `AccountID` fields and returns them as a JSON
/// payload with `type: "session_account_update"`.
pub fn try_parse_account_update(content: &str) -> (payload: Option<Json>)
    ensures
        json::owned_model(payload) == account_update(content@),
        json::opt_well_formed(json::owned_model(payload)),
{
    if !contains(content, ACCOUNT_UPDATE_PREFIX) {
        return None;
    }
    let display_name = labelled_part(content, ACCOUNT_UPDATE_PREFIX);
    let account_id = labelled_part(content, ACCOUNT_ID_LABEL);
    let mut object = JsonObject::new();
    object.push("type", Json::string("session_account_update"));
    object.push("display_name", Json::string(display_name));
    object.push("account_id", Json::string(account_id));
    assert(object@ =~= account_update(content@).unwrap()->Object_0);
    proof {
        law_account_update_is_well_formed(content@);
    }
    Some(object.finish())
}

/// Attempts to parse an `authenticateResponse` entry.
///
/// The authenticate response can appear in two forms:
///
/// 1. As a label on the first line, with a JSON body on subsequent lines
///    containing a `screenName` field.
/// 2. As a key within a JSON payload on the first or subsequent lines.
///
/// In either case the `screenName` is taken from the JSON. Where there is no
/// JSON or it is malformed, the screen name is empty.
pub fn try_parse_authenticate_response(full_body: &str) -> (payload: Option<Json>)
    ensures
        json::owned_model(payload) == authenticate_response(full_body@),
        json::opt_well_formed(json::owned_model(payload)),
{
    if !contains(full_body, AUTHENTICATE_RESPONSE_MARKER) {
        return None;
    }
    let response = match extract_json_from_body(full_body) {
        Some(json_str) => parse_json(json_str),
        None => None,
    };
    proof {
        law_login_is_well_formed(json::owned_model(response));
    }
    Some(build_authenticate_payload(response))
}

/// Builds the payload of a login confirmation.
pub fn build_authenticate_payload(response: Option<Json>) -> (payload: Json)
    ensures
        payload@ == authenticate_payload(json::owned_model(response)),
{
    let mut object = JsonObject::new();
    object.push("type", Json::string("session_authenticate"));
    match response {
        Some(parsed) => {
            let name = match find_screen_name(&parsed) {
                Some(name) => name,
                None => String::from_str(""),
            };
            object.push("screen_name", Json::string(name.as_str()));
            object.push("raw_response", parsed);
            assert(object@ =~= authenticate_payload(json::owned_model(response))->Object_0);
        },
        None => {
            object.push("screen_name", Json::string(""));
            assert(object@ =~= authenticate_payload(json::owned_model(response))->Object_0);
        },
    }
    object.finish()
}

/// Returns `true` if the content matches a `FrontDoorConnection.Close` entry.
pub fn try_match_front_door_close(content: &str) -> (b: bool)
    ensures
        b == text::has_text(content@, FRONT_DOOR_CLOSE_MARKER@),
{
    contains(content, FRONT_DOOR_CLOSE_MARKER)
}

/// Extracts the first JSON object from a multi-line log body.
///
/// Scans for the first `{` character and finds the matching `}` using
/// brace-depth counting that respects string literals.
pub fn extract_json_from_body(body: &str) -> (object: Option<&str>)
    ensures
        match object {
            Some(t) => scan::first_object(body@) == Some(t@),
            None => scan::first_object(body@) is None,
        },
{
    find_object(body)
}

/// Searches a JSON value for a `screenName` field.
///
/// Checks the top level and one level of nesting.
pub fn find_screen_name(value: &Json) -> (name: Option<String>)
    ensures
        match name {
            Some(s) => screen_name(value@) == Some(s@),
            None => screen_name(value@) is None,
        },
{
    if let Some(name) = str_field(value.get("screenName")) {
        return Some(name.to_owned());
    }
    match value.as_object() {
        None => None,
        Some(members) => {
            let ghost all = json::member_models(members@);
            assert(all.skip(0) =~= all);
            let mut i: usize = 0;
            while i < members.len()
                invariant
                    i <= members@.len(),
                    all == json::member_models(members@),
                    value@ == JsonModel::Object(all),
                    json::str_in(value@.get("screenName"@)) is None,
                    nested_screen_name(all) == nested_screen_name(all.skip(i as int)),
                decreases members@.len() - i,
            {
                assert(all.skip(i as int).drop_first() =~= all.skip(i + 1));
                if let Some(name) = str_field(members[i].value.get("screenName")) {
                    return Some(name.to_owned());
                }
                i += 1;
            }
            None
        },
    }
}

// ---------------------------------------------------------------------------
// Laws
// ---------------------------------------------------------------------------

/// A labelled part holds no comma and has no whitespace at either end.
pub proof fn law_labelled_part_is_bare(content: Seq<char>, label: Seq<char>)
    ensures
        !labelled(content, label).contains(','),
        labelled(content, label).len() > 0 ==> !text::whitespace(labelled(content, label).first())
            && !text::whitespace(labelled(content, label).last()),
{
    match text::piece_behind(content, label) {
        Some(piece) => {
            let part = text::before_first(piece, ',');
            text::lemma_span_bounds(piece, text::other_than(','));
            text::law_trimmed_is_bare(part);
            let ws = |c: char| text::whitespace(c);
            text::lemma_span_bounds(part, ws);
            let t = text::trimmed_start(part);
            text::lemma_kept_bounds(t, ws);
            let found = text::trimmed(part);
            assert forall|i: int| 0 <= i < found.len() implies found[i] != ',' by {
                let k = text::span(part, ws) + i;
                assert(found[i] == t[i]);
                assert(t[i] == part[k]);
                assert((text::other_than(','))(piece[k]));
            }
        },
        None => {
            reveal_strlit("");
        },
    }
}

/// A screen name at the top level is taken before one below it.
pub proof fn law_top_level_name_comes_first(value: JsonModel, name: Seq<char>)
    requires
        value.get("screenName"@) == Some(JsonModel::Str(name)),
    ensures
        screen_name(value) == Some(name),
{
}

/// An entry with a login confirmation is emitted though its JSON is missing or
/// malformed.
pub proof fn law_login_needs_no_json(body: Seq<char>, timestamp: Option<Timestamp>)
    requires
        text::has_text(body, AUTHENTICATE_RESPONSE_MARKER@),
    ensures
        session_claim(body, timestamp) is Some,
{
}

/// Behind a recognized header, the lines behind the first are not searched for an
/// account identity or a disconnect.
pub proof fn law_content_is_of_first_line(line: Seq<char>, rest: Seq<char>)
    requires
        !line.contains('\n'),
        line.len() > 0 ==> line.last() != '\r',
        text::without_prefix(line, UNITY_HEADER@) is Some || text::without_prefix(
            line,
            CLIENT_GRE_HEADER@,
        ) is Some,
    ensures
        header_content(line + seq!['\n'] + rest) == header_content(line),
{
    text::lemma_line_of_first(line, rest);
    text::lemma_line_of_only(line);
}

/// A body without a recognized header is searched as a whole.
pub proof fn law_headless_body_is_searched_whole(body: Seq<char>)
    requires
        text::without_prefix(text::line_of(body), UNITY_HEADER@) is None,
        text::without_prefix(text::line_of(body), CLIENT_GRE_HEADER@) is None,
    ensures
        header_content(body) == body,
{
}

/// The payload of an account identity is well formed.
pub proof fn law_account_update_is_well_formed(content: Seq<char>)
    ensures
        json::opt_well_formed(account_update(content)),
{
    reveal_strlit("type");
    reveal_strlit("display_name");
    reveal_strlit("account_id");
    assert("type"@.len() == 4 && "display_name"@.len() == 12 && "account_id"@.len() == 10);
    match account_update(content) {
        Some(payload) => {
            json::lemma_object_well_formed(payload->Object_0);
        },
        None => {},
    }
}

/// The payload of a login confirmation is well formed where the response is.
pub proof fn law_login_is_well_formed(response: Option<JsonModel>)
    requires
        json::opt_well_formed(response),
    ensures
        json::well_formed(authenticate_payload(response)),
{
    reveal_strlit("type");
    reveal_strlit("screen_name");
    reveal_strlit("raw_response");
    assert("type"@.len() == 4 && "screen_name"@.len() == 11 && "raw_response"@.len() == 12);
    json::lemma_object_well_formed(authenticate_payload(response)->Object_0);
}

/// The part behind a label is exactly what is written there: what stands between
/// the label and the next comma, the next such label or the end, whitespace at either
/// end aside.
pub proof fn law_labelled_part_is_exact(
    before: Seq<char>,
    label: Seq<char>,
    front: Seq<char>,
    part: Seq<char>,
    back: Seq<char>,
    rest: Seq<char>,
)
    requires
        text::blank(front),
        text::blank(back),
        text::bare(part),
        !part.contains(','),
        rest.len() > 0 ==> rest.first() == ',' || text::occurs_at(rest, label, 0),
        forall|k: int|
            0 <= k < before.len() ==> !text::occurs_at(
                before + label + (front + part + back + rest),
                label,
                k,
            ),
        forall|k: int|
            0 <= k < (front + part + back).len() ==> !text::occurs_at(
                front + part + back + rest,
                label,
                k,
            ),
    ensures
        labelled(before + label + (front + part + back + rest), label) == part,
{
    let value = front + part + back;
    let behind = value + rest;
    assert(front + part + back + rest =~= behind);
    let content = before + label + behind;
    let i = before.len() as int;
    assert(content.subrange(i, i + label.len()) =~= label);
    assert(text::occurs_at(content, label, i));
    assert(content.skip(i + label.len()) =~= behind);
    text::law_piece_runs_to_the_next_label(content, label, i);
    text::lemma_text_pos(behind, label, 0);
    text::law_found_iff_present(behind, label);
    assert forall|k: int| 0 <= k < value.len() implies value[k] != ',' by {
        if k < front.len() {
            assert(text::whitespace(front[k]));
        } else if k < front.len() + part.len() {
            assert(part.contains(part[k - front.len()]));
        } else {
            assert(text::whitespace(back[k - front.len() - part.len()]));
        }
    }
    let piece = text::piece_behind(content, label).unwrap();
    let more = match text::text_pos(behind, label, 0) {
        Some(j) => rest.take(j - value.len()),
        None => rest,
    };
    assert(piece =~= value + more);
    if rest.len() > 0 && rest.first() != ',' {
        let n = value.len() as int;
        assert(behind.subrange(n, n + label.len()) =~= rest.subrange(0, label.len() as int));
        assert(text::occurs_at(behind, label, n));
        assert(more.len() == 0);
    }
    if more.len() > 0 {
        assert(more =~= seq![','] + more.skip(1));
        assert(piece =~= value + seq![','] + more.skip(1));
    } else {
        assert(piece =~= value);
    }
    text::law_first_char_parts_the_text(value, ',', more.skip(1));
    text::law_trim_leaves_the_core(front, part, back);
}

/// The names of an account identity are told apart.
proof fn lemma_account_members(content: Seq<char>)
    requires
        text::has_text(content, ACCOUNT_UPDATE_PREFIX@),
    ensures
        account_update(content) is Some,
        ({
            let payload = account_update(content).unwrap();
            &&& payload.get("type"@) == Some(JsonModel::Str("session_account_update"@))
            &&& payload.get("display_name"@) == Some(
                JsonModel::Str(labelled(content, ACCOUNT_UPDATE_PREFIX@)),
            )
            &&& payload.get("account_id"@) == Some(
                JsonModel::Str(labelled(content, ACCOUNT_ID_LABEL@)),
            )
        }),
{
    law_account_update_is_well_formed(content);
    let members = account_update(content).unwrap()->Object_0;
    json::lemma_lookup_all(members);
    assert(members[0].0 == "type"@);
    assert(members[1].0 == "display_name"@);
    assert(members[2].0 == "account_id"@);
}

/// The display name of an account is exactly the name that is written behind its
/// label.
pub proof fn law_display_name_is_exact(
    before: Seq<char>,
    front: Seq<char>,
    name: Seq<char>,
    back: Seq<char>,
    rest: Seq<char>,
)
    requires
        text::blank(front),
        text::blank(back),
        text::bare(name),
        !name.contains(','),
        rest.len() > 0 ==> rest.first() == ',' || text::occurs_at(rest, "Updated account. DisplayName:"@, 0),
        forall|k: int|
            0 <= k < before.len() ==> !text::occurs_at(
                before + "Updated account. DisplayName:"@ + (front + name + back + rest),
                "Updated account. DisplayName:"@,
                k,
            ),
        forall|k: int|
            0 <= k < (front + name + back).len() ==> !text::occurs_at(
                front + name + back + rest,
                "Updated account. DisplayName:"@,
                k,
            ),
    ensures
        ({
            let content = before + "Updated account. DisplayName:"@ + (front + name + back + rest);
            &&& account_update(content) is Some
            &&& fields::is_str(
                account_update(content).unwrap().get("type"@),
                "session_account_update"@,
            )
            &&& fields::is_str(account_update(content).unwrap().get("display_name"@), name)
        }),
{
    let label = "Updated account. DisplayName:"@;
    let content = before + label + (front + name + back + rest);
    law_labelled_part_is_exact(before, label, front, name, back, rest);
    text::law_text_stands_between(content, label);
    lemma_account_members(content);
}

/// The identifier of an account is exactly the one that is written behind its label,
/// and empty where there is no such label.
pub proof fn law_account_id_is_exact(
    before: Seq<char>,
    front: Seq<char>,
    id: Seq<char>,
    back: Seq<char>,
    rest: Seq<char>,
)
    requires
        text::blank(front),
        text::blank(back),
        text::bare(id),
        !id.contains(','),
        rest.len() > 0 ==> rest.first() == ',' || text::occurs_at(rest, "AccountID:"@, 0),
        text::has_text(
            before + "AccountID:"@ + (front + id + back + rest),
            "Updated account. DisplayName:"@,
        ),
        forall|k: int|
            0 <= k < before.len() ==> !text::occurs_at(
                before + "AccountID:"@ + (front + id + back + rest),
                "AccountID:"@,
                k,
            ),
        forall|k: int|
            0 <= k < (front + id + back).len() ==> !text::occurs_at(
                front + id + back + rest,
                "AccountID:"@,
                k,
            ),
    ensures
        ({
            let content = before + "AccountID:"@ + (front + id + back + rest);
            &&& account_update(content) is Some
            &&& fields::is_str(account_update(content).unwrap().get("account_id"@), id)
        }),
{
    law_labelled_part_is_exact(before, "AccountID:"@, front, id, back, rest);
    lemma_account_members(before + "AccountID:"@ + (front + id + back + rest));
}

/// A line is an account identity exactly where it has the label of a display name.
/// Without the label of an identifier the identifier is empty.
pub proof fn law_account_needs_its_label(content: Seq<char>)
    ensures
        account_update(content) is Some <==> text::has_text(
            content,
            "Updated account. DisplayName:"@,
        ),
        account_update(content) matches Some(payload) ==> {
            &&& payload->Object_0.len() == 3
            &&& !text::has_text(content, "AccountID:"@) ==> fields::is_str(
                payload.get("account_id"@),
                ""@,
            )
        },
{
    if text::has_text(content, ACCOUNT_UPDATE_PREFIX@) {
        lemma_account_members(content);
        if !text::has_text(content, ACCOUNT_ID_LABEL@) {
            text::law_no_label_no_piece(content, ACCOUNT_ID_LABEL@);
        }
    }
}

/// Without a screen name at the top level, the first one that a member holds is
/// taken, and none where no member holds one.
pub proof fn law_nested_screen_name_is_found(
    members: Seq<(Seq<char>, JsonModel)>,
    i: int,
    name: Seq<char>,
)
    requires
        !(JsonModel::Object(members).get("screenName"@) matches Some(JsonModel::Str(_))),
        0 <= i <= members.len(),
        forall|j: int|
            0 <= j < i ==> !((#[trigger] members[j]).1.get("screenName"@) matches Some(
                JsonModel::Str(_),
            )),
        i < members.len() ==> fields::is_str(members[i].1.get("screenName"@), name),
    ensures
        screen_name(JsonModel::Object(members)) == if i < members.len() {
            Some(name)
        } else {
            None
        },
{
    lemma_nested_name(members, i, name);
}

proof fn lemma_nested_name(members: Seq<(Seq<char>, JsonModel)>, i: int, name: Seq<char>)
    requires
        0 <= i <= members.len(),
        forall|j: int|
            0 <= j < i ==> !((#[trigger] members[j]).1.get("screenName"@) matches Some(
                JsonModel::Str(_),
            )),
        i < members.len() ==> fields::is_str(members[i].1.get("screenName"@), name),
    ensures
        nested_screen_name(members) == if i < members.len() {
            Some(name)
        } else {
            None
        },
    decreases members.len(),
{
    if members.len() > 0 && i > 0 {
        let rest = members.drop_first();
        assert(!(members[0].1.get("screenName"@) matches Some(JsonModel::Str(_))));
        assert forall|j: int| 0 <= j < i - 1 implies !((#[trigger] rest[j]).1.get("screenName"@)
            matches Some(JsonModel::Str(_))) by {
            assert(rest[j] == members[j + 1]);
        }
        lemma_nested_name(rest, i - 1, name);
    }
}

/// What is no object has no screen name.
pub proof fn law_only_objects_have_screen_names(value: JsonModel)
    requires
        !(value is Object),
    ensures
        screen_name(value) is None,
{
}

/// A login reports the screen name of its response, empty where that has none, and
/// keeps the response. Without a response the name is empty and nothing is kept.
pub proof fn law_login_is_reported(response: Option<JsonModel>)
    ensures
        ({
            let payload = authenticate_payload(response);
            &&& fields::is_str(payload.get("type"@), "session_authenticate"@)
            &&& match response {
                Some(parsed) => {
                    &&& payload.get("raw_response"@) == Some(parsed)
                    &&& payload->Object_0.len() == 3
                    &&& match screen_name(parsed) {
                        Some(name) => fields::is_str(payload.get("screen_name"@), name),
                        None => fields::is_str(payload.get("screen_name"@), ""@),
                    }
                },
                None => {
                    &&& payload.get("raw_response"@) is None
                    &&& payload->Object_0.len() == 2
                    &&& fields::is_str(payload.get("screen_name"@), ""@)
                },
            }
        }),
{
    reveal_strlit("type");
    reveal_strlit("screen_name");
    reveal_strlit("raw_response");
    assert("type"@.len() == 4 && "screen_name"@.len() == 11 && "raw_response"@.len() == 12);
    let members = authenticate_payload(response)->Object_0;
    json::lemma_lookup_all(members);
    assert(members[0].0 == "type"@);
    assert(members[1].0 == "screen_name"@);
    match response {
        Some(_) => {
            assert(members[2].0 == "raw_response"@);
        },
        None => {
            json::lemma_lookup_missing(members, "raw_response"@);
        },
    }
}

/// The content of an entry is what stands on its first line behind either header,
/// whitespace before it aside. A carriage return before the line break is none of it.
pub proof fn law_header_is_stripped(front: Seq<char>, content: Seq<char>, rest: Seq<char>)
    requires
        text::blank(front),
        !front.contains('\n'),
        !content.contains('\n'),
        content.len() > 0 ==> !text::whitespace(content.first()),
    ensures
        header_content("[UnityCrossThreadLogger]"@ + front + content) == content,
        header_content("[Client GRE]"@ + front + content) == content,
        ({
            let line = if content.len() > 0 && content.last() == '\r' {
                content.drop_last()
            } else {
                content
            };
            &&& header_content("[UnityCrossThreadLogger]"@ + front + content + seq!['\n'] + rest)
                == line
            &&& header_content("[Client GRE]"@ + front + content + seq!['\n'] + rest) == line
        }),
{
    reveal_strlit("[UnityCrossThreadLogger]");
    reveal_strlit("[Client GRE]");
    lemma_told_apart(front + content);
    lemma_stripped(UNITY_HEADER@, front, content);
    lemma_stripped(CLIENT_GRE_HEADER@, front, content);
    lemma_line_behind(UNITY_HEADER@, front, content, rest);
    lemma_line_behind(CLIENT_GRE_HEADER@, front, content, rest);
    let none = Seq::<char>::empty();
    if content.len() > 0 && content.last() == '\r' {
        let short = content.drop_last();
        lemma_told_apart(front + short);
        lemma_stripped(UNITY_HEADER@, front, short);
        lemma_stripped(CLIENT_GRE_HEADER@, front, short);
    } else if content.len() == 0 && front.len() > 0 && front.last() == '\r' {
        let short = front.drop_last();
        assert forall|i: int| 0 <= i < short.len() implies text::whitespace(
            #[trigger] short[i],
        ) by {
            assert(short[i] == front[i]);
        }
        lemma_told_apart(short + none);
        lemma_stripped(UNITY_HEADER@, short, none);
        lemma_stripped(CLIENT_GRE_HEADER@, short, none);
        assert(content =~= none);
    }
}

/// What starts with one header does not start with the other.
proof fn lemma_told_apart(rest: Seq<char>)
    ensures
        text::without_prefix(CLIENT_GRE_HEADER@ + rest, UNITY_HEADER@) is None,
{
    reveal_strlit("[UnityCrossThreadLogger]");
    reveal_strlit("[Client GRE]");
    let line = CLIENT_GRE_HEADER@ + rest;
    assert(line[1] == 'C');
    if text::occurs_at(line, UNITY_HEADER@, 0) {
        assert(line.subrange(0, UNITY_HEADER@.len() as int)[1] == 'U');
    }
}

proof fn lemma_stripped(header: Seq<char>, front: Seq<char>, content: Seq<char>)
    requires
        text::blank(front),
        content.len() > 0 ==> !text::whitespace(content.first()),
    ensures
        header + front + content == header + (front + content),
        text::without_prefix(header + (front + content), header) == Some(front + content),
        text::trimmed_start(front + content) == content,
{
    assert(header + front + content =~= header + (front + content));
    text::law_prefix_is_taken_off(front + content, header);
    text::law_trim_start_leaves_the_rest(front, content);
}

/// The first line of an entry, alone and before a line break.
proof fn lemma_line_behind(
    header: Seq<char>,
    front: Seq<char>,
    content: Seq<char>,
    rest: Seq<char>,
)
    requires
        !header.contains('\n'),
        header.len() > 0,
        header.last() != '\r',
        !front.contains('\n'),
        !content.contains('\n'),
    ensures
        text::line_of(header + front + content) == header + front + content,
        text::line_of(header + front + content + seq!['\n'] + rest) == if content.len() > 0
            && content.last() == '\r' {
            header + front + content.drop_last()
        } else if content.len() == 0 && front.len() > 0 && front.last() == '\r' {
            header + front.drop_last() + Seq::<char>::empty()
        } else {
            header + front + content
        },
{
    let line = header + front + content;
    assert forall|i: int| 0 <= i < line.len() implies line[i] != '\n' by {
        if i < header.len() {
            assert(header.contains(header[i]));
        } else if i < header.len() + front.len() {
            assert(front.contains(front[i - header.len()]));
        } else {
            assert(content.contains(content[i - header.len() - front.len()]));
        }
    }
    text::lemma_line_of_only(line);
    text::lemma_line_of_first(line, rest);
    if content.len() > 0 {
        assert(line.last() == content.last());
        assert(line.drop_last() =~= header + front + content.drop_last());
    } else if front.len() > 0 {
        assert(line.last() == front.last());
        assert(line.drop_last() =~= header + front.drop_last() + Seq::<char>::empty());
    } else {
        assert(line.last() == header.last());
    }
}

/// An entry is emitted as the first of an account identity, a login and a disconnect
/// that it holds, and not at all where it holds none.
pub proof fn law_session_entries_are_emitted(body: Seq<char>, timestamp: Option<Timestamp>)
    ensures
        ({
            let content = header_content(body);
            let account = text::has_text(content, "Updated account. DisplayName:"@);
            let login = text::has_text(body, "authenticateResponse"@);
            let close = text::has_text(content, "FrontDoorConnection.Close"@);
            match session_claim(body, timestamp) {
                Some(event) => {
                    &&& event.kind == EventKind::Session
                    &&& event.metadata == events::entry_metadata(timestamp, body)
                    &&& if account {
                        Some(event.payload) == account_update(content)
                    } else if login {
                        event.payload == authenticate_payload(api_common::body_json(body))
                    } else {
                        &&& close
                        &&& event.payload is Object
                        &&& event.payload->Object_0.len() == 1
                        &&& fields::is_str(event.payload.get("type"@), "session_disconnect"@)
                    }
                },
                None => !account && !login && !close,
            }
        }),
{
    json::lemma_lookup_at(disconnect_payload()->Object_0, 0);
}

} // verus!
