//! Metadata event parser: `DETAILED LOGS` status detection.
//!
//! Recognizes the `DETAILED LOGS: ENABLED` and `DETAILED LOGS: DISABLED` lines
//! that Arena writes near the top of every session. These lines have no bracket
//! header prefix and stand in entries with a metadata header.

use vstd::prelude::*;
use crate::events;
use crate::events::{DetailedLoggingStatusEvent, EventKind, EventMetadata, EventModel, GameEvent};
use crate::json::{Json, JsonModel, JsonObject};
use crate::log::entry::{EntryHeader, LogEntry};
use crate::log::timestamp::Timestamp;
use crate::text;
use crate::text::{str_eq, trim};

verus! {

/// Marker text for enabled detailed logging.
pub const DETAILED_LOGS_ENABLED: &'static str = "DETAILED LOGS: ENABLED";

/// Marker text for disabled detailed logging.
pub const DETAILED_LOGS_DISABLED: &'static str = "DETAILED LOGS: DISABLED";

/// What a metadata line says of detailed logging.
pub open spec fn logging_status(body: Seq<char>) -> Option<bool> {
    if text::trimmed(body) == DETAILED_LOGS_ENABLED@ {
        Some(true)
    } else if text::trimmed(body) == DETAILED_LOGS_DISABLED@ {
        Some(false)
    } else {
        None
    }
}

/// What an entry is emitted as.
pub open spec fn metadata_claim(
    header: EntryHeader,
    body: Seq<char>,
    timestamp: Option<Timestamp>,
) -> Option<EventModel> {
    if header != EntryHeader::Metadata {
        None
    } else {
        match logging_status(body) {
            Some(enabled) => Some(
                EventModel {
                    kind: EventKind::DetailedLoggingStatus,
                    metadata: events::entry_metadata(timestamp, body),
                    payload: events::status_payload(enabled),
                },
            ),
            None => None,
        }
    }
}

/// Attempts to parse a [`LogEntry`] as a metadata event.
///
/// Returns a detailed logging status if the entry is a `DETAILED LOGS`
/// metadata line, or `None` otherwise.
///
/// Metadata lines carry no timestamp in the log. The `timestamp` is passed
/// through to [`EventMetadata`] all the same.
pub fn try_parse(entry: &LogEntry, timestamp: Option<Timestamp>) -> (event: Option<GameEvent>)
    ensures
        events::opt_event(event) == metadata_claim(entry.header, entry.body@, timestamp),
        events::opt_sound(events::opt_event(event)),
{
    if entry.header != EntryHeader::Metadata {
        return None;
    }
    let trimmed = trim(entry.body.as_str());
    let enabled = if str_eq(trimmed, DETAILED_LOGS_ENABLED) {
        true
    } else if str_eq(trimmed, DETAILED_LOGS_DISABLED) {
        false
    } else {
        return None;
    };
    let metadata = EventMetadata::of_entry(timestamp, entry.body.as_str());
    let mut payload = JsonObject::new();
    payload.push("enabled", Json::Bool(enabled));
    assert(payload@ =~= events::status_payload(enabled)->Object_0);
    proof {
        events::law_status_is_well_formed(enabled);
    }
    Some(
        GameEvent::DetailedLoggingStatus(
            DetailedLoggingStatusEvent::new(metadata, payload.finish()),
        ),
    )
}

// ---------------------------------------------------------------------------
// Laws
// ---------------------------------------------------------------------------

/// Only an entry with a metadata header is taken for a logging status.
pub proof fn law_other_headers_are_left_alone(
    header: EntryHeader,
    body: Seq<char>,
    timestamp: Option<Timestamp>,
)
    requires
        header != EntryHeader::Metadata,
    ensures
        metadata_claim(header, body, timestamp) is None,
{
}

/// A metadata line tells that logging is detailed, or that it is not, by its text
/// alone, whitespace around it aside.
pub proof fn law_status_is_told_by_its_line(
    front: Seq<char>,
    back: Seq<char>,
    timestamp: Option<Timestamp>,
)
    requires
        text::blank(front),
        text::blank(back),
    ensures
        ({
            let body = front + "DETAILED LOGS: ENABLED"@ + back;
            &&& metadata_claim(EntryHeader::Metadata, body, timestamp) matches Some(event)
            &&& event.kind == EventKind::DetailedLoggingStatus
            &&& event.metadata == events::entry_metadata(timestamp, body)
            &&& event.payload.get("enabled"@) == Some(JsonModel::Bool(true))
            &&& event.payload->Object_0.len() == 1
        }),
        ({
            let body = front + "DETAILED LOGS: DISABLED"@ + back;
            &&& metadata_claim(EntryHeader::Metadata, body, timestamp) matches Some(event)
            &&& event.kind == EventKind::DetailedLoggingStatus
            &&& event.metadata == events::entry_metadata(timestamp, body)
            &&& event.payload.get("enabled"@) == Some(JsonModel::Bool(false))
            &&& event.payload->Object_0.len() == 1
        }),
{
    reveal_strlit("DETAILED LOGS: ENABLED");
    reveal_strlit("DETAILED LOGS: DISABLED");
    assert("DETAILED LOGS: ENABLED"@.len() == 22 && "DETAILED LOGS: DISABLED"@.len() == 23);
    text::law_trim_leaves_the_core(front, "DETAILED LOGS: ENABLED"@, back);
    text::law_trim_leaves_the_core(front, "DETAILED LOGS: DISABLED"@, back);
    events::law_status_reads_back(true);
    events::law_status_reads_back(false);
}

/// No other line tells anything of logging.
pub proof fn law_other_lines_tell_nothing(
    header: EntryHeader,
    body: Seq<char>,
    timestamp: Option<Timestamp>,
)
    requires
        text::trimmed(body) != "DETAILED LOGS: ENABLED"@,
        text::trimmed(body) != "DETAILED LOGS: DISABLED"@,
    ensures
        metadata_claim(header, body, timestamp) is None,
{
}

} // verus!
