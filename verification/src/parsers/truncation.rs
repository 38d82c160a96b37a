//! GSM truncation marker parser.
//!
//! Recognizes Arena's `[Message summarized because one or more
//! GameStateMessages exceeded the 50 GameObject or 50 Annotation limit.]`
//! marker block and emits a truncation event with its counts.
//!
//! The marker block has the form:
//!
//! ```text
//! [Message summarized because one or more GameStateMessages exceeded the 50 GameObject or 50 Annotation limit.]
//! ::: GameStateMessage
//! :: GameObject Count = 63
//! :: Annotation Count = 4
//! ::: ActionsAvailableReq
//! ```
//!
//! The truncated message itself is not in the log. The event lets downstream
//! consumers mark the next game state as crossing a data-loss gap.

use vstd::prelude::*;
use crate::events;
use crate::events::{EventKind, EventModel, GameEvent, MetadataModel, TruncationEvent};
use crate::fields;
use crate::json;
use crate::log::entry::{EntryHeader, LogEntry};
use crate::log::timestamp::Timestamp;
use crate::text;
use crate::text::{lines, parse_u32, strip_prefix, trim, trim_start};

verus! {

/// Line prefix for the truncated message's reported game-object count.
pub const OBJECT_COUNT_PREFIX: &'static str = ":: GameObject Count = ";

/// Line prefix for the truncated message's reported annotation count.
pub const ANNOTATION_COUNT_PREFIX: &'static str = ":: Annotation Count = ";

/// What stands behind the prefix on the first line that starts with it,
/// leading whitespace aside.
pub open spec fn first_tail(lines: Seq<Seq<char>>, prefix: Seq<char>) -> Option<Seq<char>>
    decreases lines.len(),
{
    if lines.len() == 0 {
        None
    } else {
        match text::without_prefix(text::trimmed_start(lines[0]), prefix) {
            Some(tail) => Some(tail),
            None => first_tail(lines.drop_first(), prefix),
        }
    }
}

/// The count behind the prefix on the first line that starts with it. Nothing
/// where no line does or no count stands there.
pub open spec fn count_behind(body: Seq<char>, prefix: Seq<char>) -> Option<u32> {
    match first_tail(text::lines_of(body), prefix) {
        Some(tail) => text::number_in(text::trimmed(tail)),
        None => None,
    }
}

/// What an entry is emitted as: both counts have to be there.
pub open spec fn truncation_claim(
    header: EntryHeader,
    body: Seq<char>,
    timestamp: Option<Timestamp>,
) -> Option<EventModel> {
    if header != EntryHeader::TruncationMarker {
        None
    } else {
        match (count_behind(body, OBJECT_COUNT_PREFIX@), count_behind(body, ANNOTATION_COUNT_PREFIX@)) {
            (Some(objects), Some(annotations)) => Some(
                EventModel {
                    kind: EventKind::Truncation,
                    metadata: MetadataModel { timestamp, raw_bytes: Seq::empty() },
                    payload: events::truncation_payload(objects, annotations),
                },
            ),
            _ => None,
        }
    }
}

/// Attempts to parse a [`LogEntry`] as a GSM truncation event.
///
/// Returns a truncation when the entry's header is
/// [`EntryHeader::TruncationMarker`] **and** both the `GameObject Count` and
/// `Annotation Count` follow-on lines are present and parseable as `u32`.
/// Returns `None` if the header doesn't match or either count is missing or
/// malformed, because consumers need both counts to assess the size of the
/// lost message.
pub fn try_parse(entry: &LogEntry, timestamp: Option<Timestamp>) -> (event: Option<GameEvent>)
    ensures
        events::opt_event(event) == truncation_claim(entry.header, entry.body@, timestamp),
        events::opt_sound(events::opt_event(event)),
{
    if entry.header != EntryHeader::TruncationMarker {
        return None;
    }
    let body = entry.body.as_str();
    match extract_count(body, OBJECT_COUNT_PREFIX) {
        None => None,
        Some(object_count) => match extract_count(body, ANNOTATION_COUNT_PREFIX) {
            None => None,
            Some(annotation_count) => {
                proof {
                    events::law_truncation_is_well_formed(object_count, annotation_count);
                }
                Some(
                    GameEvent::Truncation(
                        TruncationEvent::new_truncation(timestamp, object_count, annotation_count),
                    ),
                )
            },
        },
    }
}

/// Scans the entry body for the first line whose trimmed form starts with
/// `prefix`, parses the trailing value as a `u32`, and returns it.
pub fn extract_count(body: &str, prefix: &str) -> (count: Option<u32>)
    ensures
        count == count_behind(body@, prefix@),
{
    let parts = lines(body);
    let ghost all = text::slice_models(parts@);
    assert(all.skip(0) =~= all);
    let mut i: usize = 0;
    while i < parts.len()
        invariant
            i <= parts@.len(),
            all == text::slice_models(parts@),
            all == text::lines_of(body@),
            first_tail(all, prefix@) == first_tail(all.skip(i as int), prefix@),
        decreases parts@.len() - i,
    {
        assert(all.skip(i as int).drop_first() =~= all.skip(i + 1));
        match strip_prefix(trim_start(parts[i]), prefix) {
            Some(tail) => return parse_u32(trim(tail)),
            None => {},
        }
        i += 1;
    }
    None
}

// ---------------------------------------------------------------------------
// Laws
// ---------------------------------------------------------------------------

/// A count is the number that stands behind its prefix on the first line that starts
/// with it, whitespace aside. Nothing where that is no number or no line starts so.
pub proof fn law_count_is_of_first_line(body: Seq<char>, prefix: Seq<char>, i: int)
    requires
        0 <= i <= text::lines_of(body).len(),
        forall|j: int|
            0 <= j < i ==> text::without_prefix(
                text::trimmed_start(#[trigger] text::lines_of(body)[j]),
                prefix,
            ) is None,
        i < text::lines_of(body).len() ==> text::without_prefix(
            text::trimmed_start(text::lines_of(body)[i]),
            prefix,
        ) is Some,
    ensures
        count_behind(body, prefix) == if i < text::lines_of(body).len() {
            text::number_in(
                text::trimmed(
                    text::without_prefix(
                        text::trimmed_start(text::lines_of(body)[i]),
                        prefix,
                    ).unwrap(),
                ),
            )
        } else {
            None
        },
{
    lemma_first_tail(text::lines_of(body), prefix, i);
}

proof fn lemma_first_tail(lines: Seq<Seq<char>>, prefix: Seq<char>, i: int)
    requires
        0 <= i <= lines.len(),
        forall|j: int|
            0 <= j < i ==> text::without_prefix(
                text::trimmed_start(#[trigger] lines[j]),
                prefix,
            ) is None,
        i < lines.len() ==> text::without_prefix(text::trimmed_start(lines[i]), prefix) is Some,
    ensures
        first_tail(lines, prefix) == if i < lines.len() {
            text::without_prefix(text::trimmed_start(lines[i]), prefix)
        } else {
            None
        },
    decreases lines.len(),
{
    if i > 0 {
        let rest = lines.drop_first();
        assert(text::without_prefix(text::trimmed_start(lines[0]), prefix) is None);
        assert forall|j: int| 0 <= j < i - 1 implies text::without_prefix(
            text::trimmed_start(#[trigger] rest[j]),
            prefix,
        ) is None by {
            assert(rest[j] == lines[j + 1]);
        }
        lemma_first_tail(rest, prefix, i - 1);
    }
}

/// A truncation is emitted exactly where its header says so and both counts are
/// there, each under its own name.
pub proof fn law_truncations_are_emitted(
    header: EntryHeader,
    body: Seq<char>,
    timestamp: Option<Timestamp>,
)
    ensures
        ({
            let objects = count_behind(body, ":: GameObject Count = "@);
            let annotations = count_behind(body, ":: Annotation Count = "@);
            match truncation_claim(header, body, timestamp) {
                Some(event) => {
                    &&& header == EntryHeader::TruncationMarker
                    &&& objects is Some && annotations is Some
                    &&& event.kind == EventKind::Truncation
                    &&& event.metadata.timestamp == timestamp
                    &&& event.metadata.raw_bytes.len() == 0
                    &&& fields::is_str(event.payload.get("type"@), "gsm_truncation"@)
                    &&& fields::is_int(
                        event.payload.get("object_count"@),
                        objects.unwrap() as int,
                    )
                    &&& fields::is_int(
                        event.payload.get("annotation_count"@),
                        annotations.unwrap() as int,
                    )
                    &&& event.payload->Object_0.len() == 3
                },
                None => header != EntryHeader::TruncationMarker || objects is None || annotations
                    is None,
            }
        }),
{
    if truncation_claim(header, body, timestamp) is Some {
        let objects = count_behind(body, OBJECT_COUNT_PREFIX@).unwrap();
        let annotations = count_behind(body, ANNOTATION_COUNT_PREFIX@).unwrap();
        events::law_truncation_is_well_formed(objects, annotations);
        let members = events::truncation_payload(objects, annotations)->Object_0;
        json::lemma_lookup_all(members);
        assert(members[0].0 == "type"@);
        assert(members[1].0 == "object_count"@);
        assert(members[2].0 == "annotation_count"@);
    }
}

} // verus!
