//! Events that the parsers emit.

use vstd::prelude::*;
use vstd::utf8::*;
use crate::json;
use crate::json::{Json, JsonModel, JsonObject};
use crate::log::timestamp::Timestamp;

verus! {

// ---------------------------------------------------------------------------
// Models
// ---------------------------------------------------------------------------

/// The category of an event.
#[derive(Clone, Copy, Debug, PartialEq, Eq, Structural)]
pub enum EventKind {
    GameState,
    MatchState,
    EventLifecycle,
    Session,
    Rank,
    Inventory,
    GameResult,
    DetailedLoggingStatus,
    Truncation,
    ClientAction,
    DraftBot,
    DraftHuman,
    DraftComplete,
    ConnectionState,
    ConnectionClose,
    ConnectionError,
}

/// How soon an event has to be handled, and how.
#[derive(Clone, Copy, Debug, PartialEq, Eq, Structural)]
pub enum PerformanceClass {
    /// Handled at once, on this machine alone.
    InteractiveDispatch,
    /// Kept durably, one event at a time.
    DurablePerEvent,
    /// Starts the assembly of a finished game.
    PostGameBatch,
}

/// When an event was logged, and the bytes it was read from.
#[verifier::ext_equal]
pub struct MetadataModel {
    pub timestamp: Option<Timestamp>,
    pub raw_bytes: Seq<u8>,
}

/// The mathematical reading of an event.
#[verifier::ext_equal]
pub struct EventModel {
    pub kind: EventKind,
    pub metadata: MetadataModel,
    pub payload: JsonModel,
}

/// The metadata of an entry with the given time and text.
pub open spec fn entry_metadata(timestamp: Option<Timestamp>, body: Seq<char>) -> MetadataModel {
    MetadataModel { timestamp, raw_bytes: encode_utf8(body) }
}

/// The class of each category.
pub open spec fn class_of(kind: EventKind) -> PerformanceClass {
    match kind {
        EventKind::GameState => PerformanceClass::InteractiveDispatch,
        EventKind::MatchState => PerformanceClass::InteractiveDispatch,
        EventKind::DetailedLoggingStatus => PerformanceClass::InteractiveDispatch,
        EventKind::Truncation => PerformanceClass::InteractiveDispatch,
        EventKind::ClientAction => PerformanceClass::InteractiveDispatch,
        EventKind::ConnectionState => PerformanceClass::InteractiveDispatch,
        EventKind::ConnectionClose => PerformanceClass::InteractiveDispatch,
        EventKind::ConnectionError => PerformanceClass::InteractiveDispatch,
        EventKind::EventLifecycle => PerformanceClass::DurablePerEvent,
        EventKind::Session => PerformanceClass::DurablePerEvent,
        EventKind::Rank => PerformanceClass::DurablePerEvent,
        EventKind::Inventory => PerformanceClass::DurablePerEvent,
        EventKind::DraftBot => PerformanceClass::DurablePerEvent,
        EventKind::DraftHuman => PerformanceClass::DurablePerEvent,
        EventKind::DraftComplete => PerformanceClass::DurablePerEvent,
        EventKind::GameResult => PerformanceClass::PostGameBatch,
    }
}

// ---------------------------------------------------------------------------
// Metadata
// ---------------------------------------------------------------------------

/// When an event was logged, and the bytes it was read from.
#[derive(Debug)]
pub struct EventMetadata {
    timestamp: Option<Timestamp>,
    raw_bytes: Vec<u8>,
}

impl View for EventMetadata {
    type V = MetadataModel;

    closed spec fn view(&self) -> MetadataModel {
        MetadataModel { timestamp: self.timestamp, raw_bytes: self.raw_bytes@ }
    }
}

impl EventMetadata {
    pub fn new(timestamp: Option<Timestamp>, raw_bytes: Vec<u8>) -> (metadata: EventMetadata)
        ensures
            metadata@ == (MetadataModel { timestamp, raw_bytes: raw_bytes@ }),
    {
        EventMetadata { timestamp, raw_bytes }
    }

    /// The metadata of an entry with the given time and text.
    pub fn of_entry(timestamp: Option<Timestamp>, body: &str) -> (metadata: EventMetadata)
        ensures
            metadata@ == entry_metadata(timestamp, body@),
    {
        let bytes = body.as_bytes();
        let mut raw_bytes: Vec<u8> = Vec::new();
        let mut i: usize = 0;
        while i < bytes.len()
            invariant
                i <= bytes@.len(),
                raw_bytes@ == bytes@.take(i as int),
            decreases bytes@.len() - i,
        {
            raw_bytes.push(bytes[i]);
            i += 1;
            assert(raw_bytes@ =~= bytes@.take(i as int));
        }
        assert(raw_bytes@ =~= bytes@);
        EventMetadata::new(timestamp, raw_bytes)
    }

    /// When the entry was logged; nothing where it held no timestamp.
    pub fn timestamp(&self) -> (at: Option<Timestamp>)
        ensures
            at == self@.timestamp,
    {
        self.timestamp
    }

    /// The bytes of the entry.
    pub fn raw_bytes(&self) -> (bytes: &[u8])
        ensures
            bytes@ == self@.raw_bytes,
    {
        self.raw_bytes.as_slice()
    }
}

// ---------------------------------------------------------------------------
// Events
// ---------------------------------------------------------------------------

/// An event that is its metadata and its payload.
#[derive(Debug)]
pub struct PayloadEvent {
    metadata: EventMetadata,
    payload: Json,
}

impl PayloadEvent {
    pub closed spec fn metadata_model(&self) -> MetadataModel {
        self.metadata@
    }

    pub closed spec fn payload_model(&self) -> JsonModel {
        self.payload@
    }

    pub fn new(metadata: EventMetadata, payload: Json) -> (event: PayloadEvent)
        ensures
            event.metadata_model() == metadata@,
            event.payload_model() == payload@,
    {
        PayloadEvent { metadata, payload }
    }

    pub fn metadata(&self) -> (metadata: &EventMetadata)
        ensures
            metadata@ == self.metadata_model(),
    {
        &self.metadata
    }

    pub fn payload(&self) -> (payload: &Json)
        ensures
            payload@ == self.payload_model(),
    {
        &self.payload
    }
}

/// A state of the game in progress, or its initial configuration.
pub type GameStateEvent = PayloadEvent;

/// A change of the match room's state.
pub type MatchStateEvent = PayloadEvent;

/// Joining an event, entering its queue, or claiming its prize.
pub type EventLifecycleEvent = PayloadEvent;

/// Login, account identity or logout.
pub type SessionEvent = PayloadEvent;

/// A snapshot of the player's ranks.
pub type RankEvent = PayloadEvent;

/// A snapshot of the player's inventory.
pub type InventoryEvent = PayloadEvent;

/// The end of a game.
pub type GameResultEvent = PayloadEvent;

/// A message of the client to the game rules engine.
pub type ClientActionEvent = PayloadEvent;

/// A pick or a pack in a draft against bots.
pub type DraftBotEvent = PayloadEvent;

/// A pick or a pack in a draft among players.
pub type DraftHumanEvent = PayloadEvent;

/// The end of a draft.
pub type DraftCompleteEvent = PayloadEvent;

/// A change of the match connection's state.
pub type ConnectionStateEvent = PayloadEvent;

/// The close of a connection.
pub type ConnectionCloseEvent = PayloadEvent;

/// An error of a connection.
pub type ConnectionErrorEvent = PayloadEvent;

/// The payload of a detailed logging status.
pub open spec fn status_payload(enabled: bool) -> JsonModel {
    JsonModel::Object(seq![("enabled"@, JsonModel::Bool(enabled))])
}

/// Whether the log is written in detail.
#[derive(Debug)]
pub struct DetailedLoggingStatusEvent {
    event: PayloadEvent,
}

impl DetailedLoggingStatusEvent {
    pub closed spec fn metadata_model(&self) -> MetadataModel {
        self.event.metadata_model()
    }

    pub closed spec fn payload_model(&self) -> JsonModel {
        self.event.payload_model()
    }

    pub fn new(metadata: EventMetadata, payload: Json) -> (event: DetailedLoggingStatusEvent)
        ensures
            event.metadata_model() == metadata@,
            event.payload_model() == payload@,
    {
        DetailedLoggingStatusEvent { event: PayloadEvent::new(metadata, payload) }
    }

    pub fn metadata(&self) -> (metadata: &EventMetadata)
        ensures
            metadata@ == self.metadata_model(),
    {
        self.event.metadata()
    }

    pub fn payload(&self) -> (payload: &Json)
        ensures
            payload@ == self.payload_model(),
    {
        self.event.payload()
    }

    /// The boolean under `enabled`, if the payload holds one.
    pub fn enabled(&self) -> (enabled: Option<bool>)
        ensures
            enabled == match self.payload_model().get("enabled"@) {
                Some(v) => v.as_bool(),
                None => None,
            },
    {
        match self.event.payload().get("enabled") {
            Some(v) => v.as_bool(),
            None => None,
        }
    }
}

/// The payload of a truncation.
pub open spec fn truncation_payload(object_count: u32, annotation_count: u32) -> JsonModel {
    JsonModel::Object(
        seq![
            ("type"@, JsonModel::Str("gsm_truncation"@)),
            ("object_count"@, json::int_json(object_count as i64)),
            ("annotation_count"@, json::int_json(annotation_count as i64)),
        ],
    )
}

/// The count under `key` in a payload, if it holds one that fits.
pub open spec fn count_in(payload: JsonModel, key: Seq<char>) -> Option<u32> {
    match json::int_in(payload.get(key)) {
        Some(n) => if 0 <= n <= u32::MAX {
            Some(n as u32)
        } else {
            None
        },
        None => None,
    }
}

/// A message that the log summarizes instead of holding, with the counts that
/// are left of it.
#[derive(Debug)]
pub struct TruncationEvent {
    event: PayloadEvent,
}

impl TruncationEvent {
    pub closed spec fn metadata_model(&self) -> MetadataModel {
        self.event.metadata_model()
    }

    pub closed spec fn payload_model(&self) -> JsonModel {
        self.event.payload_model()
    }

    /// A truncation with the given counts. It carries no raw bytes.
    pub fn new_truncation(
        timestamp: Option<Timestamp>,
        object_count: u32,
        annotation_count: u32,
    ) -> (event: TruncationEvent)
        ensures
            event.metadata_model() == (MetadataModel { timestamp, raw_bytes: Seq::empty() }),
            event.payload_model() == truncation_payload(object_count, annotation_count),
    {
        let mut payload = JsonObject::new();
        payload.push("type", Json::string("gsm_truncation"));
        payload.push("object_count", Json::integer(object_count as i64));
        payload.push("annotation_count", Json::integer(annotation_count as i64));
        assert(payload@ =~= truncation_payload(object_count, annotation_count)->Object_0);
        let metadata = EventMetadata::new(timestamp, Vec::new());
        TruncationEvent { event: PayloadEvent::new(metadata, payload.finish()) }
    }

    pub fn metadata(&self) -> (metadata: &EventMetadata)
        ensures
            metadata@ == self.metadata_model(),
    {
        self.event.metadata()
    }

    pub fn payload(&self) -> (payload: &Json)
        ensures
            payload@ == self.payload_model(),
    {
        self.event.payload()
    }

    fn count(&self, key: &str) -> (n: Option<u32>)
        ensures
            n == count_in(self.payload_model(), key@),
    {
        match json::int_field(self.event.payload().get(key)) {
            Some(n) => if 0 <= n && n <= u32::MAX as i64 {
                Some(n as u32)
            } else {
                None
            },
            None => None,
        }
    }

    /// How many game objects the message held.
    pub fn object_count(&self) -> (n: Option<u32>)
        ensures
            n == count_in(self.payload_model(), "object_count"@),
    {
        self.count("object_count")
    }

    /// How many annotations the message held.
    pub fn annotation_count(&self) -> (n: Option<u32>)
        ensures
            n == count_in(self.payload_model(), "annotation_count"@),
    {
        self.count("annotation_count")
    }
}

/// Both counts of a truncation read back as they were given.
pub proof fn law_truncation_counts_read_back(object_count: u32, annotation_count: u32)
    ensures
        count_in(truncation_payload(object_count, annotation_count), "object_count"@) == Some(
            object_count,
        ),
        count_in(truncation_payload(object_count, annotation_count), "annotation_count"@) == Some(
            annotation_count,
        ),
{
    reveal_strlit("type");
    reveal_strlit("object_count");
    reveal_strlit("annotation_count");
    let members = truncation_payload(object_count, annotation_count)->Object_0;
    assert(members[0].0.len() == 4 && members[1].0.len() == 12 && members[2].0.len() == 16);
    json::lemma_lookup_at(members, 1);
    json::lemma_lookup_at(members, 2);
}

/// Whether logging is detailed reads back as it was given.
pub proof fn law_status_reads_back(enabled: bool)
    ensures
        status_payload(enabled).get("enabled"@) == Some(JsonModel::Bool(enabled)),
{
}

/// An event.
#[derive(Debug)]
pub enum GameEvent {
    GameState(GameStateEvent),
    MatchState(MatchStateEvent),
    EventLifecycle(EventLifecycleEvent),
    Session(SessionEvent),
    Rank(RankEvent),
    Inventory(InventoryEvent),
    GameResult(GameResultEvent),
    DetailedLoggingStatus(DetailedLoggingStatusEvent),
    Truncation(TruncationEvent),
    ClientAction(ClientActionEvent),
    DraftBot(DraftBotEvent),
    DraftHuman(DraftHumanEvent),
    DraftComplete(DraftCompleteEvent),
    ConnectionState(ConnectionStateEvent),
    ConnectionClose(ConnectionCloseEvent),
    ConnectionError(ConnectionErrorEvent),
}

impl View for GameEvent {
    type V = EventModel;

    open spec fn view(&self) -> EventModel {
        match self {
            GameEvent::GameState(e) => EventModel {
                kind: EventKind::GameState,
                metadata: e.metadata_model(),
                payload: e.payload_model(),
            },
            GameEvent::MatchState(e) => EventModel {
                kind: EventKind::MatchState,
                metadata: e.metadata_model(),
                payload: e.payload_model(),
            },
            GameEvent::EventLifecycle(e) => EventModel {
                kind: EventKind::EventLifecycle,
                metadata: e.metadata_model(),
                payload: e.payload_model(),
            },
            GameEvent::Session(e) => EventModel {
                kind: EventKind::Session,
                metadata: e.metadata_model(),
                payload: e.payload_model(),
            },
            GameEvent::Rank(e) => EventModel {
                kind: EventKind::Rank,
                metadata: e.metadata_model(),
                payload: e.payload_model(),
            },
            GameEvent::Inventory(e) => EventModel {
                kind: EventKind::Inventory,
                metadata: e.metadata_model(),
                payload: e.payload_model(),
            },
            GameEvent::GameResult(e) => EventModel {
                kind: EventKind::GameResult,
                metadata: e.metadata_model(),
                payload: e.payload_model(),
            },
            GameEvent::DetailedLoggingStatus(e) => EventModel {
                kind: EventKind::DetailedLoggingStatus,
                metadata: e.metadata_model(),
                payload: e.payload_model(),
            },
            GameEvent::Truncation(e) => EventModel {
                kind: EventKind::Truncation,
                metadata: e.metadata_model(),
                payload: e.payload_model(),
            },
            GameEvent::ClientAction(e) => EventModel {
                kind: EventKind::ClientAction,
                metadata: e.metadata_model(),
                payload: e.payload_model(),
            },
            GameEvent::DraftBot(e) => EventModel {
                kind: EventKind::DraftBot,
                metadata: e.metadata_model(),
                payload: e.payload_model(),
            },
            GameEvent::DraftHuman(e) => EventModel {
                kind: EventKind::DraftHuman,
                metadata: e.metadata_model(),
                payload: e.payload_model(),
            },
            GameEvent::DraftComplete(e) => EventModel {
                kind: EventKind::DraftComplete,
                metadata: e.metadata_model(),
                payload: e.payload_model(),
            },
            GameEvent::ConnectionState(e) => EventModel {
                kind: EventKind::ConnectionState,
                metadata: e.metadata_model(),
                payload: e.payload_model(),
            },
            GameEvent::ConnectionClose(e) => EventModel {
                kind: EventKind::ConnectionClose,
                metadata: e.metadata_model(),
                payload: e.payload_model(),
            },
            GameEvent::ConnectionError(e) => EventModel {
                kind: EventKind::ConnectionError,
                metadata: e.metadata_model(),
                payload: e.payload_model(),
            },
        }
    }
}

/// The model of an optional event.
pub open spec fn opt_event(event: Option<GameEvent>) -> Option<EventModel> {
    match event {
        Some(e) => Some(e@),
        None => None,
    }
}

/// The models of a sequence of events.
pub open spec fn event_models(events: Seq<GameEvent>) -> Seq<EventModel> {
    Seq::new(events.len(), |i: int| events[i]@)
}

/// Whether the payload of an event, where there is one, is well formed.
pub open spec fn opt_sound(event: Option<EventModel>) -> bool {
    match event {
        Some(e) => json::well_formed(e.payload),
        None => true,
    }
}

/// Whether the payloads of all events are well formed.
pub open spec fn all_sound(emitted: Seq<EventModel>) -> bool {
    forall|i: int| 0 <= i < emitted.len() ==> json::well_formed((#[trigger] emitted[i]).payload)
}

impl GameEvent {
    /// The category of the event.
    pub fn kind(&self) -> (kind: EventKind)
        ensures
            kind == self@.kind,
    {
        match self {
            GameEvent::GameState(_) => EventKind::GameState,
            GameEvent::MatchState(_) => EventKind::MatchState,
            GameEvent::EventLifecycle(_) => EventKind::EventLifecycle,
            GameEvent::Session(_) => EventKind::Session,
            GameEvent::Rank(_) => EventKind::Rank,
            GameEvent::Inventory(_) => EventKind::Inventory,
            GameEvent::GameResult(_) => EventKind::GameResult,
            GameEvent::DetailedLoggingStatus(_) => EventKind::DetailedLoggingStatus,
            GameEvent::Truncation(_) => EventKind::Truncation,
            GameEvent::ClientAction(_) => EventKind::ClientAction,
            GameEvent::DraftBot(_) => EventKind::DraftBot,
            GameEvent::DraftHuman(_) => EventKind::DraftHuman,
            GameEvent::DraftComplete(_) => EventKind::DraftComplete,
            GameEvent::ConnectionState(_) => EventKind::ConnectionState,
            GameEvent::ConnectionClose(_) => EventKind::ConnectionClose,
            GameEvent::ConnectionError(_) => EventKind::ConnectionError,
        }
    }

    pub fn metadata(&self) -> (metadata: &EventMetadata)
        ensures
            metadata@ == self@.metadata,
    {
        match self {
            GameEvent::GameState(e) => e.metadata(),
            GameEvent::MatchState(e) => e.metadata(),
            GameEvent::EventLifecycle(e) => e.metadata(),
            GameEvent::Session(e) => e.metadata(),
            GameEvent::Rank(e) => e.metadata(),
            GameEvent::Inventory(e) => e.metadata(),
            GameEvent::GameResult(e) => e.metadata(),
            GameEvent::DetailedLoggingStatus(e) => e.metadata(),
            GameEvent::Truncation(e) => e.metadata(),
            GameEvent::ClientAction(e) => e.metadata(),
            GameEvent::DraftBot(e) => e.metadata(),
            GameEvent::DraftHuman(e) => e.metadata(),
            GameEvent::DraftComplete(e) => e.metadata(),
            GameEvent::ConnectionState(e) => e.metadata(),
            GameEvent::ConnectionClose(e) => e.metadata(),
            GameEvent::ConnectionError(e) => e.metadata(),
        }
    }

    pub fn payload(&self) -> (payload: &Json)
        ensures
            payload@ == self@.payload,
    {
        match self {
            GameEvent::GameState(e) => e.payload(),
            GameEvent::MatchState(e) => e.payload(),
            GameEvent::EventLifecycle(e) => e.payload(),
            GameEvent::Session(e) => e.payload(),
            GameEvent::Rank(e) => e.payload(),
            GameEvent::Inventory(e) => e.payload(),
            GameEvent::GameResult(e) => e.payload(),
            GameEvent::DetailedLoggingStatus(e) => e.payload(),
            GameEvent::Truncation(e) => e.payload(),
            GameEvent::ClientAction(e) => e.payload(),
            GameEvent::DraftBot(e) => e.payload(),
            GameEvent::DraftHuman(e) => e.payload(),
            GameEvent::DraftComplete(e) => e.payload(),
            GameEvent::ConnectionState(e) => e.payload(),
            GameEvent::ConnectionClose(e) => e.payload(),
            GameEvent::ConnectionError(e) => e.payload(),
        }
    }

    /// How soon the event has to be handled, and how.
    pub fn performance_class(&self) -> (class: PerformanceClass)
        ensures
            class == class_of(self@.kind),
    {
        match self {
            GameEvent::GameState(_) => PerformanceClass::InteractiveDispatch,
            GameEvent::MatchState(_) => PerformanceClass::InteractiveDispatch,
            GameEvent::DetailedLoggingStatus(_) => PerformanceClass::InteractiveDispatch,
            GameEvent::Truncation(_) => PerformanceClass::InteractiveDispatch,
            GameEvent::ClientAction(_) => PerformanceClass::InteractiveDispatch,
            GameEvent::ConnectionState(_) => PerformanceClass::InteractiveDispatch,
            GameEvent::ConnectionClose(_) => PerformanceClass::InteractiveDispatch,
            GameEvent::ConnectionError(_) => PerformanceClass::InteractiveDispatch,
            GameEvent::EventLifecycle(_) => PerformanceClass::DurablePerEvent,
            GameEvent::Session(_) => PerformanceClass::DurablePerEvent,
            GameEvent::Rank(_) => PerformanceClass::DurablePerEvent,
            GameEvent::Inventory(_) => PerformanceClass::DurablePerEvent,
            GameEvent::DraftBot(_) => PerformanceClass::DurablePerEvent,
            GameEvent::DraftHuman(_) => PerformanceClass::DurablePerEvent,
            GameEvent::DraftComplete(_) => PerformanceClass::DurablePerEvent,
            GameEvent::GameResult(_) => PerformanceClass::PostGameBatch,
        }
    }
}

/// The payload of a truncation is well formed.
pub proof fn law_truncation_is_well_formed(object_count: u32, annotation_count: u32)
    ensures
        json::well_formed(truncation_payload(object_count, annotation_count)),
{
    reveal_strlit("type");
    reveal_strlit("object_count");
    reveal_strlit("annotation_count");
    assert("type"@.len() == 4 && "object_count"@.len() == 12 && "annotation_count"@.len() == 16);
    json::lemma_object_well_formed(truncation_payload(object_count, annotation_count)->Object_0);
}

/// The payload of a logging status is well formed.
pub proof fn law_status_is_well_formed(enabled: bool)
    ensures
        json::well_formed(status_payload(enabled)),
{
    json::lemma_object_well_formed(status_payload(enabled)->Object_0);
}

/// Only the end of a game starts a post-game batch.
pub proof fn law_only_results_are_post_game(kind: EventKind)
    ensures
        class_of(kind) == PerformanceClass::PostGameBatch <==> kind == EventKind::GameResult,
{
}

/// The metadata of an entry tell its time, and its text can be read back from them.
pub proof fn law_metadata_keep_the_entry(timestamp: Option<Timestamp>, body: Seq<char>)
    ensures
        entry_metadata(timestamp, body).timestamp == timestamp,
        valid_utf8(entry_metadata(timestamp, body).raw_bytes),
        decode_utf8(entry_metadata(timestamp, body).raw_bytes) == body,
{
    encode_utf8_valid_utf8(body);
    encode_utf8_decode_utf8(body);
}

/// An event is of the category that it is built as, with the metadata and the payload
/// that it is built of.
pub proof fn law_event_is_what_it_is_built_of(event: PayloadEvent)
    ensures
        ({
            let metadata = event.metadata_model();
            let payload = event.payload_model();
            &&& GameEvent::GameState(event)@ == (EventModel {
                kind: EventKind::GameState,
                metadata,
                payload,
            })
            &&& GameEvent::MatchState(event)@ == (EventModel {
                kind: EventKind::MatchState,
                metadata,
                payload,
            })
            &&& GameEvent::EventLifecycle(event)@ == (EventModel {
                kind: EventKind::EventLifecycle,
                metadata,
                payload,
            })
            &&& GameEvent::Session(event)@ == (EventModel {
                kind: EventKind::Session,
                metadata,
                payload,
            })
            &&& GameEvent::Rank(event)@ == (EventModel {
                kind: EventKind::Rank,
                metadata,
                payload,
            })
            &&& GameEvent::Inventory(event)@ == (EventModel {
                kind: EventKind::Inventory,
                metadata,
                payload,
            })
            &&& GameEvent::GameResult(event)@ == (EventModel {
                kind: EventKind::GameResult,
                metadata,
                payload,
            })
            &&& GameEvent::ClientAction(event)@ == (EventModel {
                kind: EventKind::ClientAction,
                metadata,
                payload,
            })
            &&& GameEvent::DraftBot(event)@ == (EventModel {
                kind: EventKind::DraftBot,
                metadata,
                payload,
            })
            &&& GameEvent::DraftHuman(event)@ == (EventModel {
                kind: EventKind::DraftHuman,
                metadata,
                payload,
            })
            &&& GameEvent::DraftComplete(event)@ == (EventModel {
                kind: EventKind::DraftComplete,
                metadata,
                payload,
            })
            &&& GameEvent::ConnectionState(event)@ == (EventModel {
                kind: EventKind::ConnectionState,
                metadata,
                payload,
            })
            &&& GameEvent::ConnectionClose(event)@ == (EventModel {
                kind: EventKind::ConnectionClose,
                metadata,
                payload,
            })
            &&& GameEvent::ConnectionError(event)@ == (EventModel {
                kind: EventKind::ConnectionError,
                metadata,
                payload,
            })
        }),
{
}

/// Game states, match states, logging statuses, truncations, client actions and what
/// befalls connections are handled at once. Results start a batch. All else is kept.
pub proof fn law_classes_part_the_categories(kind: EventKind)
    ensures
        class_of(kind) == PerformanceClass::DurablePerEvent <==> {
            ||| kind == EventKind::EventLifecycle
            ||| kind == EventKind::Session
            ||| kind == EventKind::Rank
            ||| kind == EventKind::Inventory
            ||| kind == EventKind::DraftBot
            ||| kind == EventKind::DraftHuman
            ||| kind == EventKind::DraftComplete
        },
        class_of(kind) == PerformanceClass::InteractiveDispatch <==> {
            ||| kind == EventKind::GameState
            ||| kind == EventKind::MatchState
            ||| kind == EventKind::DetailedLoggingStatus
            ||| kind == EventKind::Truncation
            ||| kind == EventKind::ClientAction
            ||| kind == EventKind::ConnectionState
            ||| kind == EventKind::ConnectionClose
            ||| kind == EventKind::ConnectionError
        },
{
}

/// A count reads as the integer under its name, where that is one that fits.
pub proof fn law_counts_are_read_by_name(payload: JsonModel, key: Seq<char>)
    ensures
        match payload.get(key) {
            Some(JsonModel::Number(json::JsonNumber::PosInt(n))) => if n <= u32::MAX {
                count_in(payload, key) == Some(n as u32)
            } else {
                count_in(payload, key) is None
            },
            Some(JsonModel::Number(json::JsonNumber::NegInt(n))) => if 0 <= n <= u32::MAX {
                count_in(payload, key) == Some(n as u32)
            } else {
                count_in(payload, key) is None
            },
            _ => count_in(payload, key) is None,
        },
{
}

/// A logging status and a truncation are of their own categories.
pub proof fn law_notices_are_what_they_are_built_of(
    status: DetailedLoggingStatusEvent,
    truncation: TruncationEvent,
)
    ensures
        GameEvent::DetailedLoggingStatus(status)@ == (EventModel {
            kind: EventKind::DetailedLoggingStatus,
            metadata: status.metadata_model(),
            payload: status.payload_model(),
        }),
        GameEvent::Truncation(truncation)@ == (EventModel {
            kind: EventKind::Truncation,
            metadata: truncation.metadata_model(),
            payload: truncation.payload_model(),
        }),
{
}

/// Several events read one for one, in order, and an event that may be absent reads as
/// absent where it is.
pub proof fn law_events_read_one_for_one(several: Seq<GameEvent>, event: GameEvent)
    ensures
        event_models(several).len() == several.len(),
        forall|i: int|
            0 <= i < several.len() ==> #[trigger] event_models(several)[i] == several[i]@,
        opt_event(Some(event)) == Some(event@),
        opt_event(None) is None,
{
}

} // verus!
