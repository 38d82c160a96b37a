//! Raw log entry to parser dispatch routing.
//!
//! # Dispatch strategy
//!
//! Each [`LogEntry`] is offered to category parsers in a fixed priority order
//! (most frequent first). The first parser that returns one or more events
//! claims the entry. GRE entries may produce multiple events from batched
//! `GameStateMessage` values. If no parser matches, the entry is counted as
//! unrecognized and discarded.
//!
//! The parsers for client actions, drafts and connections are not part of this
//! crate. What they made of an entry is handed in as [`OtherClaims`] and takes
//! its place in the order.
//!
//! # Timestamp extraction
//!
//! The router extracts the timestamp from the entry header line (e.g.,
//! `[UnityCrossThreadLogger]2/25/2026 12:00:00 PM ...`) and parses it using
//! [`parse_log_timestamp`]. If the timestamp cannot be parsed, `None` is passed
//! to parsers so downstream consumers can distinguish real timestamps from
//! missing ones.

use vstd::prelude::*;
use crate::events;
use crate::events::{EventModel, GameEvent, MetadataModel};
use crate::json;
use crate::log::entry::{EntryHeader, LogEntry};
use crate::log::timestamp;
use crate::log::timestamp::{parse_log_timestamp, Timestamp};
use crate::parsers;
use crate::text;
use crate::text::{after_char, first_line, join_first, split_whitespace, trim, trim_end_punctuation};

verus! {

// ---------------------------------------------------------------------------
// RouterStats
// ---------------------------------------------------------------------------

/// What the counters stand at.
pub struct StatsModel {
    pub routed: u64,
    pub unknown: u64,
    pub timestamp_failures: u64,
}

/// Counters for router health monitoring.
///
/// A spike of unknown entries after an MTGA update signals that new event types
/// may need parser support. A counter that has reached its largest value goes on
/// at zero.
#[derive(Debug)]
pub struct RouterStats {
    /// Number of entries successfully routed to a parser.
    routed: u64,
    /// Number of entries not claimed by any parser.
    unknown: u64,
    /// Number of entries where the timestamp could not be parsed.
    timestamp_failures: u64,
}

impl View for RouterStats {
    type V = StatsModel;

    closed spec fn view(&self) -> StatsModel {
        StatsModel {
            routed: self.routed,
            unknown: self.unknown,
            timestamp_failures: self.timestamp_failures,
        }
    }
}

/// All counters at zero.
pub open spec fn zero_stats() -> StatsModel {
    StatsModel { routed: 0, unknown: 0, timestamp_failures: 0 }
}

impl RouterStats {
    /// Creates a new `RouterStats` with all counters at zero.
    pub fn new() -> (stats: RouterStats)
        ensures
            stats@ == zero_stats(),
    {
        RouterStats { routed: 0, unknown: 0, timestamp_failures: 0 }
    }

    /// Returns the number of entries successfully routed to a parser.
    pub fn routed_count(&self) -> (n: u64)
        ensures
            n == self@.routed,
    {
        self.routed
    }

    /// Returns the number of unrecognized entries (not claimed by any parser).
    pub fn unknown_count(&self) -> (n: u64)
        ensures
            n == self@.unknown,
    {
        self.unknown
    }

    /// Returns the number of entries where the timestamp could not be parsed.
    pub fn timestamp_failure_count(&self) -> (n: u64)
        ensures
            n == self@.timestamp_failures,
    {
        self.timestamp_failures
    }

    /// Resets all counters to zero.
    pub fn reset(&mut self)
        ensures
            final(self)@ == zero_stats(),
    {
        self.routed = 0;
        self.unknown = 0;
        self.timestamp_failures = 0;
    }
}

impl Default for RouterStats {
    fn default() -> (stats: RouterStats)
        ensures
            stats@ == zero_stats(),
    {
        RouterStats::new()
    }
}

// ---------------------------------------------------------------------------
// Timestamps
// ---------------------------------------------------------------------------

/// The texts in which a timestamp is looked for: the first `n` words, then one
/// fewer and so on down to two, each without the punctuation at its end.
pub open spec fn candidates(words: Seq<Seq<char>>, n: int) -> Seq<Seq<char>>
    decreases n,
{
    if n < 2 {
        Seq::empty()
    } else {
        seq![text::unpunctuated(text::joined(words.take(n)))] + candidates(words, n - 1)
    }
}

/// The texts in which the timestamp of a body is looked for. They come from the
/// first line, behind its first `]`, and have at most four words.
pub open spec fn timestamp_candidates(body: Seq<char>) -> Seq<Seq<char>> {
    match text::after_first(text::line_of(body), ']') {
        Some(rest) => {
            let words = text::words_of(text::trimmed(rest));
            candidates(
                words,
                if words.len() < 4 {
                    words.len() as int
                } else {
                    4
                },
            )
        },
        None => Seq::empty(),
    }
}

/// The timestamp that the first of the texts with one holds.
pub open spec fn first_timestamp(texts: Seq<Seq<char>>) -> Option<Timestamp>
    decreases texts.len(),
{
    if texts.len() == 0 {
        None
    } else {
        timestamp::first_of(
            timestamp::log_timestamp(texts[0]),
            first_timestamp(texts.drop_first()),
        )
    }
}

/// The timestamp of a body.
pub open spec fn body_timestamp(body: Seq<char>) -> Option<Timestamp> {
    first_timestamp(timestamp_candidates(body))
}

/// The texts in which the timestamp of a body is looked for, longest first.
pub fn candidate_texts(body: &str) -> (texts: Vec<String>)
    ensures
        json::string_models(texts@) == timestamp_candidates(body@),
{
    let mut texts: Vec<String> = Vec::new();
    match after_char(first_line(body), ']') {
        None => {
            assert(json::string_models(texts@) =~= Seq::<Seq<char>>::empty());
        },
        Some(rest) => {
            let words = split_whitespace(trim(rest));
            let ghost models = text::slice_models(words@);
            let mut end: usize = if words.len() < 4 {
                words.len()
            } else {
                4
            };
            assert(json::string_models(texts@) + candidates(models, end as int)
                =~= timestamp_candidates(body@));
            while end >= 2
                invariant
                    end <= words@.len(),
                    models == text::slice_models(words@),
                    json::string_models(texts@) + candidates(models, end as int)
                        == timestamp_candidates(body@),
                decreases end,
            {
                let ghost before = texts@;
                let candidate = join_first(&words, end);
                texts.push(trim_end_punctuation(candidate.as_str()).to_owned());
                assert(json::string_models(texts@) + candidates(models, end - 1)
                    =~= json::string_models(before) + candidates(models, end as int));
                end -= 1;
            }
            assert(json::string_models(texts@) =~= timestamp_candidates(body@));
        },
    }
    texts
}

/// Extracts and parses the timestamp from the first line of an entry body.
///
/// The expected format is:
/// ```text
/// [UnityCrossThreadLogger]2/25/2026 12:00:00 PM some content
/// [Client GRE]2/25/2026 12:00:00 PM GreToClientEvent
/// [UnityCrossThreadLogger]3/13/2026 11:34:51 PM: Match to ...
/// ```
///
/// The timestamp may be followed by additional content on the same line or by a
/// newline. Trailing punctuation (like colons in `... PM: MatchGameRoom...`) is
/// trimmed before parsing.
pub fn extract_timestamp(body: &str) -> (at: Option<Timestamp>)
    ensures
        at == body_timestamp(body@),
{
    let texts = candidate_texts(body);
    let ghost all = json::string_models(texts@);
    assert(all.skip(0) =~= all);
    let mut i: usize = 0;
    while i < texts.len()
        invariant
            i <= texts@.len(),
            all == json::string_models(texts@),
            all == timestamp_candidates(body@),
            first_timestamp(all) == first_timestamp(all.skip(i as int)),
        decreases texts@.len() - i,
    {
        assert(all.skip(i as int).drop_first() =~= all.skip(i + 1));
        match parse_log_timestamp(texts[i].as_str()) {
            Ok(at) => return Some(at),
            Err(_) => {},
        }
        i += 1;
    }
    None
}

// ---------------------------------------------------------------------------
// Dispatch
// ---------------------------------------------------------------------------

/// What the parsers that are not part of this crate made of an entry. Each is
/// asked with the entry and the timestamp that [`extract_timestamp`] finds in it.
#[derive(Debug)]
pub struct OtherClaims {
    /// Client actions: frequent player decisions.
    pub client_action: Option<GameEvent>,
    /// Picks in drafts against bots.
    pub draft_bot: Option<GameEvent>,
    /// Picks in drafts among players.
    pub draft_human: Option<GameEvent>,
    /// Draft completion.
    pub draft_complete: Option<GameEvent>,
    /// `STATE CHANGED` transitions of the match connection.
    pub connection_state: Option<GameEvent>,
    /// Closed connections.
    pub connection_close: Option<GameEvent>,
    /// Connection errors.
    pub connection_error: Option<GameEvent>,
}

/// The models of the claims of other parsers.
pub struct ClaimsModel {
    pub client_action: Option<EventModel>,
    pub draft_bot: Option<EventModel>,
    pub draft_human: Option<EventModel>,
    pub draft_complete: Option<EventModel>,
    pub connection_state: Option<EventModel>,
    pub connection_close: Option<EventModel>,
    pub connection_error: Option<EventModel>,
}

impl View for OtherClaims {
    type V = ClaimsModel;

    open spec fn view(&self) -> ClaimsModel {
        ClaimsModel {
            client_action: events::opt_event(self.client_action),
            draft_bot: events::opt_event(self.draft_bot),
            draft_human: events::opt_event(self.draft_human),
            draft_complete: events::opt_event(self.draft_complete),
            connection_state: events::opt_event(self.connection_state),
            connection_close: events::opt_event(self.connection_close),
            connection_error: events::opt_event(self.connection_error),
        }
    }
}

/// No claim by any other parser.
pub open spec fn no_claims() -> ClaimsModel {
    ClaimsModel {
        client_action: None,
        draft_bot: None,
        draft_human: None,
        draft_complete: None,
        connection_state: None,
        connection_close: None,
        connection_error: None,
    }
}

impl OtherClaims {
    /// No claim by any other parser.
    pub fn none() -> (others: OtherClaims)
        ensures
            others@ == no_claims(),
    {
        OtherClaims {
            client_action: None,
            draft_bot: None,
            draft_human: None,
            draft_complete: None,
            connection_state: None,
            connection_close: None,
            connection_error: None,
        }
    }
}

impl ClaimsModel {
    /// Whether every claim has a well-formed payload.
    pub open spec fn sound(self) -> bool {
        &&& events::opt_sound(self.client_action)
        &&& events::opt_sound(self.draft_bot)
        &&& events::opt_sound(self.draft_human)
        &&& events::opt_sound(self.draft_complete)
        &&& events::opt_sound(self.connection_state)
        &&& events::opt_sound(self.connection_close)
        &&& events::opt_sound(self.connection_error)
    }
}

/// The claims of the parsers that give at most one event, in the order in which
/// they are asked.
pub open spec fn asked(
    body: Seq<char>,
    timestamp: Option<Timestamp>,
    others: ClaimsModel,
) -> Seq<Option<EventModel>> {
    seq![
        others.client_action,
        parsers::match_state::match_state_claim(body, timestamp),
        parsers::session::session_claim(body, timestamp),
        others.draft_bot,
        others.draft_human,
        others.draft_complete,
        parsers::event_lifecycle::lifecycle_claim(body, timestamp),
        parsers::rank::rank_claim(body, timestamp),
        parsers::inventory::inventory_claim(body, timestamp),
        others.connection_state,
        others.connection_close,
        others.connection_error,
    ]
}

/// The first of the claims that is there.
pub open spec fn first_claim(claims: Seq<Option<EventModel>>) -> Option<EventModel>
    decreases claims.len(),
{
    if claims.len() == 0 {
        None
    } else if claims[0] is Some {
        claims[0]
    } else {
        first_claim(claims.drop_first())
    }
}

/// The claim of the parsers that give at most one event.
pub open spec fn single_claim(
    body: Seq<char>,
    timestamp: Option<Timestamp>,
    others: ClaimsModel,
) -> Option<EventModel> {
    first_claim(asked(body, timestamp, others))
}

/// The first claim is the one that no earlier claim precedes.
proof fn lemma_first_claim_at(claims: Seq<Option<EventModel>>, k: int)
    requires
        0 <= k < claims.len(),
        claims[k] is Some,
        forall|j: int| 0 <= j < k ==> (#[trigger] claims[j]) is None,
    ensures
        first_claim(claims) == claims[k],
    decreases k,
{
    if k > 0 {
        let rest = claims.drop_first();
        assert(claims[0] is None);
        assert forall|j: int| 0 <= j < k - 1 implies (#[trigger] rest[j]) is None by {
            assert(rest[j] == claims[j + 1]);
        }
        lemma_first_claim_at(rest, k - 1);
    }
}

/// There is no first claim where there is none at all.
proof fn lemma_no_claim(claims: Seq<Option<EventModel>>)
    requires
        forall|j: int| 0 <= j < claims.len() ==> (#[trigger] claims[j]) is None,
    ensures
        first_claim(claims) is None,
    decreases claims.len(),
{
    if claims.len() > 0 {
        let rest = claims.drop_first();
        assert(claims[0] is None);
        assert forall|j: int| 0 <= j < rest.len() implies (#[trigger] rest[j]) is None by {
            assert(rest[j] == claims[j + 1]);
        }
        lemma_no_claim(rest);
    }
}

/// A claim as a sequence of events.
pub open spec fn claimed(claim: Option<EventModel>) -> Seq<EventModel> {
    match claim {
        Some(event) => seq![event],
        None => Seq::empty(),
    }
}

/// The events of the first parser that claims an entry.
pub open spec fn dispatched(
    header: EntryHeader,
    body: Seq<char>,
    timestamp: Option<Timestamp>,
    others: ClaimsModel,
) -> Seq<EventModel> {
    let metadata = parsers::metadata::metadata_claim(header, body, timestamp);
    let gre = parsers::gre::gre_claim(body, timestamp);
    if metadata is Some {
        claimed(metadata)
    } else if gre.len() > 0 {
        gre
    } else {
        claimed(single_claim(body, timestamp, others))
    }
}

/// The events of an entry with the given header and body, of which other parsers
/// made the given claims.
pub open spec fn routed_events(
    header: EntryHeader,
    body: Seq<char>,
    others: ClaimsModel,
) -> Seq<EventModel> {
    dispatched(header, body, body_timestamp(body), others)
}

fn find_single_claim(
    entry: &LogEntry,
    timestamp: Option<Timestamp>,
    others: OtherClaims,
) -> (event: Option<GameEvent>)
    ensures
        events::opt_event(event) == single_claim(entry.body@, timestamp, others@),
        others@.sound() ==> events::opt_sound(events::opt_event(event)),
{
    let ghost claims = asked(entry.body@, timestamp, others@);
    if let Some(event) = others.client_action {
        proof {
            lemma_first_claim_at(claims, 0);
        }
        return Some(event);
    }
    assert(claims[0] is None);
    if let Some(event) = parsers::match_state::try_parse(entry, timestamp) {
        proof {
            lemma_first_claim_at(claims, 1);
        }
        return Some(event);
    }
    assert(claims[1] is None);
    if let Some(event) = parsers::session::try_parse(entry, timestamp) {
        proof {
            lemma_first_claim_at(claims, 2);
        }
        return Some(event);
    }
    assert(claims[2] is None);
    if let Some(event) = others.draft_bot {
        proof {
            lemma_first_claim_at(claims, 3);
        }
        return Some(event);
    }
    assert(claims[3] is None);
    if let Some(event) = others.draft_human {
        proof {
            lemma_first_claim_at(claims, 4);
        }
        return Some(event);
    }
    assert(claims[4] is None);
    if let Some(event) = others.draft_complete {
        proof {
            lemma_first_claim_at(claims, 5);
        }
        return Some(event);
    }
    assert(claims[5] is None);
    if let Some(event) = parsers::event_lifecycle::try_parse(entry, timestamp) {
        proof {
            lemma_first_claim_at(claims, 6);
        }
        return Some(event);
    }
    assert(claims[6] is None);
    if let Some(event) = parsers::rank::try_parse(entry, timestamp) {
        proof {
            lemma_first_claim_at(claims, 7);
        }
        return Some(event);
    }
    assert(claims[7] is None);
    if let Some(event) = parsers::inventory::try_parse(entry, timestamp) {
        proof {
            lemma_first_claim_at(claims, 8);
        }
        return Some(event);
    }
    assert(claims[8] is None);
    if let Some(event) = others.connection_state {
        proof {
            lemma_first_claim_at(claims, 9);
        }
        return Some(event);
    }
    assert(claims[9] is None);
    if let Some(event) = others.connection_close {
        proof {
            lemma_first_claim_at(claims, 10);
        }
        return Some(event);
    }
    assert(claims[10] is None);
    if let Some(event) = others.connection_error {
        proof {
            lemma_first_claim_at(claims, 11);
        }
        return Some(event);
    }
    assert(claims[11] is None);
    proof {
        lemma_no_claim(claims);
    }
    None
}

/// Dispatches a log entry to category parsers in priority order.
///
/// Parsers are asked in order of expected frequency during typical gameplay:
///
/// - Metadata: `DETAILED LOGS` status (header-type short-circuit)
/// - GRE messages (game state + game result), the most frequent in-game
/// - Client actions: frequent player decisions (handed in)
/// - Match state: match boundaries
/// - Session: login/logout
/// - Draft bot: bot draft picks (handed in)
/// - Draft human: human draft picks (handed in)
/// - Draft complete: draft completion (handed in)
/// - Event lifecycle: event joins/claims
/// - Rank: rank snapshots
/// - Inventory: inventory from `StartHook`
/// - Match connection state: `STATE CHANGED` transitions (handed in)
/// - Connection close: `Client.TcpConnection.Close` /
///   `GREConnection.HandleWebSocketClosed` (handed in)
/// - Connection error (handed in)
///
/// The parsers marked as handed in are not part of this crate: `others` holds
/// what they made of the entry, and each takes its place in the order.
///
/// The GRE parser may return multiple events from a single entry (batched
/// `GameStateMessage` values). All other parsers return at most one event.
pub fn dispatch_to_parsers(
    entry: &LogEntry,
    timestamp: Option<Timestamp>,
    others: OtherClaims,
) -> (emitted: Vec<GameEvent>)
    ensures
        events::event_models(emitted@) == dispatched(
            entry.header,
            entry.body@,
            timestamp,
            others@,
        ),
        others@.sound() ==> events::all_sound(events::event_models(emitted@)),
{
    if let Some(event) = parsers::metadata::try_parse(entry, timestamp) {
        let mut emitted: Vec<GameEvent> = Vec::new();
        emitted.push(event);
        assert(events::event_models(emitted@) =~= seq![event@]);
        return emitted;
    }
    let gre_events = parsers::gre::try_parse(entry, timestamp);
    if gre_events.len() > 0 {
        assert(events::event_models(gre_events@).len() > 0);
        return gre_events;
    }
    assert(events::event_models(gre_events@).len() == 0);
    let mut emitted: Vec<GameEvent> = Vec::new();
    match find_single_claim(entry, timestamp, others) {
        Some(event) => {
            emitted.push(event);
            assert(events::event_models(emitted@) =~= seq![event@]);
        },
        None => {
            assert(events::event_models(emitted@) =~= Seq::<EventModel>::empty());
        },
    }
    emitted
}

// ---------------------------------------------------------------------------
// Router
// ---------------------------------------------------------------------------

/// The counters behind one more entry.
pub open spec fn counted(
    stats: StatsModel,
    timestamp: Option<Timestamp>,
    emitted: Seq<EventModel>,
) -> StatsModel {
    StatsModel {
        routed: if emitted.len() > 0 {
            stats.routed.wrapping_add(1)
        } else {
            stats.routed
        },
        unknown: if emitted.len() == 0 {
            stats.unknown.wrapping_add(1)
        } else {
            stats.unknown
        },
        timestamp_failures: if timestamp is None {
            stats.timestamp_failures.wrapping_add(1)
        } else {
            stats.timestamp_failures
        },
    }
}

/// The counters behind an entry with the given header and body, of which other
/// parsers made the given claims.
pub open spec fn stats_after(
    stats: StatsModel,
    header: EntryHeader,
    body: Seq<char>,
    others: ClaimsModel,
) -> StatsModel {
    counted(stats, body_timestamp(body), routed_events(header, body, others))
}

/// Dispatch router that matches raw log entries to category-specific parsers.
///
/// Holds a [`RouterStats`] that tracks routing outcomes for health monitoring.
/// The router is designed to be long-lived: create one at startup and reuse it
/// for every entry.
///
/// # Example
///
/// ```
/// use manasight_parser::router::{OtherClaims, Router};
/// use manasight_parser::log::entry::{LogEntry, EntryHeader};
///
/// let mut router = Router::new();
///
/// let entry = LogEntry {
///     header: EntryHeader::UnityCrossThreadLogger,
///     body: "[UnityCrossThreadLogger]some unrecognized line".to_owned(),
/// };
///
/// let events = router.route(&entry, OtherClaims::none());
/// assert!(events.is_empty());
/// assert_eq!(router.stats().unknown_count(), 1);
/// ```
#[derive(Debug)]
pub struct Router {
    /// Routing statistics for health monitoring.
    stats: RouterStats,
}

impl View for Router {
    type V = StatsModel;

    closed spec fn view(&self) -> StatsModel {
        self.stats@
    }
}

impl Router {
    /// Creates a new router with zeroed statistics.
    pub fn new() -> (router: Router)
        ensures
            router@ == zero_stats(),
    {
        Router { stats: RouterStats::new() }
    }

    /// Returns a reference to the router's statistics.
    pub fn stats(&self) -> (stats: &RouterStats)
        ensures
            stats@ == self@,
    {
        &self.stats
    }

    /// Returns a mutable reference to the router's statistics.
    pub fn stats_mut(&mut self) -> (stats: &mut RouterStats)
        ensures
            stats@ == old(self)@,
            final(self)@ == final(stats)@,
    {
        &mut self.stats
    }

    /// Routes a [`LogEntry`] to the appropriate parser.
    ///
    /// Extracts the timestamp from the entry header line, then offers the entry
    /// to each category parser in priority order. Returns one or more events if
    /// a parser claims the entry, or an empty `Vec` if unrecognized.
    ///
    /// What the parsers that are not part of this crate made of the entry is
    /// handed in as `others`.
    ///
    /// When the timestamp cannot be parsed, `None` is passed to parsers and the
    /// failure is counted.
    pub fn route(&mut self, entry: &LogEntry, others: OtherClaims) -> (emitted: Vec<GameEvent>)
        ensures
            events::event_models(emitted@) == routed_events(entry.header, entry.body@, others@),
            others@.sound() ==> events::all_sound(events::event_models(emitted@)),
            final(self)@ == stats_after(old(self)@, entry.header, entry.body@, others@),
    {
        let timestamp = extract_timestamp(entry.body.as_str());
        if timestamp.is_none() {
            self.stats.timestamp_failures = self.stats.timestamp_failures.wrapping_add(1);
        }
        let emitted = dispatch_to_parsers(entry, timestamp, others);
        assert(events::event_models(emitted@).len() == emitted@.len());
        if emitted.len() == 0 {
            self.stats.unknown = self.stats.unknown.wrapping_add(1);
        } else {
            self.stats.routed = self.stats.routed.wrapping_add(1);
        }
        emitted
    }
}

impl Default for Router {
    fn default() -> (router: Router)
        ensures
            router@ == zero_stats(),
    {
        Router::new()
    }
}

// ---------------------------------------------------------------------------
// Laws
// ---------------------------------------------------------------------------

/// Every entry is counted once: as routed where it gave an event, as unknown
/// where it gave none.
pub proof fn law_entry_is_counted_once(
    stats: StatsModel,
    header: EntryHeader,
    body: Seq<char>,
    others: ClaimsModel,
)
    requires
        stats.routed < u64::MAX,
        stats.unknown < u64::MAX,
    ensures
        ({
            let after = stats_after(stats, header, body, others);
            if routed_events(header, body, others).len() > 0 {
                after.routed == stats.routed + 1 && after.unknown == stats.unknown
            } else {
                after.routed == stats.routed && after.unknown == stats.unknown + 1
            }
        }),
{
}

/// A timestamp failure is counted exactly where an entry has no timestamp,
/// whether or not the entry is routed.
pub proof fn law_missing_timestamp_is_counted(
    stats: StatsModel,
    header: EntryHeader,
    body: Seq<char>,
    others: ClaimsModel,
)
    requires
        stats.timestamp_failures < u64::MAX,
    ensures
        ({
            let failures = stats_after(stats, header, body, others).timestamp_failures;
            if body_timestamp(body) is None {
                failures == stats.timestamp_failures + 1
            } else {
                failures == stats.timestamp_failures
            }
        }),
{
}

/// The counters behind a run of entries, each with its header, its body and what
/// other parsers made of it.
pub open spec fn stats_after_all(
    stats: StatsModel,
    entries: Seq<(EntryHeader, Seq<char>, ClaimsModel)>,
) -> StatsModel
    decreases entries.len(),
{
    if entries.len() == 0 {
        stats
    } else {
        let before = stats_after_all(stats, entries.drop_last());
        stats_after(before, entries.last().0, entries.last().1, entries.last().2)
    }
}

/// From new counters on, the routed and the unknown entries are together all
/// entries, and no more timestamps failed than there were entries.
pub proof fn law_counts_add_up(entries: Seq<(EntryHeader, Seq<char>, ClaimsModel)>)
    requires
        entries.len() <= u64::MAX,
    ensures
        ({
            let after = stats_after_all(zero_stats(), entries);
            &&& after.routed + after.unknown == entries.len()
            &&& after.timestamp_failures <= entries.len()
        }),
    decreases entries.len(),
{
    if entries.len() > 0 {
        law_counts_add_up(entries.drop_last());
    }
}

proof fn lemma_first_claim_is_asked(claims: Seq<Option<EventModel>>)
    requires
        first_claim(claims) is Some,
    ensures
        exists|k: int| 0 <= k < claims.len() && #[trigger] claims[k] == first_claim(claims),
    decreases claims.len(),
{
    if claims.len() > 0 {
        if claims[0] is None {
            let rest = claims.drop_first();
            lemma_first_claim_is_asked(rest);
            let k = choose|k: int| 0 <= k < rest.len() && #[trigger] rest[k] == first_claim(rest);
            assert(claims[k + 1] == rest[k]);
        } else {
            assert(claims[0] == first_claim(claims));
        }
    }
}

/// Whether an event, where there is one, carries the given metadata.
pub open spec fn carries(claim: Option<EventModel>, metadata: MetadataModel) -> bool {
    match claim {
        Some(event) => event.metadata == metadata,
        None => true,
    }
}

impl ClaimsModel {
    /// Whether every claim carries the given metadata.
    pub open spec fn all_carry(self, metadata: MetadataModel) -> bool {
        &&& carries(self.client_action, metadata)
        &&& carries(self.draft_bot, metadata)
        &&& carries(self.draft_human, metadata)
        &&& carries(self.draft_complete, metadata)
        &&& carries(self.connection_state, metadata)
        &&& carries(self.connection_close, metadata)
        &&& carries(self.connection_error, metadata)
    }

    /// Whether every claim has an object for its payload.
    pub open spec fn all_objects(self) -> bool {
        &&& self.client_action matches Some(event) ==> event.payload is Object
        &&& self.draft_bot matches Some(event) ==> event.payload is Object
        &&& self.draft_human matches Some(event) ==> event.payload is Object
        &&& self.draft_complete matches Some(event) ==> event.payload is Object
        &&& self.connection_state matches Some(event) ==> event.payload is Object
        &&& self.connection_close matches Some(event) ==> event.payload is Object
        &&& self.connection_error matches Some(event) ==> event.payload is Object
    }
}

/// What can be done to a router.
pub enum StepModel {
    /// An entry is routed: its header, its body and what other parsers made of
    /// it.
    Route(EntryHeader, Seq<char>, ClaimsModel),
    /// The counters are reset.
    Reset,
}

/// The counters behind a run of routes and resets.
pub open spec fn stats_after_steps(stats: StatsModel, steps: Seq<StepModel>) -> StatsModel
    decreases steps.len(),
{
    if steps.len() == 0 {
        stats
    } else {
        match steps.last() {
            StepModel::Route(header, body, others) => stats_after(
                stats_after_steps(stats, steps.drop_last()),
                header,
                body,
                others,
            ),
            StepModel::Reset => zero_stats(),
        }
    }
}

/// The entries that were routed since the last reset.
pub open spec fn since_reset(steps: Seq<StepModel>) -> Seq<(EntryHeader, Seq<char>, ClaimsModel)>
    decreases steps.len(),
{
    if steps.len() == 0 {
        Seq::empty()
    } else {
        match steps.last() {
            StepModel::Route(header, body, others) => since_reset(steps.drop_last()).push(
                (header, body, others),
            ),
            StepModel::Reset => Seq::empty(),
        }
    }
}

/// How many of the entries give an event.
pub open spec fn claimed_number(entries: Seq<(EntryHeader, Seq<char>, ClaimsModel)>) -> nat {
    entries.filter(
        |e: (EntryHeader, Seq<char>, ClaimsModel)| routed_events(e.0, e.1, e.2).len() > 0,
    ).len()
}

/// How many of the entries give no event.
pub open spec fn unclaimed_number(entries: Seq<(EntryHeader, Seq<char>, ClaimsModel)>) -> nat {
    entries.filter(
        |e: (EntryHeader, Seq<char>, ClaimsModel)| routed_events(e.0, e.1, e.2).len() == 0,
    ).len()
}

/// How many of the entries have no timestamp.
pub open spec fn timeless_number(entries: Seq<(EntryHeader, Seq<char>, ClaimsModel)>) -> nat {
    entries.filter(
        |e: (EntryHeader, Seq<char>, ClaimsModel)| body_timestamp(e.1) is None,
    ).len()
}

/// After any run of routes and resets of a new router, each counter is the number
/// of its entries since the last reset.
pub proof fn law_counters_count_since_reset(steps: Seq<StepModel>)
    requires
        since_reset(steps).len() <= u64::MAX,
    ensures
        ({
            let after = stats_after_steps(zero_stats(), steps);
            let entries = since_reset(steps);
            &&& after.routed == claimed_number(entries)
            &&& after.unknown == unclaimed_number(entries)
            &&& after.timestamp_failures == timeless_number(entries)
        }),
    decreases steps.len(),
{
    broadcast use vstd::seq_lib::group_filter_ensures;

    reveal(Seq::filter);
    if steps.len() > 0 {
        match steps.last() {
            StepModel::Route(header, body, others) => {
                let front = since_reset(steps.drop_last());
                let entries = since_reset(steps);
                law_counters_count_since_reset(steps.drop_last());
                assert(entries.drop_last() =~= front);
                assert(entries.last() == (header, body, others));
            },
            StepModel::Reset => {},
        }
    }
}

/// Every event of an entry carries the entry's timestamp and its bytes, where
/// those that other parsers made of it do. Where the entry has no timestamp, its
/// events have none.
pub proof fn law_events_carry_their_entry(
    header: EntryHeader,
    body: Seq<char>,
    others: ClaimsModel,
    i: int,
)
    requires
        others.all_carry(events::entry_metadata(body_timestamp(body), body)),
        0 <= i < routed_events(header, body, others).len(),
    ensures
        routed_events(header, body, others)[i].metadata == events::entry_metadata(
            body_timestamp(body),
            body,
        ),
{
    let timestamp = body_timestamp(body);
    let metadata = events::entry_metadata(timestamp, body);
    if parsers::metadata::metadata_claim(header, body, timestamp) is None {
        if parsers::gre::gre_claim(body, timestamp).len() > 0 {
            let parsed = parsers::api_common::body_json(body).unwrap();
            parsers::gre::law_events_share_metadata(parsed, metadata, i);
        } else {
            let claims = asked(body, timestamp, others);
            lemma_first_claim_is_asked(claims);
            assert forall|k: int| 0 <= k < claims.len() implies carries(
                #[trigger] claims[k],
                metadata,
            ) by {}
        }
    }
}

/// The payload of every event is a JSON object, where those that other parsers
/// made of the entry are.
pub proof fn law_payloads_are_objects(
    header: EntryHeader,
    body: Seq<char>,
    others: ClaimsModel,
    i: int,
)
    requires
        others.all_objects(),
        0 <= i < routed_events(header, body, others).len(),
    ensures
        routed_events(header, body, others)[i].payload is Object,
{
    let timestamp = body_timestamp(body);
    let metadata = events::entry_metadata(timestamp, body);
    if parsers::metadata::metadata_claim(header, body, timestamp) is None {
        if parsers::gre::gre_claim(body, timestamp).len() > 0 {
            let parsed = parsers::api_common::body_json(body).unwrap();
            parsers::gre::law_events_are_states_or_results(parsed, metadata, i);
        } else {
            let claims = asked(body, timestamp, others);
            lemma_first_claim_is_asked(claims);
            assert forall|k: int| 0 <= k < claims.len() && (#[trigger] claims[k]) is Some implies
                claims[k].unwrap().payload is Object by {}
        }
    }
}

/// A metadata line is claimed before any other parser sees it.
pub proof fn law_metadata_comes_first(
    header: EntryHeader,
    body: Seq<char>,
    timestamp: Option<Timestamp>,
    others: ClaimsModel,
)
    requires
        parsers::metadata::metadata_claim(header, body, timestamp) is Some,
    ensures
        dispatched(header, body, timestamp, others) == seq![
            parsers::metadata::metadata_claim(header, body, timestamp).unwrap(),
        ],
{
}

/// An entry that a GRE parser claims is left alone by those behind it.
pub proof fn law_gre_comes_next(
    header: EntryHeader,
    body: Seq<char>,
    timestamp: Option<Timestamp>,
    others: ClaimsModel,
)
    requires
        parsers::metadata::metadata_claim(header, body, timestamp) is None,
        parsers::gre::gre_claim(body, timestamp).len() > 0,
    ensures
        dispatched(header, body, timestamp, others) == parsers::gre::gre_claim(body, timestamp),
{
}

/// Of the parsers behind those two, the first in order that claims an entry gives
/// its one event, whatever those behind it would claim.
pub proof fn law_first_in_order_claims(
    header: EntryHeader,
    body: Seq<char>,
    timestamp: Option<Timestamp>,
    others: ClaimsModel,
    k: int,
)
    requires
        parsers::metadata::metadata_claim(header, body, timestamp) is None,
        parsers::gre::gre_claim(body, timestamp).len() == 0,
        0 <= k < asked(body, timestamp, others).len(),
        asked(body, timestamp, others)[k] is Some,
        forall|j: int| 0 <= j < k ==> (#[trigger] asked(body, timestamp, others)[j]) is None,
    ensures
        dispatched(header, body, timestamp, others) == seq![
            asked(body, timestamp, others)[k].unwrap(),
        ],
{
    lemma_first_claim_at(asked(body, timestamp, others), k);
}

/// Only GRE entries give more than one event.
pub proof fn law_several_events_are_gre(
    header: EntryHeader,
    body: Seq<char>,
    timestamp: Option<Timestamp>,
    others: ClaimsModel,
)
    requires
        dispatched(header, body, timestamp, others).len() > 1,
    ensures
        dispatched(header, body, timestamp, others) == parsers::gre::gre_claim(body, timestamp),
{
}

/// Unless it is a metadata header, the header of an entry does not change what
/// its body is emitted as.
pub proof fn law_bracketed_headers_are_alike(
    header: EntryHeader,
    other: EntryHeader,
    body: Seq<char>,
    timestamp: Option<Timestamp>,
    others: ClaimsModel,
)
    requires
        header != EntryHeader::Metadata,
        other != EntryHeader::Metadata,
    ensures
        dispatched(header, body, timestamp, others) == dispatched(other, body, timestamp, others),
{
}

/// An entry gives no event exactly where no parser claims it, be it one of this
/// crate or another.
pub proof fn law_unclaimed_entry_is_dropped(
    header: EntryHeader,
    body: Seq<char>,
    timestamp: Option<Timestamp>,
    others: ClaimsModel,
)
    ensures
        dispatched(header, body, timestamp, others).len() == 0 <==> {
            &&& parsers::metadata::metadata_claim(header, body, timestamp) is None
            &&& parsers::gre::gre_claim(body, timestamp).len() == 0
            &&& forall|k: int|
                0 <= k < asked(body, timestamp, others).len() ==> (#[trigger] asked(
                    body,
                    timestamp,
                    others,
                )[k]) is None
        },
{
    let claims = asked(body, timestamp, others);
    if forall|k: int| 0 <= k < claims.len() ==> (#[trigger] claims[k]) is None {
        lemma_no_claim(claims);
    } else {
        lemma_some_claim(claims);
    }
}

proof fn lemma_some_claim(claims: Seq<Option<EventModel>>)
    requires
        exists|k: int| 0 <= k < claims.len() && (#[trigger] claims[k]) is Some,
    ensures
        first_claim(claims) is Some,
    decreases claims.len(),
{
    if claims[0] is None {
        let rest = claims.drop_first();
        let k = choose|k: int| 0 <= k < claims.len() && (#[trigger] claims[k]) is Some;
        assert(rest[k - 1] == claims[k]);
        lemma_some_claim(rest);
    }
}

/// The timestamp of an entry is that of its first line: the lines behind it do
/// not change it.
pub proof fn law_timestamp_is_of_first_line(line: Seq<char>, rest: Seq<char>)
    requires
        !line.contains('\n'),
    ensures
        body_timestamp(line + seq!['\n'] + rest) == body_timestamp(line),
{
    let body = line + seq!['\n'] + rest;
    text::lemma_line_of_first(line, rest);
    text::lemma_line_of_only(line);
    let other = text::other_than(']');
    if line.len() > 0 && line.last() == '\r' {
        let short = line.drop_last();
        assert(short.push('\r') =~= line);
        text::lemma_span_bounds(short, other);
        let n = text::span(short, other);
        assert forall|i: int| 0 <= i < n implies other(#[trigger] line[i]) by {
            assert(line[i] == short[i]);
        }
        if n < short.len() {
            assert(line[n] == short[n]);
            text::lemma_span_is(line, other, n);
            let tail = short.skip(n + 1);
            assert(line.skip(n + 1) =~= tail.push('\r'));
            text::lemma_trimmed_push(tail, '\r');
        } else {
            assert(line[n] == '\r');
            text::lemma_span_is(line, other, n + 1);
        }
        assert(timestamp_candidates(body) == timestamp_candidates(line));
    }
}

/// Header text before the first `]` does not change the timestamp.
pub proof fn law_timestamp_ignores_header(header: Seq<char>, other: Seq<char>, rest: Seq<char>)
    requires
        !header.contains(']'),
        !header.contains('\n'),
        !other.contains(']'),
        !other.contains('\n'),
    ensures
        body_timestamp(header + seq![']'] + rest) == body_timestamp(other + seq![']'] + rest),
{
    lemma_behind_header(header, rest);
    lemma_behind_header(other, rest);
}

/// Behind a header without `]` stands the first line of the rest.
proof fn lemma_behind_header(header: Seq<char>, rest: Seq<char>)
    requires
        !header.contains(']'),
        !header.contains('\n'),
    ensures
        text::after_first(text::line_of(header + seq![']'] + rest), ']') == Some(
            text::line_of(rest),
        ),
{
    let front = header + seq![']'];
    assert forall|i: int| 0 <= i < front.len() implies front[i] != '\n' by {
        if i < header.len() {
            assert(header.contains(header[i]));
        }
    }
    text::lemma_line_of_front(front, rest);
    let line = front + text::line_of(rest);
    let n = header.len() as int;
    assert forall|i: int| 0 <= i < n implies (text::other_than(']'))(#[trigger] line[i]) by {
        assert(line[i] == header[i]);
        assert(header.contains(header[i]));
    }
    assert(line[n] == ']');
    text::lemma_span_is(line, text::other_than(']'), n);
    assert(line.skip(n + 1) =~= text::line_of(rest));
}

/// At most three texts are tried for a timestamp.
pub proof fn law_few_candidates(body: Seq<char>)
    ensures
        timestamp_candidates(body).len() <= 3,
{
    reveal_with_fuel(candidates, 5);
}

/// The claim of one parser as the events of an entry.
pub open spec fn claimed_once(claim: Option<EventModel>) -> Seq<EventModel> {
    seq![claim.unwrap()]
}

/// Behind the metadata and the GRE parsers, an entry goes to the first of the others
/// that claims it, in this order: client actions, match states, sessions, drafts
/// against bots, drafts among players, finished drafts, lifecycles, ranks,
/// inventories, and the states, the closes and the errors of connections.
pub proof fn law_parsers_are_asked_in_order(
    header: EntryHeader,
    body: Seq<char>,
    timestamp: Option<Timestamp>,
    others: ClaimsModel,
)
    requires
        parsers::metadata::metadata_claim(header, body, timestamp) is None,
        parsers::gre::gre_claim(body, timestamp).len() == 0,
    ensures
        ({
            let emitted = dispatched(header, body, timestamp, others);
            let match_state = parsers::match_state::match_state_claim(body, timestamp);
            let session = parsers::session::session_claim(body, timestamp);
            let lifecycle = parsers::event_lifecycle::lifecycle_claim(body, timestamp);
            let rank = parsers::rank::rank_claim(body, timestamp);
            let inventory = parsers::inventory::inventory_claim(body, timestamp);
            if others.client_action is Some {
                emitted == claimed_once(others.client_action)
            } else if match_state is Some {
                emitted == claimed_once(match_state)
            } else if session is Some {
                emitted == claimed_once(session)
            } else if others.draft_bot is Some {
                emitted == claimed_once(others.draft_bot)
            } else if others.draft_human is Some {
                emitted == claimed_once(others.draft_human)
            } else if others.draft_complete is Some {
                emitted == claimed_once(others.draft_complete)
            } else if lifecycle is Some {
                emitted == claimed_once(lifecycle)
            } else if rank is Some {
                emitted == claimed_once(rank)
            } else if inventory is Some {
                emitted == claimed_once(inventory)
            } else if others.connection_state is Some {
                emitted == claimed_once(others.connection_state)
            } else if others.connection_close is Some {
                emitted == claimed_once(others.connection_close)
            } else if others.connection_error is Some {
                emitted == claimed_once(others.connection_error)
            } else {
                emitted.len() == 0
            }
        }),
{
    let claims = asked(body, timestamp, others);
    if forall|k: int| 0 <= k < claims.len() ==> (#[trigger] claims[k]) is None {
        lemma_no_claim(claims);
    } else {
        lemma_some_claim(claims);
    }
    reveal_with_fuel(first_claim, 13);
    assert(claims.len() == 12);
    assert(claims.skip(0).drop_first() =~= claims.skip(1));
    assert(claims.skip(1).drop_first() =~= claims.skip(2));
    assert(claims.skip(2).drop_first() =~= claims.skip(3));
    assert(claims.skip(3).drop_first() =~= claims.skip(4));
    assert(claims.skip(4).drop_first() =~= claims.skip(5));
    assert(claims.skip(5).drop_first() =~= claims.skip(6));
    assert(claims.skip(6).drop_first() =~= claims.skip(7));
    assert(claims.skip(7).drop_first() =~= claims.skip(8));
    assert(claims.skip(8).drop_first() =~= claims.skip(9));
    assert(claims.skip(9).drop_first() =~= claims.skip(10));
    assert(claims.skip(10).drop_first() =~= claims.skip(11));
    assert(claims.skip(11).drop_first() =~= claims.skip(12));
    assert(claims.skip(0) =~= claims);
}

/// The events of an entry are those for its own timestamp.
pub proof fn law_entry_is_routed_with_its_timestamp(
    header: EntryHeader,
    body: Seq<char>,
    others: ClaimsModel,
)
    ensures
        routed_events(header, body, others) == dispatched(
            header,
            body,
            body_timestamp(body),
            others,
        ),
{
}

/// A counter that stands at its largest value goes on at zero, and no other counter
/// changes with it.
pub proof fn law_full_counters_start_again(
    stats: StatsModel,
    header: EntryHeader,
    body: Seq<char>,
    others: ClaimsModel,
)
    ensures
        ({
            let after = stats_after(stats, header, body, others);
            let emitted = routed_events(header, body, others).len() > 0;
            &&& stats.routed == u64::MAX && emitted ==> after.routed == 0
            &&& stats.unknown == u64::MAX && !emitted ==> after.unknown == 0
            &&& stats.timestamp_failures == u64::MAX && body_timestamp(body) is None
                ==> after.timestamp_failures == 0
            &&& !emitted ==> after.routed == stats.routed
            &&& emitted ==> after.unknown == stats.unknown
            &&& body_timestamp(body) is Some ==> after.timestamp_failures
                == stats.timestamp_failures
        }),
{
}

/// What stands in the header line behind its first `]` is read as a timestamp by its
/// first four words, or else three, or else two, with the punctuation at the end left
/// off. Where none of these is one there is no timestamp.
pub proof fn law_longest_front_is_read(header: Seq<char>, line: Seq<char>)
    requires
        !header.contains(']'),
        !header.contains('\n'),
        !line.contains('\n'),
    ensures
        ({
            let words = text::words_of(text::trimmed(line));
            let read = |n: int|
                if n <= words.len() {
                    timestamp::log_timestamp(text::unpunctuated(text::joined(words.take(n))))
                } else {
                    None
                };
            body_timestamp(header + seq![']'] + line) == if read(4) is Some {
                read(4)
            } else if read(3) is Some {
                read(3)
            } else {
                read(2)
            }
        }),
{
    lemma_behind_header(header, line);
    text::lemma_line_of_only(line);
    let words = text::words_of(text::trimmed(line));
    let n: int = if words.len() < 4 {
        words.len() as int
    } else {
        4
    };
    let four = text::unpunctuated(text::joined(words.take(4)));
    let three = text::unpunctuated(text::joined(words.take(3)));
    let two = text::unpunctuated(text::joined(words.take(2)));
    reveal_with_fuel(candidates, 5);
    reveal_with_fuel(first_timestamp, 5);
    let texts = candidates(words, n);
    if n == 4 {
        assert(texts =~= seq![four, three, two]);
        assert(texts.drop_first() =~= seq![three, two]);
        assert(texts.drop_first().drop_first() =~= seq![two]);
    } else if n == 3 {
        assert(texts =~= seq![three, two]);
        assert(texts.drop_first() =~= seq![two]);
    } else if n == 2 {
        assert(texts =~= seq![two]);
    }
}

/// Without a `]` in its first line an entry has no timestamp.
pub proof fn law_no_header_no_timestamp(line: Seq<char>)
    requires
        !line.contains(']'),
        !line.contains('\n'),
    ensures
        body_timestamp(line) is None,
{
    text::lemma_line_of_only(line);
    text::law_first_char_parts_the_text(line, ']', Seq::empty());
}

/// What other parsers made of an entry reads parser by parser.
pub proof fn law_claims_read_parser_by_parser(others: OtherClaims)
    ensures
        others@.client_action == events::opt_event(others.client_action),
        others@.draft_bot == events::opt_event(others.draft_bot),
        others@.draft_human == events::opt_event(others.draft_human),
        others@.draft_complete == events::opt_event(others.draft_complete),
        others@.connection_state == events::opt_event(others.connection_state),
        others@.connection_close == events::opt_event(others.connection_close),
        others@.connection_error == events::opt_event(others.connection_error),
{
}

} // verus!
