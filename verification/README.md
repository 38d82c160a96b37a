# manasight_parser

Parses the entries of an MTG Arena `Player.log` into typed game events.

| Path | Holds |
|------|-------|
| `src/router.rs` | offers each entry to the parsers in order, and counts the outcomes |
| `src/parsers/` | one module per event category |
| `src/parsers/gre/` | the game engine's messages: connection, game state, annotations, results |
| `src/events.rs` | the events, their metadata and their performance classes |
| `src/log/` | entries and timestamps |
| `src/scan.rs` | finding the JSON in an entry's text |
| `src/json.rs`, `src/json_text.rs` | JSON values, and reading them by way of `serde_json` |
| `src/text.rs` | text primitives with exact contracts |
| `tests/` | tests |
| `app/` | shared routing with log output, and conversions to `chrono` and `serde_json` types |

The parsers for client actions, bot, human and completed drafts, and for the
state, close and errors of connections are not part of this crate. Their events
have variants of `GameEvent`, and what they make of an entry is handed to the
router as `OtherClaims`; the router gives each claim its place in the order.

Every function states what it returns over mathematical models: a JSON value is a
`JsonModel`, an event an `EventModel`, a text a sequence of characters. What an
entry becomes is a spec function of its header, its text and the claims handed in
(`router::routed_events`).
Proof functions named `law_...` state what holds across functions.

The contracts name, rather than spell out, what `serde_json::from_str` returns
(`parsed_json`), what `chrono::NaiveDateTime::parse_from_str` returns
(`date_time_in`), and what the values of `serde_json` hold (`value_model`,
`map_model`, `number_model`).
