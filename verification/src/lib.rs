//! MTG Arena log parsing core.
//!
//! Raw log entries go in, typed game events come out. The [`router`] offers
//! each entry to the category [`parsers`] in a fixed order; the first that
//! recognizes it claims it.

pub mod events;
pub mod fields;
pub mod json;
pub mod json_text;
pub mod log;
pub mod parsers;
pub mod router;
pub mod scan;
pub mod text;
