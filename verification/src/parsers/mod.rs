//! Category-specific parsers, one module per event category.

pub mod api_common;
pub mod event_lifecycle;
pub mod game_result;
pub mod gre;
pub mod inventory;
pub mod match_state;
pub mod metadata;
pub mod rank;
pub mod session;
pub mod truncation;
