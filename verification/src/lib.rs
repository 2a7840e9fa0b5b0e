//! Match history and character statistics for Slippi (Super Smash Bros. Melee) replays.
//!
//! The library holds the logic: decoding `.slp` replay bytes, turning decoded replays and
//! CSV exports into match records, keeping the match store, filtering and querying matches,
//! and preparing the per-day and per-matchup data that the rating computation consumes.
pub mod settings;
pub mod text;
pub mod game;
pub mod time;
pub mod replay;
pub mod store;
pub mod csv;
pub mod stats;
pub mod query;
pub mod dirs;
pub mod stream;
pub mod slp;
