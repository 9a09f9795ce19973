//! Prayer-time scheduling and cache engine for a daily practice tracker.
//!
//! The library models calendar dates, wall-clock times and the six daily
//! prayer instants, keeps a per-date cache of computed times in a SQLite
//! table, resolves the next upcoming prayer across day boundaries, and
//! derives streak analytics from historical completion records.

pub mod cache;
pub mod calculator;
pub mod clock;
pub mod config;
pub mod date;
pub mod dhikr;
pub mod error;
pub mod hijri;
pub mod prayer;
pub mod stats;
pub mod streak;
pub mod text;
