//! Core logic of a bot that renders visual diffs of sprite sheets and tile
//! maps changed in a pull request and packs the results into size-bounded
//! report chunks.
pub mod change;
pub mod check_run;
pub mod checkout;
pub mod config;
pub mod map;
pub mod map_report;
pub mod names;
pub mod ordered;
pub mod queue;
pub mod report;
pub mod sprite;
pub mod text;
