//! Commit statistics over local repositories: date ranges, per-commit diff
//! summaries, period bucketing and activity histograms, with their contracts
//! proved by Verus.

pub mod args;
pub mod chart;
pub mod collector;
pub mod dashboard;
pub mod date;
pub mod diff;
pub mod error;
pub mod laws;
pub mod mvu;
pub mod repos;
pub mod stats;
pub mod table;
pub mod text;
pub mod timezone;
pub mod widgets;
