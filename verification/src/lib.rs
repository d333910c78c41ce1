//! Core of an HTTP load-generation engine: configuration rules, request
//! shaping, cancellation, progress throttling and the statistics report.
//!
//! All times are whole nanoseconds held in `u64`.

pub mod client;
pub mod config;
pub mod control;
pub mod counters;
pub mod counting;
pub mod errors;
pub mod facade;
pub mod histogram;
pub mod outcome;
pub mod percentile;
pub mod progress;
pub mod prepare;
pub mod report;
pub mod series;
pub mod shaper;
pub mod sorting;
pub mod stats;
pub mod text;
pub mod worker;
