//! Grouping and aggregation of log events by the values of configured field paths,
//! and the diagnostic records that report each group.

pub mod config;
pub mod emit;
pub mod event;
pub mod grouping;
pub mod laws;
pub mod counts;
