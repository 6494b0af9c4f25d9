//! Monitors forum thread links for lifecycle-tag changes: extracts thread
//! identifiers from text, reads each thread page's title and status, groups a
//! batch of outcomes for display and selects stored snapshots by recency.
pub mod cache;
pub mod cli;
pub mod links;
pub mod markup;
pub mod parsing;
pub mod report;
pub mod text;
pub mod throttle;
pub mod title;
