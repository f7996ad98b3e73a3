//! Per-user activity counters over code-repository records: filtering by an
//! allow-list and a closed time window, classification of each record, and
//! additive merging of the counters produced for separate repositories.

pub mod config;
pub mod records;
pub mod tally;
pub mod text;
pub mod time;
pub mod stats;
pub mod pipeline;
