//! Rollout logs, one JSON record per line, partitioned by `year/month/day`.

pub mod jsonl;
pub mod session_scanner;
pub mod search;
pub mod sessions;
pub mod projects;
pub mod stats;
