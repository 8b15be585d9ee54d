//! Per-project session logs with an index file (`sessions-index.json`) and
//! a usage cache.

pub mod messages;
pub mod sessions;
pub mod stats;
pub mod projects;
pub mod search;
