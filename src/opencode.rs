//! Trees of JSON documents: projects, sessions, messages and message parts.

pub mod models;
pub mod messages;
pub mod search;
pub mod session_scanner;
pub mod sessions;
pub mod projects;
pub mod stats;
