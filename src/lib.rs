//! Reads the session logs of three coding-assistant tools into one model of
//! sessions, messages and content blocks, and serves it by page, by search
//! and as usage statistics.

pub mod claude;
pub mod codex;
pub mod dispatch;
pub mod json;
pub mod opencode;
pub mod pagination;
pub mod shared_models;
pub mod sort;
pub mod terminal;
pub mod text;
pub mod time;
pub mod watcher;
