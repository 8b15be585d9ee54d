use vstd::prelude::*;

verus! {

/// The assistant tools whose session logs the library reads: per-project
/// logs with an index file, date-partitioned rollout files, and a tree of
/// JSON documents.
#[derive(Debug, Clone, Copy, PartialEq, Eq, Structural)]
pub enum Tool {
    Claude,
    Codex,
    Opencode,
}

} // verus!
