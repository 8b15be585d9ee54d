use vstd::prelude::*;

use crate::codex::stats::DailyTokenEntry;
use crate::opencode::session_scanner::{count_json, count_messages};

verus! {

/// Usage counts of the tool, which records no token usage: the token
/// fields stay zero.
#[derive(Debug, Clone, PartialEq)]
pub struct TokenSummary {
    pub total_input_tokens: u64,
    pub total_output_tokens: u64,
    pub total_tokens: u64,
    pub tokens_by_model: Vec<(String, u64)>,
    pub daily_tokens: Vec<DailyTokenEntry>,
    pub session_count: usize,
    pub message_count: usize,
}

/// The message files over all message directories (given by their entry
/// names): each directory counts at most `u32::MAX`, the sum at most `usize::MAX`.
pub open spec fn messages_in(dirs: Seq<Vec<String>>) -> nat
    decreases dirs.len(),
{
    if dirs.len() == 0 {
        0
    } else {
        let n = messages_in(dirs.drop_last()) + if count_json(dirs.last()@) > u32::MAX {
            u32::MAX as nat
        } else {
            count_json(dirs.last()@)
        };
        if n > usize::MAX {
            usize::MAX as nat
        } else {
            n
        }
    }
}

/// Counts of sessions and messages; every token counter is zero.
pub fn get_stats(session_count: usize, message_dirs: &Vec<Vec<String>>) -> (r: TokenSummary)
    ensures
        r.total_input_tokens == 0,
        r.total_output_tokens == 0,
        r.total_tokens == 0,
        r.tokens_by_model@.len() == 0,
        r.daily_tokens@.len() == 0,
        r.session_count == session_count,
        r.message_count == messages_in(message_dirs@),
{
    let mut total: usize = 0;
    let mut i: usize = 0;
    while i < message_dirs.len()
        invariant
            i <= message_dirs.len(),
            total == messages_in(message_dirs@.subrange(0, i as int)),
        decreases message_dirs.len() - i,
    {
        assert(message_dirs@.subrange(0, i + 1).drop_last() =~= message_dirs@.subrange(0, i as int));
        let n = count_messages(&message_dirs[i]);
        total = total.saturating_add(n as usize);
        i = i + 1;
    }
    assert(message_dirs@.subrange(0, message_dirs.len() as int) =~= message_dirs@);
    TokenSummary {
        total_input_tokens: 0,
        total_output_tokens: 0,
        total_tokens: 0,
        tokens_by_model: Vec::new(),
        daily_tokens: Vec::new(),
        session_count,
        message_count: total,
    }
}

/// With no sessions and no message directories, every counter is zero.
pub proof fn lemma_empty_zero(dirs: Seq<Vec<String>>)
    requires
        dirs.len() == 0,
    ensures
        messages_in(dirs) == 0,
{
}

} // verus!
