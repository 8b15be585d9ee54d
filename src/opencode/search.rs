use vstd::prelude::*;

use crate::opencode::models::{message_text, parse_message, MessageMetaView};
use crate::shared_models::opt_view;
use crate::text::{chars_of, concat, contains, find_chars, find_from, lit, lower_of, lowercase, string_of, take};
use crate::time::{rfc3339_from_secs, rfc3339_of};

verus! {

/// One message where a search query was found.
#[derive(Debug, Clone, PartialEq)]
pub struct OpencodeSearchResult {
    pub project_id: String,
    pub session_id: String,
    pub first_prompt: Option<String>,
    pub matched_text: String,
    pub role: String,
    pub timestamp: Option<String>,
    pub message_id: String,
}

pub struct OpencodeResultView {
    pub project_id: Seq<char>,
    pub session_id: Seq<char>,
    pub first_prompt: Option<Seq<char>>,
    pub matched_text: Seq<char>,
    pub role: Seq<char>,
    pub timestamp: Option<Seq<char>>,
    pub message_id: Seq<char>,
}

impl View for OpencodeSearchResult {
    type V = OpencodeResultView;

    open spec fn view(&self) -> OpencodeResultView {
        OpencodeResultView {
            project_id: self.project_id@,
            session_id: self.session_id@,
            first_prompt: opt_view(self.first_prompt),
            matched_text: self.matched_text@,
            role: self.role@,
            timestamp: opt_view(self.timestamp),
            message_id: self.message_id@,
        }
    }
}

pub open spec fn results_view(v: Seq<OpencodeSearchResult>) -> Seq<OpencodeResultView> {
    v.map_values(|r: OpencodeSearchResult| r@)
}

/// Characters of context kept around a match, both sides together.
pub const MATCH_CONTEXT: usize = 200;

/// The snippet for a match of `query` in `text`: half of `len` characters on
/// each side of the first match (ignoring case), with "..." where text was
/// cut; the first `len` characters where there is no match.
pub open spec fn match_context(text: Seq<char>, query: Seq<char>, len: int) -> Seq<char> {
    let q = lower_of(query);
    match find_from(lower_of(text), q, 0) {
        Some(pos) => {
            let half = len / 2;
            let end = if pos + q.len() + half < text.len() {
                pos + q.len() + half
            } else {
                text.len() as int
            };
            let start0 = if pos > half {
                pos - half
            } else {
                0
            };
            let start = if start0 < end {
                start0
            } else {
                end
            };
            (if start > 0 {
                "..."@
            } else {
                Seq::empty()
            }) + text.subrange(start, end) + (if end < text.len() {
                "..."@
            } else {
                Seq::empty()
            })
        },
        None => take(text, len),
    }
}

/// A window of context around the first match of `query` in `text`.
pub fn extract_match_context(text: &str, query: &str, context_len: usize) -> (r: String)
    ensures
        r@ == match_context(text@, query@, context_len as int),
{
    let text_lower = lowercase(text);
    let query_lower = lowercase(query);
    let tc = chars_of(text);
    let lc = chars_of(text_lower.as_str());
    let qc = chars_of(query_lower.as_str());
    proof {
        reveal_strlit("");
        reveal_strlit("...");
    }
    match find_chars(&lc, &qc, 0) {
        Some(pos) => {
            let half = context_len / 2;
            let e = pos.saturating_add(qc.len()).saturating_add(half);
            let end = if e < tc.len() {
                e
            } else {
                tc.len()
            };
            let start0 = if pos > half {
                pos - half
            } else {
                0
            };
            let start = if start0 < end {
                start0
            } else {
                end
            };
            let mid = string_of(&tc, start, end);
            let head = if start > 0 {
                concat("...", mid.as_str())
            } else {
                mid
            };
            if end < tc.len() {
                concat(head.as_str(), "...")
            } else {
                head
            }
        },
        None => {
            let n = if tc.len() < context_len {
                tc.len()
            } else {
                context_len
            };
            string_of(&tc, 0, n)
        },
    }
}

/// The snippet a message gives for a query: from its summary title where
/// that holds the query (ignoring case), else from its system prompt.
pub open spec fn message_match(meta: MessageMetaView, query: Seq<char>) -> Option<Seq<char>> {
    let q = lower_of(query);
    match meta.title {
        Some(t) if contains(lower_of(t), q) => Some(match_context(t, query, 200)),
        _ => match meta.system {
            Some(s) if contains(lower_of(s), q) => Some(match_context(s, query, 200)),
            _ => None,
        },
    }
}

pub open spec fn message_result(session_id: Seq<char>, text: Seq<char>, query: Seq<char>) -> Seq<OpencodeResultView> {
    match message_text(text) {
        Some(meta) => match message_match(meta, query) {
            Some(snippet) => seq![
                OpencodeResultView {
                    project_id: Seq::empty(),
                    session_id,
                    first_prompt: None,
                    matched_text: snippet,
                    role: meta.role,
                    timestamp: Some(rfc3339_of((meta.created / 1000) as int)),
                    message_id: meta.id,
                },
            ],
            None => Seq::empty(),
        },
        None => Seq::empty(),
    }
}

/// The results of one session's message files, in file order.
pub open spec fn session_results(session_id: Seq<char>, texts: Seq<String>, query: Seq<char>) -> Seq<OpencodeResultView>
    decreases texts.len(),
{
    if texts.len() == 0 {
        Seq::empty()
    } else {
        session_results(session_id, texts.drop_last(), query) + message_result(session_id, texts.last()@, query)
    }
}

fn search_message(session_id: &String, text: &String, query: &str) -> (r: Option<OpencodeSearchResult>)
    ensures
        match r {
            Some(x) => message_result(session_id@, text@, query@) == seq![x@],
            None => message_result(session_id@, text@, query@) == Seq::<OpencodeResultView>::empty(),
        },
{
    let meta = match parse_message(text.as_str()) {
        Ok(m) => m,
        Err(_) => return None,
    };
    let q = lowercase(query);
    let mut matched: Option<String> = None;
    if let Some(summary) = &meta.summary {
        if let Some(title) = &summary.title {
            let tl = lowercase(title.as_str());
            if crate::text::contains_str(tl.as_str(), q.as_str()) {
                matched = Some(extract_match_context(title.as_str(), query, MATCH_CONTEXT));
            }
        }
    }
    if matched.is_none() {
        if let Some(system) = &meta.system {
            let sl = lowercase(system.as_str());
            if crate::text::contains_str(sl.as_str(), q.as_str()) {
                matched = Some(extract_match_context(system.as_str(), query, MATCH_CONTEXT));
            }
        }
    }
    match matched {
        Some(snippet) => {
            let secs = meta.time.created / 1000;
            proof {
                reveal_strlit("");
            }
            let x = OpencodeSearchResult {
                project_id: lit(""),
                session_id: session_id.clone(),
                first_prompt: None,
                matched_text: snippet,
                role: meta.role.clone(),
                timestamp: Some(rfc3339_from_secs(secs as i64)),
                message_id: meta.id.clone(),
            };
            assert(x@.project_id =~= Seq::<char>::empty());
            assert(message_match(meta@, query@) == Some(x@.matched_text));
            assert(message_result(session_id@, text@, query@) =~= seq![x@]);
            Some(x)
        },
        None => None,
    }
}

/// The results of one session's message files for `query`, in file order.
pub fn search_session(session_id: &String, texts: &Vec<String>, query: &str) -> (r: Vec<OpencodeSearchResult>)
    ensures
        results_view(r@) == session_results(session_id@, texts@, query@),
{
    let mut out: Vec<OpencodeSearchResult> = Vec::new();
    let mut i: usize = 0;
    while i < texts.len()
        invariant
            i <= texts.len(),
            results_view(out@) == session_results(session_id@, texts@.subrange(0, i as int), query@),
        decreases texts.len() - i,
    {
        assert(texts@.subrange(0, i + 1).drop_last() =~= texts@.subrange(0, i as int));
        let ghost before = out@;
        if let Some(x) = search_message(session_id, &texts[i], query) {
            out.push(x);
        }
        assert(results_view(out@) =~= results_view(before) + message_result(session_id@, texts@[i as int]@, query@));
        i = i + 1;
    }
    assert(texts@.subrange(0, texts.len() as int) =~= texts@);
    out
}

/// The results over sessions given as (id, message file texts), in order.
pub open spec fn all_results(sessions: Seq<(String, Vec<String>)>, query: Seq<char>) -> Seq<OpencodeResultView>
    decreases sessions.len(),
{
    if sessions.len() == 0 {
        Seq::empty()
    } else {
        all_results(sessions.drop_last(), query) + session_results(
            sessions.last().0@,
            sessions.last().1@,
            query,
        )
    }
}

pub open spec fn take_first(s: Seq<OpencodeResultView>, n: int) -> Seq<OpencodeResultView> {
    if s.len() <= n {
        s
    } else {
        s.subrange(0, n)
    }
}

/// Searches the summary titles and system prompts of all messages for
/// `query`, ignoring case; at most `max_results`. An empty query finds nothing.
pub fn global_search(query: &str, max_results: usize, sessions: &Vec<(String, Vec<String>)>) -> (r: Vec<
    OpencodeSearchResult,
>)
    ensures
        results_view(r@) == if query@.len() == 0 {
            Seq::empty()
        } else {
            take_first(all_results(sessions@, query@), max_results as int)
        },
{
    if query.is_empty() {
        let r = Vec::new();
        assert(results_view(r@) =~= Seq::empty());
        return r;
    }
    let mut out: Vec<OpencodeSearchResult> = Vec::new();
    let mut i: usize = 0;
    while i < sessions.len()
        invariant
            i <= sessions.len(),
            results_view(out@) == all_results(sessions@.subrange(0, i as int), query@),
        decreases sessions.len() - i,
    {
        assert(sessions@.subrange(0, i + 1).drop_last() =~= sessions@.subrange(0, i as int));
        let mut rs = search_session(&sessions[i].0, &sessions[i].1, query);
        let ghost before = out@;
        let ghost got = rs@;
        out.append(&mut rs);
        assert(results_view(out@) =~= results_view(before) + results_view(got));
        i = i + 1;
    }
    assert(sessions@.subrange(0, sessions.len() as int) =~= sessions@);
    out.truncate(max_results);
    assert(results_view(out@) =~= take_first(all_results(sessions@, query@), max_results as int));
    out
}

} // verus!
