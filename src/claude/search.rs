use vstd::prelude::*;

use crate::claude::messages::{file_messages, parse_all_messages};
use crate::claude::sessions::{extract_session_metadata, first_facts};
use crate::codex::search::{
    message_hits, results_view, search_messages, take_results, FileFacts, SearchResult, SearchResultView,
};
use crate::codex::session_scanner::{file_stem, file_stem_of, short_name, short_name_from_path};
use crate::text::{contains, contains_str, lit, lower_of, lowercase, trimmed_lines};

verus! {

/// What a session file contributes to each of its results: its session id
/// is its file stem, its working directory the first one a record names.
pub open spec fn file_facts(content: Seq<char>, path: Seq<char>) -> FileFacts {
    let cwd = match first_facts(trimmed_lines(content)) {
        Some(f) => match f.2 {
            Some(c) => c,
            None => ""@,
        },
        None => ""@,
    };
    FileFacts {
        cwd,
        short_name: short_name(cwd),
        session_id: match file_stem(path) {
            Some(s) => s,
            None => ""@,
        },
        file_path: path,
    }
}

/// The results one session file gives for a lower-case query: none unless
/// the lower-cased file holds it, else its first five matches.
pub open spec fn file_results(content: Seq<char>, path: Seq<char>, q: Seq<char>) -> Seq<SearchResultView> {
    if !contains(lower_of(content), q) {
        Seq::empty()
    } else {
        let msgs = file_messages(content);
        take_results(message_hits(file_facts(content, path), msgs, msgs.len() as int, q), 5)
    }
}

/// The results that one session file gives for a lower-case query.
pub fn search_file(query_lower: &str, content: &str, file_path: &str) -> (r: Vec<SearchResult>)
    ensures
        results_view(r@) == file_results(content@, file_path@, query_lower@),
{
    let lowered = lowercase(content);
    if !contains_str(lowered.as_str(), query_lower) {
        return Vec::new();
    }
    let cwd = match extract_session_metadata(content) {
        Some((_, _, Some(c))) => c,
        _ => lit(""),
    };
    let session_id = match file_stem_of(file_path) {
        Some(s) => s,
        None => lit(""),
    };
    let short = short_name_from_path(cwd.as_str());
    let messages = parse_all_messages(content);
    let r = search_messages(query_lower, &messages, &cwd, &short, &session_id, file_path);
    assert(file_facts(content@, file_path@) == FileFacts {
        cwd: cwd@,
        short_name: short@,
        session_id: session_id@,
        file_path: file_path@,
    });
    r
}

/// The results for a lower-case query over files given as (path, text), in
/// file order.
pub open spec fn search_results(files: Seq<(String, String)>, q: Seq<char>) -> Seq<SearchResultView>
    decreases files.len(),
{
    if files.len() == 0 {
        Seq::empty()
    } else {
        search_results(files.drop_last(), q) + file_results(files.last().1@, files.last().0@, q)
    }
}

/// Searches the given session files (path and text) for `query`, ignoring
/// case; at most five results a file and `max_results` in all. An empty
/// query finds nothing.
pub fn global_search(query: &str, max_results: usize, files: &Vec<(String, String)>) -> (r: Vec<
    SearchResult,
>)
    ensures
        results_view(r@) == if query@.len() == 0 {
            Seq::empty()
        } else {
            take_results(search_results(files@, lower_of(query@)), max_results as int)
        },
{
    if query.is_empty() {
        let r = Vec::new();
        assert(results_view(r@) =~= Seq::empty());
        return r;
    }
    let query_lower = lowercase(query);
    let mut out: Vec<SearchResult> = Vec::new();
    let mut i: usize = 0;
    while i < files.len()
        invariant
            i <= files.len(),
            query_lower@ == lower_of(query@),
            results_view(out@) == search_results(files@.subrange(0, i as int), query_lower@),
        decreases files.len() - i,
    {
        let mut rs = search_file(query_lower.as_str(), files[i].1.as_str(), files[i].0.as_str());
        let ghost old_out = out@;
        let ghost got = rs@;
        out.append(&mut rs);
        assert(files@.subrange(0, i + 1).drop_last() =~= files@.subrange(0, i as int));
        assert(results_view(out@) =~= results_view(old_out) + results_view(got));
        i = i + 1;
    }
    assert(files@.subrange(0, files.len() as int) =~= files@);
    out.truncate(max_results);
    assert(results_view(out@) =~= take_results(search_results(files@, lower_of(query@)), max_results as int));
    out
}

} // verus!
