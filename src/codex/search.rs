use vstd::prelude::*;

use crate::codex::jsonl::{extract_session_meta, file_messages, meta_within, parse_all_messages};
use crate::codex::session_scanner::{file_stem, file_stem_of, short_name, short_name_from_path};
use crate::shared_models::{
    clone_opt, messages_view, opt_view, BlockView, DisplayContentBlock, DisplayMessage, MessageView,
};
use crate::text::{
    chars_of, contains, find_chars, find_from, lit, lower_of, lowercase, string_of, trimmed_lines,
    truncate_chars, truncated,
};

verus! {

/// One place where a search query was found.
#[derive(Debug, Clone, PartialEq)]
pub struct SearchResult {
    pub cwd: String,
    pub short_name: String,
    pub session_id: String,
    pub first_prompt: Option<String>,
    pub matched_text: String,
    pub role: String,
    pub timestamp: Option<String>,
    pub file_path: String,
}

pub struct SearchResultView {
    pub cwd: Seq<char>,
    pub short_name: Seq<char>,
    pub session_id: Seq<char>,
    pub first_prompt: Option<Seq<char>>,
    pub matched_text: Seq<char>,
    pub role: Seq<char>,
    pub timestamp: Option<Seq<char>>,
    pub file_path: Seq<char>,
}

impl View for SearchResult {
    type V = SearchResultView;

    open spec fn view(&self) -> SearchResultView {
        SearchResultView {
            cwd: self.cwd@,
            short_name: self.short_name@,
            session_id: self.session_id@,
            first_prompt: opt_view(self.first_prompt),
            matched_text: self.matched_text@,
            role: self.role@,
            timestamp: opt_view(self.timestamp),
            file_path: self.file_path@,
        }
    }
}

pub open spec fn results_view(v: Seq<SearchResult>) -> Seq<SearchResultView> {
    v.map_values(|r: SearchResult| r@)
}

/// Characters of context kept on each side of a match.
pub const CONTEXT_CHARS: usize = 50;

/// Results kept from one file.
pub const MAX_PER_FILE: usize = 5;

/// Characters of a first prompt shown with a result.
pub const RESULT_PROMPT_CHARS: usize = 100;

/// The snippet shown for a match of `q` (lower case) in `text`: up to `ctx`
/// characters on each side of the first match in the lower-cased text; where
/// there is none, the first `2 * ctx` characters.
pub open spec fn context_of(text: Seq<char>, q: Seq<char>, ctx: int) -> Seq<char> {
    match find_from(lower_of(text), q, 0) {
        Some(pos) => {
            let end = if pos + q.len() + ctx < text.len() {
                pos + q.len() + ctx
            } else {
                text.len() as int
            };
            let start0 = if pos > ctx {
                pos - ctx
            } else {
                0
            };
            let start = if start0 < end {
                start0
            } else {
                end
            };
            text.subrange(start, end)
        },
        None => truncated(text, 2 * ctx),
    }
}

/// At most `max_chars` characters of `s`, "..." added where it was cut.
pub fn safe_truncate(s: &str, max_chars: usize) -> (r: String)
    ensures
        r@ == truncated(s@, max_chars as int),
{
    truncate_chars(s, max_chars)
}

/// A window of context around the first match of `query_lower` in `text`.
pub fn extract_context(text: &str, query_lower: &str, context_chars: usize) -> (r: String)
    requires
        context_chars <= usize::MAX / 2,
    ensures
        r@ == context_of(text@, query_lower@, context_chars as int),
{
    let text_lower = lowercase(text);
    let text_chars = chars_of(text);
    let lower_chars = chars_of(text_lower.as_str());
    let query_chars = chars_of(query_lower);
    match find_chars(&lower_chars, &query_chars, 0) {
        Some(pos) => {
            let e = pos.saturating_add(query_chars.len()).saturating_add(context_chars);
            let end = if e < text_chars.len() {
                e
            } else {
                text_chars.len()
            };
            let start0 = if pos > context_chars {
                pos - context_chars
            } else {
                0
            };
            let start = if start0 < end {
                start0
            } else {
                end
            };
            string_of(&text_chars, start, end)
        },
        None => truncate_chars(text, context_chars * 2),
    }
}

/// The text of a block that a search looks into: every block has one.
pub open spec fn search_text(b: BlockView) -> Option<Seq<char>> {
    match b {
        BlockView::Text(t) => Some(t),
        BlockView::Reasoning(t) => Some(t),
        BlockView::FunctionCall(_, args, _) => Some(args),
        BlockView::FunctionCallOutput(_, out) => Some(out),
        BlockView::Thinking(t) => Some(t),
        BlockView::ToolUse(_, _, input) => Some(input),
        BlockView::ToolResult(_, content, _) => Some(content),
    }
}

/// The text of the first text block.
pub open spec fn first_text(blocks: Seq<BlockView>) -> Option<Seq<char>>
    decreases blocks.len(),
{
    if blocks.len() == 0 {
        None
    } else {
        match blocks[0] {
            BlockView::Text(t) => Some(t),
            _ => first_text(blocks.drop_first()),
        }
    }
}

/// The first prompt known after the first `n` messages: the first text
/// block of the first user message that has one, cut to 100 characters.
pub open spec fn prompt_upto(msgs: Seq<MessageView>, n: int) -> Option<Seq<char>>
    decreases n,
{
    if n <= 0 {
        None
    } else {
        match prompt_upto(msgs, n - 1) {
            Some(p) => Some(p),
            None => if msgs[n - 1].role == "user"@ {
                match first_text(msgs[n - 1].content) {
                    Some(t) => Some(truncated(t, 100)),
                    None => None,
                }
            } else {
                None
            },
        }
    }
}

/// What a file contributes to each of its results.
pub struct FileFacts {
    pub cwd: Seq<char>,
    pub short_name: Seq<char>,
    pub session_id: Seq<char>,
    pub file_path: Seq<char>,
}

pub open spec fn hit(f: FileFacts, msgs: Seq<MessageView>, i: int, t: Seq<char>, q: Seq<char>) -> SearchResultView {
    SearchResultView {
        cwd: f.cwd,
        short_name: f.short_name,
        session_id: f.session_id,
        first_prompt: prompt_upto(msgs, i + 1),
        matched_text: context_of(t, q, 50),
        role: msgs[i].role,
        timestamp: msgs[i].timestamp,
        file_path: f.file_path,
    }
}

/// The matches among the first `k` blocks of message `i`.
pub open spec fn block_hits(f: FileFacts, msgs: Seq<MessageView>, i: int, k: int, q: Seq<char>) -> Seq<
    SearchResultView,
>
    decreases k,
{
    if k <= 0 {
        Seq::empty()
    } else {
        block_hits(f, msgs, i, k - 1, q) + match search_text(msgs[i].content[k - 1]) {
            Some(t) => if contains(lower_of(t), q) {
                seq![hit(f, msgs, i, t, q)]
            } else {
                Seq::empty()
            },
            None => Seq::empty(),
        }
    }
}

/// The matches in the first `n` messages, in order.
pub open spec fn message_hits(f: FileFacts, msgs: Seq<MessageView>, n: int, q: Seq<char>) -> Seq<
    SearchResultView,
>
    decreases n,
{
    if n <= 0 {
        Seq::empty()
    } else {
        message_hits(f, msgs, n - 1, q) + block_hits(f, msgs, n - 1, msgs[n - 1].content.len() as int, q)
    }
}

pub open spec fn take_results(s: Seq<SearchResultView>, n: int) -> Seq<SearchResultView> {
    if s.len() <= n {
        s
    } else {
        s.subrange(0, n)
    }
}

/// The facts of a file: those of its session record, else the file stem.
pub open spec fn file_facts(content: Seq<char>, path: Seq<char>) -> FileFacts {
    let (id, cwd) = match meta_within(trimmed_lines(content), 5) {
        Some(m) => (m.id, m.cwd),
        None => (
            match file_stem(path) {
                Some(s) => s,
                None => ""@,
            },
            ""@,
        ),
    };
    FileFacts { cwd, short_name: short_name(cwd), session_id: id, file_path: path }
}

/// The results one rollout file gives for a lower-case query: none unless the
/// lower-cased file holds it, else its first five matches.
pub open spec fn file_results(content: Seq<char>, path: Seq<char>, q: Seq<char>) -> Seq<SearchResultView> {
    if !contains(lower_of(content), q) {
        Seq::empty()
    } else {
        let msgs = file_messages(content);
        take_results(message_hits(file_facts(content, path), msgs, msgs.len() as int, q), 5)
    }
}

fn block_text(b: &DisplayContentBlock) -> (r: Option<&String>)
    ensures
        match r {
            Some(t) => search_text(b@) == Some(t@),
            None => search_text(b@) is None,
        },
{
    match b {
        DisplayContentBlock::Text { text } => Some(text),
        DisplayContentBlock::Reasoning { text } => Some(text),
        DisplayContentBlock::FunctionCall { arguments, .. } => Some(arguments),
        DisplayContentBlock::FunctionCallOutput { output, .. } => Some(output),
        DisplayContentBlock::Thinking { thinking } => Some(thinking),
        DisplayContentBlock::ToolUse { input, .. } => Some(input),
        DisplayContentBlock::ToolResult { content, .. } => Some(content),
    }
}

fn first_text_block(m: &DisplayMessage) -> (r: Option<&String>)
    ensures
        match r {
            Some(t) => first_text(m@.content) == Some(t@),
            None => first_text(m@.content) is None,
        },
{
    let ghost bs = m@.content;
    let mut j: usize = 0;
    assert(bs.subrange(0, bs.len() as int) =~= bs);
    while j < m.content.len()
        invariant
            j <= m.content.len(),
            bs == m@.content,
            bs.len() == m.content.len(),
            first_text(bs) == first_text(bs.subrange(j as int, bs.len() as int)),
        decreases m.content.len() - j,
    {
        let ghost rest = bs.subrange(j as int, bs.len() as int);
        assert(rest[0] == m.content[j as int]@);
        assert(rest.drop_first() =~= bs.subrange(j + 1, bs.len() as int));
        if let DisplayContentBlock::Text { text } = &m.content[j] {
            return Some(text);
        }
        j = j + 1;
    }
    None
}

/// The first five matches of a lower-case query in a file's messages, each
/// with the file's facts.
pub fn search_messages(
    query_lower: &str,
    messages: &Vec<DisplayMessage>,
    cwd: &String,
    short: &String,
    session_id: &String,
    file_path: &str,
) -> (r: Vec<SearchResult>)
    ensures
        results_view(r@) == take_results(
            message_hits(
                FileFacts { cwd: cwd@, short_name: short@, session_id: session_id@, file_path: file_path@ },
                messages_view(messages@),
                messages.len() as int,
                query_lower@,
            ),
            5,
        ),
{
    let ghost f = FileFacts { cwd: cwd@, short_name: short@, session_id: session_id@, file_path: file_path@ };
    let ghost msgs = messages_view(messages@);
    let ghost q = query_lower@;
    let mut results: Vec<SearchResult> = Vec::new();
    let mut first_prompt: Option<String> = None;
    let mut i: usize = 0;
    while i < messages.len()
        invariant
            i <= messages.len(),
            msgs == messages_view(messages@),
            q == query_lower@,
            f.cwd == cwd@,
            f.short_name == short@,
            f.session_id == session_id@,
            f.file_path == file_path@,
            opt_view(first_prompt) == prompt_upto(msgs, i as int),
            results_view(results@) == message_hits(f, msgs, i as int, q),
            results.len() < 5,
        decreases messages.len() - i,
    {
        let msg = &messages[i];
        assert(msgs[i as int] == msg@);
        if first_prompt.is_none() && msg.role == lit("user") {
            if let Some(t) = first_text_block(msg) {
                first_prompt = Some(safe_truncate(t.as_str(), RESULT_PROMPT_CHARS));
            }
        }
        assert(opt_view(first_prompt) == prompt_upto(msgs, i + 1));
        let ghost before = results_view(results@);
        let mut j: usize = 0;
        while j < msg.content.len()
            invariant
                i < messages.len(),
                msg == messages[i as int],
                msgs[i as int] == msg@,
                j <= msg.content.len(),
                msgs == messages_view(messages@),
                q == query_lower@,
                f.cwd == cwd@,
                f.short_name == short@,
                f.session_id == session_id@,
                f.file_path == file_path@,
                opt_view(first_prompt) == prompt_upto(msgs, i + 1),
                before == message_hits(f, msgs, i as int, q),
                results_view(results@) == before + block_hits(f, msgs, i as int, j as int, q),
                results.len() < 5,
            decreases msg.content.len() - j,
        {
            assert(msg@.content[j as int] == msg.content[j as int]@);
            if let Some(text) = block_text(&msg.content[j]) {
                let tl = lowercase(text.as_str());
                if crate::text::contains_str(tl.as_str(), query_lower) {
                    let matched_text = extract_context(text.as_str(), query_lower, CONTEXT_CHARS);
                    let ghost old_results = results@;
                    results.push(
                        SearchResult {
                            cwd: cwd.clone(),
                            short_name: short.clone(),
                            session_id: session_id.clone(),
                            first_prompt: clone_opt(&first_prompt),
                            matched_text,
                            role: msg.role.clone(),
                            timestamp: clone_opt(&msg.timestamp),
                            file_path: lit(file_path),
                        },
                    );
                    assert(results_view(results@) =~= results_view(old_results).push(
                        hit(f, msgs, i as int, text@, q),
                    ));
                    if results.len() >= MAX_PER_FILE {
                        assert(msgs[i as int].content[j as int] == msg.content[j as int]@);
                        assert(block_hits(f, msgs, i as int, j + 1, q) == block_hits(f, msgs, i as int, j as int, q).push(hit(f, msgs, i as int, text@, q)));
                        assert(results_view(results@) =~= message_hits(f, msgs, i as int, q) + block_hits(f, msgs, i as int, j + 1, q));
                        proof {
                            lemma_hits_grow(f, msgs, i as int, j as int + 1, q);
                            let all = message_hits(f, msgs, msgs.len() as int, q);
                            if all.len() == 5 {
                                assert(all.subrange(0, 5) =~= all);
                            }
                        }
                        assert(results_view(results@) =~= take_results(
                            message_hits(f, msgs, msgs.len() as int, q),
                            5,
                        ));
                        return results;
                    }
                }
            }
            j = j + 1;
        }
        assert(msg@.content.len() == msg.content.len());
        i = i + 1;
    }
    assert(results_view(results@) =~= take_results(message_hits(f, msgs, msgs.len() as int, q), 5));
    results
}


/// The results that one rollout file gives for a lower-case query.
pub fn search_file(query_lower: &str, content: &str, file_path: &str) -> (r: Vec<SearchResult>)
    ensures
        results_view(r@) == file_results(content@, file_path@, query_lower@),
{
    let lowered = lowercase(content);
    if !crate::text::contains_str(lowered.as_str(), query_lower) {
        return Vec::new();
    }
    let (session_id, cwd) = match extract_session_meta(content) {
        Some(m) => (m.id, m.cwd),
        None => (
            match file_stem_of(file_path) {
                Some(s) => s,
                None => lit(""),
            },
            lit(""),
        ),
    };
    let short = short_name_from_path(cwd.as_str());
    let messages = parse_all_messages(content);
    let r = search_messages(query_lower, &messages, &cwd, &short, &session_id, file_path);
    assert(file_facts(content@, file_path@) == FileFacts {
        cwd: cwd@,
        short_name: short@,
        session_id: session_id@,
        file_path: file_path@,
    });
    r
}

proof fn lemma_block_hits_prefix(
    f: FileFacts,
    msgs: Seq<MessageView>,
    i: int,
    k: int,
    k2: int,
    q: Seq<char>,
)
    requires
        0 <= k <= k2,
    ensures
        block_hits(f, msgs, i, k2, q).subrange(0, block_hits(f, msgs, i, k, q).len() as int)
            == block_hits(f, msgs, i, k, q),
        block_hits(f, msgs, i, k, q).len() <= block_hits(f, msgs, i, k2, q).len(),
    decreases k2 - k,
{
    if k < k2 {
        lemma_block_hits_prefix(f, msgs, i, k, k2 - 1, q);
        let a = block_hits(f, msgs, i, k, q);
        let b = block_hits(f, msgs, i, k2 - 1, q);
        let c = block_hits(f, msgs, i, k2, q);
        assert(c.subrange(0, b.len() as int) =~= b);
        assert(c.subrange(0, a.len() as int) =~= b.subrange(0, a.len() as int));
    } else {
        assert(block_hits(f, msgs, i, k2, q).subrange(0, block_hits(f, msgs, i, k, q).len() as int)
            =~= block_hits(f, msgs, i, k, q));
    }
}

proof fn lemma_message_hits_prefix(f: FileFacts, msgs: Seq<MessageView>, n: int, n2: int, q: Seq<char>)
    requires
        0 <= n <= n2,
    ensures
        message_hits(f, msgs, n2, q).subrange(0, message_hits(f, msgs, n, q).len() as int)
            == message_hits(f, msgs, n, q),
        message_hits(f, msgs, n, q).len() <= message_hits(f, msgs, n2, q).len(),
    decreases n2 - n,
{
    if n < n2 {
        lemma_message_hits_prefix(f, msgs, n, n2 - 1, q);
        let a = message_hits(f, msgs, n, q);
        let b = message_hits(f, msgs, n2 - 1, q);
        let c = message_hits(f, msgs, n2, q);
        assert(c.subrange(0, b.len() as int) =~= b);
        assert(c.subrange(0, a.len() as int) =~= b.subrange(0, a.len() as int));
    } else {
        assert(message_hits(f, msgs, n2, q).subrange(0, message_hits(f, msgs, n, q).len() as int)
            =~= message_hits(f, msgs, n, q));
    }
}

/// The matches up to block `k` of message `i` begin the matches of all messages.
proof fn lemma_hits_grow(f: FileFacts, msgs: Seq<MessageView>, i: int, k: int, q: Seq<char>)
    requires
        0 <= i < msgs.len(),
        0 <= k <= msgs[i].content.len(),
    ensures
        ({
            let pre = message_hits(f, msgs, i, q) + block_hits(f, msgs, i, k, q);
            let all = message_hits(f, msgs, msgs.len() as int, q);
            pre.len() <= all.len() && all.subrange(0, pre.len() as int) == pre
        }),
{
    let n = msgs[i].content.len() as int;
    lemma_block_hits_prefix(f, msgs, i, k, n, q);
    lemma_message_hits_prefix(f, msgs, i + 1, msgs.len() as int, q);
    let pre = message_hits(f, msgs, i, q) + block_hits(f, msgs, i, k, q);
    let mid = message_hits(f, msgs, i + 1, q);
    let all = message_hits(f, msgs, msgs.len() as int, q);
    assert(mid == message_hits(f, msgs, i, q) + block_hits(f, msgs, i, n, q));
    assert(mid.subrange(0, pre.len() as int) =~= pre);
    assert(all.subrange(0, pre.len() as int) =~= mid.subrange(0, pre.len() as int));
}

/// The results of each file, joined in order.
pub open spec fn concat_results(s: Seq<Vec<SearchResult>>) -> Seq<SearchResultView>
    decreases s.len(),
{
    if s.len() == 0 {
        Seq::empty()
    } else {
        concat_results(s.drop_last()) + results_view(s.last()@)
    }
}

proof fn lemma_concat_front(s: Seq<Vec<SearchResult>>)
    requires
        s.len() > 0,
    ensures
        concat_results(s) == results_view(s[0]@) + concat_results(s.drop_first()),
    decreases s.len(),
{
    if s.len() == 1 {
        assert(s.drop_first() =~= Seq::<Vec<SearchResult>>::empty());
        assert(s.drop_last() =~= Seq::<Vec<SearchResult>>::empty());
        assert(concat_results(s) =~= results_view(s[0]@) + concat_results(s.drop_first()));
    } else {
        lemma_concat_front(s.drop_last());
        assert(s.drop_last().drop_first() =~= s.drop_first().drop_last());
        assert(s.drop_last()[0] == s[0]);
        assert(s.drop_first().last() == s.last());
        assert(concat_results(s) =~= results_view(s[0]@) + concat_results(s.drop_first()));
    }
}

/// Joins the results of each file, in order, and keeps the first `max_results`.
pub fn merge_results(per_file: Vec<Vec<SearchResult>>, max_results: usize) -> (r: Vec<SearchResult>)
    ensures
        results_view(r@) == take_results(concat_results(per_file@), max_results as int),
{
    let ghost all = per_file@;
    let mut rest = per_file;
    let mut out: Vec<SearchResult> = Vec::new();
    assert(all.subrange(all.len() as int, all.len() as int) =~= Seq::<Vec<SearchResult>>::empty());
    while rest.len() > 0
        invariant
            rest@ == all.subrange(0, rest.len() as int),
            rest.len() <= all.len(),
            results_view(out@) == concat_results(all.subrange(rest.len() as int, all.len() as int)),
        decreases rest.len(),
    {
        let ghost k = rest.len() - 1;
        let mut v = rest.pop().unwrap();
        let ghost vv = v@;
        let ghost old_out = out@;
        v.append(&mut out);
        out = v;
        proof {
            let tail = all.subrange(k, all.len() as int);
            lemma_concat_front(tail);
            assert(tail[0] == all[k]);
            assert(tail.drop_first() =~= all.subrange(k + 1, all.len() as int));
            assert(results_view(out@) =~= results_view(vv) + results_view(old_out));
        }
    }
    assert(all.subrange(0, all.len() as int) =~= all);
    out.truncate(max_results);
    assert(results_view(out@) =~= take_results(concat_results(all), max_results as int));
    out
}

/// The results for a lower-case query over files given as (path, text), in
/// file order.
pub open spec fn search_results(files: Seq<(String, String)>, q: Seq<char>) -> Seq<SearchResultView>
    decreases files.len(),
{
    if files.len() == 0 {
        Seq::empty()
    } else {
        search_results(files.drop_last(), q) + file_results(files.last().1@, files.last().0@, q)
    }
}

/// Searches the given files (path and text) for `query`, ignoring case; at
/// most five results a file and `max_results` in all. An empty query finds
/// nothing.
pub fn global_search(query: &str, max_results: usize, files: &Vec<(String, String)>) -> (r: Vec<
    SearchResult,
>)
    ensures
        results_view(r@) == if query@.len() == 0 {
            Seq::empty()
        } else {
            take_results(search_results(files@, lower_of(query@)), max_results as int)
        },
{
    if query.is_empty() {
        let r = Vec::new();
        assert(results_view(r@) =~= Seq::empty());
        return r;
    }
    let query_lower = lowercase(query);
    let mut out: Vec<SearchResult> = Vec::new();
    let mut i: usize = 0;
    while i < files.len()
        invariant
            i <= files.len(),
            query_lower@ == lower_of(query@),
            results_view(out@) == search_results(files@.subrange(0, i as int), query_lower@),
        decreases files.len() - i,
    {
        let mut rs = search_file(query_lower.as_str(), files[i].1.as_str(), files[i].0.as_str());
        let ghost old_out = out@;
        let ghost got = rs@;
        out.append(&mut rs);
        assert(files@.subrange(0, i + 1).drop_last() =~= files@.subrange(0, i as int));
        assert(results_view(out@) =~= results_view(old_out) + results_view(got));
        i = i + 1;
    }
    assert(files@.subrange(0, files.len() as int) =~= files@);
    out.truncate(max_results);
    assert(results_view(out@) =~= take_results(search_results(files@, lower_of(query@)), max_results as int));
    out
}

} // verus!
