use vstd::prelude::*;

use crate::json::{
    compact_of, field, json_of, parse_json, pretty_of, str_of, str_or, to_compact, to_pretty, u64_of,
    Json,
};
use crate::pagination::paginate;
use crate::shared_models::{
    messages_view, BlockView, DisplayContentBlock, DisplayMessage, MessageView, PaginatedMessages,
};
use crate::text::{chars_of, contains, is_blank, is_blank_str, lines_trimmed, lit, trimmed_lines, truncated};

verus! {

// A rollout file holds one JSON record per line: `{timestamp, type, payload}`,
// where `type` is one of "session_meta", "response_item", "event_msg" and
// "turn_context".

/// The blocks that one item of a message's `content` array gives.
pub open spec fn item_blocks(item: Json) -> Seq<BlockView> {
    let t = str_or(item, "type"@, ""@);
    let text = str_or(item, "text"@, ""@);
    if (t == "input_text"@ || t == "output_text"@ || t == "text"@) && !is_blank(text) {
        seq![BlockView::Text(text)]
    } else if t == "reasoning"@ && !is_blank(text) {
        seq![BlockView::Reasoning(text)]
    } else {
        Seq::empty()
    }
}

pub open spec fn items_blocks(items: Seq<Json>) -> Seq<BlockView>
    decreases items.len(),
{
    if items.len() == 0 {
        Seq::empty()
    } else {
        items_blocks(items.drop_last()) + item_blocks(items.last())
    }
}

/// The blocks of a message payload: from its `content` array, or its
/// `content` string where that is not blank.
pub open spec fn payload_blocks(payload: Json) -> Seq<BlockView> {
    match field(payload, "content"@) {
        Some(Json::Array(items)) => items_blocks(items@),
        Some(Json::Str(s)) => if is_blank(s@) {
            Seq::empty()
        } else {
            seq![BlockView::Text(s@)]
        },
        _ => Seq::empty(),
    }
}

/// The text shown for a function call's `arguments`: a string that holds a
/// JSON document is shown pretty-printed, any other string as it is.
pub open spec fn arguments_text(a: Option<Json>) -> Seq<char> {
    match a {
        None => ""@,
        Some(Json::Str(s)) => match json_of(s@) {
            Some(j) => pretty_of(j),
            None => s@,
        },
        Some(v) => pretty_of(v),
    }
}

/// The text shown for a function call's `output`.
pub open spec fn output_text(o: Option<Json>) -> Seq<char> {
    match o {
        None => ""@,
        Some(Json::Str(s)) => s@,
        Some(v) => pretty_of(v),
    }
}

/// The `text` strings of summary fragments, in order.
pub open spec fn fragment_texts(items: Seq<Json>) -> Seq<Seq<char>>
    decreases items.len(),
{
    if items.len() == 0 {
        Seq::empty()
    } else {
        fragment_texts(items.drop_last()) + match str_of(field(items.last(), "text"@)) {
            Some(t) => seq![t],
            None => Seq::empty(),
        }
    }
}

/// `parts` joined with line feeds between them.
pub open spec fn join_lines(parts: Seq<Seq<char>>) -> Seq<char>
    decreases parts.len(),
{
    if parts.len() == 0 {
        Seq::empty()
    } else if parts.len() == 1 {
        parts[0]
    } else {
        join_lines(parts.drop_last()) + "\n"@ + parts.last()
    }
}

/// The text of a reasoning payload: its `text`, or else its `summary`; a
/// string as it is, an array of fragments joined by line feeds.
pub open spec fn reasoning_text(payload: Json) -> Seq<char> {
    let src = match field(payload, "text"@) {
        Some(v) => Some(v),
        None => field(payload, "summary"@),
    };
    match src {
        None => ""@,
        Some(Json::Str(s)) => s@,
        Some(Json::Array(items)) => join_lines(fragment_texts(items@)),
        Some(v) => compact_of(v),
    }
}

pub open spec fn message_view(role: Seq<char>, ts: Option<Seq<char>>, content: Seq<BlockView>) -> MessageView {
    MessageView { uuid: None, role, timestamp: ts, content }
}

/// The message that one record gives, if any. Only `response_item` records
/// give messages; developer and system messages are left out.
pub open spec fn record_message(row: Json) -> Option<MessageView> {
    let ts = str_of(field(row, "timestamp"@));
    if str_or(row, "type"@, ""@) != "response_item"@ {
        None
    } else {
        match field(row, "payload"@) {
            None => None,
            Some(p) => {
                let pt = str_or(p, "type"@, ""@);
                if pt == "message"@ {
                    let role = str_or(p, "role"@, ""@);
                    if (role == "user"@ || role == "assistant"@) && payload_blocks(p).len() > 0 {
                        Some(message_view(role, ts, payload_blocks(p)))
                    } else {
                        None
                    }
                } else if pt == "function_call"@ {
                    Some(
                        message_view(
                            "assistant"@,
                            ts,
                            seq![
                                BlockView::FunctionCall(
                                    str_or(p, "name"@, "unknown"@),
                                    arguments_text(field(p, "arguments"@)),
                                    str_or(p, "call_id"@, ""@),
                                ),
                            ],
                        ),
                    )
                } else if pt == "function_call_output"@ {
                    Some(
                        message_view(
                            "tool"@,
                            ts,
                            seq![
                                BlockView::FunctionCallOutput(
                                    str_or(p, "call_id"@, ""@),
                                    output_text(field(p, "output"@)),
                                ),
                            ],
                        ),
                    )
                } else if pt == "reasoning"@ && reasoning_text(p).len() > 0 {
                    Some(message_view("assistant"@, ts, seq![BlockView::Reasoning(reasoning_text(p))]))
                } else {
                    None
                }
            },
        }
    }
}

/// The messages that one trimmed line gives: none where it is empty or no JSON.
pub open spec fn line_messages(line: Seq<char>) -> Seq<MessageView> {
    if line.len() == 0 {
        Seq::empty()
    } else {
        match json_of(line) {
            Some(row) => match record_message(row) {
                Some(m) => seq![m],
                None => Seq::empty(),
            },
            None => Seq::empty(),
        }
    }
}

/// The messages of a sequence of trimmed lines, in line order.
pub open spec fn lines_messages(lines: Seq<Seq<char>>) -> Seq<MessageView>
    decreases lines.len(),
{
    if lines.len() == 0 {
        Seq::empty()
    } else {
        lines_messages(lines.drop_last()) + line_messages(lines.last())
    }
}

/// The messages of a whole rollout file.
pub open spec fn file_messages(content: Seq<char>) -> Seq<MessageView> {
    lines_messages(trimmed_lines(content))
}

fn message(role: String, ts: Option<String>, block: DisplayContentBlock) -> (r: DisplayMessage)
    ensures
        r@ == message_view(role@, crate::shared_models::opt_view(ts), seq![block@]),
{
    let mut content = Vec::new();
    content.push(block);
    let r = DisplayMessage { uuid: None, role, timestamp: ts, content };
    assert(r@.content =~= seq![block@]);
    r
}

/// The display blocks of a message payload.
pub fn extract_message_content(payload: &Json) -> (r: Vec<DisplayContentBlock>)
    ensures
        crate::shared_models::blocks_view(r@) == payload_blocks(*payload),
{
    let mut blocks: Vec<DisplayContentBlock> = Vec::new();
    match payload.get("content") {
        Some(Json::Array(items)) => {
            let mut i: usize = 0;
            while i < items.len()
                invariant
                    i <= items.len(),
                    crate::shared_models::blocks_view(blocks@) == items_blocks(
                        items@.subrange(0, i as int),
                    ),
                decreases items.len() - i,
            {
                let item = &items[i];
                let t = item.str_or("type", "");
                let text = item.str_or("text", "");
                let ghost before = blocks@;
                if (t == lit("input_text") || t == lit("output_text") || t == lit("text"))
                    && !is_blank_str(&text) {
                    blocks.push(DisplayContentBlock::Text { text });
                } else if t == lit("reasoning") && !is_blank_str(&text) {
                    blocks.push(DisplayContentBlock::Reasoning { text });
                }
                assert(items@.subrange(0, i + 1).drop_last() =~= items@.subrange(0, i as int));
                assert(crate::shared_models::blocks_view(blocks@) =~= crate::shared_models::blocks_view(
                    before,
                ) + item_blocks(items@[i as int]));
                i = i + 1;
            }
            assert(items@.subrange(0, items.len() as int) =~= items@);
        },
        Some(Json::Str(s)) => {
            if !is_blank_str(s) {
                blocks.push(DisplayContentBlock::Text { text: s.clone() });
                assert(crate::shared_models::blocks_view(blocks@) =~= payload_blocks(*payload));
            }
        },
        _ => {},
    }
    proof {
        if blocks@.len() == 0 {
            assert(crate::shared_models::blocks_view(blocks@) =~= Seq::empty());
        }
    }
    blocks
}

fn arguments_string(a: Option<&Json>) -> (r: String)
    ensures
        r@ == arguments_text(
            match a {
                Some(x) => Some(*x),
                None => None,
            },
        ),
{
    match a {
        None => lit(""),
        Some(Json::Str(s)) => match parse_json(s) {
            Some(j) => to_pretty(&j),
            None => s.clone(),
        },
        Some(v) => to_pretty(v),
    }
}

fn output_string(o: Option<&Json>) -> (r: String)
    ensures
        r@ == output_text(
            match o {
                Some(x) => Some(*x),
                None => None,
            },
        ),
{
    match o {
        None => lit(""),
        Some(Json::Str(s)) => s.clone(),
        Some(v) => to_pretty(v),
    }
}

/// The `text` strings of summary fragments joined by line feeds.
pub fn join_fragments(items: &Vec<Json>) -> (r: String)
    ensures
        r@ == join_lines(fragment_texts(items@)),
{
    let mut out = String::new();
    let mut any = false;
    let mut i: usize = 0;
    while i < items.len()
        invariant
            i <= items.len(),
            out@ == join_lines(fragment_texts(items@.subrange(0, i as int))),
            any == (fragment_texts(items@.subrange(0, i as int)).len() > 0),
        decreases items.len() - i,
    {
        let ghost parts = fragment_texts(items@.subrange(0, i as int));
        assert(items@.subrange(0, i + 1).drop_last() =~= items@.subrange(0, i as int));
        match items[i].get_str("text") {
            Some(t) => {
                let ghost np = parts.push(t@);
                assert(fragment_texts(items@.subrange(0, i + 1)) =~= np);
                assert(np.drop_last() =~= parts);
                if any {
                    out.append("\n");
                }
                out.append(t.as_str());
                any = true;
                proof {
                    if parts.len() == 0 {
                        assert(out@ =~= join_lines(np));
                    } else {
                        assert(out@ =~= join_lines(np));
                    }
                }
            },
            None => {
                assert(fragment_texts(items@.subrange(0, i + 1)) =~= parts);
            },
        }
        i = i + 1;
    }
    assert(items@.subrange(0, items.len() as int) =~= items@);
    out
}

fn reasoning_string(payload: &Json) -> (r: String)
    ensures
        r@ == reasoning_text(*payload),
{
    let src = match payload.get("text") {
        Some(v) => Some(v),
        None => payload.get("summary"),
    };
    match src {
        None => lit(""),
        Some(Json::Str(s)) => s.clone(),
        Some(Json::Array(items)) => join_fragments(items),
        Some(v) => to_compact(v),
    }
}

/// The message that one parsed record gives, if any.
pub fn record_to_message(row: &Json) -> (r: Option<DisplayMessage>)
    ensures
        match r {
            Some(m) => record_message(*row) == Some(m@),
            None => record_message(*row) is None,
        },
{
    let ts = match row.get_str("timestamp") {
        Some(s) => Some(s.clone()),
        None => None,
    };
    if row.str_or("type", "") != lit("response_item") {
        return None;
    }
    let p = match row.get("payload") {
        Some(p) => p,
        None => return None,
    };
    let pt = p.str_or("type", "");
    if pt == lit("message") {
        let role = p.str_or("role", "");
        if role == lit("user") || role == lit("assistant") {
            let content = extract_message_content(p);
            if content.len() > 0 {
                let m = DisplayMessage { uuid: None, role, timestamp: ts, content };
                return Some(m);
            }
        }
        None
    } else if pt == lit("function_call") {
        let name = p.str_or("name", "unknown");
        let arguments = arguments_string(p.get("arguments"));
        let call_id = p.str_or("call_id", "");
        Some(message(lit("assistant"), ts, DisplayContentBlock::FunctionCall { name, arguments, call_id }))
    } else if pt == lit("function_call_output") {
        let call_id = p.str_or("call_id", "");
        let output = output_string(p.get("output"));
        Some(message(lit("tool"), ts, DisplayContentBlock::FunctionCallOutput { call_id, output }))
    } else if pt == lit("reasoning") {
        let text = reasoning_string(p);
        if !text.as_str().is_empty() {
            Some(message(lit("assistant"), ts, DisplayContentBlock::Reasoning { text }))
        } else {
            None
        }
    } else {
        None
    }
}

/// All messages of a rollout file's text, in record order. Lines that are
/// empty, no JSON, or no displayable record give nothing.
pub fn parse_all_messages(content: &str) -> (r: Vec<DisplayMessage>)
    ensures
        messages_view(r@) == file_messages(content@),
{
    let lines = lines_trimmed(content);
    let ghost ls = trimmed_lines(content@);
    let mut messages: Vec<DisplayMessage> = Vec::new();
    let mut i: usize = 0;
    while i < lines.len()
        invariant
            i <= lines.len(),
            lines.len() == ls.len(),
            forall|k: int| 0 <= k < lines.len() ==> #[trigger] lines[k]@ == ls[k],
            messages_view(messages@) == lines_messages(ls.subrange(0, i as int)),
        decreases lines.len() - i,
    {
        let ghost before = messages@;
        let line = &lines[i];
        assert(ls.subrange(0, i + 1).drop_last() =~= ls.subrange(0, i as int));
        assert(ls.subrange(0, i + 1).last() == line@);
        if !line.as_str().is_empty() {
            match parse_json(line.as_str()) {
                Some(row) => match record_to_message(&row) {
                    Some(m) => {
                        messages.push(m);
                    },
                    None => {},
                },
                None => {},
            }
        }
        assert(messages_view(messages@) =~= messages_view(before) + line_messages(line@));
        i = i + 1;
    }
    assert(ls.subrange(0, lines.len() as int) =~= ls);
    messages
}

/// Page `page` of a rollout file's messages, `page_size` to a page.
pub fn parse_session_messages(content: &str, page: usize, page_size: usize) -> (r: PaginatedMessages)
    ensures
        messages_view(r.messages@) == file_messages(content@).subrange(
            crate::pagination::page_start(file_messages(content@).len() as int, page as int, page_size as int),
            crate::pagination::page_end(file_messages(content@).len() as int, page as int, page_size as int),
        ),
        r.total == file_messages(content@).len(),
        r.page == page,
        r.page_size == page_size,
        r.has_more == (crate::pagination::page_end(r.total as int, page as int, page_size as int) < r.total),
{
    let all = parse_all_messages(content);
    let ghost a = all@;
    let r = paginate(all, page, page_size);
    assert(messages_view(r.messages@) =~= messages_view(a).subrange(
        crate::pagination::page_start(a.len() as int, page as int, page_size as int),
        crate::pagination::page_end(a.len() as int, page as int, page_size as int),
    ));
    r
}

} // verus!

verus! {

proof fn lemma_record_roles(row: Json)
    ensures
        record_message(row) matches Some(m) ==> (m.role == "user"@ || m.role == "assistant"@ || m.role
            == "tool"@),
{
}

/// No message parsed from a rollout file has the role "developer" or "system".
pub proof fn lemma_no_developer_or_system(lines: Seq<Seq<char>>)
    ensures
        forall|i: int|
            0 <= i < lines_messages(lines).len() ==> #[trigger] lines_messages(lines)[i].role
                != "developer"@ && lines_messages(lines)[i].role != "system"@,
    decreases lines.len(),
{
    reveal_strlit("user");
    reveal_strlit("assistant");
    reveal_strlit("tool");
    reveal_strlit("developer");
    reveal_strlit("system");
    assert("user"@ != "developer"@ && "user"@ != "system"@) by {
        assert("user"@.len() != "developer"@.len());
        assert("user"@[1] != "system"@[1]);
    }
    assert("assistant"@ != "developer"@ && "assistant"@ != "system"@) by {
        assert("assistant"@[0] != "developer"@[0]);
        assert("assistant"@.len() != "system"@.len());
    }
    assert("tool"@ != "developer"@ && "tool"@ != "system"@) by {
        assert("tool"@.len() != "developer"@.len());
        assert("tool"@.len() != "system"@.len());
    }
    if lines.len() > 0 {
        lemma_no_developer_or_system(lines.drop_last());
        let line = lines.last();
        if line.len() > 0 {
            if let Some(row) = json_of(line) {
                lemma_record_roles(row);
            }
        }
        let a = lines_messages(lines.drop_last());
        let b = line_messages(line);
        assert(lines_messages(lines) == a + b);
        assert(forall|j: int| 0 <= j < b.len() ==> (#[trigger] b[j]).role == "user"@ || b[j].role == "assistant"@ || b[j].role == "tool"@);
        assert forall|i: int| 0 <= i < lines_messages(lines).len() implies #[trigger] lines_messages(
            lines,
        )[i].role != "developer"@ && lines_messages(lines)[i].role != "system"@ by {
            if i >= a.len() {
                assert(lines_messages(lines)[i] == b[i - a.len()]);
            } else {
                assert(lines_messages(lines)[i] == a[i]);
            }
        }
    }
}

/// The first `k` lines of a file never give more messages than the whole file.
pub proof fn lemma_prefix_gives_fewer(lines: Seq<Seq<char>>, k: int)
    requires
        0 <= k <= lines.len(),
    ensures
        lines_messages(lines.subrange(0, k)).len() <= lines_messages(lines).len(),
    decreases lines.len(),
{
    if k == lines.len() {
        assert(lines.subrange(0, k) =~= lines);
    } else {
        assert(lines.drop_last().subrange(0, k) =~= lines.subrange(0, k));
        lemma_prefix_gives_fewer(lines.drop_last(), k);
    }
}

/// A file cut right after one of its line feeds never gives more messages
/// than the whole file.
pub proof fn lemma_text_prefix_gives_fewer(content: Seq<char>, k: int)
    requires
        0 <= k <= content.len(),
        k == 0 || content[k - 1] == '\n',
    ensures
        file_messages(content.subrange(0, k)).len() <= file_messages(content).len(),
{
    crate::text::lemma_trimmed_lines_prefix(content, k);
    let a = trimmed_lines(content.subrange(0, k));
    let b = trimmed_lines(content);
    lemma_prefix_gives_fewer(b, a.len() as int);
}

/// Session facts from a `session_meta` record.
pub struct SessionMeta {
    pub id: String,
    pub cwd: String,
    pub cli_version: Option<String>,
    pub model_provider: Option<String>,
    pub git_branch: Option<String>,
}

pub struct SessionMetaView {
    pub id: Seq<char>,
    pub cwd: Seq<char>,
    pub cli_version: Option<Seq<char>>,
    pub model_provider: Option<Seq<char>>,
    pub git_branch: Option<Seq<char>>,
}

impl View for SessionMeta {
    type V = SessionMetaView;

    open spec fn view(&self) -> SessionMetaView {
        SessionMetaView {
            id: self.id@,
            cwd: self.cwd@,
            cli_version: crate::shared_models::opt_view(self.cli_version),
            model_provider: crate::shared_models::opt_view(self.model_provider),
            git_branch: crate::shared_models::opt_view(self.git_branch),
        }
    }
}

pub open spec fn payload_meta(p: Json) -> SessionMetaView {
    SessionMetaView {
        id: str_or(p, "id"@, ""@),
        cwd: str_or(p, "cwd"@, ""@),
        cli_version: str_of(field(p, "cli_version"@)),
        model_provider: str_of(field(p, "model_provider"@)),
        git_branch: match field(p, "git"@) {
            Some(g) => str_of(field(g, "branch"@)),
            None => None,
        },
    }
}

pub open spec fn line_meta(line: Seq<char>) -> Option<SessionMetaView> {
    if line.len() == 0 {
        None
    } else {
        match json_of(line) {
            Some(row) => if str_or(row, "type"@, ""@) == "session_meta"@ {
                match field(row, "payload"@) {
                    Some(p) => Some(payload_meta(p)),
                    None => None,
                }
            } else {
                None
            },
            None => None,
        }
    }
}

/// The first session facts among the first `n` lines.
pub open spec fn meta_within(lines: Seq<Seq<char>>, n: nat) -> Option<SessionMetaView>
    decreases n,
{
    if n == 0 || lines.len() == 0 {
        None
    } else {
        match line_meta(lines[0]) {
            Some(m) => Some(m),
            None => meta_within(lines.drop_first(), (n - 1) as nat),
        }
    }
}

/// How many leading lines are read for session facts.
pub const META_LINES: usize = 5;

fn opt_str(s: Option<&String>) -> (r: Option<String>)
    ensures
        crate::shared_models::opt_view(r) == match s {
            Some(x) => Some(x@),
            None => None,
        },
{
    match s {
        Some(x) => Some(x.clone()),
        None => None,
    }
}

fn meta_of_payload(p: &Json) -> (r: SessionMeta)
    ensures
        r@ == payload_meta(*p),
{
    let git_branch = match p.get("git") {
        Some(g) => opt_str(g.get_str("branch")),
        None => None,
    };
    SessionMeta {
        id: p.str_or("id", ""),
        cwd: p.str_or("cwd", ""),
        cli_version: opt_str(p.get_str("cli_version")),
        model_provider: opt_str(p.get_str("model_provider")),
        git_branch,
    }
}

/// The session facts of a rollout file: the first `session_meta` record
/// among its first five lines.
pub fn extract_session_meta(content: &str) -> (r: Option<SessionMeta>)
    ensures
        match r {
            Some(m) => meta_within(trimmed_lines(content@), 5) == Some(m@),
            None => meta_within(trimmed_lines(content@), 5) is None,
        },
{
    let lines = lines_trimmed(content);
    let ghost ls = trimmed_lines(content@);
    let mut i: usize = 0;
    assert(ls.subrange(0, ls.len() as int) =~= ls);
    while i < lines.len() && i < META_LINES
        invariant
            i <= lines.len(),
            i <= 5,
            lines.len() == ls.len(),
            ls == trimmed_lines(content@),
            forall|k: int| 0 <= k < lines.len() ==> #[trigger] lines[k]@ == ls[k],
            meta_within(ls, 5) == meta_within(ls.subrange(i as int, ls.len() as int), (5 - i) as nat),
        decreases lines.len() - i,
    {
        let line = &lines[i];
        let ghost rest = ls.subrange(i as int, ls.len() as int);
        assert(rest[0] == line@);
        assert(rest.drop_first() =~= ls.subrange(i + 1, ls.len() as int));
        if !line.as_str().is_empty() {
            if let Some(row) = parse_json(line.as_str()) {
                if row.str_or("type", "") == lit("session_meta") {
                    if let Some(p) = row.get("payload") {
                        let m = meta_of_payload(p);
                        assert(line_meta(line@) == Some(payload_meta(*p)));
                        assert(meta_within(rest, (5 - i) as nat) == Some(payload_meta(*p)));
                        return Some(m);
                    }
                }
            }
        }
        i = i + 1;
    }
    None
}

/// The first qualifying `input_text` or `text` item of a user message.
pub open spec fn item_prompt(items: Seq<Json>) -> Option<Seq<char>>
    decreases items.len(),
{
    if items.len() == 0 {
        None
    } else {
        let t = str_or(items[0], "type"@, ""@);
        match str_of(field(items[0], "text"@)) {
            Some(text) if (t == "input_text"@ || t == "text"@) && text.len() > 0 => Some(text),
            _ => item_prompt(items.drop_first()),
        }
    }
}

/// The user prompt a trimmed line holds, if any.
pub open spec fn line_prompt(line: Seq<char>) -> Option<Seq<char>> {
    if line.len() == 0 || !contains(line, "\"role\""@) || !contains(line, "\"user\""@) {
        None
    } else {
        match json_of(line) {
            Some(row) => if str_or(row, "type"@, ""@) != "response_item"@ {
                None
            } else {
                match field(row, "payload"@) {
                    Some(p) => if str_or(p, "type"@, ""@) == "message"@ && str_or(p, "role"@, ""@)
                        == "user"@ {
                        match field(p, "content"@) {
                            Some(Json::Array(items)) => item_prompt(items@),
                            _ => None,
                        }
                    } else {
                        None
                    },
                    None => None,
                }
            },
            None => None,
        }
    }
}

pub open spec fn first_prompt(lines: Seq<Seq<char>>) -> Option<Seq<char>>
    decreases lines.len(),
{
    if lines.len() == 0 {
        None
    } else {
        match line_prompt(lines[0]) {
            Some(t) => Some(t),
            None => first_prompt(lines.drop_first()),
        }
    }
}

/// How many characters of a first prompt are kept.
pub const PROMPT_CHARS: usize = 200;

/// `s` cut to at most `max_len` characters, "..." added where it was cut.
pub fn truncate_string(s: &str, max_len: usize) -> (r: String)
    ensures
        r@ == truncated(s@, max_len as int),
        r@.len() <= max_len + 3,
{
    crate::text::truncate_chars(s, max_len)
}

fn items_prompt(items: &Vec<Json>) -> (r: Option<&String>)
    ensures
        match r {
            Some(t) => item_prompt(items@) == Some(t@),
            None => item_prompt(items@) is None,
        },
{
    let mut i: usize = 0;
    assert(items@.subrange(0, items@.len() as int) =~= items@);
    while i < items.len()
        invariant
            i <= items.len(),
            item_prompt(items@) == item_prompt(items@.subrange(i as int, items@.len() as int)),
        decreases items.len() - i,
    {
        let ghost rest = items@.subrange(i as int, items@.len() as int);
        assert(rest[0] == items@[i as int]);
        assert(rest.drop_first() =~= items@.subrange(i + 1, items@.len() as int));
        let t = items[i].str_or("type", "");
        if t == lit("input_text") || t == lit("text") {
            if let Some(text) = items[i].get_str("text") {
                if !text.as_str().is_empty() {
                    return Some(text);
                }
            }
        }
        i = i + 1;
    }
    None
}

fn line_user_prompt(line: &String) -> (r: Option<String>)
    ensures
        crate::shared_models::opt_view(r) == line_prompt(line@),
{
    if line.as_str().is_empty() {
        return None;
    }
    let cs = chars_of(line.as_str());
    if !crate::text::contains_chars(&cs, "\"role\"") || !crate::text::contains_chars(&cs, "\"user\"") {
        return None;
    }
    let row = match parse_json(line.as_str()) {
        Some(row) => row,
        None => return None,
    };
    if row.str_or("type", "") != lit("response_item") {
        return None;
    }
    let p = match row.get("payload") {
        Some(p) => p,
        None => return None,
    };
    if p.str_or("type", "") != lit("message") || p.str_or("role", "") != lit("user") {
        return None;
    }
    match p.get("content") {
        Some(Json::Array(items)) => opt_str(items_prompt(items)),
        _ => None,
    }
}

/// The first user prompt of a rollout file, cut to 200 characters.
pub fn extract_first_prompt(content: &str) -> (r: Option<String>)
    ensures
        r matches Some(t) ==> t@.len() <= 203,
        crate::shared_models::opt_view(r) == match first_prompt(trimmed_lines(content@)) {
            Some(t) => Some(truncated(t, 200)),
            None => None,
        },
{
    let lines = lines_trimmed(content);
    let ghost ls = trimmed_lines(content@);
    let mut i: usize = 0;
    assert(ls.subrange(0, ls.len() as int) =~= ls);
    while i < lines.len()
        invariant
            i <= lines.len(),
            lines.len() == ls.len(),
            ls == trimmed_lines(content@),
            forall|k: int| 0 <= k < lines.len() ==> #[trigger] lines[k]@ == ls[k],
            first_prompt(ls) == first_prompt(ls.subrange(i as int, ls.len() as int)),
        decreases lines.len() - i,
    {
        let ghost rest = ls.subrange(i as int, ls.len() as int);
        assert(rest[0] == lines[i as int]@);
        assert(rest.drop_first() =~= ls.subrange(i + 1, ls.len() as int));
        if let Some(t) = line_user_prompt(&lines[i]) {
            return Some(truncate_string(t.as_str(), PROMPT_CHARS));
        }
        i = i + 1;
    }
    None
}

} // verus!

verus! {

/// Whether a trimmed line counts as a user or assistant message.
pub open spec fn line_counts(line: Seq<char>) -> bool {
    contains(line, "\"response_item\""@) && contains(line, "\"message\""@) && !contains(
        line,
        "\"developer\""@,
    ) && !contains(line, "\"system\""@)
}

pub open spec fn count_lines(lines: Seq<Seq<char>>) -> nat
    decreases lines.len(),
{
    if lines.len() == 0 {
        0
    } else {
        count_lines(lines.drop_last()) + if line_counts(lines.last()) {
            1nat
        } else {
            0nat
        }
    }
}

proof fn lemma_count_le(lines: Seq<Seq<char>>)
    ensures
        count_lines(lines) <= lines.len(),
    decreases lines.len(),
{
    if lines.len() > 0 {
        lemma_count_le(lines.drop_last());
    }
}

/// How many records of a rollout file are user or assistant messages, by a
/// look at the text of each line; at most `u32::MAX`.
pub fn count_messages(content: &str) -> (r: u32)
    ensures
        r == if count_lines(trimmed_lines(content@)) > u32::MAX {
            u32::MAX as nat
        } else {
            count_lines(trimmed_lines(content@))
        },
{
    let lines = lines_trimmed(content);
    let ghost ls = trimmed_lines(content@);
    let mut count: u32 = 0;
    let mut i: usize = 0;
    while i < lines.len()
        invariant
            i <= lines.len(),
            lines.len() == ls.len(),
            ls == trimmed_lines(content@),
            forall|k: int| 0 <= k < lines.len() ==> #[trigger] lines[k]@ == ls[k],
            count == if count_lines(ls.subrange(0, i as int)) > u32::MAX {
                u32::MAX as nat
            } else {
                count_lines(ls.subrange(0, i as int))
            },
        decreases lines.len() - i,
    {
        assert(ls.subrange(0, i + 1).drop_last() =~= ls.subrange(0, i as int));
        let cs = chars_of(lines[i].as_str());
        if crate::text::contains_chars(&cs, "\"response_item\"") && crate::text::contains_chars(
            &cs,
            "\"message\"",
        ) && !crate::text::contains_chars(&cs, "\"developer\"") && !crate::text::contains_chars(
            &cs,
            "\"system\"",
        ) {
            count = count.saturating_add(1);
        }
        i = i + 1;
    }
    assert(ls.subrange(0, ls.len() as int) =~= ls);
    count
}

/// Token counts of a session.
#[derive(Debug, Clone, Copy, PartialEq, Eq, Structural)]
pub struct TokenInfo {
    pub input_tokens: u64,
    pub output_tokens: u64,
    pub total_tokens: u64,
}

pub open spec fn sat_add(a: u64, b: u64) -> u64 {
    if a + b > u64::MAX {
        u64::MAX
    } else {
        (a + b) as u64
    }
}

pub open spec fn or_zero(n: Option<u64>) -> u64 {
    match n {
        Some(v) => v,
        None => 0,
    }
}

/// The counts of a `total_token_usage` object; a missing total is the sum
/// of input and output (saturating).
pub open spec fn usage_info(u: Json) -> TokenInfo {
    let input = or_zero(u64_of(field(u, "input_tokens"@)));
    let output = or_zero(u64_of(field(u, "output_tokens"@)));
    TokenInfo {
        input_tokens: input,
        output_tokens: output,
        total_tokens: match u64_of(field(u, "total_tokens"@)) {
            Some(t) => t,
            None => sat_add(input, output),
        },
    }
}

/// The token counts a trimmed line reports, if it is a `token_count` event.
pub open spec fn line_token(line: Seq<char>) -> Option<TokenInfo> {
    if line.len() == 0 || !contains(line, "\"token_count\""@) {
        None
    } else {
        match json_of(line) {
            Some(row) => if str_or(row, "type"@, ""@) != "event_msg"@ {
                None
            } else {
                match field(row, "payload"@) {
                    Some(p) => if str_or(p, "type"@, ""@) != "token_count"@ {
                        None
                    } else {
                        match field(p, "info"@) {
                            Some(info) => match field(info, "total_token_usage"@) {
                                Some(u) => Some(usage_info(u)),
                                None => None,
                            },
                            None => None,
                        }
                    },
                    None => None,
                }
            },
            None => None,
        }
    }
}

/// The counts of the last `token_count` event among `lines`.
pub open spec fn last_token(lines: Seq<Seq<char>>) -> Option<TokenInfo>
    decreases lines.len(),
{
    if lines.len() == 0 {
        None
    } else {
        match line_token(lines.last()) {
            Some(t) => Some(t),
            None => last_token(lines.drop_last()),
        }
    }
}

fn usage_of(u: &Json) -> (r: TokenInfo)
    ensures
        r == usage_info(*u),
{
    let input = match u.get_u64("input_tokens") {
        Some(v) => v,
        None => 0,
    };
    let output = match u.get_u64("output_tokens") {
        Some(v) => v,
        None => 0,
    };
    let total = match u.get_u64("total_tokens") {
        Some(v) => v,
        None => input.saturating_add(output),
    };
    TokenInfo { input_tokens: input, output_tokens: output, total_tokens: total }
}

fn line_token_info(line: &String) -> (r: Option<TokenInfo>)
    ensures
        r == line_token(line@),
{
    if line.as_str().is_empty() {
        return None;
    }
    let cs = chars_of(line.as_str());
    if !crate::text::contains_chars(&cs, "\"token_count\"") {
        return None;
    }
    let row = match parse_json(line.as_str()) {
        Some(row) => row,
        None => return None,
    };
    if row.str_or("type", "") != lit("event_msg") {
        return None;
    }
    let p = match row.get("payload") {
        Some(p) => p,
        None => return None,
    };
    if p.str_or("type", "") != lit("token_count") {
        return None;
    }
    match p.get("info") {
        Some(info) => match info.get("total_token_usage") {
            Some(u) => Some(usage_of(u)),
            None => None,
        },
        None => None,
    }
}

/// The token counts of the last `token_count` event of a rollout file.
pub fn extract_token_info(content: &str) -> (r: Option<TokenInfo>)
    ensures
        r == last_token(trimmed_lines(content@)),
{
    let lines = lines_trimmed(content);
    let ghost ls = trimmed_lines(content@);
    let mut last: Option<TokenInfo> = None;
    let mut i: usize = 0;
    while i < lines.len()
        invariant
            i <= lines.len(),
            lines.len() == ls.len(),
            ls == trimmed_lines(content@),
            forall|k: int| 0 <= k < lines.len() ==> #[trigger] lines[k]@ == ls[k],
            last == last_token(ls.subrange(0, i as int)),
        decreases lines.len() - i,
    {
        assert(ls.subrange(0, i + 1).drop_last() =~= ls.subrange(0, i as int));
        match line_token_info(&lines[i]) {
            Some(t) => {
                last = Some(t);
            },
            None => {},
        }
        i = i + 1;
    }
    assert(ls.subrange(0, ls.len() as int) =~= ls);
    last
}

} // verus!
