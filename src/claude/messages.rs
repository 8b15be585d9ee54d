use vstd::prelude::*;

use crate::codex::jsonl::{join_fragments, join_lines, fragment_texts};
use crate::json::{field, json_of, parse_json, pretty_of, str_of, str_or, to_pretty, Json};
use crate::pagination::{page_end, page_start, paginate};
use crate::shared_models::{
    blocks_view, messages_view, opt_view, BlockView, DisplayContentBlock, DisplayMessage, MessageView,
    PaginatedMessages,
};
use crate::text::{is_blank, is_blank_str, lines_trimmed, lit, trimmed_lines};

verus! {

// A session file holds one record per line: `{type, uuid, timestamp,
// message: {role, content}, ...}`. `content` is a string or an array of
// typed blocks.

/// The text shown for a tool result's `content`: a string as it is, an
/// array of text fragments joined by line feeds, anything else pretty-printed.
pub open spec fn result_text(c: Option<Json>) -> Seq<char> {
    match c {
        None => ""@,
        Some(Json::Null) => ""@,
        Some(Json::Str(s)) => s@,
        Some(Json::Array(items)) => join_lines(fragment_texts(items@)),
        Some(v) => pretty_of(v),
    }
}

/// The block that one element of a `content` array gives; blocks of an
/// unknown type give nothing to display.
pub open spec fn block_of(b: Json) -> Seq<BlockView> {
    let t = str_or(b, "type"@, ""@);
    if t == "text"@ {
        seq![BlockView::Text(str_or(b, "text"@, ""@))]
    } else if t == "thinking"@ {
        seq![BlockView::Thinking(str_or(b, "thinking"@, ""@))]
    } else if t == "tool_use"@ {
        seq![
            BlockView::ToolUse(
                str_or(b, "id"@, ""@),
                str_or(b, "name"@, ""@),
                match field(b, "input"@) {
                    Some(v) => pretty_of(v),
                    None => ""@,
                },
            ),
        ]
    } else if t == "tool_result"@ {
        seq![
            BlockView::ToolResult(
                str_or(b, "tool_use_id"@, ""@),
                result_text(field(b, "content"@)),
                match field(b, "is_error"@) {
                    Some(Json::Bool(e)) => e,
                    _ => false,
                },
            ),
        ]
    } else {
        Seq::empty()
    }
}

pub open spec fn blocks_of(items: Seq<Json>) -> Seq<BlockView>
    decreases items.len(),
{
    if items.len() == 0 {
        Seq::empty()
    } else {
        blocks_of(items.drop_last()) + block_of(items.last())
    }
}

/// The blocks of a message's `content`: a string that is not blank gives one
/// text block.
pub open spec fn content_blocks(c: Option<Json>) -> Seq<BlockView> {
    match c {
        Some(Json::Str(s)) => if is_blank(s@) {
            Seq::empty()
        } else {
            seq![BlockView::Text(s@)]
        },
        Some(Json::Array(items)) => blocks_of(items@),
        _ => Seq::empty(),
    }
}

/// The message a record gives: user and assistant records with a message
/// that has something to display.
pub open spec fn record_message(row: Json) -> Option<MessageView> {
    let t = str_or(row, "type"@, ""@);
    if t != "user"@ && t != "assistant"@ {
        None
    } else {
        match field(row, "message"@) {
            Some(m) => match str_of(field(m, "role"@)) {
                Some(role) => {
                    let blocks = content_blocks(field(m, "content"@));
                    if blocks.len() == 0 {
                        None
                    } else {
                        Some(
                            MessageView {
                                uuid: str_of(field(row, "uuid"@)),
                                role,
                                timestamp: str_of(field(row, "timestamp"@)),
                                content: blocks,
                            },
                        )
                    }
                },
                None => None,
            },
            None => None,
        }
    }
}

pub open spec fn line_messages(line: Seq<char>) -> Seq<MessageView> {
    if line.len() == 0 {
        Seq::empty()
    } else {
        match json_of(line) {
            Some(row) => match record_message(row) {
                Some(m) => seq![m],
                None => Seq::empty(),
            },
            None => Seq::empty(),
        }
    }
}

pub open spec fn lines_messages(lines: Seq<Seq<char>>) -> Seq<MessageView>
    decreases lines.len(),
{
    if lines.len() == 0 {
        Seq::empty()
    } else {
        lines_messages(lines.drop_last()) + line_messages(lines.last())
    }
}

/// The messages of a whole session file, in record order.
pub open spec fn file_messages(content: Seq<char>) -> Seq<MessageView> {
    lines_messages(trimmed_lines(content))
}

pub fn opt_string(s: Option<&String>) -> (r: Option<String>)
    ensures
        opt_view(r) == match s {
            Some(x) => Some(x@),
            None => None,
        },
{
    match s {
        Some(x) => Some(x.clone()),
        None => None,
    }
}

fn result_string(c: Option<&Json>) -> (r: String)
    ensures
        r@ == result_text(
            match c {
                Some(x) => Some(*x),
                None => None,
            },
        ),
{
    match c {
        None => lit(""),
        Some(Json::Null) => lit(""),
        Some(Json::Str(s)) => s.clone(),
        Some(Json::Array(items)) => join_fragments(items),
        Some(v) => to_pretty(v),
    }
}

fn block_from(b: &Json, out: &mut Vec<DisplayContentBlock>)
    ensures
        blocks_view(final(out)@) == blocks_view(old(out)@) + block_of(*b),
{
    let ghost before = out@;
    let t = b.str_or("type", "");
    if t == lit("text") {
        out.push(DisplayContentBlock::Text { text: b.str_or("text", "") });
    } else if t == lit("thinking") {
        out.push(DisplayContentBlock::Thinking { thinking: b.str_or("thinking", "") });
    } else if t == lit("tool_use") {
        let input = match b.get("input") {
            Some(v) => to_pretty(v),
            None => lit(""),
        };
        out.push(DisplayContentBlock::ToolUse { id: b.str_or("id", ""), name: b.str_or("name", ""), input });
    } else if t == lit("tool_result") {
        let is_error = match b.get("is_error") {
            Some(Json::Bool(e)) => *e,
            _ => false,
        };
        out.push(
            DisplayContentBlock::ToolResult {
                tool_use_id: b.str_or("tool_use_id", ""),
                content: result_string(b.get("content")),
                is_error,
            },
        );
    }
    assert(blocks_view(out@) =~= blocks_view(before) + block_of(*b));
}

/// The display blocks of a message's `content`.
pub fn content_to_blocks(c: Option<&Json>) -> (r: Vec<DisplayContentBlock>)
    ensures
        blocks_view(r@) == content_blocks(
            match c {
                Some(x) => Some(*x),
                None => None,
            },
        ),
{
    let mut out: Vec<DisplayContentBlock> = Vec::new();
    match c {
        Some(Json::Str(s)) => {
            if !is_blank_str(s) {
                out.push(DisplayContentBlock::Text { text: s.clone() });
            }
        },
        Some(Json::Array(items)) => {
            let mut i: usize = 0;
            while i < items.len()
                invariant
                    i <= items.len(),
                    blocks_view(out@) == blocks_of(items@.subrange(0, i as int)),
                decreases items.len() - i,
            {
                assert(items@.subrange(0, i + 1).drop_last() =~= items@.subrange(0, i as int));
                block_from(&items[i], &mut out);
                i = i + 1;
            }
            assert(items@.subrange(0, items.len() as int) =~= items@);
        },
        _ => {},
    }
    assert(blocks_view(out@) =~= content_blocks(
        match c {
            Some(x) => Some(*x),
            None => None,
        },
    ));
    out
}

/// The message that one parsed record gives, if any.
pub fn record_to_message(row: &Json) -> (r: Option<DisplayMessage>)
    ensures
        match r {
            Some(m) => record_message(*row) == Some(m@),
            None => record_message(*row) is None,
        },
{
    let t = row.str_or("type", "");
    if !(t == lit("user")) && !(t == lit("assistant")) {
        return None;
    }
    let m = match row.get("message") {
        Some(m) => m,
        None => return None,
    };
    let role = match m.get_str("role") {
        Some(r) => r.clone(),
        None => return None,
    };
    let content = content_to_blocks(m.get("content"));
    if content.len() == 0 {
        return None;
    }
    Some(
        DisplayMessage {
            uuid: opt_string(row.get_str("uuid")),
            role,
            timestamp: opt_string(row.get_str("timestamp")),
            content,
        },
    )
}

/// All messages of a session file's text, in record order. Lines that are
/// empty, no JSON, or no displayable record give nothing.
pub fn parse_all_messages(content: &str) -> (r: Vec<DisplayMessage>)
    ensures
        messages_view(r@) == file_messages(content@),
{
    let lines = lines_trimmed(content);
    let ghost ls = trimmed_lines(content@);
    let mut messages: Vec<DisplayMessage> = Vec::new();
    let mut i: usize = 0;
    while i < lines.len()
        invariant
            i <= lines.len(),
            lines.len() == ls.len(),
            ls == trimmed_lines(content@),
            forall|k: int| 0 <= k < lines.len() ==> #[trigger] lines[k]@ == ls[k],
            messages_view(messages@) == lines_messages(ls.subrange(0, i as int)),
        decreases lines.len() - i,
    {
        let ghost before = messages@;
        let line = &lines[i];
        assert(ls.subrange(0, i + 1).drop_last() =~= ls.subrange(0, i as int));
        assert(ls.subrange(0, i + 1).last() == line@);
        if !line.as_str().is_empty() {
            if let Some(row) = parse_json(line.as_str()) {
                if let Some(m) = record_to_message(&row) {
                    messages.push(m);
                }
            }
        }
        assert(messages_view(messages@) =~= messages_view(before) + line_messages(line@));
        i = i + 1;
    }
    assert(ls.subrange(0, lines.len() as int) =~= ls);
    messages
}

/// Page `page` of a session file's messages, `page_size` to a page.
pub fn parse_session_messages(content: &str, page: usize, page_size: usize) -> (r: PaginatedMessages)
    ensures
        messages_view(r.messages@) == file_messages(content@).subrange(
            page_start(file_messages(content@).len() as int, page as int, page_size as int),
            page_end(file_messages(content@).len() as int, page as int, page_size as int),
        ),
        r.total == file_messages(content@).len(),
        r.page == page,
        r.page_size == page_size,
        r.has_more == (page_end(r.total as int, page as int, page_size as int) < r.total),
{
    let all = parse_all_messages(content);
    let ghost a = all@;
    let r = paginate(all, page, page_size);
    assert(messages_view(r.messages@) =~= messages_view(a).subrange(
        page_start(a.len() as int, page as int, page_size as int),
        page_end(a.len() as int, page as int, page_size as int),
    ));
    r
}

/// The first `k` lines of a session file never give more messages than the whole file.
pub proof fn lemma_prefix_gives_fewer(lines: Seq<Seq<char>>, k: int)
    requires
        0 <= k <= lines.len(),
    ensures
        lines_messages(lines.subrange(0, k)).len() <= lines_messages(lines).len(),
    decreases lines.len(),
{
    if k == lines.len() {
        assert(lines.subrange(0, k) =~= lines);
    } else {
        assert(lines.drop_last().subrange(0, k) =~= lines.subrange(0, k));
        lemma_prefix_gives_fewer(lines.drop_last(), k);
    }
}

/// A file cut right after one of its line feeds never gives more messages
/// than the whole file.
pub proof fn lemma_text_prefix_gives_fewer(content: Seq<char>, k: int)
    requires
        0 <= k <= content.len(),
        k == 0 || content[k - 1] == '\n',
    ensures
        file_messages(content.subrange(0, k)).len() <= file_messages(content).len(),
{
    crate::text::lemma_trimmed_lines_prefix(content, k);
    let a = trimmed_lines(content.subrange(0, k));
    let b = trimmed_lines(content);
    lemma_prefix_gives_fewer(b, a.len() as int);
}

} // verus!
