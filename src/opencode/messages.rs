use vstd::prelude::*;

use crate::json::json_of;
use crate::opencode::models::{message_text, parse_message, parse_part, part_of, MessageMetaView};
use crate::pagination::{page_end, page_start, paginate};
use crate::sort::{is_perm, num_sorted_along, sort_by_num_keys};
use crate::shared_models::{messages_view, BlockView, DisplayContentBlock, DisplayMessage, MessageView, PaginatedMessages};
use crate::text::{is_blank, is_blank_str, join_strings, join_with};
use crate::time::{rfc3339_from_secs, rfc3339_of};

verus! {

/// A message file with the texts of its part files, in file-name order,
/// and its creation time in nanoseconds since the Unix epoch, where known.
#[derive(Debug, Clone)]
pub struct MessageFile {
    pub content: String,
    pub parts: Vec<String>,
    pub created_nanos: Option<u128>,
}

/// The texts of the `text` parts among part files, in order.
pub open spec fn part_texts(parts: Seq<String>) -> Seq<Seq<char>>
    decreases parts.len(),
{
    if parts.len() == 0 {
        Seq::empty()
    } else {
        part_texts(parts.drop_last()) + match json_of(parts.last()@) {
            Some(j) => match part_of(j) {
                Some((t, Some(x))) => if t == "text"@ {
                    seq![x]
                } else {
                    Seq::empty()
                },
                _ => Seq::empty(),
            },
            None => Seq::empty(),
        }
    }
}

/// The texts of a message's `text` parts, in order.
pub fn read_message_parts(parts: &Vec<String>) -> (r: Vec<String>)
    ensures
        r@.map_values(|s: String| s@) == part_texts(parts@),
{
    let mut out: Vec<String> = Vec::new();
    let mut i: usize = 0;
    while i < parts.len()
        invariant
            i <= parts.len(),
            out@.map_values(|s: String| s@) == part_texts(parts@.subrange(0, i as int)),
        decreases parts.len() - i,
    {
        assert(parts@.subrange(0, i + 1).drop_last() =~= parts@.subrange(0, i as int));
        let ghost before = out@;
        if let Some(p) = parse_part(parts[i].as_str()) {
            if p.part_type == crate::text::lit("text") {
                if let Some(t) = p.text {
                    out.push(t);
                }
            }
        }
        assert(out@.map_values(|s: String| s@) =~= before.map_values(|s: String| s@) + (
        part_texts(parts@.subrange(0, i + 1)).subrange(
            part_texts(parts@.subrange(0, i as int)).len() as int,
            part_texts(parts@.subrange(0, i + 1)).len() as int,
        )));
        i = i + 1;
    }
    assert(parts@.subrange(0, parts.len() as int) =~= parts@);
    out
}

/// The message a message file shows: its parts' texts joined by blank
/// lines, or else its summary title; nothing where it has neither.
pub open spec fn shown_message(meta: MessageMetaView, parts: Seq<Seq<char>>) -> Option<MessageView> {
    let blocks = if parts.len() > 0 {
        seq![BlockView::Text(join_with(parts, "\n\n"@))]
    } else {
        match meta.title {
            Some(t) => if is_blank(t) {
                Seq::empty()
            } else {
                seq![BlockView::Text(t)]
            },
            None => Seq::empty(),
        }
    };
    if blocks.len() == 0 {
        None
    } else {
        Some(
            MessageView {
                uuid: Some(meta.id),
                role: meta.role,
                timestamp: Some(rfc3339_of((meta.created / 1000) as int)),
                content: blocks,
            },
        )
    }
}

/// The messages a session's message files show, in file order.
pub open spec fn shown_messages(files: Seq<MessageFile>) -> Seq<MessageView>
    decreases files.len(),
{
    if files.len() == 0 {
        Seq::empty()
    } else {
        shown_messages(files.drop_last()) + match message_text(files.last().content@) {
            Some(meta) => match shown_message(meta, part_texts(files.last().parts@)) {
                Some(m) => seq![m],
                None => Seq::empty(),
            },
            None => Seq::empty(),
        }
    }
}

fn show_message(f: &MessageFile) -> (r: Option<DisplayMessage>)
    ensures
        match message_text(f.content@) {
            Some(meta) => match shown_message(meta, part_texts(f.parts@)) {
                Some(m) => r matches Some(x) && x@ == m,
                None => r is None,
            },
            None => r is None,
        },
{
    let meta = match parse_message(f.content.as_str()) {
        Ok(m) => m,
        Err(_) => return None,
    };
    let secs = meta.time.created / 1000;
    let timestamp = Some(rfc3339_from_secs(secs as i64));
    let parts = read_message_parts(&f.parts);
    let mut content: Vec<DisplayContentBlock> = Vec::new();
    if parts.len() > 0 {
        let text = join_strings(&parts, "\n\n");
        content.push(DisplayContentBlock::Text { text });
    } else {
        if let Some(summary) = &meta.summary {
            if let Some(title) = &summary.title {
                if !is_blank_str(title.as_str()) {
                    content.push(DisplayContentBlock::Text { text: title.clone() });
                }
            }
        }
    }
    if content.len() == 0 {
        return None;
    }
    let m = DisplayMessage { uuid: Some(meta.id.clone()), role: meta.role.clone(), timestamp, content };
    assert(m@.content =~= shown_message(meta@, part_texts(f.parts@))->0.content);
    Some(m)
}

/// The messages a session shows, in file order: messages with no text are
/// left out before any page is cut.
pub fn collect_messages(files: &Vec<MessageFile>) -> (r: Vec<DisplayMessage>)
    ensures
        messages_view(r@) == shown_messages(files@),
{
    let mut out: Vec<DisplayMessage> = Vec::new();
    let mut i: usize = 0;
    while i < files.len()
        invariant
            i <= files.len(),
            messages_view(out@) == shown_messages(files@.subrange(0, i as int)),
        decreases files.len() - i,
    {
        assert(files@.subrange(0, i + 1).drop_last() =~= files@.subrange(0, i as int));
        let ghost before = out@;
        if let Some(m) = show_message(&files[i]) {
            out.push(m);
        }
        assert(messages_view(out@) =~= messages_view(before) + (match message_text(files@[i as int].content@) {
            Some(meta) => match shown_message(meta, part_texts(files@[i as int].parts@)) {
                Some(m) => seq![m],
                None => Seq::empty(),
            },
            None => Seq::empty(),
        }));
        i = i + 1;
    }
    assert(files@.subrange(0, files.len() as int) =~= files@);
    out
}

pub open spec fn creation_keys(files: Seq<MessageFile>) -> Seq<Option<u128>> {
    files.map_values(|f: MessageFile| f.created_nanos)
}

/// `files` in the order `p` gives.
pub open spec fn reordered(files: Seq<MessageFile>, p: Seq<int>) -> Seq<MessageFile> {
    Seq::new(p.len(), |i: int| files[p[i]])
}

/// `r` is page `page` of the messages `shown`.
pub open spec fn is_page(r: PaginatedMessages, shown: Seq<MessageView>, page: int, page_size: int) -> bool {
    &&& messages_view(r.messages@) == shown.subrange(
        page_start(shown.len() as int, page, page_size),
        page_end(shown.len() as int, page, page_size),
    )
    &&& r.total == shown.len()
    &&& r.page == page
    &&& r.page_size == page_size
    &&& r.has_more == (page_end(r.total as int, page, page_size) < r.total)
}

/// Page `page` of a session's shown messages, `page_size` to a page: the
/// message files are taken in order of creation (files without a time
/// first), and messages with no text are left out before the page is cut.
pub fn get_messages(files: Vec<MessageFile>, page: usize, page_size: usize) -> (r: PaginatedMessages)
    ensures
        exists|p: Seq<int>|
            is_perm(p, files.len() as int) && num_sorted_along(creation_keys(files@), p) && is_page(
                r,
                shown_messages(reordered(files@, p)),
                page as int,
                page_size as int,
            ),
{
    let mut keys: Vec<Option<u128>> = Vec::new();
    let mut i: usize = 0;
    while i < files.len()
        invariant
            i <= files.len(),
            keys.len() == i,
            forall|k: int| 0 <= k < i ==> #[trigger] keys@[k] == files@[k].created_nanos,
        decreases files.len() - i,
    {
        keys.push(files[i].created_nanos);
        i = i + 1;
    }
    let ghost fs = files@;
    let ghost ks = keys@;
    assert(ks =~= creation_keys(fs));
    let ordered = sort_by_num_keys(files, keys);
    let ghost p = choose|p: Seq<int>|
        is_perm(p, fs.len() as int) && num_sorted_along(ks, p) && ordered.len() == p.len() && (
        forall|i: int| 0 <= i < p.len() ==> #[trigger] ordered@[i] == fs[p[i]]);
    assert(ordered@ =~= reordered(fs, p));
    let all = collect_messages(&ordered);
    let ghost a = all@;
    let r = paginate(all, page, page_size);
    assert(messages_view(r.messages@) =~= messages_view(a).subrange(
        page_start(a.len() as int, page as int, page_size as int),
        page_end(a.len() as int, page as int, page_size as int),
    ));
    assert(is_page(r, shown_messages(reordered(fs, p)), page as int, page_size as int));
    r
}

} // verus!
