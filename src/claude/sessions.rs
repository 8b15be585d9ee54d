use vstd::prelude::*;

use crate::claude::messages::{content_blocks, opt_string};
use crate::json::{field, json_of, parse_json, str_of, str_or, u64_of, Json};
use crate::shared_models::{clone_opt, opt_view};
use crate::sort::{is_perm, key_lt, opt_key, sort_by_keys, sorted_along};
use crate::text::{chars_of, contains, contains_chars, lines_trimmed, lit, trimmed_lines, truncate_chars, truncated};
use crate::time::{file_time, opt_time};

verus! {

/// A session as the session list shows it; the index file holds the same.
#[derive(Debug, Clone, PartialEq)]
pub struct SessionIndexEntry {
    pub session_id: String,
    pub full_path: Option<String>,
    pub file_mtime: Option<u64>,
    pub first_prompt: Option<String>,
    pub message_count: Option<u32>,
    pub created: Option<String>,
    pub modified: Option<String>,
    pub git_branch: Option<String>,
    pub project_path: Option<String>,
    pub is_sidechain: Option<bool>,
}

/// The index file a project directory may hold.
#[derive(Debug, Clone, PartialEq)]
pub struct SessionsIndex {
    pub entries: Vec<SessionIndexEntry>,
    pub original_path: Option<String>,
}

pub struct EntryView {
    pub session_id: Seq<char>,
    pub full_path: Option<Seq<char>>,
    pub file_mtime: Option<u64>,
    pub first_prompt: Option<Seq<char>>,
    pub message_count: Option<u32>,
    pub created: Option<Seq<char>>,
    pub modified: Option<Seq<char>>,
    pub git_branch: Option<Seq<char>>,
    pub project_path: Option<Seq<char>>,
    pub is_sidechain: Option<bool>,
}

impl View for SessionIndexEntry {
    type V = EntryView;

    open spec fn view(&self) -> EntryView {
        EntryView {
            session_id: self.session_id@,
            full_path: opt_view(self.full_path),
            file_mtime: self.file_mtime,
            first_prompt: opt_view(self.first_prompt),
            message_count: self.message_count,
            created: opt_view(self.created),
            modified: opt_view(self.modified),
            git_branch: opt_view(self.git_branch),
            project_path: opt_view(self.project_path),
            is_sidechain: self.is_sidechain,
        }
    }
}

pub open spec fn entries_view(v: Seq<SessionIndexEntry>) -> Seq<EntryView> {
    v.map_values(|e: SessionIndexEntry| e@)
}

pub open spec fn ids_of(v: Seq<EntryView>) -> Seq<Seq<char>> {
    v.map_values(|e: EntryView| e.session_id)
}

pub open spec fn u32_of(j: Option<Json>) -> Option<u32> {
    match u64_of(j) {
        Some(n) => if n <= u32::MAX {
            Some(n as u32)
        } else {
            None
        },
        None => None,
    }
}

pub open spec fn bool_of(j: Option<Json>) -> Option<bool> {
    match j {
        Some(Json::Bool(b)) => Some(b),
        _ => None,
    }
}

/// An entry of the index file; it must name its session.
pub open spec fn index_entry(j: Json) -> Option<EntryView> {
    match str_of(field(j, "sessionId"@)) {
        Some(id) => Some(
            EntryView {
                session_id: id,
                full_path: str_of(field(j, "fullPath"@)),
                file_mtime: u64_of(field(j, "fileMtime"@)),
                first_prompt: str_of(field(j, "firstPrompt"@)),
                message_count: u32_of(field(j, "messageCount"@)),
                created: str_of(field(j, "created"@)),
                modified: str_of(field(j, "modified"@)),
                git_branch: str_of(field(j, "gitBranch"@)),
                project_path: str_of(field(j, "projectPath"@)),
                is_sidechain: bool_of(field(j, "isSidechain"@)),
            },
        ),
        None => None,
    }
}

pub open spec fn index_entries(items: Seq<Json>) -> Option<Seq<EntryView>>
    decreases items.len(),
{
    if items.len() == 0 {
        Some(Seq::empty())
    } else {
        match (index_entries(items.drop_last()), index_entry(items.last())) {
            (Some(es), Some(e)) => Some(es.push(e)),
            _ => None,
        }
    }
}

/// The entries of an index document, where every entry names its session.
pub open spec fn index_of(doc: Json) -> Option<Seq<EntryView>> {
    match field(doc, "entries"@) {
        Some(Json::Array(items)) => index_entries(items@),
        _ => None,
    }
}

proof fn lemma_index_entries_none(items: Seq<Json>, k: int)
    requires
        0 <= k <= items.len(),
        index_entries(items.subrange(0, k)) is None,
    ensures
        index_entries(items) is None,
    decreases items.len(),
{
    if k == items.len() {
        assert(items.subrange(0, k) =~= items);
    } else {
        assert(items.drop_last().subrange(0, k) =~= items.subrange(0, k));
        lemma_index_entries_none(items.drop_last(), k);
    }
}

fn u32_field(j: &Json, key: &str) -> (r: Option<u32>)
    ensures
        r == u32_of(field(*j, key@)),
{
    match j.get_u64(key) {
        Some(n) => if n <= 0xffff_ffffu64 {
            Some(n as u32)
        } else {
            None
        },
        None => None,
    }
}

fn bool_field(j: &Json, key: &str) -> (r: Option<bool>)
    ensures
        r == bool_of(field(*j, key@)),
{
    match j.get(key) {
        Some(Json::Bool(b)) => Some(*b),
        _ => None,
    }
}

fn entry_from_json(j: &Json) -> (r: Option<SessionIndexEntry>)
    ensures
        match r {
            Some(e) => index_entry(*j) == Some(e@),
            None => index_entry(*j) is None,
        },
{
    let id = match j.get_str("sessionId") {
        Some(s) => s.clone(),
        None => return None,
    };
    Some(
        SessionIndexEntry {
            session_id: id,
            full_path: opt_string(j.get_str("fullPath")),
            file_mtime: j.get_u64("fileMtime"),
            first_prompt: opt_string(j.get_str("firstPrompt")),
            message_count: u32_field(j, "messageCount"),
            created: opt_string(j.get_str("created")),
            modified: opt_string(j.get_str("modified")),
            git_branch: opt_string(j.get_str("gitBranch")),
            project_path: opt_string(j.get_str("projectPath")),
            is_sidechain: bool_field(j, "isSidechain"),
        },
    )
}

/// Reads an index file's text: its entries and the project's original path.
pub fn parse_sessions_index(text: &str) -> (r: Option<SessionsIndex>)
    ensures
        match json_of(text@) {
            Some(doc) => match index_of(doc) {
                Some(es) => r matches Some(ix) && entries_view(ix.entries@) == es && opt_view(
                    ix.original_path,
                ) == str_of(field(doc, "originalPath"@)),
                None => r is None,
            },
            None => r is None,
        },
{
    let doc = match parse_json(text) {
        Some(d) => d,
        None => return None,
    };
    let items = match doc.get("entries") {
        Some(Json::Array(items)) => items,
        _ => return None,
    };
    let mut entries: Vec<SessionIndexEntry> = Vec::new();
    let mut i: usize = 0;
    assert(entries_view(entries@) =~= Seq::empty());
    while i < items.len()
        invariant
            i <= items.len(),
            json_of(text@) == Some(doc),
            index_of(doc) == index_entries(items@),
            index_entries(items@.subrange(0, i as int)) == Some(entries_view(entries@)),
        decreases items.len() - i,
    {
        assert(items@.subrange(0, i + 1).drop_last() =~= items@.subrange(0, i as int));
        match entry_from_json(&items[i]) {
            Some(e) => {
                let ghost before = entries@;
                let ghost ev = e@;
                entries.push(e);
                assert(entries_view(entries@) =~= entries_view(before).push(ev));
            },
            None => {
                proof {
                    lemma_index_entries_none(items@, i as int + 1);
                }
                return None;
            },
        }
        i = i + 1;
    }
    assert(items@.subrange(0, items.len() as int) =~= items@);
    Some(SessionsIndex { entries, original_path: opt_string(doc.get_str("originalPath")) })
}

} // verus!

verus! {

/// Whether a trimmed line is a user or assistant record, by its text.
pub open spec fn line_is_message(line: Seq<char>) -> bool {
    contains(line, "\"type\":\"user\""@) || contains(line, "\"type\":\"assistant\""@)
}

pub open spec fn count_message_lines(lines: Seq<Seq<char>>) -> nat
    decreases lines.len(),
{
    if lines.len() == 0 {
        0
    } else {
        count_message_lines(lines.drop_last()) + if line_is_message(lines.last()) {
            1nat
        } else {
            0nat
        }
    }
}

/// How many lines of a session file are user or assistant records; at most `u32::MAX`.
pub fn count_messages(content: &str) -> (r: u32)
    ensures
        r == if count_message_lines(trimmed_lines(content@)) > u32::MAX {
            u32::MAX as nat
        } else {
            count_message_lines(trimmed_lines(content@))
        },
{
    let lines = lines_trimmed(content);
    let ghost ls = trimmed_lines(content@);
    let mut count: u32 = 0;
    let mut i: usize = 0;
    while i < lines.len()
        invariant
            i <= lines.len(),
            lines.len() == ls.len(),
            ls == trimmed_lines(content@),
            forall|k: int| 0 <= k < lines.len() ==> #[trigger] lines[k]@ == ls[k],
            count == if count_message_lines(ls.subrange(0, i as int)) > u32::MAX {
                u32::MAX as nat
            } else {
                count_message_lines(ls.subrange(0, i as int))
            },
        decreases lines.len() - i,
    {
        assert(ls.subrange(0, i + 1).drop_last() =~= ls.subrange(0, i as int));
        let cs = chars_of(lines[i].as_str());
        if contains_chars(&cs, "\"type\":\"user\"") || contains_chars(&cs, "\"type\":\"assistant\"") {
            count = count.saturating_add(1);
        }
        i = i + 1;
    }
    assert(ls.subrange(0, ls.len() as int) =~= ls);
    count
}

/// The prompt a trimmed line holds: the first text block of a user record.
pub open spec fn line_prompt(line: Seq<char>) -> Option<Seq<char>> {
    if line.len() == 0 {
        None
    } else {
        match json_of(line) {
            Some(row) => if str_or(row, "type"@, ""@) == "user"@ {
                match field(row, "message"@) {
                    Some(m) => match crate::codex::search::first_text(content_blocks(field(m, "content"@))) {
                        Some(t) => if t.len() > 0 {
                            Some(t)
                        } else {
                            None
                        },
                        None => None,
                    },
                    None => None,
                }
            } else {
                None
            },
            None => None,
        }
    }
}

pub open spec fn first_prompt(lines: Seq<Seq<char>>) -> Option<Seq<char>>
    decreases lines.len(),
{
    if lines.len() == 0 {
        None
    } else {
        match line_prompt(lines[0]) {
            Some(t) => Some(t),
            None => first_prompt(lines.drop_first()),
        }
    }
}

/// How many characters of a first prompt are kept.
pub const PROMPT_CHARS: usize = 200;

fn first_text_of(blocks: &Vec<crate::shared_models::DisplayContentBlock>) -> (r: Option<String>)
    ensures
        opt_view(r) == crate::codex::search::first_text(crate::shared_models::blocks_view(blocks@)),
{
    let ghost bs = crate::shared_models::blocks_view(blocks@);
    let mut j: usize = 0;
    assert(bs.subrange(0, bs.len() as int) =~= bs);
    while j < blocks.len()
        invariant
            j <= blocks.len(),
            bs == crate::shared_models::blocks_view(blocks@),
            crate::codex::search::first_text(bs) == crate::codex::search::first_text(
                bs.subrange(j as int, bs.len() as int),
            ),
        decreases blocks.len() - j,
    {
        let ghost rest = bs.subrange(j as int, bs.len() as int);
        assert(rest[0] == blocks[j as int]@);
        assert(rest.drop_first() =~= bs.subrange(j + 1, bs.len() as int));
        if let crate::shared_models::DisplayContentBlock::Text { text } = &blocks[j] {
            return Some(text.clone());
        }
        j = j + 1;
    }
    None
}

fn line_user_prompt(line: &String) -> (r: Option<String>)
    ensures
        opt_view(r) == line_prompt(line@),
{
    if line.as_str().is_empty() {
        return None;
    }
    let row = match parse_json(line.as_str()) {
        Some(row) => row,
        None => return None,
    };
    if !(row.str_or("type", "") == lit("user")) {
        return None;
    }
    let m = match row.get("message") {
        Some(m) => m,
        None => return None,
    };
    let blocks = crate::claude::messages::content_to_blocks(m.get("content"));
    match first_text_of(&blocks) {
        Some(t) => if t.as_str().is_empty() {
            None
        } else {
            Some(t)
        },
        None => None,
    }
}

/// The first user prompt of a session file, cut to 200 characters.
pub fn extract_first_prompt(content: &str) -> (r: Option<String>)
    ensures
        r matches Some(t) ==> t@.len() <= 203,
        opt_view(r) == match first_prompt(trimmed_lines(content@)) {
            Some(t) => Some(truncated(t, 200)),
            None => None,
        },
{
    let lines = lines_trimmed(content);
    let ghost ls = trimmed_lines(content@);
    let mut i: usize = 0;
    assert(ls.subrange(0, ls.len() as int) =~= ls);
    while i < lines.len()
        invariant
            i <= lines.len(),
            lines.len() == ls.len(),
            ls == trimmed_lines(content@),
            forall|k: int| 0 <= k < lines.len() ==> #[trigger] lines[k]@ == ls[k],
            first_prompt(ls) == first_prompt(ls.subrange(i as int, ls.len() as int)),
        decreases lines.len() - i,
    {
        let ghost rest = ls.subrange(i as int, ls.len() as int);
        assert(rest[0] == lines[i as int]@);
        assert(rest.drop_first() =~= ls.subrange(i + 1, ls.len() as int));
        if let Some(t) = line_user_prompt(&lines[i]) {
            return Some(truncate_chars(t.as_str(), PROMPT_CHARS));
        }
        i = i + 1;
    }
    None
}

/// Session facts a record carries: its session id, branch and working directory.
pub open spec fn line_facts(line: Seq<char>) -> Option<(Seq<char>, Option<Seq<char>>, Option<Seq<char>>)> {
    if line.len() == 0 {
        None
    } else {
        match json_of(line) {
            Some(row) => match str_of(field(row, "sessionId"@)) {
                Some(id) => Some((id, str_of(field(row, "gitBranch"@)), str_of(field(row, "cwd"@)))),
                None => None,
            },
            None => None,
        }
    }
}

pub open spec fn first_facts(lines: Seq<Seq<char>>) -> Option<(Seq<char>, Option<Seq<char>>, Option<Seq<char>>)>
    decreases lines.len(),
{
    if lines.len() == 0 {
        None
    } else {
        match line_facts(lines[0]) {
            Some(f) => Some(f),
            None => first_facts(lines.drop_first()),
        }
    }
}

/// The session id, branch and working directory of the first record that
/// names its session.
pub fn extract_session_metadata(content: &str) -> (r: Option<(String, Option<String>, Option<String>)>)
    ensures
        match r {
            Some(f) => first_facts(trimmed_lines(content@)) == Some((f.0@, opt_view(f.1), opt_view(f.2))),
            None => first_facts(trimmed_lines(content@)) is None,
        },
{
    let lines = lines_trimmed(content);
    let ghost ls = trimmed_lines(content@);
    let mut i: usize = 0;
    assert(ls.subrange(0, ls.len() as int) =~= ls);
    while i < lines.len()
        invariant
            i <= lines.len(),
            lines.len() == ls.len(),
            ls == trimmed_lines(content@),
            forall|k: int| 0 <= k < lines.len() ==> #[trigger] lines[k]@ == ls[k],
            first_facts(ls) == first_facts(ls.subrange(i as int, ls.len() as int)),
        decreases lines.len() - i,
    {
        let ghost rest = ls.subrange(i as int, ls.len() as int);
        assert(rest[0] == lines[i as int]@);
        assert(rest.drop_first() =~= ls.subrange(i + 1, ls.len() as int));
        let line = &lines[i];
        if !line.as_str().is_empty() {
            if let Some(row) = parse_json(line.as_str()) {
                if let Some(id) = row.get_str("sessionId") {
                    return Some(
                        (id.clone(), opt_string(row.get_str("gitBranch")), opt_string(row.get_str("cwd"))),
                    );
                }
            }
        }
        i = i + 1;
    }
    None
}

/// A session file found on disk: its id (the file stem), path, text and
/// file times (seconds, and the modification time in milliseconds).
#[derive(Debug, Clone)]
pub struct DiskSession {
    pub session_id: String,
    pub path: String,
    pub content: String,
    pub created_secs: Option<i64>,
    pub modified_secs: Option<i64>,
    pub modified_millis: Option<u64>,
}

/// The entry a session file gives when the index does not list it.
pub open spec fn scanned_entry(d: DiskSession) -> EntryView {
    let ls = trimmed_lines(d.content@);
    let facts = first_facts(ls);
    EntryView {
        session_id: d.session_id@,
        full_path: Some(d.path@),
        file_mtime: d.modified_millis,
        first_prompt: match first_prompt(ls) {
            Some(t) => Some(truncated(t, 200)),
            None => None,
        },
        message_count: Some(
            if count_message_lines(ls) > u32::MAX {
                u32::MAX
            } else {
                count_message_lines(ls) as u32
            },
        ),
        created: opt_time(d.created_secs),
        modified: opt_time(d.modified_secs),
        git_branch: match facts {
            Some(f) => f.1,
            None => None,
        },
        project_path: match facts {
            Some(f) => f.2,
            None => None,
        },
        is_sidechain: Some(false),
    }
}

/// The entry of one session file, read from its text.
pub fn scan_single_session(d: &DiskSession) -> (r: SessionIndexEntry)
    ensures
        r@ == scanned_entry(*d),
{
    let content = d.content.as_str();
    let first_prompt = extract_first_prompt(content);
    let (git_branch, project_path) = match extract_session_metadata(content) {
        Some((_, b, p)) => (b, p),
        None => (None, None),
    };
    SessionIndexEntry {
        session_id: d.session_id.clone(),
        full_path: Some(d.path.clone()),
        file_mtime: d.modified_millis,
        first_prompt,
        message_count: Some(count_messages(content)),
        created: file_time(d.created_secs),
        modified: file_time(d.modified_secs),
        git_branch,
        project_path,
        is_sidechain: Some(false),
    }
}

/// The ids an index lists, where the index is there and lists any.
pub open spec fn listed_ids(index: Option<SessionsIndex>) -> Option<Seq<Seq<char>>> {
    match index {
        Some(ix) => if ix.entries@.len() > 0 {
            Some(ids_of(entries_view(ix.entries@)))
        } else {
            None
        },
        None => None,
    }
}

/// The positions of the disk sessions to read: all of them where no usable
/// index is there, else those the index does not list.
pub open spec fn scan_positions(listed: Option<Seq<Seq<char>>>, disk: Seq<Seq<char>>) -> Seq<int>
    decreases disk.len(),
{
    if disk.len() == 0 {
        Seq::empty()
    } else {
        scan_positions(listed, disk.drop_last()) + match listed {
            Some(ids) => if ids.contains(disk.last()) {
                Seq::<int>::empty()
            } else {
                seq![disk.len() - 1]
            },
            None => seq![disk.len() - 1],
        }
    }
}

/// Which of the session files on disk (by id) must be read.
pub fn sessions_to_scan(index: &Option<SessionsIndex>, disk_ids: &Vec<String>) -> (r: Vec<usize>)
    ensures
        r@.map_values(|i: usize| i as int) == scan_positions(
            listed_ids(*index),
            disk_ids@.map_values(|s: String| s@),
        ),
{
    let ghost disk = disk_ids@.map_values(|s: String| s@);
    let ghost listed = listed_ids(*index);
    let mut out: Vec<usize> = Vec::new();
    let mut i: usize = 0;
    while i < disk_ids.len()
        invariant
            i <= disk_ids.len(),
            disk == disk_ids@.map_values(|s: String| s@),
            listed == listed_ids(*index),
            out@.map_values(|i: usize| i as int) == scan_positions(listed, disk.subrange(0, i as int)),
        decreases disk_ids.len() - i,
    {
        let ghost prefix = disk.subrange(0, i + 1);
        assert(prefix.drop_last() =~= disk.subrange(0, i as int));
        assert(prefix.last() == disk_ids[i as int]@);
        let listed_here = match index {
            Some(ix) => if ix.entries.len() > 0 {
                let mut k: usize = 0;
                let mut found = false;
                let ghost ids = ids_of(entries_view(ix.entries@));
                while k < ix.entries.len()
                    invariant
                        k <= ix.entries.len(),
                        i < disk_ids.len(),
                        ids == ids_of(entries_view(ix.entries@)),
                        ids.len() == ix.entries.len(),
                        found == (exists|j: int| 0 <= j < k && ids[j] == disk_ids[i as int]@),
                    decreases ix.entries.len() - k,
                {
                    assert(ids[k as int] == ix.entries[k as int].session_id@);
                    if ix.entries[k].session_id == disk_ids[i] {
                        found = true;
                    }
                    k = k + 1;
                }
                proof {
                    if found {
                        let j = choose|j: int| 0 <= j < k && ids[j] == disk_ids[i as int]@;
                        assert(ids.contains(disk_ids[i as int]@));
                    } else {
                        assert(!ids.contains(disk_ids[i as int]@));
                    }
                }
                found
            } else {
                false
            },
            None => false,
        };
        let ghost before = out@;
        if !listed_here {
            out.push(i);
        }
        assert(listed_here == match listed {
            Some(ids) => ids.contains(prefix.last()),
            None => false,
        });
        assert(out@.map_values(|i: usize| i as int) =~= scan_positions(listed, prefix));
        i = i + 1;
    }
    assert(disk.subrange(0, disk_ids.len() as int) =~= disk);
    out
}

} // verus!

verus! {

/// The entries a session list is made of: those of a usable index followed
/// by those read from disk; only those read from disk where there is no
/// usable index.
pub open spec fn merge_base(index: Option<SessionsIndex>, scanned: Seq<EntryView>) -> Seq<EntryView> {
    match index {
        Some(ix) => if ix.entries@.len() > 0 {
            entries_view(ix.entries@) + scanned
        } else {
            scanned
        },
        None => scanned,
    }
}

/// `r` holds the entries `base`, each once, newest modification first.
pub open spec fn is_session_list(r: Seq<SessionIndexEntry>, base: Seq<EntryView>) -> bool {
    &&& exists|p: Seq<int>|
        is_perm(p, base.len() as int) && r.len() == p.len() && (forall|i: int|
            0 <= i < p.len() ==> #[trigger] r[i]@ == base[p[i]])
    &&& forall|i: int, j: int|
        0 <= i < j < r.len() ==> !key_lt(opt_view(r[i].modified), opt_view(r[j].modified))
}

/// The session list of a project: the entries of its index, if it lists any,
/// with those read from the files it does not list; newest first. Entries the
/// index lists stay, even where their file is gone.
pub fn merge_sessions(index: Option<SessionsIndex>, scanned: Vec<SessionIndexEntry>) -> (r: Vec<
    SessionIndexEntry,
>)
    ensures
        is_session_list(r@, merge_base(index, entries_view(scanned@))),
{
    let ghost base = merge_base(index, entries_view(scanned@));
    let mut all: Vec<SessionIndexEntry> = match index {
        Some(ix) => if ix.entries.len() > 0 {
            let mut e = ix.entries;
            let mut s = scanned;
            let ghost ev = e@;
            let ghost sv = s@;
            e.append(&mut s);
            assert(entries_view(e@) =~= entries_view(ev) + entries_view(sv));
            e
        } else {
            scanned
        },
        None => scanned,
    };
    assert(entries_view(all@) == base);
    let mut keys: Vec<Option<String>> = Vec::new();
    let mut i: usize = 0;
    while i < all.len()
        invariant
            i <= all.len(),
            keys.len() == i,
            forall|k: int| 0 <= k < i ==> #[trigger] keys@[k] == all@[k].modified,
        decreases all.len() - i,
    {
        keys.push(clone_opt(&all[i].modified));
        i = i + 1;
    }
    let ghost es = all@;
    let ghost ks = keys@;
    let r = sort_by_keys(all, keys, true);
    proof {
        let p = choose|p: Seq<int>|
            is_perm(p, es.len() as int) && sorted_along(ks, p, true) && r.len() == p.len() && (
            forall|i: int| 0 <= i < p.len() ==> #[trigger] r@[i] == es[p[i]]);
        assert forall|i: int| 0 <= i < p.len() implies #[trigger] r@[i]@ == base[p[i]] by {
            assert(r@[i] == es[p[i]]);
        }
        assert forall|i: int, j: int| 0 <= i < j < r.len() implies !key_lt(
            opt_view(r@[i].modified),
            opt_view(r@[j].modified),
        ) by {
            assert(r@[i] == es[p[i]]);
            assert(r@[j] == es[p[j]]);
            assert(opt_key(ks[p[i]]) == opt_view(r@[i].modified));
            assert(opt_key(ks[p[j]]) == opt_view(r@[j].modified));
            assert(!crate::sort::precedes(opt_key(ks[p[j]]), opt_key(ks[p[i]]), true));
        }
    }
    r
}

/// The ids on disk that `listed` does not hold, in order.
pub open spec fn unlisted(listed: Seq<Seq<char>>, disk: Seq<Seq<char>>) -> Seq<Seq<char>>
    decreases disk.len(),
{
    if disk.len() == 0 {
        Seq::empty()
    } else {
        unlisted(listed, disk.drop_last()) + if listed.contains(disk.last()) {
            Seq::empty()
        } else {
            seq![disk.last()]
        }
    }
}

proof fn lemma_positions_ids(listed: Seq<Seq<char>>, disk: Seq<Seq<char>>)
    ensures
        scan_positions(Some(listed), disk).map_values(|i: int| disk[i]) == unlisted(listed, disk),
        forall|k: int|
            0 <= k < scan_positions(Some(listed), disk).len() ==> 0 <= #[trigger] scan_positions(
                Some(listed),
                disk,
            )[k] < disk.len(),
    decreases disk.len(),
{
    if disk.len() > 0 {
        let d = disk.drop_last();
        lemma_positions_ids(listed, d);
        let a = scan_positions(Some(listed), d);
        assert forall|k: int| 0 <= k < a.len() implies #[trigger] d[a[k]] == disk[a[k]] by {}
        assert(scan_positions(Some(listed), disk).map_values(|i: int| disk[i]) =~= unlisted(listed, disk));
    }
}

proof fn lemma_unlisted(listed: Seq<Seq<char>>, disk: Seq<Seq<char>>)
    ensures
        forall|x: Seq<char>| #[trigger] unlisted(listed, disk).contains(x) <==> disk.contains(x) && !listed.contains(x),
        disk.no_duplicates() ==> unlisted(listed, disk).no_duplicates(),
    decreases disk.len(),
{
    if disk.len() > 0 {
        let d = disk.drop_last();
        lemma_unlisted(listed, d);
        let u = unlisted(listed, d);
        let w = unlisted(listed, disk);
        assert forall|x: Seq<char>| #[trigger] w.contains(x) <==> disk.contains(x) && !listed.contains(x) by {
            if w.contains(x) {
                let k = choose|k: int| 0 <= k < w.len() && w[k] == x;
                if k < u.len() {
                    assert(u[k] == x);
                    assert(u.contains(x));
                    let m = choose|m: int| 0 <= m < d.len() && d[m] == x;
                    assert(disk[m] == x);
                } else {
                    assert(x == disk.last());
                    assert(disk[disk.len() - 1] == x);
                }
            }
            if disk.contains(x) && !listed.contains(x) {
                let m = choose|m: int| 0 <= m < disk.len() && disk[m] == x;
                if m < disk.len() - 1 {
                    assert(d[m] == x);
                    assert(u.contains(x));
                    let k = choose|k: int| 0 <= k < u.len() && u[k] == x;
                    assert(w[k] == x);
                } else {
                    assert(w[w.len() - 1] == x);
                }
            }
        }
        if disk.no_duplicates() {
            assert(d.no_duplicates());
            if !listed.contains(disk.last()) {
                assert(!d.contains(disk.last()));
                assert(!u.contains(disk.last()));
                assert forall|i: int, j: int| 0 <= i < w.len() && 0 <= j < w.len() && i != j implies w[i] != w[j] by {
                    if i < u.len() && j < u.len() {
                        assert(w[i] == u[i] && w[j] == u[j]);
                    } else if i < u.len() {
                        assert(w[i] == u[i]);
                    } else if j < u.len() {
                        assert(w[j] == u[j]);
                    }
                }
            } else {
                assert(w =~= u);
            }
        }
    }
}

/// An index that lists sessions, merged with the sessions on disk: every id
/// of either stands in the list, no other, and none twice (where neither the
/// index nor the disk holds an id twice).
pub proof fn lemma_reconcile_ids(listed: Seq<Seq<char>>, disk: Seq<Seq<char>>)
    requires
        listed.no_duplicates(),
        disk.no_duplicates(),
    ensures
        ({
            let merged = listed + scan_positions(Some(listed), disk).map_values(|i: int| disk[i]);
            &&& merged.no_duplicates()
            &&& forall|x: Seq<char>| #[trigger] merged.contains(x) <==> listed.contains(x) || disk.contains(x)
        }),
{
    lemma_positions_ids(listed, disk);
    lemma_unlisted(listed, disk);
    let u = unlisted(listed, disk);
    let merged = listed + u;
    assert(merged =~= listed + scan_positions(Some(listed), disk).map_values(|i: int| disk[i]));
    assert forall|x: Seq<char>| #[trigger] merged.contains(x) <==> listed.contains(x) || disk.contains(x) by {
        if merged.contains(x) {
            let k = choose|k: int| 0 <= k < merged.len() && merged[k] == x;
            if k >= listed.len() {
                assert(u[k - listed.len()] == x);
            } else {
                assert(listed[k] == x);
            }
        }
        if listed.contains(x) {
            let k = choose|k: int| 0 <= k < listed.len() && listed[k] == x;
            assert(merged[k] == x);
        } else if disk.contains(x) {
            assert(u.contains(x));
            let k = choose|k: int| 0 <= k < u.len() && u[k] == x;
            assert(merged[k + listed.len()] == x);
        }
    }
    assert forall|i: int, j: int| 0 <= i < merged.len() && 0 <= j < merged.len() && i != j implies merged[i] != merged[j] by {
        if i < listed.len() && j < listed.len() {
        } else if i >= listed.len() && j >= listed.len() {
            assert(merged[i] == u[i - listed.len()]);
            assert(merged[j] == u[j - listed.len()]);
        } else if i < listed.len() {
            assert(u.contains(merged[j]));
            assert(listed.contains(merged[i]));
        } else {
            assert(u.contains(merged[i]));
            assert(listed.contains(merged[j]));
        }
    }
}

} // verus!
