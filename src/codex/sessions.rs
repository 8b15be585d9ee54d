use vstd::prelude::*;

use crate::codex::jsonl::{
    count_lines, count_messages, extract_first_prompt, extract_session_meta, first_prompt, meta_within,
};
use crate::codex::session_scanner::{file_stem, file_stem_of, short_name, short_name_from_path};
use crate::shared_models::{clone_opt, opt_view};
use crate::sort::{is_perm, key_lt, opt_key, sort_by_keys, sorted_along};
use crate::text::{lit, trimmed_lines, truncated};
use crate::time::{file_time, opt_time};

verus! {

/// A rollout file as read from disk: its path, its text and its file times
/// in seconds since the Unix epoch.
#[derive(Debug, Clone)]
pub struct SessionFile {
    pub path: String,
    pub content: String,
    pub created_secs: Option<i64>,
    pub modified_secs: Option<i64>,
}

/// A session entry for the session list.
#[derive(Debug, Clone, PartialEq)]
pub struct SessionIndexEntry {
    pub session_id: String,
    pub cwd: String,
    pub short_name: String,
    pub model: Option<String>,
    pub model_provider: Option<String>,
    pub cli_version: Option<String>,
    pub first_prompt: Option<String>,
    pub message_count: u32,
    pub created: Option<String>,
    pub modified: Option<String>,
    pub git_branch: Option<String>,
    pub file_path: String,
}

pub struct SessionEntryView {
    pub session_id: Seq<char>,
    pub cwd: Seq<char>,
    pub short_name: Seq<char>,
    pub model: Option<Seq<char>>,
    pub model_provider: Option<Seq<char>>,
    pub cli_version: Option<Seq<char>>,
    pub first_prompt: Option<Seq<char>>,
    pub message_count: u32,
    pub created: Option<Seq<char>>,
    pub modified: Option<Seq<char>>,
    pub git_branch: Option<Seq<char>>,
    pub file_path: Seq<char>,
}

impl View for SessionIndexEntry {
    type V = SessionEntryView;

    open spec fn view(&self) -> SessionEntryView {
        SessionEntryView {
            session_id: self.session_id@,
            cwd: self.cwd@,
            short_name: self.short_name@,
            model: opt_view(self.model),
            model_provider: opt_view(self.model_provider),
            cli_version: opt_view(self.cli_version),
            first_prompt: opt_view(self.first_prompt),
            message_count: self.message_count,
            created: opt_view(self.created),
            modified: opt_view(self.modified),
            git_branch: opt_view(self.git_branch),
            file_path: self.file_path@,
        }
    }
}

pub open spec fn entries_view(l: Seq<SessionIndexEntry>) -> Seq<SessionEntryView> {
    l.map_values(|s: SessionIndexEntry| s@)
}

pub open spec fn capped_count(content: Seq<char>) -> u32 {
    let n = count_lines(trimmed_lines(content));
    if n > u32::MAX {
        u32::MAX
    } else {
        n as u32
    }
}

/// The entry that one rollout file gives.
pub open spec fn entry_of(f: SessionFile) -> SessionEntryView {
    let c = f.content@;
    let meta = meta_within(trimmed_lines(c), 5);
    let id = match meta {
        Some(m) => m.id,
        None => match file_stem(f.path@) {
            Some(s) => s,
            None => "unknown"@,
        },
    };
    let cwd = match meta {
        Some(m) => m.cwd,
        None => ""@,
    };
    SessionEntryView {
        session_id: id,
        cwd,
        short_name: if cwd.len() == 0 {
            "unknown"@
        } else {
            short_name(cwd)
        },
        model: None,
        model_provider: match meta {
            Some(m) => m.model_provider,
            None => None,
        },
        cli_version: match meta {
            Some(m) => m.cli_version,
            None => None,
        },
        first_prompt: match first_prompt(trimmed_lines(c)) {
            Some(t) => Some(truncated(t, 200)),
            None => None,
        },
        message_count: capped_count(c),
        created: opt_time(f.created_secs),
        modified: opt_time(f.modified_secs),
        git_branch: match meta {
            Some(m) => m.git_branch,
            None => None,
        },
        file_path: f.path@,
    }
}

/// The entry that one rollout file gives.
pub fn session_entry(f: &SessionFile) -> (r: SessionIndexEntry)
    ensures
        r@ == entry_of(*f),
{
    let content = f.content.as_str();
    let meta = extract_session_meta(content);
    let first_prompt = extract_first_prompt(content);
    let message_count = count_messages(content);
    let (session_id, cwd, model_provider, cli_version, git_branch) = match meta {
        Some(m) => (m.id, m.cwd, m.model_provider, m.cli_version, m.git_branch),
        None => {
            let stem = match file_stem_of(f.path.as_str()) {
                Some(s) => s,
                None => lit("unknown"),
            };
            (stem, lit(""), None, None, None)
        },
    };
    proof {
        reveal_strlit("");
    }
    let short_name = if cwd.as_str().is_empty() {
        lit("unknown")
    } else {
        short_name_from_path(cwd.as_str())
    };
    SessionIndexEntry {
        session_id,
        cwd,
        short_name,
        model: None,
        model_provider,
        cli_version,
        first_prompt,
        message_count,
        created: file_time(f.created_secs),
        modified: file_time(f.modified_secs),
        git_branch,
        file_path: f.path.clone(),
    }
}

/// `r` lists the entries of `files`, each once, newest modification first.
pub open spec fn is_listing(r: Seq<SessionIndexEntry>, files: Seq<SessionFile>) -> bool {
    &&& exists|p: Seq<int>|
        is_perm(p, files.len() as int) && r.len() == p.len() && (forall|i: int|
            0 <= i < p.len() ==> #[trigger] r[i]@ == entry_of(files[p[i]]))
    &&& forall|i: int, j: int|
        0 <= i < j < r.len() ==> !key_lt(opt_view(r[i].modified), opt_view(r[j].modified))
}

/// The entries of all rollout files, newest modification first.
pub fn list_all_sessions(files: &Vec<SessionFile>) -> (r: Vec<SessionIndexEntry>)
    ensures
        is_listing(r@, files@),
{
    let mut entries: Vec<SessionIndexEntry> = Vec::new();
    let mut keys: Vec<Option<String>> = Vec::new();
    let mut i: usize = 0;
    while i < files.len()
        invariant
            i <= files.len(),
            entries.len() == i,
            keys.len() == i,
            forall|k: int| 0 <= k < i ==> #[trigger] entries@[k]@ == entry_of(files@[k]),
            forall|k: int| 0 <= k < i ==> #[trigger] keys@[k] == entries@[k].modified,
        decreases files.len() - i,
    {
        let e = session_entry(&files[i]);
        keys.push(clone_opt(&e.modified));
        entries.push(e);
        i = i + 1;
    }
    let ghost es = entries@;
    let ghost ks = keys@;
    let r = sort_by_keys(entries, keys, true);
    proof {
        let p = choose|p: Seq<int>|
            is_perm(p, es.len() as int) && sorted_along(ks, p, true) && r.len() == p.len() && (
            forall|i: int| 0 <= i < p.len() ==> #[trigger] r@[i] == es[p[i]]);
        assert forall|i: int| 0 <= i < p.len() implies #[trigger] r@[i]@ == entry_of(files@[p[i]]) by {
            assert(r@[i] == es[p[i]]);
        }
        assert forall|i: int, j: int| 0 <= i < j < r.len() implies !key_lt(
            opt_view(r@[i].modified),
            opt_view(r@[j].modified),
        ) by {
            assert(r@[i] == es[p[i]]);
            assert(r@[j] == es[p[j]]);
            assert(ks[p[i]] == es[p[i]].modified);
            assert(ks[p[j]] == es[p[j]].modified);
            assert(opt_key(ks[p[i]]) == opt_view(r@[i].modified));
            assert(opt_key(ks[p[j]]) == opt_view(r@[j].modified));
            assert(!crate::sort::precedes(opt_key(ks[p[j]]), opt_key(ks[p[i]]), true));
        }
    }
    r
}

/// The entries whose working directory is `cwd`, in order; all where `cwd` is `None`.
pub open spec fn with_cwd(l: Seq<SessionIndexEntry>, cwd: Option<Seq<char>>) -> Seq<SessionIndexEntry>
    decreases l.len(),
{
    if l.len() == 0 {
        Seq::empty()
    } else {
        with_cwd(l.drop_last(), cwd) + match cwd {
            Some(c) => if l.last().cwd@ == c {
                seq![l.last()]
            } else {
                Seq::empty()
            },
            None => seq![l.last()],
        }
    }
}

/// Keeps the entries whose working directory is `cwd`, in order.
pub fn filter_by_cwd(entries: Vec<SessionIndexEntry>, cwd: &Option<String>) -> (r: Vec<SessionIndexEntry>)
    ensures
        r@ == with_cwd(entries@, opt_view(*cwd)),
{
    let ghost all = entries@;
    let mut rest = entries;
    // Walk from the back, so that each entry is moved, not copied.
    let mut out: Vec<SessionIndexEntry> = Vec::new();
    assert(all.subrange(0, all.len() as int) =~= all);
    while rest.len() > 0
        invariant
            rest@ == all.subrange(0, rest.len() as int),
            rest.len() <= all.len(),
            with_cwd(all, opt_view(*cwd)) == with_cwd(rest@, opt_view(*cwd)) + out@,
        decreases rest.len(),
    {
        let ghost before = rest@;
        let e = rest.pop().unwrap();
        assert(before.drop_last() =~= rest@);
        let keep = match cwd {
            Some(c) => e.cwd == *c,
            None => true,
        };
        let ghost old_out = out@;
        if keep {
            let mut one = Vec::new();
            one.push(e);
            one.append(&mut out);
            out = one;
            assert(with_cwd(before, opt_view(*cwd)) =~= with_cwd(rest@, opt_view(*cwd)) + seq![e]);
            assert(with_cwd(all, opt_view(*cwd)) =~= with_cwd(rest@, opt_view(*cwd)) + out@);
        } else {
            assert(with_cwd(before, opt_view(*cwd)) =~= with_cwd(rest@, opt_view(*cwd)));
        }
    }
    assert(with_cwd(rest@, opt_view(*cwd)) =~= Seq::empty());
    assert(out@ =~= with_cwd(all, opt_view(*cwd)));
    out
}

/// The sessions of one working directory (all where `cwd` is `None`),
/// newest modification first.
pub fn get_sessions(files: &Vec<SessionFile>, cwd: Option<String>) -> (r: Vec<SessionIndexEntry>)
    ensures
        exists|l: Seq<SessionIndexEntry>| is_listing(l, files@) && r@ == with_cwd(l, opt_view(cwd)),
{
    let all = list_all_sessions(files);
    let ghost l = all@;
    let r = filter_by_cwd(all, &cwd);
    assert(is_listing(l, files@) && r@ == with_cwd(l, opt_view(cwd)));
    r
}

} // verus!
