use vstd::prelude::*;

use crate::json::json_of;
use crate::opencode::models::{parse_project, project_of};
use crate::opencode::session_scanner::{short_name, short_name_from_path};
use crate::shared_models::{clone_opt, opt_view};
use crate::sort::{is_perm, key_lt, opt_key, sort_by_keys, sorted_along, str_lt};
use crate::time::{rfc3339_from_secs, rfc3339_of};

verus! {

/// A project entry for the project list.
#[derive(Debug, Clone, PartialEq)]
pub struct ProjectIndexEntry {
    pub id: String,
    pub worktree: String,
    pub short_name: String,
    pub session_count: usize,
    pub last_modified: Option<String>,
}

pub struct ProjectEntryView {
    pub id: Seq<char>,
    pub worktree: Seq<char>,
    pub short_name: Seq<char>,
    pub session_count: usize,
    pub last_modified: Option<Seq<char>>,
}

impl View for ProjectIndexEntry {
    type V = ProjectEntryView;

    open spec fn view(&self) -> ProjectEntryView {
        ProjectEntryView {
            id: self.id@,
            worktree: self.worktree@,
            short_name: self.short_name@,
            session_count: self.session_count,
            last_modified: opt_view(self.last_modified),
        }
    }
}

/// A project file with the modification times (seconds) of its session
/// files; `None` where a file's time could not be read.
#[derive(Debug, Clone)]
pub struct ProjectSource {
    pub content: String,
    pub session_modified: Vec<Option<i64>>,
}

/// The latest of the session files' modification times, as RFC 3339 text.
pub open spec fn latest(times: Seq<Option<i64>>) -> Option<Seq<char>>
    decreases times.len(),
{
    if times.len() == 0 {
        None
    } else {
        let prev = latest(times.drop_last());
        match times.last() {
            Some(t) => match prev {
                Some(p) => if str_lt(rfc3339_of(t as int), p) {
                    Some(p)
                } else {
                    Some(rfc3339_of(t as int))
                },
                None => Some(rfc3339_of(t as int)),
            },
            None => prev,
        }
    }
}

/// The latest modification time among a project's session files.
pub fn find_last_modified_session(times: &Vec<Option<i64>>) -> (r: Option<String>)
    ensures
        opt_view(r) == latest(times@),
{
    let mut best: Option<String> = None;
    let mut i: usize = 0;
    while i < times.len()
        invariant
            i <= times.len(),
            opt_view(best) == latest(times@.subrange(0, i as int)),
        decreases times.len() - i,
    {
        assert(times@.subrange(0, i + 1).drop_last() =~= times@.subrange(0, i as int));
        if let Some(t) = times[i] {
            let s = rfc3339_from_secs(t);
            let replace = match &best {
                Some(p) => !crate::sort::str_less(&s, p),
                None => true,
            };
            if replace {
                best = Some(s);
            }
        }
        i = i + 1;
    }
    assert(times@.subrange(0, times.len() as int) =~= times@);
    best
}

/// The entry a project file gives, if it is a project document.
pub open spec fn project_entry_of(p: ProjectSource) -> Option<ProjectEntryView> {
    match json_of(p.content@) {
        Some(j) => match project_of(j) {
            Some((id, w, _, _, _)) => Some(
                ProjectEntryView {
                    id,
                    worktree: w,
                    short_name: short_name(w),
                    session_count: p.session_modified@.len() as usize,
                    last_modified: latest(p.session_modified@),
                },
            ),
            None => None,
        },
        None => None,
    }
}

pub open spec fn project_entries(ps: Seq<ProjectSource>) -> Seq<ProjectEntryView>
    decreases ps.len(),
{
    if ps.len() == 0 {
        Seq::empty()
    } else {
        project_entries(ps.drop_last()) + match project_entry_of(ps.last()) {
            Some(e) => seq![e],
            None => Seq::empty(),
        }
    }
}

/// The projects, newest session modification first; project files that are
/// no project document are left out.
pub fn get_projects(sources: &Vec<ProjectSource>) -> (r: Vec<ProjectIndexEntry>)
    ensures
        exists|p: Seq<int>|
            is_perm(p, project_entries(sources@).len() as int) && r.len() == p.len() && (forall|i: int|
                0 <= i < p.len() ==> #[trigger] r@[i]@ == project_entries(sources@)[p[i]]),
        forall|i: int, j: int|
            0 <= i < j < r.len() ==> !key_lt(opt_view(r@[i].last_modified), opt_view(r@[j].last_modified)),
{
    let mut entries: Vec<ProjectIndexEntry> = Vec::new();
    let mut keys: Vec<Option<String>> = Vec::new();
    let mut i: usize = 0;
    while i < sources.len()
        invariant
            i <= sources.len(),
            entries.len() == keys.len(),
            entries@.map_values(|e: ProjectIndexEntry| e@) == project_entries(sources@.subrange(0, i as int)),
            forall|k: int| 0 <= k < keys.len() ==> #[trigger] keys@[k] == entries@[k].last_modified,
        decreases sources.len() - i,
    {
        assert(sources@.subrange(0, i + 1).drop_last() =~= sources@.subrange(0, i as int));
        let src = &sources[i];
        let ghost before = entries@;
        match parse_project(src.content.as_str()) {
            Ok(meta) => {
                let lm = find_last_modified_session(&src.session_modified);
                keys.push(clone_opt(&lm));
                let e = ProjectIndexEntry {
                    id: meta.id.clone(),
                    worktree: meta.worktree.clone(),
                    short_name: short_name_from_path(meta.worktree.as_str()),
                    session_count: src.session_modified.len(),
                    last_modified: lm,
                };
                let ghost ev = e@;
                entries.push(e);
                assert(entries@.map_values(|e: ProjectIndexEntry| e@) =~= before.map_values(
                    |e: ProjectIndexEntry| e@,
                ).push(ev));
            },
            Err(_) => {
                assert(entries@.map_values(|e: ProjectIndexEntry| e@) =~= before.map_values(
                    |e: ProjectIndexEntry| e@,
                ));
            },
        }
        i = i + 1;
    }
    assert(sources@.subrange(0, sources.len() as int) =~= sources@);
    let ghost es = entries@;
    let ghost ks = keys@;
    let ghost base = project_entries(sources@);
    let r = sort_by_keys(entries, keys, true);
    proof {
        let p = choose|p: Seq<int>|
            is_perm(p, es.len() as int) && sorted_along(ks, p, true) && r.len() == p.len() && (
            forall|i: int| 0 <= i < p.len() ==> #[trigger] r@[i] == es[p[i]]);
        assert forall|i: int| 0 <= i < p.len() implies #[trigger] r@[i]@ == base[p[i]] by {
            assert(r@[i] == es[p[i]]);
            assert(es.map_values(|e: ProjectIndexEntry| e@)[p[i]] == es[p[i]]@);
        }
        assert forall|i: int, j: int| 0 <= i < j < r.len() implies !key_lt(
            opt_view(r@[i].last_modified),
            opt_view(r@[j].last_modified),
        ) by {
            assert(r@[i] == es[p[i]]);
            assert(r@[j] == es[p[j]]);
            assert(!crate::sort::precedes(opt_key(ks[p[j]]), opt_key(ks[p[i]]), true));
        }
    }
    r
}

} // verus!
