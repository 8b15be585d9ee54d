use vstd::prelude::*;

use crate::codex::sessions::{entries_view, is_listing, list_all_sessions, SessionEntryView, SessionFile, SessionIndexEntry};
use crate::shared_models::{clone_opt, opt_view};
use crate::sort::{is_perm, key_lt, opt_key, sort_by_keys, sorted_along, str_lt};

verus! {

/// A project: the sessions that share one working directory.
#[derive(Debug, Clone, PartialEq)]
pub struct ProjectEntry {
    pub cwd: String,
    pub short_name: String,
    pub session_count: u32,
    pub last_modified: Option<String>,
    pub model_provider: Option<String>,
}

pub struct ProjectView {
    pub cwd: Seq<char>,
    pub short_name: Seq<char>,
    pub session_count: u32,
    pub last_modified: Option<Seq<char>>,
    pub model_provider: Option<Seq<char>>,
}

impl View for ProjectEntry {
    type V = ProjectView;

    open spec fn view(&self) -> ProjectView {
        ProjectView {
            cwd: self.cwd@,
            short_name: self.short_name@,
            session_count: self.session_count,
            last_modified: opt_view(self.last_modified),
            model_provider: opt_view(self.model_provider),
        }
    }
}

pub open spec fn projects_view(v: Seq<ProjectEntry>) -> Seq<ProjectView> {
    v.map_values(|p: ProjectEntry| p@)
}

/// Index of the first project with working directory `cwd`, or -1.
pub open spec fn find_project(ps: Seq<ProjectView>, cwd: Seq<char>) -> int
    decreases ps.len(),
{
    if ps.len() == 0 {
        -1
    } else if find_project(ps.drop_last(), cwd) >= 0 {
        find_project(ps.drop_last(), cwd)
    } else if ps.last().cwd == cwd {
        ps.len() - 1
    } else {
        -1
    }
}

/// The later of two modification times; the first where they are equal.
pub open spec fn newer(cur: Option<Seq<char>>, m: Option<Seq<char>>) -> Option<Seq<char>> {
    match (cur, m) {
        (None, Some(x)) => Some(x),
        (Some(c), Some(x)) => if str_lt(c, x) {
            Some(x)
        } else {
            Some(c)
        },
        _ => cur,
    }
}

/// The projects after one more session is counted. Sessions without a
/// working directory belong to no project.
pub open spec fn add_session(ps: Seq<ProjectView>, s: SessionEntryView) -> Seq<ProjectView> {
    if s.cwd.len() == 0 {
        ps
    } else {
        let k = find_project(ps, s.cwd);
        if k < 0 {
            ps.push(
                ProjectView {
                    cwd: s.cwd,
                    short_name: s.short_name,
                    session_count: 1,
                    last_modified: s.modified,
                    model_provider: s.model_provider,
                },
            )
        } else {
            ps.update(
                k,
                ProjectView {
                    session_count: if ps[k].session_count == u32::MAX {
                        u32::MAX
                    } else {
                        (ps[k].session_count + 1) as u32
                    },
                    last_modified: newer(ps[k].last_modified, s.modified),
                    ..ps[k]
                },
            )
        }
    }
}

/// The projects of a list of sessions, in order of first appearance.
pub open spec fn group(ss: Seq<SessionEntryView>) -> Seq<ProjectView>
    decreases ss.len(),
{
    if ss.len() == 0 {
        Seq::empty()
    } else {
        add_session(group(ss.drop_last()), ss.last())
    }
}

proof fn lemma_find_project(ps: Seq<ProjectView>, cwd: Seq<char>)
    ensures
        -1 <= find_project(ps, cwd) < ps.len(),
        find_project(ps, cwd) >= 0 ==> ps[find_project(ps, cwd)].cwd == cwd,
        find_project(ps, cwd) < 0 ==> forall|k: int| 0 <= k < ps.len() ==> #[trigger] ps[k].cwd != cwd,
        forall|k: int| 0 <= k < find_project(ps, cwd) ==> #[trigger] ps[k].cwd != cwd,
    decreases ps.len(),
{
    if ps.len() > 0 {
        lemma_find_project(ps.drop_last(), cwd);
        assert forall|k: int| 0 <= k < ps.len() - 1 implies #[trigger] ps[k] == ps.drop_last()[k] by {}
    }
}

fn newer_time(cur: &Option<String>, m: &Option<String>) -> (r: Option<String>)
    ensures
        opt_view(r) == newer(opt_view(*cur), opt_view(*m)),
{
    match (cur, m) {
        (None, Some(x)) => Some(x.clone()),
        (Some(c), Some(x)) => {
            if crate::sort::str_less(c, x) {
                Some(x.clone())
            } else {
                Some(c.clone())
            }
        },
        _ => clone_opt(cur),
    }
}

/// The projects of a list of sessions, in order of first appearance: each
/// working directory once, with its number of sessions, its latest
/// modification time, and the short name and provider of its first session.
pub fn group_projects(sessions: &Vec<SessionIndexEntry>) -> (r: Vec<ProjectEntry>)
    ensures
        projects_view(r@) == group(entries_view(sessions@)),
{
    let ghost sv = entries_view(sessions@);
    let mut ps: Vec<ProjectEntry> = Vec::new();
    let mut i: usize = 0;
    while i < sessions.len()
        invariant
            i <= sessions.len(),
            sv == entries_view(sessions@),
            projects_view(ps@) == group(sv.subrange(0, i as int)),
        decreases sessions.len() - i,
    {
        let s = &sessions[i];
        assert(sv.subrange(0, i + 1).drop_last() =~= sv.subrange(0, i as int));
        assert(sv.subrange(0, i + 1).last() == s@);
        let ghost pv = projects_view(ps@);
        if !s.cwd.as_str().is_empty() {
            let mut k: usize = 0;
            proof {
                lemma_find_project(pv, s.cwd@);
            }
            while k < ps.len() && !(ps[k].cwd == s.cwd)
                invariant
                    k <= ps.len(),
                    pv == projects_view(ps@),
                    forall|j: int| 0 <= j < k ==> #[trigger] pv[j].cwd != s.cwd@,
                decreases ps.len() - k,
            {
                k = k + 1;
            }
            proof {
                if k < ps.len() {
                    assert(pv[k as int].cwd == s.cwd@);
                    assert(find_project(pv, s.cwd@) == k);
                } else {
                    assert(find_project(pv, s.cwd@) < 0);
                }
            }
            if k < ps.len() {
                let count = if ps[k].session_count == u32::MAX {
                    u32::MAX
                } else {
                    ps[k].session_count + 1
                };
                let lm = newer_time(&ps[k].last_modified, &s.modified);
                let updated = ProjectEntry {
                    cwd: ps[k].cwd.clone(),
                    short_name: ps[k].short_name.clone(),
                    session_count: count,
                    last_modified: lm,
                    model_provider: clone_opt(&ps[k].model_provider),
                };
                ps.set(k, updated);
                assert(projects_view(ps@) =~= add_session(pv, s@));
            } else {
                ps.push(
                    ProjectEntry {
                        cwd: s.cwd.clone(),
                        short_name: s.short_name.clone(),
                        session_count: 1,
                        last_modified: clone_opt(&s.modified),
                        model_provider: clone_opt(&s.model_provider),
                    },
                );
                assert(projects_view(ps@) =~= add_session(pv, s@));
            }
        } else {
            assert(projects_view(ps@) =~= add_session(pv, s@));
        }
        i = i + 1;
    }
    assert(sv.subrange(0, sessions.len() as int) =~= sv);
    ps
}

/// `r` holds the projects `g`, each once, in some order.
pub open spec fn reorders(r: Seq<ProjectEntry>, g: Seq<ProjectView>) -> bool {
    exists|p: Seq<int>|
        is_perm(p, g.len() as int) && r.len() == p.len() && (forall|i: int|
            0 <= i < p.len() ==> #[trigger] r[i]@ == g[p[i]])
}

/// The projects of all rollout files, latest modification first.
pub fn get_projects(files: &Vec<SessionFile>) -> (r: Vec<ProjectEntry>)
    ensures
        exists|l: Seq<SessionIndexEntry>|
            is_listing(l, files@) && #[trigger] reorders(r@, group(entries_view(l))),
        forall|i: int, j: int|
            0 <= i < j < r.len() ==> !key_lt(opt_view(r@[i].last_modified), opt_view(r@[j].last_modified)),
{
    let sessions = list_all_sessions(files);
    let ghost l = sessions@;
    let ps = group_projects(&sessions);
    let ghost g = projects_view(ps@);
    let mut keys: Vec<Option<String>> = Vec::new();
    let mut i: usize = 0;
    while i < ps.len()
        invariant
            i <= ps.len(),
            keys.len() == i,
            forall|k: int| 0 <= k < i ==> #[trigger] keys@[k] == ps@[k].last_modified,
        decreases ps.len() - i,
    {
        keys.push(clone_opt(&ps[i].last_modified));
        i = i + 1;
    }
    let ghost es = ps@;
    let ghost ks = keys@;
    let r = sort_by_keys(ps, keys, true);
    proof {
        let p = choose|p: Seq<int>|
            is_perm(p, es.len() as int) && sorted_along(ks, p, true) && r.len() == p.len() && (
            forall|i: int| 0 <= i < p.len() ==> #[trigger] r@[i] == es[p[i]]);
        assert forall|i: int| 0 <= i < p.len() implies #[trigger] r@[i]@ == group(
            entries_view(l),
        )[p[i]] by {
            assert(r@[i] == es[p[i]]);
            assert(g[p[i]] == es[p[i]]@);
        }
        assert forall|i: int, j: int| 0 <= i < j < r.len() implies !key_lt(
            opt_view(r@[i].last_modified),
            opt_view(r@[j].last_modified),
        ) by {
            assert(r@[i] == es[p[i]]);
            assert(r@[j] == es[p[j]]);
            assert(opt_key(ks[p[i]]) == opt_view(r@[i].last_modified));
            assert(opt_key(ks[p[j]]) == opt_view(r@[j].last_modified));
            assert(!crate::sort::precedes(opt_key(ks[p[j]]), opt_key(ks[p[i]]), true));
        }
        assert(reorders(r@, group(entries_view(l))));
    }
    r
}

} // verus!
