use vstd::prelude::*;

use crate::claude::sessions::{index_of, parse_sessions_index};
use crate::codex::session_scanner::{short_name, short_name_from_path};
use crate::json::{field, json_of, str_of};
use crate::shared_models::{clone_opt, opt_view};
use crate::sort::{is_perm, key_lt, opt_key, sort_by_keys, sorted_along};
use crate::time::{file_time, opt_time};

verus! {

/// A project directory as found on disk: its (encoded) name, the text of
/// its index file if it has one, how many session files it holds, and its
/// modification time in seconds.
#[derive(Debug, Clone)]
pub struct ProjectDir {
    pub encoded_name: String,
    pub index: Option<String>,
    pub jsonl_count: usize,
    pub modified_secs: Option<i64>,
}

/// A project for the project list.
#[derive(Debug, Clone, PartialEq)]
pub struct Project {
    pub encoded_name: String,
    pub display_path: String,
    pub short_name: String,
    pub session_count: usize,
    pub last_modified: Option<String>,
}

pub struct ProjectView {
    pub encoded_name: Seq<char>,
    pub display_path: Seq<char>,
    pub short_name: Seq<char>,
    pub session_count: usize,
    pub last_modified: Option<Seq<char>>,
}

impl View for Project {
    type V = ProjectView;

    open spec fn view(&self) -> ProjectView {
        ProjectView {
            encoded_name: self.encoded_name@,
            display_path: self.display_path@,
            short_name: self.short_name@,
            session_count: self.session_count,
            last_modified: opt_view(self.last_modified),
        }
    }
}

/// The entries and original path of an index text, where it is an index.
pub open spec fn index_facts(text: Option<String>) -> Option<(nat, Option<Seq<char>>)> {
    match text {
        Some(t) => match json_of(t@) {
            Some(doc) => match index_of(doc) {
                Some(es) => Some((es.len(), str_of(field(doc, "originalPath"@)))),
                None => None,
            },
            None => None,
        },
        None => None,
    }
}

/// The project a directory gives: its sessions are those its index lists,
/// or its session files where the index lists none; a project without
/// sessions is left out. Its path is the one its index names, else its
/// directory name.
pub open spec fn project_of(d: ProjectDir) -> Option<ProjectView> {
    let facts = index_facts(d.index);
    let count: int = match facts {
        Some((n, _)) => if n > 0 {
            n as int
        } else {
            d.jsonl_count as int
        },
        None => d.jsonl_count as int,
    };
    let path = match facts {
        Some((_, Some(p))) => p,
        _ => d.encoded_name@,
    };
    if count == 0 {
        None
    } else {
        Some(
            ProjectView {
                encoded_name: d.encoded_name@,
                display_path: path,
                short_name: short_name(path),
                session_count: count as usize,
                last_modified: opt_time(d.modified_secs),
            },
        )
    }
}

pub open spec fn projects_of(ds: Seq<ProjectDir>) -> Seq<ProjectView>
    decreases ds.len(),
{
    if ds.len() == 0 {
        Seq::empty()
    } else {
        projects_of(ds.drop_last()) + match project_of(ds.last()) {
            Some(p) => seq![p],
            None => Seq::empty(),
        }
    }
}

fn project_from(d: &ProjectDir) -> (r: Option<Project>)
    ensures
        match project_of(*d) {
            Some(p) => r matches Some(x) && x@ == p,
            None => r is None,
        },
{
    let index = match &d.index {
        Some(t) => parse_sessions_index(t.as_str()),
        None => None,
    };
    let count = match &index {
        Some(ix) => if ix.entries.len() > 0 {
            ix.entries.len()
        } else {
            d.jsonl_count
        },
        None => d.jsonl_count,
    };
    let path = match &index {
        Some(ix) => match &ix.original_path {
            Some(p) => p.clone(),
            None => d.encoded_name.clone(),
        },
        None => d.encoded_name.clone(),
    };
    if count == 0 {
        return None;
    }
    let short_name = short_name_from_path(path.as_str());
    Some(
        Project {
            encoded_name: d.encoded_name.clone(),
            display_path: path,
            short_name,
            session_count: count,
            last_modified: file_time(d.modified_secs),
        },
    )
}

/// The projects of the project directories, latest modification first.
pub fn get_projects(dirs: &Vec<ProjectDir>) -> (r: Vec<Project>)
    ensures
        exists|p: Seq<int>|
            is_perm(p, projects_of(dirs@).len() as int) && r.len() == p.len() && (forall|i: int|
                0 <= i < p.len() ==> #[trigger] r@[i]@ == projects_of(dirs@)[p[i]]),
        forall|i: int, j: int|
            0 <= i < j < r.len() ==> !key_lt(opt_view(r@[i].last_modified), opt_view(r@[j].last_modified)),
{
    let mut ps: Vec<Project> = Vec::new();
    let mut keys: Vec<Option<String>> = Vec::new();
    let mut i: usize = 0;
    while i < dirs.len()
        invariant
            i <= dirs.len(),
            ps.len() == keys.len(),
            ps@.map_values(|p: Project| p@) == projects_of(dirs@.subrange(0, i as int)),
            forall|k: int| 0 <= k < keys.len() ==> #[trigger] keys@[k] == ps@[k].last_modified,
        decreases dirs.len() - i,
    {
        assert(dirs@.subrange(0, i + 1).drop_last() =~= dirs@.subrange(0, i as int));
        let ghost before = ps@;
        match project_from(&dirs[i]) {
            Some(p) => {
                keys.push(clone_opt(&p.last_modified));
                let ghost pv = p@;
                ps.push(p);
                assert(ps@.map_values(|p: Project| p@) =~= before.map_values(|p: Project| p@).push(pv));
            },
            None => {
                assert(ps@.map_values(|p: Project| p@) =~= before.map_values(|p: Project| p@));
            },
        }
        i = i + 1;
    }
    assert(dirs@.subrange(0, dirs.len() as int) =~= dirs@);
    let ghost es = ps@;
    let ghost ks = keys@;
    let ghost base = projects_of(dirs@);
    let r = sort_by_keys(ps, keys, true);
    proof {
        let p = choose|p: Seq<int>|
            is_perm(p, es.len() as int) && sorted_along(ks, p, true) && r.len() == p.len() && (
            forall|i: int| 0 <= i < p.len() ==> #[trigger] r@[i] == es[p[i]]);
        assert forall|i: int| 0 <= i < p.len() implies #[trigger] r@[i]@ == base[p[i]] by {
            assert(r@[i] == es[p[i]]);
            assert(es.map_values(|p: Project| p@)[p[i]] == es[p[i]]@);
        }
        assert forall|i: int, j: int| 0 <= i < j < r.len() implies !key_lt(
            opt_view(r@[i].last_modified),
            opt_view(r@[j].last_modified),
        ) by {
            assert(r@[i] == es[p[i]]);
            assert(r@[j] == es[p[j]]);
            assert(!crate::sort::precedes(opt_key(ks[p[j]]), opt_key(ks[p[i]]), true));
        }
    }
    r
}

} // verus!
