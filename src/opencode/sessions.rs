use vstd::prelude::*;

use crate::opencode::models::{message_text, parse_message, parse_session, session_text};
use crate::opencode::session_scanner::{short_name, short_name_from_path};
use crate::shared_models::{clone_opt, opt_view};
use crate::sort::{is_perm, key_lt, opt_key, sort_by_keys, sorted_along};
use crate::text::{truncate_chars, truncated};
use crate::time::{file_time, opt_time};

verus! {

/// A session entry for the session list.
#[derive(Debug, Clone, PartialEq)]
pub struct SessionIndexEntry {
    pub session_id: String,
    pub project_id: String,
    pub directory: String,
    pub short_name: String,
    pub title: Option<String>,
    pub slug: Option<String>,
    pub first_prompt: Option<String>,
    pub message_count: u32,
    pub created: Option<String>,
    pub modified: Option<String>,
    pub git_branch: Option<String>,
    pub parent_id: Option<String>,
}

/// A root session with the sessions spawned from it.
#[derive(Debug, Clone, PartialEq)]
pub struct SessionGroup {
    pub root_session: SessionIndexEntry,
    pub sub_sessions: Vec<SessionIndexEntry>,
}

pub struct EntryView {
    pub session_id: Seq<char>,
    pub project_id: Seq<char>,
    pub directory: Seq<char>,
    pub short_name: Seq<char>,
    pub title: Option<Seq<char>>,
    pub slug: Option<Seq<char>>,
    pub first_prompt: Option<Seq<char>>,
    pub message_count: u32,
    pub created: Option<Seq<char>>,
    pub modified: Option<Seq<char>>,
    pub git_branch: Option<Seq<char>>,
    pub parent_id: Option<Seq<char>>,
}

impl View for SessionIndexEntry {
    type V = EntryView;

    open spec fn view(&self) -> EntryView {
        EntryView {
            session_id: self.session_id@,
            project_id: self.project_id@,
            directory: self.directory@,
            short_name: self.short_name@,
            title: opt_view(self.title),
            slug: opt_view(self.slug),
            first_prompt: opt_view(self.first_prompt),
            message_count: self.message_count,
            created: opt_view(self.created),
            modified: opt_view(self.modified),
            git_branch: opt_view(self.git_branch),
            parent_id: opt_view(self.parent_id),
        }
    }
}

pub open spec fn entries_view(v: Seq<SessionIndexEntry>) -> Seq<EntryView> {
    v.map_values(|e: SessionIndexEntry| e@)
}

/// A session file with the texts of its message files (`None` where the
/// session has no message directory) and its file times in seconds.
#[derive(Debug, Clone)]
pub struct SessionSource {
    pub content: String,
    pub messages: Option<Vec<String>>,
    pub created_secs: Option<i64>,
    pub modified_secs: Option<i64>,
}

/// The first prompt among message files: the summary title of the first user
/// message that has one or a system prompt, else its system prompt cut to 100
/// characters.
pub open spec fn first_prompt_of(texts: Seq<String>) -> Option<Seq<char>>
    decreases texts.len(),
{
    if texts.len() == 0 {
        None
    } else {
        match message_text(texts[0]@) {
            Some(m) if m.role == "user"@ && (m.title is Some || m.system is Some) => match m.title {
                Some(t) => Some(t),
                None => Some(truncated(m.system->0, 100)),
            },
            _ => first_prompt_of(texts.drop_first()),
        }
    }
}

/// `text` cut to at most `max_len` characters, "..." added where it was cut.
pub fn truncate_text(text: &str, max_len: usize) -> (r: String)
    ensures
        r@ == truncated(text@, max_len as int),
        r@.len() <= max_len + 3,
{
    truncate_chars(text, max_len)
}

/// The first prompt of a session, from its message files.
pub fn extract_first_prompt(texts: &Vec<String>) -> (r: Option<String>)
    ensures
        opt_view(r) == first_prompt_of(texts@),
{
    let mut i: usize = 0;
    assert(texts@.subrange(0, texts@.len() as int) =~= texts@);
    while i < texts.len()
        invariant
            i <= texts.len(),
            first_prompt_of(texts@) == first_prompt_of(texts@.subrange(i as int, texts@.len() as int)),
        decreases texts.len() - i,
    {
        let ghost rest = texts@.subrange(i as int, texts@.len() as int);
        assert(rest[0] == texts@[i as int]);
        assert(rest.drop_first() =~= texts@.subrange(i + 1, texts@.len() as int));
        if let Ok(m) = parse_message(texts[i].as_str()) {
            if m.role == crate::text::lit("user") {
                if let Some(summary) = &m.summary {
                    if let Some(title) = &summary.title {
                        return Some(title.clone());
                    }
                }
                if let Some(system) = &m.system {
                    return Some(truncate_text(system.as_str(), 100));
                }
            }
        }
        i = i + 1;
    }
    None
}

pub open spec fn cap_u32(n: nat) -> u32 {
    if n > u32::MAX {
        u32::MAX
    } else {
        n as u32
    }
}

/// The entry a session file gives, if it is a session document.
pub open spec fn entry_of(s: SessionSource) -> Option<EntryView> {
    match session_text(s.content@) {
        Some(m) => Some(
            EntryView {
                session_id: m.id,
                project_id: m.project_id,
                directory: m.directory,
                short_name: short_name(m.directory),
                title: m.title,
                slug: m.slug,
                first_prompt: match s.messages {
                    Some(ts) => first_prompt_of(ts@),
                    None => None,
                },
                message_count: match s.messages {
                    Some(ts) => cap_u32(ts@.len()),
                    None => 0,
                },
                created: opt_time(s.created_secs),
                modified: opt_time(s.modified_secs),
                git_branch: None,
                parent_id: m.parent_id,
            },
        ),
        None => None,
    }
}

/// The entry of one session file.
pub fn session_entry(s: &SessionSource) -> (r: Option<SessionIndexEntry>)
    ensures
        match r {
            Some(e) => entry_of(*s) == Some(e@),
            None => entry_of(*s) is None,
        },
{
    let m = match parse_session(s.content.as_str()) {
        Ok(m) => m,
        Err(_) => return None,
    };
    let (first_prompt, message_count) = match &s.messages {
        Some(ts) => (extract_first_prompt(ts), if ts.len() > 0xffff_ffffusize {
            0xffff_ffffu32
        } else {
            ts.len() as u32
        }),
        None => (None, 0),
    };
    Some(
        SessionIndexEntry {
            session_id: m.id.clone(),
            project_id: m.project_id.clone(),
            directory: m.directory.clone(),
            short_name: short_name_from_path(m.directory.as_str()),
            title: clone_opt(&m.title),
            slug: clone_opt(&m.slug),
            first_prompt,
            message_count,
            created: file_time(s.created_secs),
            modified: file_time(s.modified_secs),
            git_branch: None,
            parent_id: clone_opt(&m.parent_id),
        },
    )
}

/// The entries of the session files that are session documents, in order.
pub open spec fn entries_of(srcs: Seq<SessionSource>) -> Seq<EntryView>
    decreases srcs.len(),
{
    if srcs.len() == 0 {
        Seq::empty()
    } else {
        entries_of(srcs.drop_last()) + match entry_of(srcs.last()) {
            Some(e) => seq![e],
            None => Seq::empty(),
        }
    }
}

/// `r` holds `base`, each once, newest modification first.
pub open spec fn is_listing(r: Seq<SessionIndexEntry>, base: Seq<EntryView>) -> bool {
    &&& exists|p: Seq<int>|
        is_perm(p, base.len() as int) && r.len() == p.len() && (forall|i: int|
            0 <= i < p.len() ==> #[trigger] r[i]@ == base[p[i]])
    &&& forall|i: int, j: int|
        0 <= i < j < r.len() ==> !key_lt(opt_view(r[i].modified), opt_view(r[j].modified))
}

fn sort_entries(v: Vec<SessionIndexEntry>, by_modified: bool) -> (r: Vec<SessionIndexEntry>)
    ensures
        exists|p: Seq<int>|
            is_perm(p, v@.len() as int) && r.len() == p.len() && (forall|i: int|
                0 <= i < p.len() ==> #[trigger] r@[i] == v@[p[i]]),
        by_modified ==> forall|i: int, j: int|
            0 <= i < j < r.len() ==> !key_lt(opt_view(r@[i].modified), opt_view(r@[j].modified)),
        !by_modified ==> forall|i: int, j: int|
            0 <= i < j < r.len() ==> !key_lt(opt_view(r@[j].created), opt_view(r@[i].created)),
{
    let mut keys: Vec<Option<String>> = Vec::new();
    let mut i: usize = 0;
    while i < v.len()
        invariant
            i <= v.len(),
            keys.len() == i,
            forall|k: int|
                0 <= k < i ==> #[trigger] keys@[k] == if by_modified {
                    v@[k].modified
                } else {
                    v@[k].created
                },
        decreases v.len() - i,
    {
        if by_modified {
            keys.push(clone_opt(&v[i].modified));
        } else {
            keys.push(clone_opt(&v[i].created));
        }
        i = i + 1;
    }
    let ghost es = v@;
    let ghost ks = keys@;
    let r = sort_by_keys(v, keys, by_modified);
    proof {
        let p = choose|p: Seq<int>|
            is_perm(p, es.len() as int) && sorted_along(ks, p, by_modified) && r.len() == p.len() && (
            forall|i: int| 0 <= i < p.len() ==> #[trigger] r@[i] == es[p[i]]);
        assert forall|i: int, j: int| 0 <= i < j < r.len() implies (by_modified ==> !key_lt(
            opt_view(r@[i].modified),
            opt_view(r@[j].modified),
        )) && (!by_modified ==> !key_lt(opt_view(r@[j].created), opt_view(r@[i].created))) by {
            assert(r@[i] == es[p[i]]);
            assert(r@[j] == es[p[j]]);
            assert(!crate::sort::precedes(opt_key(ks[p[j]]), opt_key(ks[p[i]]), by_modified));
        }
    }
    r
}

/// The sessions of one project, newest modification first.
pub fn get_sessions(srcs: &Vec<SessionSource>) -> (r: Vec<SessionIndexEntry>)
    ensures
        is_listing(r@, entries_of(srcs@)),
{
    let mut entries: Vec<SessionIndexEntry> = Vec::new();
    let mut i: usize = 0;
    while i < srcs.len()
        invariant
            i <= srcs.len(),
            entries_view(entries@) == entries_of(srcs@.subrange(0, i as int)),
        decreases srcs.len() - i,
    {
        assert(srcs@.subrange(0, i + 1).drop_last() =~= srcs@.subrange(0, i as int));
        let ghost before = entries@;
        match session_entry(&srcs[i]) {
            Some(e) => {
                let ghost ev = e@;
                entries.push(e);
                assert(entries_view(entries@) =~= entries_view(before).push(ev));
            },
            None => {
                assert(entries_view(entries@) =~= entries_view(before));
            },
        }
        i = i + 1;
    }
    assert(srcs@.subrange(0, srcs.len() as int) =~= srcs@);
    let ghost base = entries_view(entries@);
    let ghost es = entries@;
    let r = sort_entries(entries, true);
    proof {
        let p = choose|p: Seq<int>|
            is_perm(p, es.len() as int) && r.len() == p.len() && (forall|i: int|
                0 <= i < p.len() ==> #[trigger] r@[i] == es[p[i]]);
        assert forall|i: int| 0 <= i < p.len() implies #[trigger] r@[i]@ == base[p[i]] by {
            assert(r@[i] == es[p[i]]);
        }
    }
    r
}

fn copy_entry(e: &SessionIndexEntry) -> (r: SessionIndexEntry)
    ensures
        r@ == e@,
{
    SessionIndexEntry {
        session_id: e.session_id.clone(),
        project_id: e.project_id.clone(),
        directory: e.directory.clone(),
        short_name: e.short_name.clone(),
        title: clone_opt(&e.title),
        slug: clone_opt(&e.slug),
        first_prompt: clone_opt(&e.first_prompt),
        message_count: e.message_count,
        created: clone_opt(&e.created),
        modified: clone_opt(&e.modified),
        git_branch: clone_opt(&e.git_branch),
        parent_id: clone_opt(&e.parent_id),
    }
}

/// The sessions spawned from session `id`, in order.
pub open spec fn children_of(all: Seq<EntryView>, id: Seq<char>) -> Seq<EntryView>
    decreases all.len(),
{
    if all.len() == 0 {
        Seq::empty()
    } else {
        children_of(all.drop_last(), id) + if all.last().parent_id == Some(id) {
            seq![all.last()]
        } else {
            Seq::empty()
        }
    }
}

/// The sessions that no other session spawned, in order.
pub open spec fn roots_of(all: Seq<EntryView>) -> Seq<EntryView>
    decreases all.len(),
{
    if all.len() == 0 {
        Seq::empty()
    } else {
        roots_of(all.drop_last()) + if all.last().parent_id is None {
            seq![all.last()]
        } else {
            Seq::empty()
        }
    }
}

/// The children a root gets: its sub-sessions, unless an earlier root has
/// the same id and took them.
pub open spec fn group_children(all: Seq<EntryView>, roots: Seq<EntryView>, k: int) -> Seq<EntryView> {
    if exists|j: int| 0 <= j < k && roots[j].session_id == roots[k].session_id {
        Seq::empty()
    } else {
        children_of(all, roots[k].session_id)
    }
}

/// `subs` holds `children`, each once, earliest creation first.
pub open spec fn sorted_children(subs: Seq<SessionIndexEntry>, children: Seq<EntryView>) -> bool {
    &&& exists|p: Seq<int>|
        is_perm(p, children.len() as int) && subs.len() == p.len() && (forall|i: int|
            0 <= i < p.len() ==> #[trigger] subs[i]@ == children[p[i]])
    &&& forall|i: int, j: int|
        0 <= i < j < subs.len() ==> !key_lt(opt_view(subs[j].created), opt_view(subs[i].created))
}

/// Each group is root `k` with its children sorted by creation.
pub open spec fn is_group_of(g: SessionGroup, all: Seq<EntryView>, k: int) -> bool {
    let roots = roots_of(all);
    &&& g.root_session@ == roots[k]
    &&& sorted_children(g.sub_sessions@, group_children(all, roots, k))
}

fn children_for(all: &Vec<SessionIndexEntry>, id: &String) -> (r: Vec<SessionIndexEntry>)
    ensures
        entries_view(r@) == children_of(entries_view(all@), id@),
{
    let ghost av = entries_view(all@);
    let mut out: Vec<SessionIndexEntry> = Vec::new();
    let mut i: usize = 0;
    while i < all.len()
        invariant
            i <= all.len(),
            av == entries_view(all@),
            entries_view(out@) == children_of(av.subrange(0, i as int), id@),
        decreases all.len() - i,
    {
        assert(av.subrange(0, i + 1).drop_last() =~= av.subrange(0, i as int));
        assert(av.subrange(0, i + 1).last() == all@[i as int]@);
        let ghost before = out@;
        let is_child = match &all[i].parent_id {
            Some(p) => *p == *id,
            None => false,
        };
        if is_child {
            out.push(copy_entry(&all[i]));
        }
        assert(entries_view(out@) =~= entries_view(before) + if all@[i as int]@.parent_id == Some(id@) {
            seq![all@[i as int]@]
        } else {
            Seq::empty()
        });
        i = i + 1;
    }
    assert(av.subrange(0, all.len() as int) =~= av);
    out
}

proof fn lemma_roots_prefix(all: Seq<EntryView>, i: int)
    requires
        0 <= i <= all.len(),
    ensures
        roots_of(all.subrange(0, i)).len() <= roots_of(all).len(),
        forall|k: int|
            0 <= k < roots_of(all.subrange(0, i)).len() ==> #[trigger] roots_of(all.subrange(0, i))[k]
                == roots_of(all)[k],
    decreases all.len(),
{
    if i == all.len() {
        assert(all.subrange(0, i) =~= all);
    } else {
        assert(all.drop_last().subrange(0, i) =~= all.subrange(0, i));
        lemma_roots_prefix(all.drop_last(), i);
    }
}

/// The sessions of a project grouped by parent: each root session with the
/// sessions spawned from it (earliest first); groups newest root first.
/// Sessions whose parent is no root of the list stand in no group.
pub fn get_sessions_grouped(all: Vec<SessionIndexEntry>) -> (r: Vec<SessionGroup>)
    ensures
        exists|p: Seq<int>|
            is_perm(p, roots_of(entries_view(all@)).len() as int) && r.len() == p.len() && (forall|i: int|
                0 <= i < p.len() ==> #[trigger] is_group_of(r@[i], entries_view(all@), p[i])),
        forall|i: int, j: int|
            0 <= i < j < r.len() ==> !key_lt(
                opt_view(r@[i].root_session.modified),
                opt_view(r@[j].root_session.modified),
            ),
{
    let ghost av = entries_view(all@);
    let mut groups: Vec<SessionGroup> = Vec::new();
    let mut keys: Vec<Option<String>> = Vec::new();
    let mut root_ids: Vec<String> = Vec::new();
    let mut i: usize = 0;
    assert(av.subrange(0, 0) =~= Seq::<EntryView>::empty());
    while i < all.len()
        invariant
            i <= all.len(),
            av == entries_view(all@),
            groups.len() == roots_of(av.subrange(0, i as int)).len(),
            keys.len() == groups.len(),
            root_ids.len() == groups.len(),
            forall|k: int|
                0 <= k < groups.len() ==> #[trigger] opt_key(keys@[k]) == opt_view(groups@[k].root_session.modified),
            forall|k: int| 0 <= k < groups.len() ==> #[trigger] root_ids@[k]@ == roots_of(av)[k].session_id,
            forall|k: int| 0 <= k < groups.len() ==> #[trigger] is_group_of(groups@[k], av, k),
        decreases all.len() - i,
    {
        proof {
            lemma_roots_prefix(av, i + 1);
            assert(av.subrange(0, i + 1).drop_last() =~= av.subrange(0, i as int));
            assert(av.subrange(0, i + 1).last() == all@[i as int]@);
        }
        let e = &all[i];
        if e.parent_id.is_none() {
            let ghost n = groups.len() as int;
            let ghost roots = roots_of(av);
            assert(roots_of(av.subrange(0, i + 1)) == roots_of(av.subrange(0, i as int)).push(e@));
            assert(roots_of(av.subrange(0, i + 1))[n] == e@);
            assert(roots[n] == e@);
            let mut taken = false;
            let mut k: usize = 0;
            while k < root_ids.len()
                invariant
                    k <= root_ids.len(),
                    root_ids.len() == n,
                    n < roots.len(),
                    roots == roots_of(av),
                    roots[n] == e@,
                    forall|j: int| 0 <= j < n ==> #[trigger] root_ids@[j]@ == roots[j].session_id,
                    taken == exists|j: int| 0 <= j < k && roots[j].session_id == roots[n].session_id,
                decreases root_ids.len() - k,
            {
                if root_ids[k] == e.session_id {
                    taken = true;
                }
                k = k + 1;
            }
            let subs = if taken {
                let v: Vec<SessionIndexEntry> = Vec::new();
                assert(is_perm(Seq::<int>::empty(), 0));
                assert(group_children(av, roots, n) =~= Seq::empty());
                assert(sorted_children(v@, group_children(av, roots, n)));
                v
            } else {
                let c = children_for(&all, &e.session_id);
                let ghost cv = c@;
                let v = sort_entries(c, false);
                proof {
                    let p = choose|p: Seq<int>|
                        is_perm(p, cv.len() as int) && v.len() == p.len() && (forall|i: int|
                            0 <= i < p.len() ==> #[trigger] v@[i] == cv[p[i]]);
                    assert forall|i: int| 0 <= i < p.len() implies #[trigger] v@[i]@ == group_children(av, roots, n)[p[i]] by {
                        assert(v@[i] == cv[p[i]]);
                        assert(entries_view(cv)[p[i]] == cv[p[i]]@);
                    }
                    assert(sorted_children(v@, group_children(av, roots, n)));
                }
                v
            };
            keys.push(clone_opt(&e.modified));
            root_ids.push(e.session_id.clone());
            let g = SessionGroup { root_session: copy_entry(e), sub_sessions: subs };
            assert(is_group_of(g, av, n));
            let ghost old_groups = groups@;
            groups.push(g);
            assert forall|k: int| 0 <= k < groups.len() implies #[trigger] is_group_of(groups@[k], av, k) by {
                if k < n {
                    assert(groups@[k] == old_groups[k]);
                }
            }
        } else {
            assert(roots_of(av.subrange(0, i + 1)) == roots_of(av.subrange(0, i as int)));
        }
        i = i + 1;
    }
    proof {
        assert(av.subrange(0, all.len() as int) =~= av);
    }
    let ghost es = groups@;
    let ghost ks = keys@;
    let r = sort_by_keys(groups, keys, true);
    proof {
        let p = choose|p: Seq<int>|
            is_perm(p, es.len() as int) && sorted_along(ks, p, true) && r.len() == p.len() && (
            forall|i: int| 0 <= i < p.len() ==> #[trigger] r@[i] == es[p[i]]);
        assert forall|i: int| 0 <= i < p.len() implies #[trigger] is_group_of(r@[i], av, p[i]) by {
            assert(r@[i] == es[p[i]]);
        }
        assert forall|i: int, j: int| 0 <= i < j < r.len() implies !key_lt(
            opt_view(r@[i].root_session.modified),
            opt_view(r@[j].root_session.modified),
        ) by {
            assert(r@[i] == es[p[i]]);
            assert(r@[j] == es[p[j]]);
            assert(!crate::sort::precedes(opt_key(ks[p[j]]), opt_key(ks[p[i]]), true));
        }
    }
    r
}

} // verus!
