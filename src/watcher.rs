use vstd::prelude::*;

use crate::codex::session_scanner::{components, last_dot, path_components};
use crate::dispatch::Tool;
use crate::text::{chars_of, str_eq, string_of};

verus! {

/// What the change watcher reports: the tool whose files changed (`None`
/// where no watched directory holds them), and the paths.
#[derive(Debug, Clone, PartialEq)]
pub struct FsChangePayload {
    pub tool: Option<Tool>,
    pub paths: Vec<String>,
}

pub open spec fn starts_with(s: Seq<char>, p: Seq<char>) -> bool {
    p.len() <= s.len() && s.subrange(0, p.len() as int) == p
}

fn has_prefix(s: &str, p: &str) -> (r: bool)
    ensures
        r == starts_with(s@, p@),
{
    let sc = chars_of(s);
    let pc = chars_of(p);
    if pc.len() > sc.len() {
        return false;
    }
    let mut i: usize = 0;
    while i < pc.len()
        invariant
            i <= pc.len() <= sc.len(),
            sc@ == s@,
            pc@ == p@,
            forall|k: int| 0 <= k < i ==> sc@[k] == pc@[k],
        decreases pc.len() - i,
    {
        if sc[i] != pc[i] {
            assert(sc@.subrange(0, pc.len() as int)[i as int] != pc@[i as int]);
            return false;
        }
        i = i + 1;
    }
    assert(sc@.subrange(0, pc.len() as int) =~= pc@);
    true
}

/// The tool of the first path under one of the watched directories.
pub open spec fn tool_of(paths: Seq<String>, claude_dir: Option<Seq<char>>, codex_dir: Option<Seq<char>>) -> Option<Tool>
    decreases paths.len(),
{
    if paths.len() == 0 {
        None
    } else if claude_dir is Some && starts_with(paths[0]@, claude_dir->0) {
        Some(Tool::Claude)
    } else if codex_dir is Some && starts_with(paths[0]@, codex_dir->0) {
        Some(Tool::Codex)
    } else {
        tool_of(paths.drop_first(), claude_dir, codex_dir)
    }
}

/// Which tool a set of changed paths belongs to: that of the first path
/// under one of the two watched directories.
pub fn determine_tool(paths: &Vec<String>, claude_dir: &Option<String>, codex_dir: &Option<String>) -> (r: Option<Tool>)
    ensures
        r == tool_of(
            paths@,
            crate::shared_models::opt_view(*claude_dir),
            crate::shared_models::opt_view(*codex_dir),
        ),
{
    let ghost cd = crate::shared_models::opt_view(*claude_dir);
    let ghost xd = crate::shared_models::opt_view(*codex_dir);
    let mut i: usize = 0;
    assert(paths@.subrange(0, paths@.len() as int) =~= paths@);
    while i < paths.len()
        invariant
            i <= paths.len(),
            cd == crate::shared_models::opt_view(*claude_dir),
            xd == crate::shared_models::opt_view(*codex_dir),
            tool_of(paths@, cd, xd) == tool_of(paths@.subrange(i as int, paths@.len() as int), cd, xd),
        decreases paths.len() - i,
    {
        let ghost rest = paths@.subrange(i as int, paths@.len() as int);
        assert(rest[0] == paths@[i as int]);
        assert(rest.drop_first() =~= paths@.subrange(i + 1, paths@.len() as int));
        if let Some(d) = claude_dir {
            if has_prefix(paths[i].as_str(), d.as_str()) {
                return Some(Tool::Claude);
            }
        }
        if let Some(d) = codex_dir {
            if has_prefix(paths[i].as_str(), d.as_str()) {
                return Some(Tool::Codex);
            }
        }
        i = i + 1;
    }
    None
}

/// The extension of a path's file name, where it has one.
pub open spec fn extension(path: Seq<char>) -> Option<Seq<char>> {
    let c = components(path);
    if c.len() == 0 {
        None
    } else {
        let name = c.last();
        let d = last_dot(name);
        if d <= 0 {
            None
        } else {
            Some(name.subrange(d + 1, name.len() as int))
        }
    }
}

pub open spec fn is_session_path(path: Seq<char>) -> bool {
    extension(path) == Some("jsonl"@) || extension(path) == Some("json"@)
}

fn is_session_file(path: &String) -> (r: bool)
    ensures
        r == is_session_path(path@),
{
    let c = path_components(path.as_str());
    if c.len() == 0 {
        return false;
    }
    let name = &c[c.len() - 1];
    let cs = chars_of(name.as_str());
    let mut k = cs.len();
    assert(cs@.subrange(0, k as int) =~= cs@);
    while k > 0 && cs[k - 1] != '.'
        invariant
            k <= cs.len(),
            cs@ == name@,
            last_dot(cs@) == last_dot(cs@.subrange(0, k as int)),
        decreases k,
    {
        assert(cs@.subrange(0, k as int).drop_last() =~= cs@.subrange(0, k - 1));
        k = k - 1;
    }
    if k <= 1 {
        proof {
            if k == 1 {
                assert(cs@.subrange(0, 1).last() == '.');
            }
        }
        return false;
    }
    assert(cs@.subrange(0, k as int).last() == '.');
    let ext = string_of(&cs, k, cs.len());
    str_eq(ext.as_str(), "jsonl") || str_eq(ext.as_str(), "json")
}

/// Whether a change touches a session file (extension `jsonl` or `json`).
pub fn has_relevant_files(paths: &Vec<String>) -> (r: bool)
    ensures
        r == exists|i: int| 0 <= i < paths.len() && is_session_path(#[trigger] paths@[i]@),
{
    let mut i: usize = 0;
    while i < paths.len()
        invariant
            i <= paths.len(),
            forall|k: int| 0 <= k < i ==> !is_session_path(#[trigger] paths@[k]@),
        decreases paths.len() - i,
    {
        if is_session_file(&paths[i]) {
            return true;
        }
        i = i + 1;
    }
    false
}

/// The notice for a change, where it touches a session file.
pub fn change_payload(paths: Vec<String>, claude_dir: &Option<String>, codex_dir: &Option<String>) -> (r: Option<
    FsChangePayload,
>)
    ensures
        match r {
            Some(p) => (exists|i: int| 0 <= i < paths.len() && is_session_path(#[trigger] paths@[i]@)) && p.paths@
                == paths@ && p.tool == tool_of(
                paths@,
                crate::shared_models::opt_view(*claude_dir),
                crate::shared_models::opt_view(*codex_dir),
            ),
            None => !exists|i: int| 0 <= i < paths.len() && is_session_path(#[trigger] paths@[i]@),
        },
{
    if !has_relevant_files(&paths) {
        return None;
    }
    let tool = determine_tool(&paths, claude_dir, codex_dir);
    Some(FsChangePayload { tool, paths })
}

} // verus!
