use vstd::prelude::*;

use crate::dispatch::Tool;
use crate::text::{chars_of, concat};

verus! {

/// `path` with its separators turned into those of the platform: `\` on
/// Windows, `/` elsewhere.
pub open spec fn normalized(path: Seq<char>, windows: bool) -> Seq<char> {
    path.map_values(
        |c: char|
            if windows && c == '/' {
                '\\'
            } else if !windows && c == '\\' {
                '/'
            } else {
                c
            },
    )
}

/// A path with the separators of the platform (`windows` or not).
pub fn normalize_path(path: &str, windows: bool) -> (r: String)
    ensures
        r@ == normalized(path@, windows),
{
    let cs = chars_of(path);
    let mut out: Vec<char> = Vec::new();
    let mut i: usize = 0;
    while i < cs.len()
        invariant
            i <= cs.len(),
            cs@ == path@,
            out@ == normalized(cs@.subrange(0, i as int), windows),
        decreases cs.len() - i,
    {
        let c = cs[i];
        let d = if windows && c == '/' {
            '\\'
        } else if !windows && c == '\\' {
            '/'
        } else {
            c
        };
        out.push(d);
        assert(normalized(cs@.subrange(0, i + 1), windows) =~= normalized(cs@.subrange(0, i as int), windows).push(d));
        i = i + 1;
    }
    assert(cs@.subrange(0, cs.len() as int) =~= cs@);
    crate::text::string_of(&out, 0, out.len())
}

/// The first candidate path that exists, else `fallback`. Each candidate is a
/// path with whether it exists on disk.
pub open spec fn first_existing(candidates: Seq<(String, bool)>, fallback: Seq<char>) -> Seq<char>
    decreases candidates.len(),
{
    if candidates.len() == 0 {
        fallback
    } else if candidates[0].1 {
        candidates[0].0@
    } else {
        first_existing(candidates.drop_first(), fallback)
    }
}

/// The working directory to resume a session in: the first original project
/// path from an index that exists, else the given path.
pub fn resolve_project_path(candidates: &Vec<(String, bool)>, fallback: &str) -> (r: String)
    ensures
        r@ == first_existing(candidates@, fallback@),
{
    let mut i: usize = 0;
    assert(candidates@.subrange(0, candidates@.len() as int) =~= candidates@);
    while i < candidates.len()
        invariant
            i <= candidates.len(),
            first_existing(candidates@, fallback@) == first_existing(
                candidates@.subrange(i as int, candidates@.len() as int),
                fallback@,
            ),
        decreases candidates.len() - i,
    {
        let ghost rest = candidates@.subrange(i as int, candidates@.len() as int);
        assert(rest[0] == candidates@[i as int]);
        assert(rest.drop_first() =~= candidates@.subrange(i + 1, candidates@.len() as int));
        if candidates[i].1 {
            return candidates[i].0.clone();
        }
        i = i + 1;
    }
    fallback.to_owned()
}

/// The shell command that resumes a session in `dir` with the tool's
/// `program`: `<program> resume <id>` for rollout sessions, `<program>
/// --resume <id>` for per-project sessions.
pub open spec fn resume_command_of(tool: Tool, program: Seq<char>, dir: Seq<char>, session_id: Seq<char>) -> Seq<char> {
    "cd '"@ + dir + "' && "@ + program + (if tool == Tool::Codex {
        " resume "@
    } else {
        " --resume "@
    }) + session_id
}

/// The shell command that resumes a session in `dir`.
pub fn resume_command(tool: Tool, program: &str, dir: &str, session_id: &str) -> (r: String)
    ensures
        r@ == resume_command_of(tool, program@, dir@, session_id@),
{
    let a = concat("cd '", dir);
    let b = concat(a.as_str(), "' && ");
    let c = concat(b.as_str(), program);
    let d = if tool == Tool::Codex {
        concat(c.as_str(), " resume ")
    } else {
        concat(c.as_str(), " --resume ")
    };
    concat(d.as_str(), session_id)
}

} // verus!
