use vstd::prelude::*;

use crate::codex::session_scanner::{components, last_dot, path_components};
use crate::text::{chars_of, concat, lit, str_eq};

verus! {

/// The last component of a path that names a file or directory: `.`
/// components are skipped; `..` or no component at all names none.
pub open spec fn file_name(path: Seq<char>) -> Option<Seq<char>> {
    last_name(components(path))
}

pub open spec fn last_name(c: Seq<Seq<char>>) -> Option<Seq<char>>
    decreases c.len(),
{
    if c.len() == 0 {
        None
    } else if c.last() == "."@ {
        last_name(c.drop_last())
    } else if c.last() == ".."@ {
        None
    } else {
        Some(c.last())
    }
}

/// The short name of a path: its file name, or "unknown".
pub open spec fn short_name(path: Seq<char>) -> Seq<char> {
    match file_name(path) {
        Some(n) => n,
        None => "unknown"@,
    }
}

/// The short name of a path (its last component), or "unknown".
pub fn short_name_from_path(path: &str) -> (r: String)
    ensures
        r@ == short_name(path@),
{
    let c = path_components(path);
    let ghost cv = components(path@);
    let mut k = c.len();
    assert(cv.subrange(0, k as int) =~= cv);
    while k > 0 && str_eq(c[k - 1].as_str(), ".")
        invariant
            k <= c.len(),
            c.len() == cv.len(),
            cv == components(path@),
            forall|j: int| 0 <= j < c.len() ==> #[trigger] c[j]@ == cv[j],
            last_name(cv) == last_name(cv.subrange(0, k as int)),
        decreases k,
    {
        assert(cv.subrange(0, k as int).drop_last() =~= cv.subrange(0, k - 1));
        assert(cv.subrange(0, k as int).last() == c[k - 1]@);
        k = k - 1;
    }
    if k == 0 {
        return lit("unknown");
    }
    assert(cv.subrange(0, k as int).last() == c[k - 1]@);
    if str_eq(c[k - 1].as_str(), "..") {
        lit("unknown")
    } else {
        c[k - 1].clone()
    }
}

/// Whether a file name has the extension `json`.
pub open spec fn is_json_name(name: Seq<char>) -> bool {
    let d = last_dot(name);
    d > 0 && name.subrange(d + 1, name.len() as int) == "json"@
}

fn has_json_extension(name: &String) -> (r: bool)
    ensures
        r == is_json_name(name@),
{
    let cs = chars_of(name.as_str());
    let mut k = cs.len();
    assert(cs@.subrange(0, k as int) =~= cs@);
    while k > 0 && cs[k - 1] != '.'
        invariant
            k <= cs.len(),
            cs@ == name@,
            last_dot(cs@) == last_dot(cs@.subrange(0, k as int)),
        decreases k,
    {
        assert(cs@.subrange(0, k as int).drop_last() =~= cs@.subrange(0, k - 1));
        k = k - 1;
    }
    if k <= 1 {
        proof {
            if k == 1 {
                assert(cs@.subrange(0, 1).last() == '.');
            }
        }
        return false;
    }
    assert(cs@.subrange(0, k as int).last() == '.');
    let ext = crate::text::string_of(&cs, k, cs.len());
    str_eq(ext.as_str(), "json")
}

pub open spec fn count_json(names: Seq<String>) -> nat
    decreases names.len(),
{
    if names.len() == 0 {
        0
    } else {
        count_json(names.drop_last()) + if is_json_name(names.last()@) {
            1nat
        } else {
            0nat
        }
    }
}

/// How many of the names in a message directory are message files
/// (extension `json`); at most `u32::MAX`.
pub fn count_messages(names: &Vec<String>) -> (r: u32)
    ensures
        r == if count_json(names@) > u32::MAX {
            u32::MAX as nat
        } else {
            count_json(names@)
        },
{
    let mut n: u32 = 0;
    let mut i: usize = 0;
    while i < names.len()
        invariant
            i <= names.len(),
            n == if count_json(names@.subrange(0, i as int)) > u32::MAX {
                u32::MAX as nat
            } else {
                count_json(names@.subrange(0, i as int))
            },
        decreases names.len() - i,
    {
        assert(names@.subrange(0, i + 1).drop_last() =~= names@.subrange(0, i as int));
        if has_json_extension(&names[i]) {
            n = n.saturating_add(1);
        }
        i = i + 1;
    }
    assert(names@.subrange(0, names.len() as int) =~= names@);
    n
}

/// The project hashes among the names in the session directory: all but "global".
pub open spec fn hashes_of(names: Seq<String>) -> Seq<Seq<char>>
    decreases names.len(),
{
    if names.len() == 0 {
        Seq::empty()
    } else {
        hashes_of(names.drop_last()) + if names.last()@ == "global"@ {
            Seq::empty()
        } else {
            seq![names.last()@]
        }
    }
}

/// The project hashes among the names in the session directory, in order.
pub fn scan_project_hashes(names: &Vec<String>) -> (r: Vec<String>)
    ensures
        r@.map_values(|s: String| s@) == hashes_of(names@),
{
    let mut out: Vec<String> = Vec::new();
    let mut i: usize = 0;
    while i < names.len()
        invariant
            i <= names.len(),
            out@.map_values(|s: String| s@) == hashes_of(names@.subrange(0, i as int)),
        decreases names.len() - i,
    {
        assert(names@.subrange(0, i + 1).drop_last() =~= names@.subrange(0, i as int));
        let ghost before = out@;
        if !str_eq(names[i].as_str(), "global") {
            out.push(names[i].clone());
        }
        assert(out@.map_values(|s: String| s@) =~= before.map_values(|s: String| s@) + if names@[i as int]@
            == "global"@ {
            Seq::empty()
        } else {
            seq![names@[i as int]@]
        });
        i = i + 1;
    }
    assert(names@.subrange(0, names.len() as int) =~= names@);
    out
}

/// The tool's storage directory under a user's home.
pub fn get_storage_dir(home: &str) -> (r: String)
    ensures
        r@ == home@ + "/.local/share/opencode/storage"@,
{
    concat(home, "/.local/share/opencode/storage")
}

/// The directory of project files.
pub fn get_project_dir(storage: &str) -> (r: String)
    ensures
        r@ == storage@ + "/project"@,
{
    concat(storage, "/project")
}

/// The directory of session files, one subdirectory per project hash.
pub fn get_session_dir(storage: &str) -> (r: String)
    ensures
        r@ == storage@ + "/session"@,
{
    concat(storage, "/session")
}

/// The directory of message files, one subdirectory per session.
pub fn get_message_dir(storage: &str) -> (r: String)
    ensures
        r@ == storage@ + "/message"@,
{
    concat(storage, "/message")
}

/// The directory of part files, one subdirectory per message.
pub fn get_part_dir(storage: &str) -> (r: String)
    ensures
        r@ == storage@ + "/part"@,
{
    concat(storage, "/part")
}

} // verus!
