use vstd::prelude::*;

use crate::text::{chars_of, concat, lit, string_of};

verus! {

pub open spec fn is_sep(c: char) -> bool {
    c == '/' || c == '\\'
}

/// `s` with all trailing separators removed.
pub open spec fn trim_seps(s: Seq<char>) -> Seq<char>
    decreases s.len(),
{
    if s.len() > 0 && is_sep(s.last()) {
        trim_seps(s.drop_last())
    } else {
        s
    }
}

/// Index of the last separator in `s`, or -1.
pub open spec fn last_sep(s: Seq<char>) -> int
    decreases s.len(),
{
    if s.len() == 0 {
        -1
    } else if is_sep(s.last()) {
        s.len() - 1
    } else {
        last_sep(s.drop_last())
    }
}

/// The last segment of a path, after trailing separators are dropped.
pub open spec fn short_name(path: Seq<char>) -> Seq<char> {
    let t = trim_seps(path);
    t.subrange(last_sep(t) + 1, t.len() as int)
}

proof fn lemma_last_sep(s: Seq<char>)
    ensures
        -1 <= last_sep(s) < s.len(),
        last_sep(s) >= 0 ==> is_sep(s[last_sep(s)]),
        forall|k: int| last_sep(s) < k < s.len() ==> !is_sep(s[k]),
    decreases s.len(),
{
    if s.len() > 0 && !is_sep(s.last()) {
        lemma_last_sep(s.drop_last());
        assert forall|k: int| last_sep(s) < k < s.len() implies !is_sep(s[k]) by {
            if k < s.len() - 1 {
                assert(s[k] == s.drop_last()[k]);
            }
        }
    }
}

/// The last segment of a path (a project's short name).
pub fn short_name_from_path(path: &str) -> (r: String)
    ensures
        r@ == short_name(path@),
{
    let cs = chars_of(path);
    let mut end = cs.len();
    assert(cs@.subrange(0, end as int) =~= cs@);
    while end > 0 && (cs[end - 1] == '/' || cs[end - 1] == '\\')
        invariant
            end <= cs.len(),
            trim_seps(cs@) == trim_seps(cs@.subrange(0, end as int)),
        decreases end,
    {
        assert(cs@.subrange(0, end as int).drop_last() =~= cs@.subrange(0, end - 1));
        end = end - 1;
    }
    proof {
        if end == cs.len() {
            assert(cs@.subrange(0, end as int) =~= cs@);
        }
    }
    let ghost t = cs@.subrange(0, end as int);
    assert(trim_seps(t) == t);
    let mut start = end;
    assert(t.subrange(0, start as int) =~= t);
    while start > 0 && !(cs[start - 1] == '/' || cs[start - 1] == '\\')
        invariant
            start <= end <= cs.len(),
            t == cs@.subrange(0, end as int),
            last_sep(t) == last_sep(t.subrange(0, start as int)),
        decreases start,
    {
        assert(t.subrange(0, start as int).drop_last() =~= t.subrange(0, start - 1));
        start = start - 1;
    }
    proof {
        if start == end {
            assert(t.subrange(0, start as int) =~= t);
        }
        let u = t.subrange(0, start as int);
        if start > 0 {
            assert(u.last() == cs@[start - 1]);
            assert(last_sep(u) == start - 1);
        } else {
            assert(u.len() == 0);
        }
    }
    string_of(&cs, start, end)
}

/// The non-empty `/`-separated segments of `s` from position `i` on.
pub open spec fn segments_from(s: Seq<char>, i: int) -> Seq<Seq<char>>
    decreases s.len() - i,
{
    if i < 0 || i >= s.len() {
        Seq::empty()
    } else if s[i] == '/' {
        segments_from(s, i + 1)
    } else {
        let e = seg_end(s, i);
        if e <= i || e > s.len() {
            Seq::empty()
        } else {
            seq![s.subrange(i, e)] + segments_from(s, e)
        }
    }
}

/// End of the segment that starts at `i`.
pub open spec fn seg_end(s: Seq<char>, i: int) -> int
    decreases s.len() - i,
{
    if i >= s.len() {
        s.len() as int
    } else if s[i] == '/' {
        i
    } else {
        seg_end(s, i + 1)
    }
}

/// The components of a path: its non-empty `/`-separated segments.
pub open spec fn components(s: Seq<char>) -> Seq<Seq<char>> {
    segments_from(s, 0)
}

proof fn lemma_seg_end(s: Seq<char>, i: int)
    requires
        0 <= i <= s.len(),
    ensures
        i <= seg_end(s, i) <= s.len(),
        forall|k: int| i <= k < seg_end(s, i) ==> s[k] != '/',
    decreases s.len() - i,
{
    if i < s.len() && s[i] != '/' {
        lemma_seg_end(s, i + 1);
    }
}

/// The components of a path, in order.
pub fn path_components(path: &str) -> (r: Vec<String>)
    ensures
        r.len() == components(path@).len(),
        forall|k: int| 0 <= k < r.len() ==> #[trigger] r[k]@ == components(path@)[k],
{
    let cs = chars_of(path);
    let ghost s = cs@;
    let mut out: Vec<String> = Vec::new();
    let ghost mut done: Seq<Seq<char>> = Seq::empty();
    let mut i: usize = 0;
    while i < cs.len()
        invariant
            s == cs@,
            s == path@,
            i <= cs.len(),
            done + segments_from(s, i as int) == segments_from(s, 0),
            out.len() == done.len(),
            forall|k: int| 0 <= k < out.len() ==> #[trigger] out[k]@ == done[k],
        decreases cs.len() - i,
    {
        if cs[i] == '/' {
            i = i + 1;
        } else {
            let mut e = i;
            while e < cs.len() && cs[e] != '/'
                invariant
                    i <= e <= cs.len(),
                    s == cs@,
                    seg_end(s, i as int) == seg_end(s, e as int),
                decreases cs.len() - e,
            {
                e = e + 1;
            }
            proof {
                lemma_seg_end(s, i as int);
            }
            out.push(string_of(&cs, i, e));
            proof {
                let seg = s.subrange(i as int, e as int);
                assert(done + segments_from(s, i as int) =~= done.push(seg) + segments_from(s, e as int));
                done = done.push(seg);
            }
            i = e;
        }
    }
    proof {
        assert(done =~= segments_from(s, 0));
    }
    out
}

pub open spec fn all_digits(s: Seq<char>) -> bool {
    forall|k: int| 0 <= k < s.len() ==> '0' <= #[trigger] s[k] && s[k] <= '9'
}

fn is_digits(s: &String) -> (r: bool)
    ensures
        r == all_digits(s@),
{
    let cs = chars_of(s.as_str());
    let mut i: usize = 0;
    while i < cs.len()
        invariant
            i <= cs.len(),
            cs@ == s@,
            forall|k: int| 0 <= k < i ==> '0' <= #[trigger] cs@[k] && cs@[k] <= '9',
        decreases cs.len() - i,
    {
        if !('0' <= cs[i] && cs[i] <= '9') {
            return false;
        }
        i = i + 1;
    }
    true
}

/// `s` padded on the left with zeros to two characters.
pub open spec fn pad2(s: Seq<char>) -> Seq<char> {
    if s.len() == 0 {
        seq!['0', '0']
    } else if s.len() == 1 {
        seq!['0'] + s
    } else {
        s
    }
}

fn pad_two(s: &String) -> (r: String)
    ensures
        r@ == pad2(s@),
{
    let n = chars_of(s.as_str()).len();
    if n == 0 {
        proof {
            reveal_strlit("00");
        }
        assert(pad2(s@) =~= "00"@);
        lit("00")
    } else if n == 1 {
        proof {
            reveal_strlit("0");
        }
        assert(pad2(s@) =~= "0"@ + s@);
        concat("0", s.as_str())
    } else {
        s.clone()
    }
}

/// The date a rollout file's path names, from its `year/month/day/` directories.
pub open spec fn path_date(path: Seq<char>) -> Option<Seq<char>> {
    let c = components(path);
    let n = c.len();
    if n >= 4 {
        let day = c[n - 2];
        let month = c[n - 3];
        let year = c[n - 4];
        if year.len() == 4 && all_digits(year) && month.len() <= 2 && all_digits(month) && day.len()
            <= 2 && all_digits(day) {
            Some(year + "-"@ + pad2(month) + "-"@ + pad2(day))
        } else {
            None
        }
    } else {
        None
    }
}

/// The date, as `YYYY-MM-DD`, that a path like `.../2025/01/15/rollout.jsonl` names.
pub fn extract_date_from_path(path: &str) -> (r: Option<String>)
    ensures
        crate::shared_models::opt_view(r) == path_date(path@),
{
    let c = path_components(path);
    let n = c.len();
    if n >= 4 {
        let day = &c[n - 2];
        let month = &c[n - 3];
        let year = &c[n - 4];
        if chars_of(year.as_str()).len() == 4 && is_digits(year) && chars_of(month.as_str()).len() <= 2
            && is_digits(month) && chars_of(day.as_str()).len() <= 2 && is_digits(day) {
            let a = concat(year.as_str(), "-");
            let b = concat(a.as_str(), pad_two(month).as_str());
            let d = concat(b.as_str(), "-");
            let e = concat(d.as_str(), pad_two(day).as_str());
            return Some(e);
        }
    }
    None
}

/// The file name of a path without its last extension (`Path::file_stem`),
/// where the path has a last component.
pub open spec fn file_stem(path: Seq<char>) -> Option<Seq<char>> {
    let c = components(path);
    if c.len() == 0 {
        None
    } else {
        let name = c.last();
        let dot = last_dot(name);
        if dot <= 0 {
            Some(name)
        } else {
            Some(name.subrange(0, dot))
        }
    }
}

/// Index of the last `.` in `s`, or -1.
pub open spec fn last_dot(s: Seq<char>) -> int
    decreases s.len(),
{
    if s.len() == 0 {
        -1
    } else if s.last() == '.' {
        s.len() - 1
    } else {
        last_dot(s.drop_last())
    }
}

proof fn lemma_last_dot(s: Seq<char>)
    ensures
        -1 <= last_dot(s) < s.len(),
    decreases s.len(),
{
    if s.len() > 0 && s.last() != '.' {
        lemma_last_dot(s.drop_last());
    }
}

/// The file stem of a path.
pub fn file_stem_of(path: &str) -> (r: Option<String>)
    ensures
        crate::shared_models::opt_view(r) == file_stem(path@),
{
    let c = path_components(path);
    if c.len() == 0 {
        return None;
    }
    let name = &c[c.len() - 1];
    let cs = chars_of(name.as_str());
    let mut k = cs.len();
    assert(cs@.subrange(0, k as int) =~= cs@);
    while k > 0 && cs[k - 1] != '.'
        invariant
            k <= cs.len(),
            last_dot(cs@) == last_dot(cs@.subrange(0, k as int)),
        decreases k,
    {
        assert(cs@.subrange(0, k as int).drop_last() =~= cs@.subrange(0, k - 1));
        k = k - 1;
    }
    proof {
        if k == cs.len() {
            assert(cs@.subrange(0, k as int) =~= cs@);
        }
        if k > 0 {
            assert(cs@.subrange(0, k as int).last() == '.');
        }
        lemma_last_dot(cs@);
    }
    if k <= 1 {
        Some(name.clone())
    } else {
        Some(string_of(&cs, 0, k - 1))
    }
}

/// The session id a rollout file's name holds: in `rollout-<time>-<id>`,
/// what follows the first `-` after the prefix; otherwise the whole stem.
pub open spec fn session_id_of_stem(stem: Seq<char>) -> Seq<char> {
    let p = "rollout-"@;
    if stem.len() >= p.len() && stem.subrange(0, p.len() as int) == p {
        let rest = stem.subrange(p.len() as int, stem.len() as int);
        match crate::text::find_from(rest, "-"@, 0) {
            Some(pos) => rest.subrange(pos + 1, rest.len() as int),
            None => stem,
        }
    } else {
        stem
    }
}

/// The session id that a rollout file's name holds.
pub fn extract_session_id_from_filename(path: &str) -> (r: Option<String>)
    ensures
        crate::shared_models::opt_view(r) == match file_stem(path@) {
            Some(s) => Some(session_id_of_stem(s)),
            None => None,
        },
{
    let stem = match file_stem_of(path) {
        Some(s) => s,
        None => return None,
    };
    let cs = chars_of(stem.as_str());
    let pc = chars_of("rollout-");
    proof {
        reveal_strlit("rollout-");
        reveal_strlit("-");
    }
    if cs.len() >= pc.len() {
        let mut i: usize = 0;
        let mut same = true;
        while i < pc.len()
            invariant
                i <= pc.len() <= cs.len(),
                same == (forall|k: int| 0 <= k < i ==> cs@[k] == pc@[k]),
            decreases pc.len() - i,
        {
            if cs[i] != pc[i] {
                same = false;
            }
            i = i + 1;
        }
        if same {
            assert(cs@.subrange(0, pc.len() as int) =~= pc@);
            let rest_chars = string_of(&cs, pc.len(), cs.len());
            let rc = chars_of(rest_chars.as_str());
            let dash = chars_of("-");
            match crate::text::find_chars(&rc, &dash, 0) {
                Some(pos) => {
                    proof {
                        crate::text::lemma_find_from(rc@, dash@, 0);

                    }
                    return Some(string_of(&rc, pos + 1, rc.len()));
                },
                None => return Some(stem),
            }
        } else {
            proof {
                let k = choose|k: int| 0 <= k < pc.len() && cs@[k] != pc@[k];
                assert(cs@.subrange(0, pc.len() as int)[k] != pc@[k]);
            }
        }
    }
    Some(stem)
}

/// The tool's home directory under a user's home.
pub fn get_codex_home(home: &str) -> (r: String)
    ensures
        r@ == home@ + "/.codex"@,
{
    concat(home, "/.codex")
}

/// The directory that holds the rollout files.
pub fn get_sessions_dir(home: &str) -> (r: String)
    ensures
        r@ == home@ + "/.codex"@ + "/sessions"@,
{
    let h = get_codex_home(home);
    concat(h.as_str(), "/sessions")
}

} // verus!
