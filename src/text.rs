use vstd::prelude::*;

verus! {

/// The Unicode `White_Space` property, as `char::is_whitespace` decides it.
pub open spec fn is_ws(c: char) -> bool {
    ('\u{9}' <= c && c <= '\u{d}') || c == ' ' || c == '\u{85}' || c == '\u{a0}' || c == '\u{1680}'
        || ('\u{2000}' <= c && c <= '\u{200a}') || c == '\u{2028}' || c == '\u{2029}' || c
        == '\u{202f}' || c == '\u{205f}' || c == '\u{3000}'
}

pub fn is_whitespace(c: char) -> (r: bool)
    ensures
        r == is_ws(c),
{
    ('\u{9}' <= c && c <= '\u{d}') || c == ' ' || c == '\u{85}' || c == '\u{a0}' || c == '\u{1680}'
        || ('\u{2000}' <= c && c <= '\u{200a}') || c == '\u{2028}' || c == '\u{2029}' || c
        == '\u{202f}' || c == '\u{205f}' || c == '\u{3000}'
}

pub open spec fn trim_start(s: Seq<char>) -> Seq<char>
    decreases s.len(),
{
    if s.len() > 0 && is_ws(s[0]) {
        trim_start(s.drop_first())
    } else {
        s
    }
}

pub open spec fn trim_end(s: Seq<char>) -> Seq<char>
    decreases s.len(),
{
    if s.len() > 0 && is_ws(s.last()) {
        trim_end(s.drop_last())
    } else {
        s
    }
}

/// What `str::trim` leaves of `s`.
pub open spec fn trim(s: Seq<char>) -> Seq<char> {
    trim_end(trim_start(s))
}

/// Whether nothing but whitespace is in `s`.
pub open spec fn is_blank(s: Seq<char>) -> bool {
    forall|i: int| 0 <= i < s.len() ==> is_ws(#[trigger] s[i])
}

/// Index of the first line feed at or after `i`, or the length of `s`.
pub open spec fn next_nl(s: Seq<char>, i: int) -> int
    decreases s.len() - i,
{
    if i >= s.len() {
        s.len() as int
    } else if s[i] == '\n' {
        i
    } else {
        next_nl(s, i + 1)
    }
}

/// The lines of `s` from position `i` on, as `str::lines` splits them
/// (a final line feed ends the last line and starts no new one).
pub open spec fn lines_from(s: Seq<char>, i: int) -> Seq<Seq<char>>
    decreases s.len() - i,
{
    let e = next_nl(s, i);
    if i < 0 || i >= s.len() || e < i {
        Seq::empty()
    } else if e >= s.len() {
        seq![s.subrange(i, s.len() as int)]
    } else {
        seq![s.subrange(i, e)] + lines_from(s, e + 1)
    }
}

/// The lines of a text, each trimmed.
pub open spec fn trimmed_lines(s: Seq<char>) -> Seq<Seq<char>> {
    lines_from(s, 0).map_values(|l: Seq<char>| trim(l))
}

/// First position at or after `i` where `n` occurs in `h`.
pub open spec fn find_from(h: Seq<char>, n: Seq<char>, i: int) -> Option<int>
    decreases h.len() - i,
{
    if i < 0 || i + n.len() > h.len() {
        None
    } else if h.subrange(i, i + n.len()) == n {
        Some(i)
    } else if i >= h.len() {
        None
    } else {
        find_from(h, n, i + 1)
    }
}

pub open spec fn contains(h: Seq<char>, n: Seq<char>) -> bool {
    find_from(h, n, 0) is Some
}

/// The first `n` characters of `s`.
pub open spec fn take(s: Seq<char>, n: int) -> Seq<char> {
    if s.len() <= n {
        s
    } else {
        s.subrange(0, n)
    }
}

/// At most `max` characters of `s`, with "..." added where characters were cut.
pub open spec fn truncated(s: Seq<char>, max: int) -> Seq<char> {
    if s.len() <= max {
        s
    } else {
        s.subrange(0, max) + "..."@
    }
}

/// A truncated text never has more than `max` characters and the marker.
pub proof fn lemma_truncated_len(s: Seq<char>, max: int)
    requires
        max >= 0,
    ensures
        truncated(s, max).len() <= max + 3,
{
    reveal_strlit("...");
}

/// Names what `str::to_lowercase` returns.
pub uninterp spec fn lower_of(s: Seq<char>) -> Seq<char>;

/// Relies on `str::to_lowercase`: its result depends on the characters alone.
#[verifier::external_body]
pub fn lowercase(s: &str) -> (r: String)
    ensures
        r@ == lower_of(s@),
{
    s.to_lowercase()
}

/// The characters of `s`, in order.
pub fn chars_of(s: &str) -> (r: Vec<char>)
    ensures
        r@ == s@,
{
    broadcast use vstd::string::group_string_axioms;

    let mut v: Vec<char> = Vec::new();
    for c in it: s.chars()
        invariant
            it.seq() == s@,
            v@ == it.seq().subrange(0, it.index() as int),
    {
        v.push(c);
    }
    v
}

/// Relies on collecting a slice of characters into a `String`.
#[verifier::external_body]
pub fn string_of(cs: &Vec<char>, from: usize, to: usize) -> (r: String)
    requires
        from <= to <= cs.len(),
    ensures
        r@ == cs@.subrange(from as int, to as int),
{
    cs[from..to].iter().collect()
}

pub fn lit(s: &str) -> (r: String)
    ensures
        r@ == s@,
{
    s.to_owned()
}

pub fn concat(a: &str, b: &str) -> (r: String)
    ensures
        r@ == a@ + b@,
{
    let mut r = a.to_owned();
    r.append(b);
    r
}

pub fn str_eq(a: &str, b: &str) -> (r: bool)
    ensures
        r == (a@ == b@),
{
    let x = a.to_owned();
    let y = b.to_owned();
    x == y
}

pub proof fn lemma_find_from(h: Seq<char>, n: Seq<char>, i: int)
    ensures
        find_from(h, n, i) matches Some(p) ==> i <= p && p + n.len() <= h.len() && h.subrange(
            p,
            p + n.len(),
        ) == n,
    decreases h.len() - i,
{
    if i >= 0 && i + n.len() <= h.len() && h.subrange(i, i + n.len()) != n && i < h.len() {
        lemma_find_from(h, n, i + 1);
    }
}

/// Index of the first occurrence of `n` in `h` at or after `from`.
pub fn find_chars(h: &Vec<char>, n: &Vec<char>, from: usize) -> (r: Option<usize>)
    ensures
        match r {
            Some(i) => find_from(h@, n@, from as int) == Some(i as int),
            None => find_from(h@, n@, from as int) is None,
        },
{
    let mut i = from;
    if n.len() > h.len() {
        return None;
    }
    while i <= h.len() - n.len()
        invariant
            from <= i,
            n.len() <= h.len(),
            find_from(h@, n@, from as int) == find_from(h@, n@, i as int),
        decreases h.len() - i,
    {
        let mut j: usize = 0;
        let mut same = true;
        while j < n.len()
            invariant
                i + n.len() <= h.len(),
                j <= n.len(),
                same == (forall|k: int| 0 <= k < j ==> h@[i + k] == n@[k]),
            decreases n.len() - j,
        {
            if h[i + j] != n[j] {
                same = false;
            }
            j = j + 1;
        }
        if same {
            assert(h@.subrange(i as int, i + n.len()) =~= n@);
            return Some(i);
        }
        proof {
            let k = choose|k: int| 0 <= k < n.len() && h@[i + k] != n@[k];
            assert(h@.subrange(i as int, i + n.len())[k] != n@[k]);
        }
        i = i + 1;
    }
    None
}

/// Whether `n` occurs in `h`.
pub fn contains_str(h: &str, n: &str) -> (r: bool)
    ensures
        r == contains(h@, n@),
{
    let hc = chars_of(h);
    let nc = chars_of(n);
    find_chars(&hc, &nc, 0).is_some()
}

/// The bounds of `s` with leading and trailing whitespace left out.
pub fn trim_bounds(s: &Vec<char>, from: usize, to: usize) -> (r: (usize, usize))
    requires
        from <= to <= s.len(),
    ensures
        from <= r.0 <= r.1 <= to,
        s@.subrange(r.0 as int, r.1 as int) == trim(s@.subrange(from as int, to as int)),
{
    let mut a = from;
    while a < to && is_whitespace(s[a])
        invariant
            from <= a <= to <= s.len(),
            trim_start(s@.subrange(from as int, to as int)) == trim_start(
                s@.subrange(a as int, to as int),
            ),
        decreases to - a,
    {
        assert(s@.subrange(a as int, to as int).drop_first() =~= s@.subrange(a + 1, to as int));
        a = a + 1;
    }
    let mut b = to;
    while b > a && is_whitespace(s[b - 1])
        invariant
            from <= a <= b <= to <= s.len(),
            trim_end(s@.subrange(a as int, to as int)) == trim_end(s@.subrange(a as int, b as int)),
        decreases b - a,
    {
        assert(s@.subrange(a as int, b as int).drop_last() =~= s@.subrange(a as int, b - 1));
        b = b - 1;
    }
    (a, b)
}

/// Whether `s` holds nothing but whitespace.
pub fn is_blank_str(s: &str) -> (r: bool)
    ensures
        r == is_blank(s@),
{
    let cs = chars_of(s);
    let mut i: usize = 0;
    while i < cs.len()
        invariant
            i <= cs.len(),
            cs@ == s@,
            forall|k: int| 0 <= k < i ==> is_ws(#[trigger] cs@[k]),
        decreases cs.len() - i,
    {
        if !is_whitespace(cs[i]) {
            return false;
        }
        i = i + 1;
    }
    true
}

/// At most `max` characters of `s`, with "..." added where characters were cut.
pub fn truncate_chars(s: &str, max: usize) -> (r: String)
    ensures
        r@ == truncated(s@, max as int),
        r@.len() <= max + 3,
{
    let cs = chars_of(s);
    proof {
        reveal_strlit("...");
    }
    if cs.len() <= max {
        s.to_owned()
    } else {
        let head = string_of(&cs, 0, max);
        concat(head.as_str(), "...")
    }
}

/// Whether `n` occurs in the characters `h`.
pub fn contains_chars(h: &Vec<char>, n: &str) -> (r: bool)
    ensures
        r == contains(h@, n@),
{
    let nc = chars_of(n);
    find_chars(h, &nc, 0).is_some()
}

proof fn lemma_next_nl_bounds(s: Seq<char>, i: int)
    requires
        0 <= i <= s.len(),
    ensures
        i <= next_nl(s, i) <= s.len(),
        next_nl(s, i) < s.len() ==> s[next_nl(s, i)] == '\n',
        forall|k: int| i <= k < next_nl(s, i) ==> s[k] != '\n',
    decreases s.len() - i,
{
    if i < s.len() && s[i] != '\n' {
        lemma_next_nl_bounds(s, i + 1);
    }
}

/// The lines of `text`, each trimmed, in order.
pub fn lines_trimmed(text: &str) -> (r: Vec<String>)
    ensures
        r.len() == trimmed_lines(text@).len(),
        forall|i: int| 0 <= i < r.len() ==> #[trigger] r[i]@ == trimmed_lines(text@)[i],
{
    let cs = chars_of(text);
    let ghost s = cs@;
    let mut out: Vec<String> = Vec::new();
    let mut pos: usize = 0;
    let ghost mut done: Seq<Seq<char>> = Seq::empty();
    while pos < cs.len()
        invariant
            s == cs@,
            s == text@,
            pos <= cs.len(),
            done + lines_from(s, pos as int) == lines_from(s, 0),
            out.len() == done.len(),
            forall|i: int| 0 <= i < out.len() ==> #[trigger] out[i]@ == trim(done[i]),
        decreases cs.len() - pos,
    {
        let mut e = pos;
        while e < cs.len() && cs[e] != '\n'
            invariant
                pos <= e <= cs.len(),
                s == cs@,
                next_nl(s, pos as int) == next_nl(s, e as int),
            decreases cs.len() - e,
        {
            e = e + 1;
        }
        proof {
            lemma_next_nl_bounds(s, pos as int);
        }
        let (a, b) = trim_bounds(&cs, pos, e);
        out.push(string_of(&cs, a, b));
        proof {
            let line = s.subrange(pos as int, e as int);
            assert(lines_from(s, pos as int) == seq![line] + lines_from(s, e + 1));
            assert(done + lines_from(s, pos as int) =~= done.push(line) + lines_from(s, e + 1));
            done = done.push(line);
        }
        pos = if e < cs.len() { e + 1 } else { e };
    }
    proof {
        assert(done =~= lines_from(s, 0));
    }
    out
}

} // verus!

verus! {

/// `parts` joined with `sep` between them.
pub open spec fn join_with(parts: Seq<Seq<char>>, sep: Seq<char>) -> Seq<char>
    decreases parts.len(),
{
    if parts.len() == 0 {
        Seq::empty()
    } else if parts.len() == 1 {
        parts[0]
    } else {
        join_with(parts.drop_last(), sep) + sep + parts.last()
    }
}

/// `parts` joined with `sep` between them.
pub fn join_strings(parts: &Vec<String>, sep: &str) -> (r: String)
    ensures
        r@ == join_with(parts@.map_values(|s: String| s@), sep@),
{
    let ghost pv = parts@.map_values(|s: String| s@);
    let mut out = String::new();
    let mut i: usize = 0;
    proof {
        reveal_strlit("");
    }
    assert(pv.subrange(0, 0) =~= Seq::<Seq<char>>::empty());
    while i < parts.len()
        invariant
            i <= parts.len(),
            pv == parts@.map_values(|s: String| s@),
            out@ == join_with(pv.subrange(0, i as int), sep@),
        decreases parts.len() - i,
    {
        let ghost np = pv.subrange(0, i + 1);
        assert(np.drop_last() =~= pv.subrange(0, i as int));
        if i > 0 {
            out.append(sep);
        }
        out.append(parts[i].as_str());
        proof {
            if i == 0 {
                assert(out@ =~= join_with(np, sep@));
            } else {
                assert(out@ =~= join_with(np, sep@));
            }
        }
        i = i + 1;
    }
    assert(pv.subrange(0, parts.len() as int) =~= pv);
    out
}

} // verus!

verus! {

proof fn lemma_next_nl_prefix(s: Seq<char>, k: int, i: int)
    requires
        0 <= i < k <= s.len(),
        s[k - 1] == '\n',
    ensures
        next_nl(s.subrange(0, k), i) == next_nl(s, i),
        next_nl(s, i) < k,
    decreases k - i,
{
    let t = s.subrange(0, k);
    assert(t[i] == s[i]);
    if s[i] != '\n' {
        lemma_next_nl_prefix(s, k, i + 1);
    }
}

proof fn lemma_lines_from_prefix(s: Seq<char>, k: int, i: int)
    requires
        0 <= i <= k <= s.len(),
        k == 0 || s[k - 1] == '\n',
    ensures
        lines_from(s.subrange(0, k), i).len() <= lines_from(s, i).len(),
        forall|j: int|
            0 <= j < lines_from(s.subrange(0, k), i).len() ==> #[trigger] lines_from(s.subrange(0, k), i)[j]
                == lines_from(s, i)[j],
    decreases k - i,
{
    let t = s.subrange(0, k);
    if i < k {
        lemma_next_nl_prefix(s, k, i);
        lemma_next_nl_bounds(s, i);
        lemma_next_nl_bounds(t, i);
        let e = next_nl(s, i);
        assert(t.subrange(i, e) =~= s.subrange(i, e));
        lemma_lines_from_prefix(s, k, e + 1);
        let a = lines_from(t, e + 1);
        let b = lines_from(s, e + 1);
        assert(lines_from(t, i) == seq![t.subrange(i, e)] + a);
        assert(lines_from(s, i) == seq![s.subrange(i, e)] + b);
        assert forall|j: int| 0 <= j < lines_from(t, i).len() implies #[trigger] lines_from(t, i)[j] == lines_from(s, i)[j] by {
            if j > 0 {
                assert(lines_from(t, i)[j] == a[j - 1]);
                assert(lines_from(s, i)[j] == b[j - 1]);
            }
        }
    } else {
        assert(lines_from(t, i) =~= Seq::<Seq<char>>::empty());
    }
}

/// The lines of a text cut after a line feed begin the lines of the whole text.
pub proof fn lemma_trimmed_lines_prefix(s: Seq<char>, k: int)
    requires
        0 <= k <= s.len(),
        k == 0 || s[k - 1] == '\n',
    ensures
        trimmed_lines(s.subrange(0, k)) == trimmed_lines(s).subrange(0, trimmed_lines(s.subrange(0, k)).len() as int),
        trimmed_lines(s.subrange(0, k)).len() <= trimmed_lines(s).len(),
{
    lemma_lines_from_prefix(s, k, 0);
    let a = trimmed_lines(s.subrange(0, k));
    let b = trimmed_lines(s);
    assert(a =~= b.subrange(0, a.len() as int));
}

} // verus!
