use vstd::prelude::*;

use crate::text::chars_of;

verus! {

/// `a` comes strictly before `b` in lexicographic order of characters (the
/// order of `String`'s `cmp`).
pub open spec fn str_lt(a: Seq<char>, b: Seq<char>) -> bool
    decreases a.len(),
{
    if a.len() == 0 {
        b.len() > 0
    } else if b.len() == 0 {
        false
    } else if a[0] != b[0] {
        a[0] < b[0]
    } else {
        str_lt(a.drop_first(), b.drop_first())
    }
}

/// The order of `Option<String>`: `None` first, then strings in order.
pub open spec fn key_lt(a: Option<Seq<char>>, b: Option<Seq<char>>) -> bool {
    match (a, b) {
        (None, Some(_)) => true,
        (Some(x), Some(y)) => str_lt(x, y),
        _ => false,
    }
}

/// `a` goes strictly before `b` in a sort descending (`desc`) or ascending.
pub open spec fn precedes(a: Option<Seq<char>>, b: Option<Seq<char>>, desc: bool) -> bool {
    if desc {
        key_lt(b, a)
    } else {
        key_lt(a, b)
    }
}

pub proof fn lemma_str_lt_order(a: Seq<char>, b: Seq<char>, c: Seq<char>)
    ensures
        !str_lt(a, a),
        str_lt(a, b) ==> !str_lt(b, a),
        str_lt(a, b) && str_lt(b, c) ==> str_lt(a, c),
        a != b ==> str_lt(a, b) || str_lt(b, a),
    decreases a.len(),
{
    if a.len() > 0 && b.len() > 0 {
        if c.len() > 0 {
            lemma_str_lt_order(a.drop_first(), b.drop_first(), c.drop_first());
        } else {
            lemma_str_lt_order(a.drop_first(), b.drop_first(), a.drop_first());
        }
    } else if a.len() > 0 {
        lemma_str_lt_order(a.drop_first(), a.drop_first(), a.drop_first());
    }
    if a.len() > 0 && b.len() > 0 && a != b && a[0] == b[0] {
        assert(a.drop_first() != b.drop_first()) by {
            if a.drop_first() == b.drop_first() {
                assert(a =~= seq![a[0]] + a.drop_first());
                assert(b =~= seq![b[0]] + b.drop_first());
            }
        }
    }
    if a.len() == 0 && b.len() == 0 {
        assert(a =~= b);
    }
}

pub proof fn lemma_precedes_order(a: Option<Seq<char>>, b: Option<Seq<char>>, c: Option<Seq<char>>, desc: bool)
    ensures
        !precedes(a, a, desc),
        precedes(a, b, desc) ==> !precedes(b, a, desc),
        precedes(a, b, desc) && precedes(b, c, desc) ==> precedes(a, c, desc),
{
    let x = match a { Some(s) => s, None => seq![] };
    let y = match b { Some(s) => s, None => seq![] };
    let z = match c { Some(s) => s, None => seq![] };
    lemma_str_lt_order(x, y, z);
    lemma_str_lt_order(y, z, x);
    lemma_str_lt_order(z, x, y);
    lemma_str_lt_order(x, z, y);
    lemma_str_lt_order(y, x, z);
    lemma_str_lt_order(z, y, x);
}

pub fn str_less(a: &String, b: &String) -> (r: bool)
    ensures
        r == str_lt(a@, b@),
{
    let x = chars_of(a.as_str());
    let y = chars_of(b.as_str());
    let mut i: usize = 0;
    assert(x@.subrange(0, x.len() as int) =~= x@);
    assert(y@.subrange(0, y.len() as int) =~= y@);
    while i < x.len() && i < y.len() && x[i] == y[i]
        invariant
            i <= x.len(),
            i <= y.len(),
            x@ == a@,
            y@ == b@,
            str_lt(a@, b@) == str_lt(x@.subrange(i as int, x.len() as int), y@.subrange(i as int, y.len() as int)),
        decreases x.len() - i,
    {
        assert(x@.subrange(i as int, x.len() as int).drop_first() =~= x@.subrange(i + 1, x.len() as int));
        assert(y@.subrange(i as int, y.len() as int).drop_first() =~= y@.subrange(i + 1, y.len() as int));
        i = i + 1;
    }
    if i == x.len() {
        i < y.len()
    } else if i == y.len() {
        false
    } else {
        assert(x@.subrange(i as int, x.len() as int)[0] == x@[i as int]);
        assert(y@.subrange(i as int, y.len() as int)[0] == y@[i as int]);
        x[i] < y[i]
    }
}

pub open spec fn opt_key(o: Option<String>) -> Option<Seq<char>> {
    match o {
        Some(s) => Some(s@),
        None => None,
    }
}

pub fn key_less(a: &Option<String>, b: &Option<String>) -> (r: bool)
    ensures
        r == key_lt(opt_key(*a), opt_key(*b)),
{
    match (a, b) {
        (None, Some(_)) => true,
        (Some(x), Some(y)) => str_less(x, y),
        _ => false,
    }
}

/// `p` holds each index below `n` once.
pub open spec fn is_perm(p: Seq<int>, n: int) -> bool {
    &&& p.len() == n
    &&& forall|i: int| 0 <= i < p.len() ==> 0 <= #[trigger] p[i] < n
    &&& forall|i: int, j: int| 0 <= i < j < p.len() ==> p[i] != p[j]
}

/// The items `keys` sort by, in sorted order along `p`.
pub open spec fn sorted_along(keys: Seq<Option<String>>, p: Seq<int>, desc: bool) -> bool {
    forall|i: int, j: int|
        #![trigger p[i], p[j]]
        0 <= i < j < p.len() ==> !precedes(opt_key(keys[p[j]]), opt_key(keys[p[i]]), desc)
}

/// Sorts `items` by `keys` (one key per item), descending or ascending.
pub fn sort_by_keys<T>(items: Vec<T>, keys: Vec<Option<String>>, desc: bool) -> (r: Vec<T>)
    requires
        items.len() == keys.len(),
    ensures
        exists|p: Seq<int>|
            is_perm(p, items.len() as int) && sorted_along(keys@, p, desc) && r.len() == p.len() && (
            forall|i: int| 0 <= i < p.len() ==> #[trigger] r@[i] == items@[p[i]]),
{
    let ghost n = items.len() as int;
    let ghost orig_items = items@;
    let ghost orig_keys = keys@;
    let mut rem_items = items;
    let mut rem_keys = keys;
    let mut out: Vec<T> = Vec::new();
    let mut out_keys: Vec<Option<String>> = Vec::new();
    let ghost mut perm: Seq<int> = Seq::empty();
    let ghost mut idx: Seq<int> = Seq::new(n as nat, |i: int| i);
    while rem_items.len() > 0
        invariant
            rem_items.len() == rem_keys.len(),
            idx.len() == rem_items.len(),
            perm.len() == out.len(),
            out.len() == out_keys.len(),
            out.len() + rem_items.len() == n,
            n == orig_items.len(),
            n == orig_keys.len(),
            forall|k: int| 0 <= k < idx.len() ==> 0 <= #[trigger] idx[k] < n,
            forall|k: int| 0 <= k < perm.len() ==> 0 <= #[trigger] perm[k] < n,
            forall|i: int, j: int| 0 <= i < j < idx.len() ==> idx[i] != idx[j],
            forall|i: int, j: int| 0 <= i < j < perm.len() ==> perm[i] != perm[j],
            forall|i: int, k: int| 0 <= i < perm.len() && 0 <= k < idx.len() ==> perm[i] != idx[k],
            forall|k: int| 0 <= k < idx.len() ==> #[trigger] rem_items@[k] == orig_items[idx[k]],
            forall|k: int| 0 <= k < idx.len() ==> #[trigger] rem_keys@[k] == orig_keys[idx[k]],
            forall|k: int| 0 <= k < perm.len() ==> #[trigger] out@[k] == orig_items[perm[k]],
            forall|k: int| 0 <= k < perm.len() ==> #[trigger] out_keys@[k] == orig_keys[perm[k]],
            sorted_along(orig_keys, perm, desc),
            forall|i: int, k: int|
                0 <= i < perm.len() && 0 <= k < idx.len() ==> !precedes(
                    opt_key(orig_keys[idx[k]]),
                    opt_key(orig_keys[perm[i]]),
                    desc,
                ),
        decreases rem_items.len(),
    {
        let mut m: usize = 0;
        let mut k: usize = 1;
        proof {
            lemma_precedes_order(opt_key(rem_keys@[0]), opt_key(rem_keys@[0]), opt_key(rem_keys@[0]), desc);
        }
        while k < rem_keys.len()
            invariant
                0 <= m < k <= rem_keys.len(),
                forall|j: int|
                    0 <= j < k ==> !precedes(opt_key(rem_keys@[j]), opt_key(rem_keys@[m as int]), desc),
            decreases rem_keys.len() - k,
        {
            let better = if desc {
                key_less(&rem_keys[m], &rem_keys[k])
            } else {
                key_less(&rem_keys[k], &rem_keys[m])
            };
            if better {
                proof {
                    assert forall|j: int| 0 <= j < k + 1 implies !precedes(
                        opt_key(rem_keys@[j]),
                        opt_key(rem_keys@[k as int]),
                        desc,
                    ) by {
                        lemma_precedes_order(
                            opt_key(rem_keys@[j]),
                            opt_key(rem_keys@[k as int]),
                            opt_key(rem_keys@[m as int]),
                            desc,
                        );
                    }
                }
                m = k;
            }
            k = k + 1;
        }
        let ghost chosen = idx[m as int];
        let ghost old_idx = idx;
        let ghost old_perm = perm;
        let ghost old_rem_items = rem_items@;
        let ghost old_rem_keys = rem_keys@;
        let it = rem_items.remove(m);
        let ky = rem_keys.remove(m);
        out.push(it);
        out_keys.push(ky);
        proof {
            idx = old_idx.remove(m as int);
            perm = old_perm.push(chosen);
            assert forall|k: int| 0 <= k < idx.len() implies #[trigger] rem_items@[k] == orig_items[idx[k]] by {
                if k < m {
                    assert(rem_items@[k] == old_rem_items[k]);
                } else {
                    assert(rem_items@[k] == old_rem_items[k + 1]);
                }
            }
            assert forall|k: int| 0 <= k < idx.len() implies #[trigger] rem_keys@[k] == orig_keys[idx[k]] by {
                if k < m {
                    assert(rem_keys@[k] == old_rem_keys[k]);
                } else {
                    assert(rem_keys@[k] == old_rem_keys[k + 1]);
                }
            }
            assert forall|i: int, j: int| 0 <= i < j < idx.len() implies idx[i] != idx[j] by {
                let a = if i < m { i } else { i + 1 };
                let b = if j < m { j } else { j + 1 };
                assert(idx[i] == old_idx[a]);
                assert(idx[j] == old_idx[b]);
            }
            assert forall|i: int, k: int| 0 <= i < perm.len() && 0 <= k < idx.len() implies perm[i] != idx[k] by {
                let b = if k < m { k } else { k + 1 };
                assert(idx[k] == old_idx[b]);
                if i < old_perm.len() {
                    assert(perm[i] == old_perm[i]);
                }
            }
            assert forall|i: int, j: int| 0 <= i < j < perm.len() implies perm[i] != perm[j] by {
                if j == old_perm.len() {
                    assert(perm[i] == old_perm[i]);
                } else {
                    assert(perm[i] == old_perm[i]);
                    assert(perm[j] == old_perm[j]);
                }
            }
            assert forall|i: int, k: int|
                0 <= i < perm.len() && 0 <= k < idx.len() implies !precedes(
                opt_key(orig_keys[idx[k]]),
                opt_key(orig_keys[perm[i]]),
                desc,
            ) by {
                let b = if k < m { k } else { k + 1 };
                assert(idx[k] == old_idx[b]);
                if i < old_perm.len() {
                    assert(perm[i] == old_perm[i]);
                } else {
                    assert(old_rem_keys[b] == orig_keys[old_idx[b]]);
                    assert(old_rem_keys[m as int] == orig_keys[chosen]);
                }
            }
            assert forall|i: int, j: int| 0 <= i < j < perm.len() implies !precedes(
                opt_key(orig_keys[perm[j]]),
                opt_key(orig_keys[perm[i]]),
                desc,
            ) by {
                assert(perm[i] == old_perm[i]);
                if j < old_perm.len() {
                    assert(perm[j] == old_perm[j]);
                } else {
                    assert(perm[j] == old_idx[m as int]);
                }
            }
            assert forall|k: int| 0 <= k < perm.len() implies #[trigger] out@[k] == orig_items[perm[k]] by {
                if k < old_perm.len() {
                    assert(perm[k] == old_perm[k]);
                }
            }
            assert forall|k: int| 0 <= k < perm.len() implies #[trigger] out_keys@[k] == orig_keys[perm[k]] by {
                if k < old_perm.len() {
                    assert(perm[k] == old_perm[k]);
                }
            }
        }
    }
    assert(is_perm(perm, n));
    out
}


/// The order of `Option<u128>`: `None` first, then numbers in order.
pub open spec fn num_lt(a: Option<u128>, b: Option<u128>) -> bool {
    match (a, b) {
        (None, Some(_)) => true,
        (Some(x), Some(y)) => x < y,
        _ => false,
    }
}

/// The numeric keys are in ascending order along `p`.
pub open spec fn num_sorted_along(keys: Seq<Option<u128>>, p: Seq<int>) -> bool {
    forall|i: int, j: int|
        #![trigger p[i], p[j]]
        0 <= i < j < p.len() ==> !num_lt(keys[p[j]], keys[p[i]])
}

/// Sorts `items` by numeric `keys` (one key per item; `None` first), ascending.
pub fn sort_by_num_keys<T>(items: Vec<T>, keys: Vec<Option<u128>>) -> (r: Vec<T>)
    requires
        items.len() == keys.len(),
    ensures
        exists|p: Seq<int>|
            is_perm(p, items.len() as int) && num_sorted_along(keys@, p) && r.len() == p.len() && (
            forall|i: int| 0 <= i < p.len() ==> #[trigger] r@[i] == items@[p[i]]),
{
    let ghost n = items.len() as int;
    let ghost orig_items = items@;
    let ghost orig_keys = keys@;
    let mut rem_items = items;
    let mut rem_keys = keys;
    let mut out: Vec<T> = Vec::new();
    let mut out_keys: Vec<Option<u128>> = Vec::new();
    let ghost mut perm: Seq<int> = Seq::empty();
    let ghost mut idx: Seq<int> = Seq::new(n as nat, |i: int| i);
    while rem_items.len() > 0
        invariant
            rem_items.len() == rem_keys.len(),
            idx.len() == rem_items.len(),
            perm.len() == out.len(),
            out.len() == out_keys.len(),
            out.len() + rem_items.len() == n,
            n == orig_items.len(),
            n == orig_keys.len(),
            forall|k: int| 0 <= k < idx.len() ==> 0 <= #[trigger] idx[k] < n,
            forall|k: int| 0 <= k < perm.len() ==> 0 <= #[trigger] perm[k] < n,
            forall|i: int, j: int| 0 <= i < j < idx.len() ==> idx[i] != idx[j],
            forall|i: int, j: int| 0 <= i < j < perm.len() ==> perm[i] != perm[j],
            forall|i: int, k: int| 0 <= i < perm.len() && 0 <= k < idx.len() ==> perm[i] != idx[k],
            forall|k: int| 0 <= k < idx.len() ==> #[trigger] rem_items@[k] == orig_items[idx[k]],
            forall|k: int| 0 <= k < idx.len() ==> #[trigger] rem_keys@[k] == orig_keys[idx[k]],
            forall|k: int| 0 <= k < perm.len() ==> #[trigger] out@[k] == orig_items[perm[k]],
            forall|k: int| 0 <= k < perm.len() ==> #[trigger] out_keys@[k] == orig_keys[perm[k]],
            num_sorted_along(orig_keys, perm),
            forall|i: int, k: int|
                0 <= i < perm.len() && 0 <= k < idx.len() ==> !num_lt(orig_keys[idx[k]], orig_keys[perm[i]]),
        decreases rem_items.len(),
    {
        let mut m: usize = 0;
        let mut k: usize = 1;
        while k < rem_keys.len()
            invariant
                0 <= m < k <= rem_keys.len(),
                forall|j: int|
                    0 <= j < k ==> !num_lt(rem_keys@[j], rem_keys@[m as int]),
            decreases rem_keys.len() - k,
        {
            let better = match (&rem_keys[k], &rem_keys[m]) {
                (None, Some(_)) => true,
                (Some(x), Some(y)) => *x < *y,
                _ => false,
            };
            if better {
                m = k;
            }
            k = k + 1;
        }
        let ghost chosen = idx[m as int];
        let ghost old_idx = idx;
        let ghost old_perm = perm;
        let ghost old_rem_items = rem_items@;
        let ghost old_rem_keys = rem_keys@;
        let it = rem_items.remove(m);
        let ky = rem_keys.remove(m);
        out.push(it);
        out_keys.push(ky);
        proof {
            idx = old_idx.remove(m as int);
            perm = old_perm.push(chosen);
            assert forall|k: int| 0 <= k < idx.len() implies #[trigger] rem_items@[k] == orig_items[idx[k]] by {
                if k < m {
                    assert(rem_items@[k] == old_rem_items[k]);
                } else {
                    assert(rem_items@[k] == old_rem_items[k + 1]);
                }
            }
            assert forall|k: int| 0 <= k < idx.len() implies #[trigger] rem_keys@[k] == orig_keys[idx[k]] by {
                if k < m {
                    assert(rem_keys@[k] == old_rem_keys[k]);
                } else {
                    assert(rem_keys@[k] == old_rem_keys[k + 1]);
                }
            }
            assert forall|i: int, j: int| 0 <= i < j < idx.len() implies idx[i] != idx[j] by {
                let a = if i < m { i } else { i + 1 };
                let b = if j < m { j } else { j + 1 };
                assert(idx[i] == old_idx[a]);
                assert(idx[j] == old_idx[b]);
            }
            assert forall|i: int, k: int| 0 <= i < perm.len() && 0 <= k < idx.len() implies perm[i] != idx[k] by {
                let b = if k < m { k } else { k + 1 };
                assert(idx[k] == old_idx[b]);
                if i < old_perm.len() {
                    assert(perm[i] == old_perm[i]);
                }
            }
            assert forall|i: int, j: int| 0 <= i < j < perm.len() implies perm[i] != perm[j] by {
                if j == old_perm.len() {
                    assert(perm[i] == old_perm[i]);
                } else {
                    assert(perm[i] == old_perm[i]);
                    assert(perm[j] == old_perm[j]);
                }
            }
            assert forall|i: int, k: int|
                0 <= i < perm.len() && 0 <= k < idx.len() implies !num_lt(orig_keys[idx[k]], orig_keys[perm[i]]) by {
                let b = if k < m { k } else { k + 1 };
                assert(idx[k] == old_idx[b]);
                if i < old_perm.len() {
                    assert(perm[i] == old_perm[i]);
                } else {
                    assert(old_rem_keys[b] == orig_keys[old_idx[b]]);
                    assert(old_rem_keys[m as int] == orig_keys[chosen]);
                }
            }
            assert forall|i: int, j: int| 0 <= i < j < perm.len() implies !num_lt(orig_keys[perm[j]], orig_keys[perm[i]]) by {
                assert(perm[i] == old_perm[i]);
                if j < old_perm.len() {
                    assert(perm[j] == old_perm[j]);
                } else {
                    assert(perm[j] == old_idx[m as int]);
                }
            }
            assert forall|k: int| 0 <= k < perm.len() implies #[trigger] out@[k] == orig_items[perm[k]] by {
                if k < old_perm.len() {
                    assert(perm[k] == old_perm[k]);
                }
            }
            assert forall|k: int| 0 <= k < perm.len() implies #[trigger] out_keys@[k] == orig_keys[perm[k]] by {
                if k < old_perm.len() {
                    assert(perm[k] == old_perm[k]);
                }
            }
        }
    }
    assert(is_perm(perm, n));
    out
}

} // verus!
