//! Lexicographic order on keys, and a stable sort of positions by key.

use vstd::prelude::*;

verus! {

/// Whether `a` sorts before `b`, looking from position `i` on (where the two
/// agree before `i`).
pub open spec fn lex_lt_from(a: Seq<u64>, b: Seq<u64>, i: int) -> bool
    decreases a.len() - i,
{
    if i < 0 || i >= a.len() {
        0 <= i < b.len()
    } else if i >= b.len() {
        false
    } else if a[i] < b[i] {
        true
    } else if a[i] > b[i] {
        false
    } else {
        lex_lt_from(a, b, i + 1)
    }
}

/// Strict lexicographic order on keys.
pub open spec fn key_lt(a: Seq<u64>, b: Seq<u64>) -> bool {
    lex_lt_from(a, b, 0)
}

proof fn lemma_lex_irreflexive(a: Seq<u64>, i: int)
    requires
        0 <= i,
    ensures
        !lex_lt_from(a, a, i),
    decreases a.len() - i,
{
    if i < a.len() {
        lemma_lex_irreflexive(a, i + 1);
    }
}

proof fn lemma_lex_asymmetric(a: Seq<u64>, b: Seq<u64>, i: int)
    requires
        0 <= i,
        lex_lt_from(a, b, i),
    ensures
        !lex_lt_from(b, a, i),
    decreases a.len() - i,
{
    if i < a.len() && i < b.len() && a[i] == b[i] {
        lemma_lex_asymmetric(a, b, i + 1);
    }
}

proof fn lemma_lex_total(a: Seq<u64>, b: Seq<u64>, i: int)
    requires
        0 <= i <= a.len(),
        i <= b.len(),
        forall|k: int| 0 <= k < i ==> a[k] == b[k],
        !lex_lt_from(a, b, i),
        !lex_lt_from(b, a, i),
    ensures
        a == b,
    decreases a.len() - i,
{
    if i < a.len() && i < b.len() {
        lemma_lex_total(a, b, i + 1);
    } else {
        assert(a =~= b);
    }
}

proof fn lemma_lex_transitive(a: Seq<u64>, b: Seq<u64>, c: Seq<u64>, i: int)
    requires
        0 <= i,
        lex_lt_from(a, b, i),
        lex_lt_from(b, c, i),
    ensures
        lex_lt_from(a, c, i),
    decreases a.len() - i,
{
    if i < a.len() && i < b.len() && i < c.len() && a[i] == b[i] && b[i] == c[i] {
        lemma_lex_transitive(a, b, c, i + 1);
    }
}

/// `key_lt` is irreflexive, asymmetric, transitive and total.
pub proof fn lemma_key_order(a: Seq<u64>, b: Seq<u64>, c: Seq<u64>)
    ensures
        !key_lt(a, a),
        key_lt(a, b) ==> !key_lt(b, a),
        key_lt(a, b) && key_lt(b, c) ==> key_lt(a, c),
        a != b ==> key_lt(a, b) || key_lt(b, a),
{
    lemma_lex_irreflexive(a, 0);
    if key_lt(a, b) {
        lemma_lex_asymmetric(a, b, 0);
    }
    if key_lt(a, b) && key_lt(b, c) {
        lemma_lex_transitive(a, b, c, 0);
    }
    if !key_lt(a, b) && !key_lt(b, a) {
        lemma_lex_total(a, b, 0);
    }
}

/// Compares two keys: negative, zero or positive as `a` sorts before, equal
/// to, or after `b`.
pub fn compare_keys(a: &[u64], b: &[u64]) -> (r: i8)
    ensures
        r == 0 <==> a@ == b@,
        r < 0 <==> key_lt(a@, b@),
        r > 0 <==> key_lt(b@, a@),
{
    let mut i: usize = 0;
    while i < a.len() && i < b.len()
        invariant
            i <= a.len(),
            i <= b.len(),
            forall|k: int| 0 <= k < i ==> a@[k] == b@[k],
            key_lt(a@, b@) == lex_lt_from(a@, b@, i as int),
            key_lt(b@, a@) == lex_lt_from(b@, a@, i as int),
        decreases a.len() - i,
    {
        if a[i] < b[i] {
            proof {
                lemma_key_order(a@, b@, b@);
            }
            return -1;
        }
        if a[i] > b[i] {
            proof {
                lemma_key_order(b@, a@, a@);
            }
            return 1;
        }
        i += 1;
    }
    proof {
        lemma_key_order(a@, b@, b@);
    }
    if a.len() < b.len() {
        -1
    } else if a.len() > b.len() {
        1
    } else {
        assert(a@ =~= b@);
        0
    }
}

/// The strict order in which a stable sort places positions `p` and `q`:
/// by key (ascending, or descending when `desc`), and by position where the
/// keys are equal.
pub open spec fn rank_lt(keys: Seq<Seq<u64>>, desc: bool, p: int, q: int) -> bool {
    if keys[p] == keys[q] {
        p < q
    } else if desc {
        key_lt(keys[q], keys[p])
    } else {
        key_lt(keys[p], keys[q])
    }
}

/// `rank_lt` is a strict total order.
pub proof fn lemma_rank_order(keys: Seq<Seq<u64>>, desc: bool, p: int, q: int, s: int)
    ensures
        !rank_lt(keys, desc, p, p),
        rank_lt(keys, desc, p, q) ==> !rank_lt(keys, desc, q, p),
        rank_lt(keys, desc, p, q) && rank_lt(keys, desc, q, s) ==> rank_lt(keys, desc, p, s),
        p != q ==> rank_lt(keys, desc, p, q) || rank_lt(keys, desc, q, p),
{
    lemma_key_order(keys[p], keys[q], keys[s]);
    lemma_key_order(keys[q], keys[p], keys[s]);
    lemma_key_order(keys[s], keys[q], keys[p]);
    lemma_key_order(keys[p], keys[s], keys[q]);
    lemma_key_order(keys[q], keys[s], keys[p]);
    lemma_key_order(keys[s], keys[p], keys[q]);
}

/// Whether the positions in `s` stand in strictly increasing rank.
pub open spec fn ranked(keys: Seq<Seq<u64>>, desc: bool, s: Seq<usize>) -> bool {
    forall|i: int, j: int|
        0 <= i < j < s.len() ==> #[trigger] rank_lt(keys, desc, s[i] as int, s[j] as int)
}

fn rank_less(keys: &Vec<Vec<u64>>, desc: bool, p: usize, q: usize) -> (r: bool)
    requires
        p < keys.len(),
        q < keys.len(),
    ensures
        r == rank_lt(keys@.map_values(|k: Vec<u64>| k@), desc, p as int, q as int),
{
    let ghost ks = keys@.map_values(|k: Vec<u64>| k@);
    let c = compare_keys(keys[p].as_slice(), keys[q].as_slice());
    assert(ks[p as int] == keys@[p as int]@);
    assert(ks[q as int] == keys@[q as int]@);
    if c == 0 {
        p < q
    } else if desc {
        c > 0
    } else {
        c < 0
    }
}

proof fn lemma_push_contains(s: Seq<usize>, x: usize)
    ensures
        forall|y: usize| s.push(x).contains(y) <==> (s.contains(y) || y == x),
{
    assert forall|y: usize| s.push(x).contains(y) <==> (s.contains(y) || y == x) by {
        if s.push(x).contains(y) {
            let k = choose|k: int| 0 <= k < s.len() + 1 && s.push(x)[k] == y;
            if k < s.len() {
                assert(s[k] == y);
            }
        }
        if s.contains(y) {
            let k = choose|k: int| 0 <= k < s.len() && s[k] == y;
            assert(s.push(x)[k] == y);
        }
        if y == x {
            assert(s.push(x)[s.len() as int] == y);
        }
    }
}

fn merge(keys: &Vec<Vec<u64>>, desc: bool, left: Vec<usize>, right: Vec<usize>) -> (r: Vec<usize>)
    requires
        forall|i: int| 0 <= i < left.len() ==> left@[i] < keys.len(),
        forall|i: int| 0 <= i < right.len() ==> right@[i] < keys.len(),
        forall|i: int, j: int|
            0 <= i < left.len() && 0 <= j < right.len() ==> left@[i] != right@[j],
        ranked(keys@.map_values(|k: Vec<u64>| k@), desc, left@),
        ranked(keys@.map_values(|k: Vec<u64>| k@), desc, right@),
        left.len() + right.len() <= usize::MAX,
    ensures
        r.len() == left.len() + right.len(),
        forall|x: usize| r@.contains(x) <==> (left@.contains(x) || right@.contains(x)),
        ranked(keys@.map_values(|k: Vec<u64>| k@), desc, r@),
{
    let ghost ks = keys@.map_values(|k: Vec<u64>| k@);
    let mut r: Vec<usize> = Vec::new();
    let mut i: usize = 0;
    let mut j: usize = 0;
    while i < left.len() || j < right.len()
        invariant
            i <= left.len(),
            j <= right.len(),
            r.len() == i + j,
            left.len() + right.len() <= usize::MAX,
            ks == keys@.map_values(|k: Vec<u64>| k@),
            forall|a: int| 0 <= a < left.len() ==> left@[a] < keys.len(),
            forall|a: int| 0 <= a < right.len() ==> right@[a] < keys.len(),
            forall|a: int, b: int|
                0 <= a < left.len() && 0 <= b < right.len() ==> left@[a] != right@[b],
            ranked(ks, desc, left@),
            ranked(ks, desc, right@),
            ranked(ks, desc, r@),
            forall|x: usize|
                r@.contains(x) <==> (left@.take(i as int).contains(x) || right@.take(
                    j as int,
                ).contains(x)),
            forall|p: int, q: int|
                0 <= p < r.len() && i <= q < left.len() ==> rank_lt(
                    ks,
                    desc,
                    r@[p] as int,
                    left@[q] as int,
                ),
            forall|p: int, q: int|
                0 <= p < r.len() && j <= q < right.len() ==> rank_lt(
                    ks,
                    desc,
                    r@[p] as int,
                    right@[q] as int,
                ),
        decreases left.len() + right.len() - i - j,
    {
        let take_left = if i >= left.len() {
            false
        } else if j >= right.len() {
            true
        } else {
            !rank_less(keys, desc, right[j], left[i])
        };
        let x = if take_left {
            left[i]
        } else {
            right[j]
        };
        proof {
            if take_left {
                if j < right.len() {
                    lemma_rank_order(ks, desc, left@[i as int] as int, right@[j as int] as int, 0);
                }
                assert forall|q: int| i < q < left.len() implies rank_lt(
                    ks,
                    desc,
                    x as int,
                    left@[q] as int,
                ) by {}
                assert forall|q: int| j <= q < right.len() implies rank_lt(
                    ks,
                    desc,
                    x as int,
                    right@[q] as int,
                ) by {
                    if q > j {
                        lemma_rank_order(
                            ks,
                            desc,
                            x as int,
                            right@[j as int] as int,
                            right@[q] as int,
                        );
                    }
                }
            } else {
                assert forall|q: int| j < q < right.len() implies rank_lt(
                    ks,
                    desc,
                    x as int,
                    right@[q] as int,
                ) by {}
                assert forall|q: int| i <= q < left.len() implies rank_lt(
                    ks,
                    desc,
                    x as int,
                    left@[q] as int,
                ) by {
                    if q > i {
                        lemma_rank_order(
                            ks,
                            desc,
                            x as int,
                            left@[i as int] as int,
                            left@[q] as int,
                        );
                    }
                }
            }
        }
        let ghost old_r = r@;
        r.push(x);
        proof {
            assert(r@ == old_r.push(x));
            lemma_push_contains(old_r, x);
            if take_left {
                assert(left@.take(i as int + 1) == left@.take(i as int).push(x));
                lemma_push_contains(left@.take(i as int), x);
                assert forall|y: usize| r@.contains(y) <==> (left@.take(i as int + 1).contains(y)
                    || right@.take(j as int).contains(y)) by {
                    assert(old_r.contains(y) <==> (left@.take(i as int).contains(y)
                        || right@.take(j as int).contains(y)));
                }
            } else {
                assert(right@.take(j as int + 1) == right@.take(j as int).push(x));
                lemma_push_contains(right@.take(j as int), x);
                assert forall|y: usize| r@.contains(y) <==> (left@.take(i as int).contains(y)
                    || right@.take(j as int + 1).contains(y)) by {
                    assert(old_r.contains(y) <==> (left@.take(i as int).contains(y)
                        || right@.take(j as int).contains(y)));
                }
            }
            assert forall|a: int, b: int| 0 <= a < b < r@.len() implies #[trigger] rank_lt(
                ks,
                desc,
                r@[a] as int,
                r@[b] as int,
            ) by {
                if b < old_r.len() {
                    assert(r@[a] == old_r[a] && r@[b] == old_r[b]);
                }
            }
        }
        if take_left {
            i += 1;
        } else {
            j += 1;
        }
    }
    assert(left@.take(left.len() as int) == left@);
    assert(right@.take(right.len() as int) == right@);
    r
}

fn sort_range(keys: &Vec<Vec<u64>>, desc: bool, lo: usize, hi: usize) -> (r: Vec<usize>)
    requires
        lo <= hi <= keys.len(),
    ensures
        r.len() == hi - lo,
        forall|i: int| 0 <= i < r.len() ==> lo <= #[trigger] r@[i] < hi,
        forall|x: usize| lo <= x < hi ==> r@.contains(x),
        ranked(keys@.map_values(|k: Vec<u64>| k@), desc, r@),
    decreases hi - lo,
{
    if hi - lo <= 1 {
        let mut r: Vec<usize> = Vec::new();
        if hi > lo {
            r.push(lo);
            assert(r@[0] == lo);
        }
        return r;
    }
    let mid = lo + (hi - lo) / 2;
    let left = sort_range(keys, desc, lo, mid);
    let right = sort_range(keys, desc, mid, hi);
    let r = merge(keys, desc, left, right);
    assert forall|x: usize| lo <= x < hi implies r@.contains(x) by {
        if x < mid {
            assert(left@.contains(x));
        } else {
            assert(right@.contains(x));
        }
    }
    assert forall|i: int| 0 <= i < r.len() implies lo <= #[trigger] r@[i] < hi by {
        assert(r@.contains(r@[i]));
        if left@.contains(r@[i]) {
            let k = choose|k: int| 0 <= k < left.len() && left@[k] == r@[i];
        } else {
            let k = choose|k: int| 0 <= k < right.len() && right@[k] == r@[i];
        }
    }
    r
}

/// The positions `0..keys.len()` arranged in the order of a stable sort by
/// key: ascending, or descending when `desc`; positions with equal keys keep
/// their relative order.
pub fn sorted_positions(keys: &Vec<Vec<u64>>, desc: bool) -> (r: Vec<usize>)
    ensures
        r.len() == keys.len(),
        forall|i: int| 0 <= i < r.len() ==> #[trigger] r@[i] < keys.len(),
        forall|x: usize| x < keys.len() ==> r@.contains(x),
        ranked(keys@.map_values(|k: Vec<u64>| k@), desc, r@),
{
    sort_range(keys, desc, 0, keys.len())
}

} // verus!
