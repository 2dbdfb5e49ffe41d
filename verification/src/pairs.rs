use vstd::prelude::*;

verus! {

/// The pairs `(i, i+1) .. (i, j-1)`: the part of row `i` before column `j`.
pub open spec fn spec_row_pairs(i: int, j: int) -> Seq<(usize, usize)>
    decreases j - i,
{
    if j <= i + 1 {
        Seq::empty()
    } else {
        spec_row_pairs(i, j - 1).push((i as usize, (j - 1) as usize))
    }
}

/// The unordered pairs over `0 .. n` whose first component is below `i`,
/// in lexicographic order.
pub open spec fn spec_pairs_below(n: int, i: int) -> Seq<(usize, usize)>
    decreases i,
{
    if i <= 0 {
        Seq::empty()
    } else {
        spec_pairs_below(n, i - 1) + spec_row_pairs(i - 1, n)
    }
}

/// Every unordered pair of indices over `0 .. n`, each once, in
/// lexicographic order: `(0,1), (0,2), .., (0,n-1), (1,2), ..`.
pub open spec fn spec_all_pairs(n: int) -> Seq<(usize, usize)> {
    spec_pairs_below(n, n)
}

/// Enumerates all unordered pairs of indices over `0 .. n` — each pair of
/// distinct indices exactly once, smaller index first — in lexicographic
/// order. The circle pairing step walks this enumeration, so the order in
/// which tangent points reach the registry is fixed by it.
pub fn all_pairs(n: usize) -> (pairs: Vec<(usize, usize)>)
    ensures
        pairs@ == spec_all_pairs(n as int),
{
    let mut pairs: Vec<(usize, usize)> = Vec::new();
    let mut i: usize = 0;
    while i < n
        invariant
            i <= n,
            pairs@ == spec_pairs_below(n as int, i as int),
        decreases n - i,
    {
        let mut j: usize = i + 1;
        while j < n
            invariant
                i < n,
                i + 1 <= j <= n,
                pairs@ == spec_pairs_below(n as int, i as int) + spec_row_pairs(i as int, j as int),
            decreases n - j,
        {
            pairs.push((i, j));
            j += 1;
        }
        i += 1;
    }
    pairs
}

/// The enumeration is exactly the pairs `i < j < n`: each such pair occurs,
/// and nothing else does.
pub proof fn lemma_all_pairs_complete(n: usize, p: (usize, usize))
    ensures
        spec_all_pairs(n as int).contains(p) <==> p.0 < p.1 < n,
{
    lemma_pairs_below_complete(n as int, n as int, p);
}

/// The enumeration never repeats a pair: together with
/// `lemma_all_pairs_complete`, each unordered pair is visited exactly
/// once.
pub proof fn lemma_all_pairs_no_duplicates(n: usize)
    ensures
        spec_all_pairs(n as int).no_duplicates(),
{
    lemma_pairs_below_no_dup(n as int, n as int);
}

proof fn lemma_row_pairs_no_dup(i: int, j: int)
    requires
        0 <= i < j || j <= i + 1,
        j <= usize::MAX + 1,
    ensures
        spec_row_pairs(i, j).no_duplicates(),
    decreases j - i,
{
    if j <= i + 1 {
    } else {
        lemma_row_pairs_no_dup(i, j - 1);
        let s = spec_row_pairs(i, j - 1);
        let e = (i as usize, (j - 1) as usize);
        lemma_row_pairs_complete(i, j - 1, e);
        assert(!s.contains(e));
        let t = s.push(e);
        assert forall|k1: int, k2: int|
            0 <= k1 < t.len() && 0 <= k2 < t.len() && k1 != k2 implies t[k1] != t[k2] by {
            if k1 < s.len() && k2 < s.len() {
                assert(s[k1] != s[k2]);
            } else if k2 == s.len() {
                assert(t[k2] == e && t[k1] == s[k1]);
            } else {
                assert(t[k1] == e && t[k2] == s[k2]);
            }
        }
    }
}

proof fn lemma_pairs_below_no_dup(n: int, i: int)
    requires
        0 <= i <= n,
        n <= usize::MAX + 1,
    ensures
        spec_pairs_below(n, i).no_duplicates(),
    decreases i,
{
    if i > 0 {
        lemma_pairs_below_no_dup(n, i - 1);
        lemma_row_pairs_no_dup(i - 1, n);
        let left = spec_pairs_below(n, i - 1);
        let right = spec_row_pairs(i - 1, n);
        let whole = left + right;
        assert forall|k1: int, k2: int|
            0 <= k1 < whole.len() && 0 <= k2 < whole.len() && k1 != k2 implies whole[k1]
            != whole[k2] by {
            if k1 < left.len() && k2 < left.len() {
                assert(left[k1] != left[k2]);
            } else if k1 >= left.len() && k2 >= left.len() {
                assert(right[k1 - left.len()] != right[k2 - left.len()]);
            } else {
                let (ka, kb) = if k1 < left.len() {
                    (k1, k2)
                } else {
                    (k2, k1)
                };
                let a = left[ka];
                let b = right[kb - left.len()];
                assert(left.contains(a));
                assert(right.contains(b));
                lemma_pairs_below_complete(n, i - 1, a);
                lemma_row_pairs_complete(i - 1, n, b);
                assert(a.0 < i - 1 && b.0 == i - 1);
            }
        }
    }
}

proof fn lemma_row_pairs_complete(i: int, j: int, p: (usize, usize))
    requires
        0 <= i < j || j <= i + 1,
        j <= usize::MAX + 1,
    ensures
        spec_row_pairs(i, j).contains(p) <==> (p.0 == i && i < p.1 < j),
    decreases j,
{
    if j <= i + 1 {
    } else {
        lemma_row_pairs_complete(i, j - 1, p);
        assert(spec_row_pairs(i, j) == spec_row_pairs(i, j - 1).push((i as usize, (j - 1) as usize)));
        if p.0 == i && i < p.1 < j {
            if p.1 == j - 1 {
                assert(spec_row_pairs(i, j).last() == p);
                assert(spec_row_pairs(i, j).contains(p));
            } else {
                assert(spec_row_pairs(i, j - 1).contains(p));
                let k = choose|k: int|
                    0 <= k < spec_row_pairs(i, j - 1).len() && #[trigger] spec_row_pairs(i, j - 1)[k] == p;
                assert(spec_row_pairs(i, j)[k] == p);
            }
        }
        if spec_row_pairs(i, j).contains(p) {
            let k = choose|k: int| 0 <= k < spec_row_pairs(i, j).len() && #[trigger] spec_row_pairs(i, j)[k] == p;
            if k < spec_row_pairs(i, j - 1).len() {
                assert(spec_row_pairs(i, j - 1)[k] == p);
            } else {
                assert(p == (i as usize, (j - 1) as usize));
            }
        }
    }
}

proof fn lemma_pairs_below_complete(n: int, i: int, p: (usize, usize))
    requires
        0 <= i <= n,
        n <= usize::MAX + 1,
    ensures
        spec_pairs_below(n, i).contains(p) <==> (p.0 < i && p.0 < p.1 < n),
    decreases i,
{
    if i <= 0 {
    } else {
        lemma_pairs_below_complete(n, i - 1, p);
        lemma_row_pairs_complete(i - 1, n, p);
        let left = spec_pairs_below(n, i - 1);
        let right = spec_row_pairs(i - 1, n);
        if left.contains(p) || right.contains(p) {
            assert(spec_pairs_below(n, i).contains(p)) by {
                if left.contains(p) {
                    let k = choose|k: int| 0 <= k < left.len() && #[trigger] left[k] == p;
                    assert((left + right)[k] == p);
                } else {
                    let k = choose|k: int| 0 <= k < right.len() && #[trigger] right[k] == p;
                    assert((left + right)[left.len() + k] == p);
                }
            }
        }
        if spec_pairs_below(n, i).contains(p) {
            let k = choose|k: int|
                0 <= k < spec_pairs_below(n, i).len() && #[trigger] spec_pairs_below(n, i)[k] == p;
            if k < left.len() {
                assert(left[k] == p);
            } else {
                assert(right[k - left.len()] == p);
            }
        }
    }
}

} // verus!
