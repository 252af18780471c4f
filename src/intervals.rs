//! Size of a union of half-open intervals, by sorting and merging.

use vstd::prelude::*;

verus! {

/// Whether some interval of `iv` covers the point `x`.
pub open spec fn covered(iv: Seq<(usize, usize)>, x: int) -> bool {
    exists|i: int| 0 <= i < iv.len() && #[trigger] iv[i].0 <= x && x < iv[i].1
}

/// Number of points of `[0, b)` covered by `iv`.
pub open spec fn count_covered(iv: Seq<(usize, usize)>, b: int) -> nat
    decreases b,
{
    if b <= 0 {
        0
    } else {
        count_covered(iv, b - 1) + if covered(iv, b - 1) { 1nat } else { 0nat }
    }
}

/// Number of points covered by the union of the intervals `iv`.
pub open spec fn union_size(iv: Seq<(usize, usize)>) -> nat {
    count_covered(iv, usize::MAX as int)
}

/// Every interval is well formed: its start is not past its end.
pub open spec fn well_formed(iv: Seq<(usize, usize)>) -> bool {
    forall|i: int| 0 <= i < iv.len() ==> #[trigger] iv[i].0 <= iv[i].1
}

/// Every interval ends by `b`.
pub open spec fn ends_by(iv: Seq<(usize, usize)>, b: int) -> bool {
    forall|i: int| 0 <= i < iv.len() ==> #[trigger] iv[i].1 <= b
}

/// Lexicographic order on pairs.
pub open spec fn pair_le(a: (usize, usize), b: (usize, usize)) -> bool {
    a.0 < b.0 || (a.0 == b.0 && a.1 <= b.1)
}

/// Relies on `slice::sort_unstable`: sorts pairs in their (lexicographic)
/// order, keeping the same elements.
#[verifier::external_body]
fn sort_pairs(v: &mut Vec<(usize, usize)>)
    ensures
        final(v)@.to_multiset() == old(v)@.to_multiset(),
        forall|i: int, j: int| 0 <= i < j < final(v)@.len() ==> pair_le(#[trigger] final(v)@[i], #[trigger] final(v)@[j]),
{
    v.sort_unstable()
}

proof fn lemma_count_ext(a: Seq<(usize, usize)>, b: Seq<(usize, usize)>, n: int)
    requires
        forall|x: int| 0 <= x < n ==> covered(a, x) == covered(b, x),
    ensures
        count_covered(a, n) == count_covered(b, n),
    decreases n,
{
    if n > 0 {
        lemma_count_ext(a, b, n - 1);
    }
}

proof fn lemma_count_full(q: Seq<(usize, usize)>, lo: int, hi: int)
    requires
        0 <= lo <= hi,
        forall|x: int| lo <= x < hi ==> covered(q, x),
    ensures
        count_covered(q, hi) == count_covered(q, lo) + (hi - lo),
    decreases hi - lo,
{
    if hi > lo {
        lemma_count_full(q, lo, hi - 1);
        assert(covered(q, hi - 1));
    }
}

proof fn lemma_count_none(q: Seq<(usize, usize)>, lo: int, hi: int)
    requires
        0 <= lo <= hi,
        forall|x: int| lo <= x < hi ==> !covered(q, x),
    ensures
        count_covered(q, hi) == count_covered(q, lo),
    decreases hi - lo,
{
    if hi > lo {
        lemma_count_none(q, lo, hi - 1);
        assert(!covered(q, hi - 1));
    }
}

/// Covering is a matter of which intervals there are, not of their order.
proof fn lemma_covered_perm(a: Seq<(usize, usize)>, b: Seq<(usize, usize)>, x: int)
    requires
        a.to_multiset() == b.to_multiset(),
    ensures
        covered(a, x) == covered(b, x),
{
    broadcast use vstd::seq_lib::group_to_multiset_ensures;

    if covered(a, x) {
        let i = choose|i: int| 0 <= i < a.len() && #[trigger] a[i].0 <= x && x < a[i].1;
        assert(a.contains(a[i]));
        assert(b.to_multiset().contains(a[i]));
        assert(b.contains(a[i]));
        let j = choose|j: int| 0 <= j < b.len() && b[j] == a[i];
        assert(b[j].0 <= x && x < b[j].1);
    }
    if covered(b, x) {
        let i = choose|i: int| 0 <= i < b.len() && #[trigger] b[i].0 <= x && x < b[i].1;
        assert(b.contains(b[i]));
        assert(a.to_multiset().contains(b[i]));
        assert(a.contains(b[i]));
        let j = choose|j: int| 0 <= j < a.len() && a[j] == b[i];
        assert(a[j].0 <= x && x < a[j].1);
    }
}

/// Number of positions covered by the union of `intervals`: sorts them by
/// start, merges overlapping or touching ones, and sums the merged lengths.
pub fn count_merged_intervals(intervals: &mut Vec<(usize, usize)>) -> (r: usize)
    requires
        well_formed(old(intervals)@),
    ensures
        r == union_size(old(intervals)@),
        final(intervals)@.to_multiset() == old(intervals)@.to_multiset(),
        forall|i: int, j: int|
            0 <= i < j < final(intervals)@.len() ==> pair_le(#[trigger] final(intervals)@[i], #[trigger] final(intervals)@[j]),
        forall|b: int| 0 <= b && ends_by(old(intervals)@, b) ==> r <= b,
{
    broadcast use vstd::seq_lib::group_to_multiset_ensures;

    let ghost orig = intervals@;
    sort_pairs(intervals);
    let ghost s = intervals@;
    proof {
    assert forall|x: int| 0 <= x < usize::MAX implies covered(orig, x) == covered(s, x) by {
        lemma_covered_perm(orig, s, x);
    }
    lemma_count_ext(orig, s, usize::MAX as int);
    assert forall|i: int| 0 <= i < s.len() implies #[trigger] s[i].0 <= s[i].1 by {
        assert(s.contains(s[i]));
        assert(orig.to_multiset().contains(s[i]));
        assert(orig.contains(s[i]));
        let j = choose|j: int| 0 <= j < orig.len() && orig[j] == s[i];
        assert(orig[j].0 <= orig[j].1);
    }
    assert forall|b: int| ends_by(orig, b) implies ends_by(s, b) by {
        assert forall|i: int| 0 <= i < s.len() implies #[trigger] s[i].1 <= b by {
            assert(s.contains(s[i]));
            assert(orig.to_multiset().contains(s[i]));
            assert(orig.contains(s[i]));
            let j = choose|j: int| 0 <= j < orig.len() && orig[j] == s[i];
            assert(orig[j].1 <= b);
        }
    }
    }
    if intervals.len() == 0 {
        proof {
            assert forall|x: int| 0 <= x < usize::MAX implies !covered(s, x) by {}
            lemma_count_none(s, 0, usize::MAX as int);
        }
        return 0;
    }
    let mut total: usize = 0;
    let mut cs: usize = intervals[0].0;
    let mut ce: usize = intervals[0].1;
    let mut i: usize = 1;
    proof {
        let p = s.subrange(0, 1);
        assert forall|x: int| 0 <= x < cs implies !covered(p, x) by {}
        lemma_count_none(p, 0, cs as int);
        assert(p[0] == s[0]);
    }
    while i < intervals.len()
        invariant
            1 <= i <= s.len(),
            intervals@ == s,
            well_formed(s),
            forall|a: int, b: int| 0 <= a < b < s.len() ==> pair_le(#[trigger] s[a], #[trigger] s[b]),
            cs <= ce,
            cs == s[0].0 || exists|j: int| 0 <= j < i && s[j].0 == cs,
            cs <= s[i - 1].0,
            total == count_covered(s.subrange(0, i as int), cs as int),
            total <= cs,
            forall|x: int| cs <= x < ce ==> covered(s.subrange(0, i as int), x),
            forall|x: int| x >= ce ==> !covered(s.subrange(0, i as int), x),
            forall|b: int| ends_by(s, b) ==> ce <= b,
        decreases s.len() - i,
    {
        let (st, en) = intervals[i];
        let ghost p = s.subrange(0, i as int);
        let ghost q = s.subrange(0, i + 1);
        proof {
            assert(pair_le(s[i - 1], s[i as int]));
            assert(q =~= p.push(s[i as int]));
            assert forall|x: int| x < st implies covered(q, x) == covered(p, x) by {
                if covered(q, x) {
                    let k = choose|k: int| 0 <= k < q.len() && #[trigger] q[k].0 <= x && x < q[k].1;
                    assert(k < p.len());
                    assert(p[k] == q[k]);
                }
                if covered(p, x) {
                    let k = choose|k: int| 0 <= k < p.len() && #[trigger] p[k].0 <= x && x < p[k].1;
                    assert(q[k] == p[k]);
                }
            }
            assert forall|x: int| covered(q, x) == (covered(p, x) || (st <= x && x < en)) by {
                if covered(q, x) {
                    let k = choose|k: int| 0 <= k < q.len() && #[trigger] q[k].0 <= x && x < q[k].1;
                    if k < p.len() {
                        assert(p[k] == q[k]);
                    }
                }
                if covered(p, x) {
                    let k = choose|k: int| 0 <= k < p.len() && #[trigger] p[k].0 <= x && x < p[k].1;
                    assert(q[k] == p[k]);
                }
                if st <= x && x < en {
                    assert(q[i as int] == (st, en));
                }
            }
            lemma_count_ext(p, q, cs as int);
            assert(forall|b: int| ends_by(s, b) ==> s[i as int].1 <= b);
        }
        if st <= ce {
            if en > ce {
                ce = en;
            }
        } else {
            proof {
                lemma_count_full(q, cs as int, ce as int);
                lemma_count_none(q, ce as int, st as int);
            }
            total = total + (ce - cs);
            cs = st;
            ce = en;
        }
        i = i + 1;
    }
    proof {
        assert(s.subrange(0, i as int) =~= s);
        lemma_count_full(s, cs as int, ce as int);
        assert(ce <= usize::MAX);
        lemma_count_none(s, ce as int, usize::MAX as int);
    }
    total + (ce - cs)
}

} // verus!
