//! The order of file results: byte-wise by path, which makes reports
//! independent of how the work was scheduled.

use vstd::prelude::*;
use vstd::utf8::encode_utf8;

verus! {

/// `a` comes strictly before `b` in byte-wise lexicographic order.
pub open spec fn lex_lt(a: Seq<u8>, b: Seq<u8>) -> bool
    decreases a.len(),
{
    if b.len() == 0 {
        false
    } else if a.len() == 0 {
        true
    } else if a[0] != b[0] {
        a[0] < b[0]
    } else {
        lex_lt(a.drop_first(), b.drop_first())
    }
}

/// `a` does not come after `b`.
pub open spec fn lex_le(a: Seq<u8>, b: Seq<u8>) -> bool {
    !lex_lt(b, a)
}

proof fn lemma_lex_trans(a: Seq<u8>, b: Seq<u8>, c: Seq<u8>)
    requires
        lex_le(a, b),
        lex_le(b, c),
    ensures
        lex_le(a, c),
    decreases a.len(),
{
    if a.len() > 0 && b.len() > 0 && c.len() > 0 && a[0] == b[0] && b[0] == c[0] {
        lemma_lex_trans(a.drop_first(), b.drop_first(), c.drop_first());
    }
}

proof fn lemma_lex_total(a: Seq<u8>, b: Seq<u8>)
    ensures
        lex_lt(a, b) ==> lex_le(a, b),
    decreases a.len(),
{
    if a.len() > 0 && b.len() > 0 && a[0] == b[0] {
        lemma_lex_total(a.drop_first(), b.drop_first());
    }
}

fn bytes_lt(a: &[u8], b: &[u8]) -> (r: bool)
    ensures
        r == lex_lt(a@, b@),
{
    let mut i: usize = 0;
    assert(a@.subrange(0, a@.len() as int) =~= a@);
    assert(b@.subrange(0, b@.len() as int) =~= b@);
    while i < a.len() && i < b.len()
        invariant
            i <= a@.len(),
            i <= b@.len(),
            forall|k: int| 0 <= k < i ==> a@[k] == b@[k],
            lex_lt(a@, b@) == lex_lt(a@.subrange(i as int, a@.len() as int), b@.subrange(i as int, b@.len() as int)),
        decreases a@.len() - i,
    {
        let ghost sa = a@.subrange(i as int, a@.len() as int);
        let ghost sb = b@.subrange(i as int, b@.len() as int);
        if a[i] != b[i] {
            assert(sa[0] == a@[i as int] && sb[0] == b@[i as int]);
            return a[i] < b[i];
        }
        assert(sa.drop_first() =~= a@.subrange(i + 1, a@.len() as int));
        assert(sb.drop_first() =~= b@.subrange(i + 1, b@.len() as int));
        i = i + 1;
    }
    let ghost sa = a@.subrange(i as int, a@.len() as int);
    let ghost sb = b@.subrange(i as int, b@.len() as int);
    assert(sa.len() == 0 || sb.len() == 0);
    i < b.len()
}

/// The UTF-8 bytes of path `i`.
pub open spec fn key(paths: Seq<String>, i: int) -> Seq<u8> {
    encode_utf8(paths[i]@)
}

/// Whether `order` lists each index below `n` exactly once.
pub open spec fn is_permutation(order: Seq<usize>, n: nat) -> bool {
    &&& order.len() == n
    &&& order.no_duplicates()
    &&& forall|i: int| 0 <= i < order.len() ==> #[trigger] order[i] < n
    &&& forall|v: usize| v < n ==> #[trigger] order.contains(v)
}

/// `order` lists paths in non-decreasing byte order.
pub open spec fn sorted_by_path(paths: Seq<String>, order: Seq<usize>) -> bool {
    forall|i: int, j: int|
        0 <= i < j < order.len() ==> lex_le(key(paths, #[trigger] order[i] as int), key(paths, #[trigger] order[j] as int))
}

/// The indices of `paths`, each once, ordered by path bytes.
pub fn order_by_path(paths: &Vec<String>) -> (r: Vec<usize>)
    ensures
        is_permutation(r@, paths@.len()),
        sorted_by_path(paths@, r@),
{
    let n = paths.len();
    let mut order: Vec<usize> = Vec::new();
    let mut x: usize = 0;
    while x < n
        invariant
            n == paths@.len(),
            x <= n,
            is_permutation(order@, x as nat),
            sorted_by_path(paths@, order@),
        decreases n - x,
    {
        let kx = paths[x].as_str().as_bytes();
        let mut pos: usize = 0;
        while pos < order.len() && !bytes_lt(kx, paths[order[pos]].as_str().as_bytes())
            invariant
                n == paths@.len(),
                x < n,
                pos <= order@.len(),
                kx@ == key(paths@, x as int),
                is_permutation(order@, x as nat),
                forall|j: int| 0 <= j < pos ==> lex_le(key(paths@, #[trigger] order@[j] as int), key(paths@, x as int)),
            decreases order@.len() - pos,
        {
            assert(order@[pos as int] < x);
            pos = pos + 1;
        }
        proof {
            if pos < order@.len() {
                assert(order@[pos as int] < x);
                assert(lex_lt(key(paths@, x as int), key(paths@, order@[pos as int] as int)));
                lemma_lex_total(key(paths@, x as int), key(paths@, order@[pos as int] as int));
            }
        }
        let ghost old_order = order@;
        order.insert(pos, x);
        proof {
            let o = order@;
            assert(o == old_order.insert(pos as int, x));
            assert forall|v: usize| v < x + 1 implies #[trigger] o.contains(v) by {
                if v == x {
                    assert(o[pos as int] == x);
                } else {
                    assert(old_order.contains(v));
                    let k = choose|k: int| 0 <= k < old_order.len() && old_order[k] == v;
                    if k < pos {
                        assert(o[k] == v);
                    } else {
                        assert(o[k + 1] == v);
                    }
                }
            }
            assert forall|i: int| 0 <= i < o.len() implies #[trigger] o[i] < x + 1 by {
                if i < pos {
                    assert(o[i] == old_order[i]);
                } else if i > pos {
                    assert(o[i] == old_order[i - 1]);
                }
            }
            assert forall|i: int, j: int| 0 <= i < o.len() && 0 <= j < o.len() && i != j implies o[i] != o[j] by {
                if i != pos && j != pos {
                    let oi = if i < pos { i } else { i - 1 };
                    let oj = if j < pos { j } else { j - 1 };
                    assert(o[i] == old_order[oi]);
                    assert(o[j] == old_order[oj]);
                } else if i == pos {
                    let oj = if j < pos { j } else { j - 1 };
                    assert(o[j] == old_order[oj]);
                    assert(old_order[oj] < x);
                } else {
                    let oi = if i < pos { i } else { i - 1 };
                    assert(o[i] == old_order[oi]);
                    assert(old_order[oi] < x);
                }
            }
            assert forall|i: int, j: int| 0 <= i < j < o.len() implies lex_le(
                key(paths@, #[trigger] o[i] as int),
                key(paths@, #[trigger] o[j] as int),
            ) by {
                let kx = key(paths@, x as int);
                if j < pos {
                    assert(o[i] == old_order[i] && o[j] == old_order[j]);
                } else if j == pos {
                    assert(o[i] == old_order[i]);
                } else if i > pos {
                    assert(o[i] == old_order[i - 1] && o[j] == old_order[j - 1]);
                } else if i == pos {
                    assert(o[j] == old_order[j - 1]);
                    if j - 1 > pos {
                        assert(lex_le(key(paths@, old_order[pos as int] as int), key(paths@, old_order[j - 1] as int)));
                        lemma_lex_trans(kx, key(paths@, old_order[pos as int] as int), key(paths@, old_order[j - 1] as int));
                    }
                } else {
                    assert(o[i] == old_order[i] && o[j] == old_order[j - 1]);
                    assert(lex_le(key(paths@, old_order[i] as int), kx));
                    if j - 1 > pos {
                        assert(lex_le(key(paths@, old_order[pos as int] as int), key(paths@, old_order[j - 1] as int)));
                        lemma_lex_trans(kx, key(paths@, old_order[pos as int] as int), key(paths@, old_order[j - 1] as int));
                    }
                    lemma_lex_trans(key(paths@, old_order[i] as int), kx, key(paths@, old_order[j - 1] as int));
                }
            }
        }
        x = x + 1;
    }
    order
}

proof fn lemma_lex_antisym(a: Seq<u8>, b: Seq<u8>)
    requires
        lex_le(a, b),
        lex_le(b, a),
    ensures
        a == b,
    decreases a.len(),
{
    if a.len() > 0 && b.len() > 0 {
        lemma_lex_antisym(a.drop_first(), b.drop_first());
        assert(a =~= seq![a[0]] + a.drop_first());
        assert(b =~= seq![b[0]] + b.drop_first());
    }
}

/// With distinct paths there is one order only: any two orders that list
/// every index once and follow path bytes are the same, whatever produced
/// them.
pub proof fn lemma_path_order_unique(paths: Seq<String>, a: Seq<usize>, b: Seq<usize>)
    requires
        forall|i: int, j: int| 0 <= i < paths.len() && 0 <= j < paths.len() && i != j ==> key(paths, i) != key(paths, j),
        is_permutation(a, paths.len()),
        is_permutation(b, paths.len()),
        sorted_by_path(paths, a),
        sorted_by_path(paths, b),
    ensures
        a == b,
{
    let n = paths.len() as int;
    assert forall|k: int| 0 <= k < n implies a[k] == b[k] by {
        lemma_order_prefix_agree(paths, a, b, k);
    }
    assert(a =~= b);
}

proof fn lemma_order_prefix_agree(paths: Seq<String>, a: Seq<usize>, b: Seq<usize>, k: int)
    requires
        forall|i: int, j: int| 0 <= i < paths.len() && 0 <= j < paths.len() && i != j ==> key(paths, i) != key(paths, j),
        is_permutation(a, paths.len()),
        is_permutation(b, paths.len()),
        sorted_by_path(paths, a),
        sorted_by_path(paths, b),
        0 <= k < paths.len(),
    ensures
        a[k] == b[k],
    decreases k,
{
    if k > 0 {
        lemma_order_prefix_agree(paths, a, b, k - 1);
    }
    assert forall|t: int| 0 <= t < k implies a[t] == b[t] by {
        lemma_order_prefix_agree(paths, a, b, t);
    }
    if a[k] != b[k] {
        assert(a.contains(b[k]));
        let p = choose|p: int| 0 <= p < a.len() && a[p] == b[k];
        assert(b.contains(a[k]));
        let q = choose|q: int| 0 <= q < b.len() && b[q] == a[k];
        if p < k {
            assert(b[p] == a[p]);
            assert(b[p] == b[k]);
        }
        if q < k {
            assert(a[q] == b[q]);
            assert(a[q] == a[k]);
        }
        assert(p > k && q > k);
        assert(lex_le(key(paths, a[k] as int), key(paths, a[p] as int)));
        assert(lex_le(key(paths, b[k] as int), key(paths, b[q] as int)));
        lemma_lex_antisym(key(paths, a[k] as int), key(paths, b[k] as int));
        assert(key(paths, a[k] as int) == key(paths, b[k] as int));
    }
}

} // verus!
