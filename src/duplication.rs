//! Cross-file clone detection: Rabin-Karp hashing of fixed-size token
//! windows, exact verification of windows that share a hash, and
//! per-file interval merging for the count of cloned tokens.

use vstd::prelude::*;
use vstd::wrapping::u64_specs;
use vstd::arithmetic::div_mod::{lemma_add_mod_noop, lemma_sub_mod_noop, lemma_mul_mod_noop_left, lemma_mul_mod_noop_right, lemma_small_mod, lemma_mod_add_multiples_vanish};
use crate::intervals::{count_merged_intervals, union_size, well_formed, ends_by};
use crate::tokens::{Token, HASH_BASE};
use crate::text::str_eq;

verus! {

/// Buckets with more windows than this are boilerplate and are not verified.
pub const MAX_BUCKET_SIZE: usize = 1000;

/// One occurrence of a clone: a token window of one file.
#[derive(Debug, Clone, Copy, PartialEq, Eq, Structural)]
pub struct CloneInstance {
    pub file_index: usize,
    pub start_token: usize,
    pub end_token: usize,
    /// First line, resolved by whoever holds the source; 0 until then.
    pub start_line: usize,
    /// Last line, resolved by whoever holds the source; 0 until then.
    pub end_line: usize,
}

/// Windows of identical token kinds.
#[derive(Debug, Clone)]
pub struct CloneGroup {
    pub instances: Vec<CloneInstance>,
    pub token_count: u32,
}

/// The outcome of clone detection over a set of files.
#[derive(Debug, Clone)]
pub struct DuplicationResult {
    pub clone_groups: Vec<CloneGroup>,
    /// Tokens over all files.
    pub total_tokens: usize,
    /// Tokens that lie in at least one clone window, per file, summed.
    pub cloned_tokens: usize,
    /// Tokens of each file that lie in at least one clone window.
    pub file_cloned: Vec<usize>,
    /// Every window as (hash, file, start), ordered by hash; windows that
    /// share a hash form one bucket.
    pub windows: Vec<(u64, usize, usize)>,
}

/// The rolling hash of a token window.
#[derive(Debug, Clone, Copy)]
pub struct RollingHasher {
    pub hash: u64,
    /// `37` raised to the window size minus one, wrapping.
    pub base_pow: u64,
}

/// Polynomial hash of the first `n` kind hashes of `ts`.
pub open spec fn poly(ts: Seq<Token>, n: int) -> u64
    decreases n,
{
    if n <= 0 || n > ts.len() {
        0
    } else {
        u64_specs::wrapping_add(u64_specs::wrapping_mul(poly(ts, n - 1), HASH_BASE), ts[n - 1].kind_hash)
    }
}

/// `37^k`, wrapping at 64 bits.
pub open spec fn pow37(k: nat) -> u64
    decreases k,
{
    if k == 0 {
        1
    } else {
        u64_specs::wrapping_mul(pow37((k - 1) as nat), HASH_BASE)
    }
}

/// 2 to the 64th, the modulus of wrapping arithmetic.
pub open spec fn modulus() -> int {
    0x1_0000_0000_0000_0000
}

/// The polynomial of the `w` kind hashes of `ts` from `s`, over the integers.
pub open spec fn wpoly(ts: Seq<Token>, s: int, w: int) -> int
    decreases w,
{
    if w <= 0 {
        0
    } else {
        wpoly(ts, s, w - 1) * 37 + ts[s + w - 1].kind_hash as int
    }
}

/// The hash of the window of `w` tokens of `ts` at `s`.
pub open spec fn window_hash(ts: Seq<Token>, s: int, w: int) -> u64 {
    (wpoly(ts, s, w) % modulus()) as u64
}

/// `37^k` over the integers.
pub open spec fn pow_int(k: nat) -> int
    decreases k,
{
    if k == 0 {
        1
    } else {
        pow_int((k - 1) as nat) * 37
    }
}

proof fn lemma_wrapping_add(a: u64, b: u64)
    ensures
        u64_specs::wrapping_add(a, b) as int == (a + b) % modulus(),
{
    if a + b > u64::MAX {
        lemma_mod_add_multiples_vanish(a + b - modulus(), modulus());
        lemma_small_mod((a + b - modulus()) as nat, modulus() as nat);
    } else {
        lemma_small_mod((a + b) as nat, modulus() as nat);
    }
}

proof fn lemma_wrapping_sub(a: u64, b: u64)
    ensures
        u64_specs::wrapping_sub(a, b) as int == (a - b) % modulus(),
{
    if a - b < 0 {
        lemma_mod_add_multiples_vanish(a - b, modulus());
        lemma_small_mod((a - b + modulus()) as nat, modulus() as nat);
    } else {
        lemma_small_mod((a - b) as nat, modulus() as nat);
    }
}

/// The first `n` tokens' polynomial hash is the hash of the window at 0.
proof fn lemma_poly_window(ts: Seq<Token>, n: int)
    requires
        0 <= n <= ts.len(),
    ensures
        poly(ts, n) == window_hash(ts, 0, n),
    decreases n,
{
    if n > 0 {
        lemma_poly_window(ts, n - 1);
        let prev = wpoly(ts, 0, n - 1);
        lemma_mul_mod_noop_left(prev, 37, modulus());
        let m = (prev * 37) % modulus();
        assert(u64_specs::wrapping_mul(poly(ts, n - 1), HASH_BASE) as int == m) by {
            assert(poly(ts, n - 1) as int == prev % modulus());
        }
        lemma_wrapping_add(u64_specs::wrapping_mul(poly(ts, n - 1), HASH_BASE), ts[n - 1].kind_hash);
        lemma_add_mod_noop(prev * 37, ts[n - 1].kind_hash as int, modulus());
        lemma_small_mod(ts[n - 1].kind_hash as nat, modulus() as nat);
        assert((m + ts[n - 1].kind_hash as int) % modulus() == (prev * 37 + ts[n - 1].kind_hash as int) % modulus()) by {
            lemma_mod_twice(prev * 37, modulus());
        }
    }
}

proof fn lemma_mod_twice(x: int, m: int)
    requires
        m > 0,
    ensures
        (x % m) % m == x % m,
{
    lemma_small_mod((x % m) as nat, m as nat);
}

/// `pow37` is `37^k` reduced modulo 2^64.
proof fn lemma_pow37(k: nat)
    ensures
        pow37(k) as int == pow_int(k) % modulus(),
    decreases k,
{
    if k == 0 {
        lemma_small_mod(1, modulus() as nat);
    } else {
        lemma_pow37((k - 1) as nat);
        lemma_mul_mod_noop_left(pow_int((k - 1) as nat), 37, modulus());
    }
}

/// A window's polynomial is its first hash times `37^(w-1)` plus the
/// polynomial of the rest of the window.
proof fn lemma_wpoly_split(ts: Seq<Token>, s: int, w: int)
    requires
        w >= 1,
    ensures
        wpoly(ts, s, w) == ts[s].kind_hash as int * pow_int((w - 1) as nat) + wpoly(ts, s + 1, w - 1),
    decreases w,
{
    if w > 1 {
        lemma_wpoly_split(ts, s, w - 1);
        let a = ts[s].kind_hash as int;
        let p = pow_int((w - 2) as nat);
        let r = wpoly(ts, s + 1, w - 2);
        let t = ts[s + w - 1].kind_hash as int;
        assert((a * p + r) * 37 + t == a * (p * 37) + (r * 37 + t)) by (nonlinear_arith);
        assert(s + 1 + (w - 1) - 1 == s + w - 1);
        assert(wpoly(ts, s, w) == wpoly(ts, s, w - 1) * 37 + t);
        assert(wpoly(ts, s + 1, w - 1) == r * 37 + t);
        assert(pow_int((w - 1) as nat) == p * 37);
    } else {
        assert(wpoly(ts, s, 1) == wpoly(ts, s, 0) * 37 + ts[s].kind_hash as int);
        assert(pow_int(0) == 1);
        assert(ts[s].kind_hash as int * 1 == ts[s].kind_hash as int);
    }
}

/// Rolling the hash of the window at `s` by one token, dropping token `s`
/// and taking token `s + w`, gives the hash of the window at `s + 1`.
pub proof fn lemma_roll_advances_window(ts: Seq<Token>, s: int, w: int, h: u64, p: u64)
    requires
        w >= 1,
        0 <= s,
        s + w < ts.len(),
        h == window_hash(ts, s, w),
        p == pow37((w - 1) as nat),
    ensures
        u64_specs::wrapping_add(
            u64_specs::wrapping_mul(
                u64_specs::wrapping_sub(h, u64_specs::wrapping_mul(ts[s].kind_hash, p)),
                HASH_BASE,
            ),
            ts[s + w].kind_hash,
        ) == window_hash(ts, s + 1, w),
{
    let m = modulus();
    let a = ts[s].kind_hash as int;
    let pw = pow_int((w - 1) as nat);
    lemma_pow37((w - 1) as nat);
    lemma_wpoly_split(ts, s, w);
    let q = u64_specs::wrapping_mul(ts[s].kind_hash, p);
    lemma_mul_mod_noop_right(a, pw, m);
    assert(q as int == (a * pw) % m);
    let d = u64_specs::wrapping_sub(h, q);
    lemma_wrapping_sub(h, q);
    lemma_sub_mod_noop(wpoly(ts, s, w), a * pw, m);
    assert(d as int == wpoly(ts, s + 1, w - 1) % m);
    let e = u64_specs::wrapping_mul(d, HASH_BASE);
    lemma_mul_mod_noop_left(wpoly(ts, s + 1, w - 1), 37, m);
    assert(e as int == (wpoly(ts, s + 1, w - 1) * 37) % m);
    let t = ts[s + w].kind_hash;
    lemma_wrapping_add(e, t);
    lemma_add_mod_noop(wpoly(ts, s + 1, w - 1) * 37, t as int, m);
    lemma_small_mod(t as nat, m as nat);
    lemma_mod_twice(wpoly(ts, s + 1, w - 1) * 37, m);
    assert(s + 1 + w - 1 == s + w);
}

/// The smaller of two integers.
pub open spec fn min_int(a: int, b: int) -> int {
    if a <= b { a } else { b }
}

impl RollingHasher {
    /// Hash of the first `window` tokens (or of all of them, if fewer).
    pub fn new(tokens: &[Token], window: usize) -> (r: Self)
        requires
            window >= 1,
        ensures
            r.hash == poly(tokens@, min_int(window as int, tokens@.len() as int)),
            r.base_pow == pow37(min_int(window - 1, tokens@.len() as int) as nat),
    {
        let n = if window < tokens.len() { window } else { tokens.len() };
        let mut h: u64 = 0;
        let mut p: u64 = 1;
        let mut i: usize = 0;
        while i < n
            invariant
                n == min_int(window as int, tokens@.len() as int),
                window >= 1,
                i <= n,
                h == poly(tokens@, i as int),
                p == pow37(min_int(i as int, window - 1) as nat),
            decreases n - i,
        {
            h = h.wrapping_mul(HASH_BASE).wrapping_add(tokens[i].kind_hash);
            if i < window - 1 {
                p = p.wrapping_mul(HASH_BASE);
            }
            i = i + 1;
        }
        RollingHasher { hash: h, base_pow: p }
    }

    /// Slides the window by one token: drops `remove` and appends `add`.
    pub fn roll(&mut self, remove: &Token, add: &Token)
        ensures
            final(self).base_pow == old(self).base_pow,
            final(self).hash == u64_specs::wrapping_add(
                u64_specs::wrapping_mul(
                    u64_specs::wrapping_sub(old(self).hash, u64_specs::wrapping_mul(remove.kind_hash, old(self).base_pow)),
                    HASH_BASE,
                ),
                add.kind_hash,
            ),
    {
        self.hash = self.hash.wrapping_sub(remove.kind_hash.wrapping_mul(self.base_pow)).wrapping_mul(
            HASH_BASE,
        ).wrapping_add(add.kind_hash);
    }
}

/// The windows of `a` at `sa` and of `b` at `sb`, `w` tokens long, have the
/// same kinds.
pub open spec fn same_window(a: Seq<Token>, sa: int, b: Seq<Token>, sb: int, w: int) -> bool {
    forall|k: int| 0 <= k < w ==> #[trigger] a[sa + k].kind@ == b[sb + k].kind@
}

/// Compares two token windows kind by kind.
pub fn tokens_match(a: &[Token], a_start: usize, b: &[Token], b_start: usize, window: usize) -> (r: bool)
    requires
        a_start + window <= a@.len(),
        b_start + window <= b@.len(),
    ensures
        r == same_window(a@, a_start as int, b@, b_start as int, window as int),
{
    let al = a.len();
    let bl = b.len();
    let mut i: usize = 0;
    while i < window
        invariant
            i <= window,
            al == a@.len(),
            bl == b@.len(),
            a_start + window <= a@.len(),
            b_start + window <= b@.len(),
            same_window(a@, a_start as int, b@, b_start as int, i as int),
        decreases window - i,
    {
        if !str_eq(a[a_start + i].kind.as_str(), b[b_start + i].kind.as_str()) {
            assert(a@[a_start + i].kind@ != b@[b_start + i].kind@);
            return false;
        }
        i = i + 1;
    }
    true
}

/// The clone instance for the window of `window` tokens at `start_token`.
pub fn make_instance(file_index: usize, start_token: usize, window: usize) -> (r: CloneInstance)
    requires
        start_token + window <= usize::MAX,
    ensures
        r == (CloneInstance {
            file_index,
            start_token,
            end_token: (start_token + window) as usize,
            start_line: 0,
            end_line: 0,
        }),
{
    CloneInstance { file_index, start_token, end_token: start_token + window, start_line: 0, end_line: 0 }
}

/// Number of tokens over the first `k` files.
pub open spec fn total_len(files: Seq<Vec<Token>>, k: int) -> nat
    decreases k,
{
    if k <= 0 || k > files.len() {
        0
    } else {
        total_len(files, k - 1) + files[k - 1]@.len()
    }
}

/// `inst` is a window of `w` tokens inside its file.
pub open spec fn valid_instance(files: Seq<Vec<Token>>, inst: CloneInstance, w: int) -> bool {
    &&& inst.file_index < files.len()
    &&& inst.end_token == inst.start_token + w
    &&& inst.end_token <= files[inst.file_index as int]@.len()
    &&& inst.start_line == 0 && inst.end_line == 0
}

/// A clone group: at least two windows of `w` tokens, all of the kinds of
/// the first.
pub open spec fn valid_group(files: Seq<Vec<Token>>, g: CloneGroup, w: int) -> bool {
    &&& g.token_count == w
    &&& g.instances@.len() >= 2
    &&& forall|k: int| 0 <= k < g.instances@.len() ==> #[trigger] valid_instance(files, g.instances@[k], w)
    &&& forall|k: int|
        0 <= k < g.instances@.len() ==> same_window(
            files[g.instances@[0].file_index as int]@,
            g.instances@[0].start_token as int,
            files[#[trigger] g.instances@[k].file_index as int]@,
            g.instances@[k].start_token as int,
            w,
        )
    &&& distinct_positions(g.instances@)
}

/// No two instances share a file and a start.
pub open spec fn distinct_positions(is: Seq<CloneInstance>) -> bool {
    forall|a: int, b: int|
        0 <= a < b < is.len() ==> (#[trigger] is[a]).file_index != (#[trigger] is[b]).file_index || is[a].start_token
            != is[b].start_token
}

/// Whether some instance of `is` is at file `f`, start `s`.
fn has_position(is: &Vec<CloneInstance>, f: usize, s: usize) -> (r: bool)
    ensures
        r == exists|k: int| 0 <= k < is@.len() && is@[k].file_index == f && is@[k].start_token == s,
{
    let mut k: usize = 0;
    while k < is.len()
        invariant
            k <= is@.len(),
            forall|t: int| 0 <= t < k ==> !(is@[t].file_index == f && is@[t].start_token == s),
        decreases is@.len() - k,
    {
        if is[k].file_index == f && is[k].start_token == s {
            return true;
        }
        k = k + 1;
    }
    false
}

/// The windows, as token intervals, that the instances `is` put in file `f`.
pub open spec fn instance_windows(is: Seq<CloneInstance>, f: int) -> Seq<(usize, usize)>
    decreases is.len(),
{
    if is.len() == 0 {
        seq![]
    } else {
        instance_windows(is.drop_last(), f) + if is.last().file_index == f {
            seq![(is.last().start_token, is.last().end_token)]
        } else {
            seq![]
        }
    }
}

/// The windows, as token intervals, that the groups `gs` put in file `f`.
pub open spec fn group_windows(gs: Seq<CloneGroup>, f: int) -> Seq<(usize, usize)>
    decreases gs.len(),
{
    if gs.len() == 0 {
        seq![]
    } else {
        group_windows(gs.drop_last(), f) + instance_windows(gs.last().instances@, f)
    }
}

/// Cloned tokens over the first `k` files: the size of the union of each
/// file's clone windows.
pub open spec fn cloned_len(gs: Seq<CloneGroup>, k: int) -> nat
    decreases k,
{
    if k <= 0 {
        0
    } else {
        cloned_len(gs, k - 1) + union_size(group_windows(gs, k - 1))
    }
}

/// Lexicographic order on (hash, file, start) triples.
pub open spec fn triple_le(a: (u64, usize, usize), b: (u64, usize, usize)) -> bool {
    a.0 < b.0 || (a.0 == b.0 && (a.1 < b.1 || (a.1 == b.1 && a.2 <= b.2)))
}

/// Relies on `slice::sort_unstable`: sorts triples in their (lexicographic)
/// order, keeping the same elements.
#[verifier::external_body]
fn sort_triples(v: &mut Vec<(u64, usize, usize)>)
    ensures
        final(v)@.to_multiset() == old(v)@.to_multiset(),
        forall|i: int, j: int| 0 <= i < j < final(v)@.len() ==> triple_le(#[trigger] final(v)@[i], #[trigger] final(v)@[j]),
{
    v.sort_unstable()
}

/// A window position `(hash, file, start)` lies inside its file.
pub open spec fn valid_position(files: Seq<Vec<Token>>, p: (u64, usize, usize), w: int) -> bool {
    p.1 < files.len() && p.2 + w <= files[p.1 as int]@.len()
}

/// Some position of `ws` is the window of file `f` at start `s`.
pub open spec fn listed(ws: Seq<(u64, usize, usize)>, f: usize, s: usize) -> bool {
    exists|k: int| 0 <= k < ws.len() && (#[trigger] ws[k]).1 == f && ws[k].2 == s
}

/// A window position `(hash, file, start)` carries the hash of its window.
pub open spec fn hashed_position(files: Seq<Vec<Token>>, p: (u64, usize, usize), w: int) -> bool {
    valid_position(files, p, w) && p.0 == window_hash(files[p.1 as int]@, p.2 as int, w)
}

/// Hashes every window of `w` tokens of every file, rolling the hash along
/// each file.
fn window_positions(files: &Vec<Vec<Token>>, w: usize) -> (r: Vec<(u64, usize, usize)>)
    requires
        w >= 1,
    ensures
        forall|i: int| 0 <= i < r@.len() ==> #[trigger] hashed_position(files@, r@[i], w as int),
        forall|f: usize, s: usize| f < files@.len() && s + w <= files@[f as int]@.len() ==> #[trigger] listed(r@, f, s),
{
    let mut out: Vec<(u64, usize, usize)> = Vec::new();
    let mut f: usize = 0;
    while f < files.len()
        invariant
            w >= 1,
            f <= files@.len(),
            forall|i: int| 0 <= i < out@.len() ==> #[trigger] hashed_position(files@, out@[i], w as int),
            forall|g: usize, s: usize| g < f && s + w <= files@[g as int]@.len() ==> #[trigger] listed(out@, g, s),
        decreases files@.len() - f,
    {
        let ts = &files[f];
        if ts.len() >= w {
            let mut hasher = RollingHasher::new(ts.as_slice(), w);
            proof {
                lemma_poly_window(ts@, w as int);
            }
            let mut start: usize = 0;
            while start <= ts.len() - w
                invariant
                    w >= 1,
                    f < files@.len(),
                    *ts == files@[f as int],
                    ts@.len() >= w,
                    start <= ts@.len() - w + 1,
                    start + w <= ts@.len() ==> hasher.hash == window_hash(ts@, start as int, w as int),
                    hasher.base_pow == pow37((w - 1) as nat),
                    forall|i: int| 0 <= i < out@.len() ==> #[trigger] hashed_position(files@, out@[i], w as int),
                    forall|g: usize, s: usize| g < f && s + w <= files@[g as int]@.len() ==> #[trigger] listed(out@, g, s),
                    forall|s: usize| s < start ==> #[trigger] listed(out@, f, s),
                decreases ts@.len() - w + 1 - start,
            {
                let ghost o0 = out@;
                out.push((hasher.hash, f, start));
                proof {
                    assert(out@[o0.len() as int] == (hasher.hash, f, start));
                    assert(listed(out@, f, start));
                    assert forall|g: usize, s: usize| g < f && s + w <= files@[g as int]@.len() implies #[trigger] listed(out@, g, s) by {
                        assert(listed(o0, g, s));
                        let k = choose|k: int| 0 <= k < o0.len() && (#[trigger] o0[k]).1 == g && o0[k].2 == s;
                        assert(out@[k] == o0[k]);
                    }
                    assert forall|s: usize| s < start + 1 implies #[trigger] listed(out@, f, s) by {
                        if s < start {
                            assert(listed(o0, f, s));
                            let k = choose|k: int| 0 <= k < o0.len() && (#[trigger] o0[k]).1 == f && o0[k].2 == s;
                            assert(out@[k] == o0[k]);
                        }
                    }
                }
                if start + w < ts.len() {
                    proof {
                        lemma_roll_advances_window(ts@, start as int, w as int, hasher.hash, hasher.base_pow);
                    }
                    hasher.roll(&ts[start], &ts[start + w]);
                }
                start = start + 1;
            }
        }
        proof {
            assert forall|g: usize, s: usize| g < f + 1 && s + w <= files@[g as int]@.len() implies #[trigger] listed(out@, g, s) by {
                if g == f {
                    assert(s < files@[f as int]@.len() - w + 1);
                }
            }
        }
        f = f + 1;
    }
    out
}

/// The windows at positions `x` and `y` have the same kinds.
pub open spec fn pos_match(files: Seq<Vec<Token>>, x: (u64, usize, usize), y: (u64, usize, usize), w: int) -> bool {
    same_window(files[x.1 as int]@, x.2 as int, files[y.1 as int]@, y.2 as int, w)
}

/// Some instance of `is` is at file `f`, start `s`.
pub open spec fn has_pos(is: Seq<CloneInstance>, f: usize, s: usize) -> bool {
    exists|k: int| 0 <= k < is.len() && (#[trigger] is[k]).file_index == f && is[k].start_token == s
}

/// Some group of `gs` holds both the window of file `f1` at `s1` and the
/// window of file `f2` at `s2`.
pub open spec fn grouped(gs: Seq<CloneGroup>, f1: usize, s1: usize, f2: usize, s2: usize) -> bool {
    exists|g: int| 0 <= g < gs.len() && has_pos((#[trigger] gs[g]).instances@, f1, s1) && has_pos(gs[g].instances@, f2, s2)
}

/// No window of the bucket before index `l` matches the window at `l`.
pub open spec fn is_leader(files: Seq<Vec<Token>>, pos: Seq<(u64, usize, usize)>, a: int, l: int, w: int) -> bool {
    forall|k: int| a <= k < l ==> !pos_match(files, #[trigger] pos[k], pos[l], w)
}

proof fn lemma_match_symmetric(files: Seq<Vec<Token>>, x: (u64, usize, usize), y: (u64, usize, usize), w: int)
    requires
        pos_match(files, x, y, w),
    ensures
        pos_match(files, y, x, w),
{
    assert forall|k: int| 0 <= k < w implies #[trigger] files[y.1 as int]@[y.2 + k].kind@ == files[x.1 as int]@[x.2 + k].kind@ by {
        assert(files[x.1 as int]@[x.2 + k].kind@ == files[y.1 as int]@[y.2 + k].kind@);
    }
}

proof fn lemma_match_transitive(
    files: Seq<Vec<Token>>,
    x: (u64, usize, usize),
    y: (u64, usize, usize),
    z: (u64, usize, usize),
    w: int,
)
    requires
        pos_match(files, x, y, w),
        pos_match(files, y, z, w),
    ensures
        pos_match(files, x, z, w),
{
    assert forall|k: int| 0 <= k < w implies #[trigger] files[x.1 as int]@[x.2 + k].kind@ == files[z.1 as int]@[z.2 + k].kind@ by {
        assert(files[x.1 as int]@[x.2 + k].kind@ == files[y.1 as int]@[y.2 + k].kind@);
        assert(files[y.1 as int]@[y.2 + k].kind@ == files[z.1 as int]@[z.2 + k].kind@);
    }
}

/// The first window of the bucket that matches the window at `p`.
proof fn lemma_leader_of(files: Seq<Vec<Token>>, pos: Seq<(u64, usize, usize)>, a: int, p: int, w: int) -> (l: int)
    requires
        a <= p < pos.len(),
    ensures
        a <= l <= p,
        is_leader(files, pos, a, l, w),
        l == p || pos_match(files, pos[l], pos[p], w),
    decreases p - a,
{
    if is_leader(files, pos, a, p, w) {
        p
    } else {
        let k = choose|k: int| a <= k < p && pos_match(files, #[trigger] pos[k], pos[p], w);
        let l = lemma_leader_of(files, pos, a, k, w);
        if l != k {
            lemma_match_transitive(files, pos[l], pos[k], pos[p], w);
        }
        l
    }
}

/// Groups the windows of the bucket `pos[a..b]` by kind sequence: each
/// window that no earlier window of the bucket matches leads a group of
/// itself and every later window that matches it, positions counted once.
fn verify_bucket(
    files: &Vec<Vec<Token>>,
    pos: &Vec<(u64, usize, usize)>,
    a: usize,
    b: usize,
    w: usize,
    groups: &mut Vec<CloneGroup>,
)
    requires
        a <= b <= pos@.len(),
        w >= 1,
        w <= u32::MAX,
        forall|i: int| 0 <= i < pos@.len() ==> #[trigger] valid_position(files@, pos@[i], w as int),
        forall|i: int| 0 <= i < old(groups)@.len() ==> #[trigger] valid_group(files@, old(groups)@[i], w as int),
    ensures
        forall|i: int| 0 <= i < final(groups)@.len() ==> #[trigger] valid_group(files@, final(groups)@[i], w as int),
        final(groups)@.len() >= old(groups)@.len(),
        final(groups)@.subrange(0, old(groups)@.len() as int) == old(groups)@,
        forall|p: int, q: int|
            a <= p < b && a <= q < b && pos_match(files@, #[trigger] pos@[p], #[trigger] pos@[q], w as int) && !(
            pos@[p].1 == pos@[q].1 && pos@[p].2 == pos@[q].2) ==> grouped(
                final(groups)@,
                pos@[p].1,
                pos@[p].2,
                pos@[q].1,
                pos@[q].2,
            ),
{
    let ghost g0 = groups@;
    let ghost mut gof: Map<int, int> = Map::empty();
    let mut i: usize = a;
    while i < b
        invariant
            a <= i <= b <= pos@.len(),
            w >= 1,
            w <= u32::MAX,
            forall|t: int| 0 <= t < pos@.len() ==> #[trigger] valid_position(files@, pos@[t], w as int),
            forall|t: int| 0 <= t < groups@.len() ==> #[trigger] valid_group(files@, groups@[t], w as int),
            groups@.len() >= g0.len(),
            groups@.subrange(0, g0.len() as int) == g0,
            forall|l: int, j: int|
                a <= l < i && l < j < b && is_leader(files@, pos@, a as int, l, w as int) && pos_match(
                    files@,
                    #[trigger] pos@[l],
                    #[trigger] pos@[j],
                    w as int,
                ) && !(pos@[l].1 == pos@[j].1 && pos@[l].2 == pos@[j].2) ==> {
                    &&& gof.contains_key(l)
                    &&& 0 <= gof[l] < groups@.len()
                    &&& has_pos(groups@[gof[l]].instances@, pos@[l].1, pos@[l].2)
                    &&& has_pos(groups@[gof[l]].instances@, pos@[j].1, pos@[j].2)
                },
        decreases b - i,
    {
        let (_, fi, si) = pos[i];
        assert(valid_position(files@, pos@[i as int], w as int));
        let _fl = files[fi].len();
        let mut leader = true;
        let mut k: usize = a;
        while k < i && leader
            invariant
                a <= k <= i < b <= pos@.len(),
                fi < files@.len(),
                si + w <= files@[fi as int]@.len(),
                pos@[i as int].1 == fi && pos@[i as int].2 == si,
                forall|t: int| 0 <= t < pos@.len() ==> #[trigger] valid_position(files@, pos@[t], w as int),
                leader ==> forall|t: int| a <= t < k ==> !pos_match(files@, #[trigger] pos@[t], pos@[i as int], w as int),
                !leader ==> !is_leader(files@, pos@, a as int, i as int, w as int),
            decreases i - k,
        {
            let (_, fk, sk) = pos[k];
            assert(valid_position(files@, pos@[k as int], w as int));
            let _kl = files[fk].len();
            if tokens_match(files[fk].as_slice(), sk, files[fi].as_slice(), si, w) {
                leader = false;
            }
            k = k + 1;
        }
        if leader {
            let first = make_instance(fi, si, w);
            let mut insts: Vec<CloneInstance> = Vec::new();
            insts.push(first);
            let mut j: usize = i + 1;
            while j < b
                invariant
                    a <= i < b <= pos@.len(),
                    i < j <= b,
                    w >= 1,
                    fi < files@.len(),
                    si + w <= files@[fi as int]@.len(),
                    pos@[i as int].1 == fi && pos@[i as int].2 == si,
                    insts@.len() >= 1,
                    insts@[0] == first,
                    first.file_index == fi && first.start_token == si,
                    distinct_positions(insts@),
                    valid_instance(files@, first, w as int),
                    forall|t: int| 0 <= t < pos@.len() ==> #[trigger] valid_position(files@, pos@[t], w as int),
                    forall|t: int| 0 <= t < insts@.len() ==> #[trigger] valid_instance(files@, insts@[t], w as int),
                    forall|t: int|
                        0 <= t < insts@.len() ==> same_window(
                            files@[fi as int]@,
                            si as int,
                            files@[#[trigger] insts@[t].file_index as int]@,
                            insts@[t].start_token as int,
                            w as int,
                        ),
                    forall|t: int|
                        i < t < j && pos_match(files@, pos@[i as int], #[trigger] pos@[t], w as int) ==> has_pos(
                            insts@,
                            pos@[t].1,
                            pos@[t].2,
                        ),
                decreases b - j,
            {
                let (_, fj, sj) = pos[j];
                assert(valid_position(files@, pos@[j as int], w as int));
                let _gl = files[fj].len();
                let ghost before = insts@;
                if tokens_match(files[fi].as_slice(), si, files[fj].as_slice(), sj, w) {
                    if !has_position(&insts, fj, sj) {
                        let inst = make_instance(fj, sj, w);
                        insts.push(inst);
                        assert(insts@ == before.push(inst));
                        assert(insts@[before.len() as int] == inst);
                        assert forall|t: int|
                            i < t < j && pos_match(files@, pos@[i as int], #[trigger] pos@[t], w as int) implies has_pos(
                            insts@,
                            pos@[t].1,
                            pos@[t].2,
                        ) by {
                            let kk = choose|kk: int| 0 <= kk < before.len() && (#[trigger] before[kk]).file_index == pos@[t].1
                                && before[kk].start_token == pos@[t].2;
                            assert(insts@[kk] == before[kk]);
                        }
                    }
                }
                j = j + 1;
            }
            if insts.len() >= 2 {
                proof {
                    assert forall|k: int| 0 <= k < insts@.len() implies same_window(
                        files@[insts@[0].file_index as int]@,
                        insts@[0].start_token as int,
                        files@[#[trigger] insts@[k].file_index as int]@,
                        insts@[k].start_token as int,
                        w as int,
                    ) by {
                        assert(same_window(
                            files@[fi as int]@,
                            si as int,
                            files@[insts@[k].file_index as int]@,
                            insts@[k].start_token as int,
                            w as int,
                        ));
                    }
                }
                let ghost gold = groups@;
                let g = CloneGroup { instances: insts, token_count: w as u32 };
                groups.push(g);
                proof {
                    gof = gof.insert(i as int, gold.len() as int);
                    assert(groups@ == gold.push(g));
                    assert(has_pos(g.instances@, fi, si)) by {
                        assert(g.instances@[0] == first);
                    }
                    assert forall|x: int| 0 <= x < gold.len() implies groups@[x] == gold[x] by {}
                    assert(groups@.subrange(0, g0.len() as int) =~= g0) by {
                        assert forall|x: int| 0 <= x < g0.len() implies groups@[x] == g0[x] by {
                            assert(gold.subrange(0, g0.len() as int)[x] == g0[x]);
                        }
                    }
                }
            } else {
                proof {
                    assert forall|t: int| i < t < b && pos_match(files@, pos@[i as int], #[trigger] pos@[t], w as int) implies
                        (pos@[i as int].1 == pos@[t].1 && pos@[i as int].2 == pos@[t].2) by {
                        let kk = choose|kk: int| 0 <= kk < insts@.len() && (#[trigger] insts@[kk]).file_index == pos@[t].1
                            && insts@[kk].start_token == pos@[t].2;
                        assert(kk == 0);
                    }
                }
            }
        }
        proof {
            assert forall|l: int, j: int|
                a <= l < i + 1 && l < j < b && is_leader(files@, pos@, a as int, l, w as int) && pos_match(
                    files@,
                    #[trigger] pos@[l],
                    #[trigger] pos@[j],
                    w as int,
                ) && !(pos@[l].1 == pos@[j].1 && pos@[l].2 == pos@[j].2) implies {
                    &&& gof.contains_key(l)
                    &&& 0 <= gof[l] < groups@.len()
                    &&& has_pos(groups@[gof[l]].instances@, pos@[l].1, pos@[l].2)
                    &&& has_pos(groups@[gof[l]].instances@, pos@[j].1, pos@[j].2)
                } by {
                    if l == i {
                        assert(leader);
                    }
                }
        }
        i = i + 1;
    }
    proof {
        assert forall|p: int, q: int|
            a <= p < b && a <= q < b && pos_match(files@, #[trigger] pos@[p], #[trigger] pos@[q], w as int) && !(
            pos@[p].1 == pos@[q].1 && pos@[p].2 == pos@[q].2) implies grouped(
                groups@,
                pos@[p].1,
                pos@[p].2,
                pos@[q].1,
                pos@[q].2,
            ) by {
            let m = if p < q { p } else { q };
            let o = if p < q { q } else { p };
            if p < q {
            } else {
                lemma_match_symmetric(files@, pos@[p], pos@[q], w as int);
            }
            assert(pos_match(files@, pos@[m], pos@[o], w as int));
            let l = lemma_leader_of(files@, pos@, a as int, m, w as int);
            if l != m {
                lemma_match_transitive(files@, pos@[l], pos@[m], pos@[o], w as int);
            }
            assert(pos_match(files@, pos@[l], pos@[o], w as int));
            let gi = gof[l];
            if !(pos@[l].1 == pos@[o].1 && pos@[l].2 == pos@[o].2) {
                assert(has_pos(groups@[gi].instances@, pos@[o].1, pos@[o].2));
                assert(has_pos(groups@[gi].instances@, pos@[l].1, pos@[l].2));
                if l != m {
                    if !(pos@[l].1 == pos@[m].1 && pos@[l].2 == pos@[m].2) {
                        assert(has_pos(groups@[gof[l]].instances@, pos@[m].1, pos@[m].2));
                    }
                }
                assert(has_pos(groups@[gi].instances@, pos@[m].1, pos@[m].2));
            } else {
                assert(l != m);
                assert(!(pos@[l].1 == pos@[m].1 && pos@[l].2 == pos@[m].2));
                assert(has_pos(groups@[gi].instances@, pos@[m].1, pos@[m].2));
                assert(has_pos(groups@[gi].instances@, pos@[l].1, pos@[l].2));
                assert(has_pos(groups@[gi].instances@, pos@[o].1, pos@[o].2));
            }
            assert(has_pos(groups@[gi].instances@, pos@[p].1, pos@[p].2));
            assert(has_pos(groups@[gi].instances@, pos@[q].1, pos@[q].2));
        }
    }
}

/// The intervals of file `f` over all groups.
fn windows_of_file(groups: &Vec<CloneGroup>, f: usize, len: usize, w: usize, ghost_files: Ghost<Seq<Vec<Token>>>) -> (r: Vec<(usize, usize)>)
    requires
        f < ghost_files@.len(),
        len == ghost_files@[f as int]@.len(),
        forall|i: int| 0 <= i < groups@.len() ==> #[trigger] valid_group(ghost_files@, groups@[i], w as int),
    ensures
        r@ == group_windows(groups@, f as int),
        well_formed(r@),
        ends_by(r@, len as int),
{
    let mut out: Vec<(usize, usize)> = Vec::new();
    let mut gi: usize = 0;
    while gi < groups.len()
        invariant
            gi <= groups@.len(),
            f < ghost_files@.len(),
            len == ghost_files@[f as int]@.len(),
            forall|i: int| 0 <= i < groups@.len() ==> #[trigger] valid_group(ghost_files@, groups@[i], w as int),
            out@ == group_windows(groups@.subrange(0, gi as int), f as int),
            well_formed(out@),
            ends_by(out@, len as int),
        decreases groups@.len() - gi,
    {
        let g = &groups[gi];
        assert(valid_group(ghost_files@, groups@[gi as int], w as int));
        let ghost base = out@;
        let mut k: usize = 0;
        while k < g.instances.len()
            invariant
                gi < groups@.len(),
                *g == groups@[gi as int],
                valid_group(ghost_files@, *g, w as int),
                k <= g.instances@.len(),
                f < ghost_files@.len(),
                len == ghost_files@[f as int]@.len(),
                out@ == base + instance_windows(g.instances@.subrange(0, k as int), f as int),
                well_formed(out@),
                ends_by(out@, len as int),
            decreases g.instances@.len() - k,
        {
            let inst = g.instances[k];
            assert(valid_instance(ghost_files@, g.instances@[k as int], w as int));
            assert(g.instances@.subrange(0, k + 1).drop_last() =~= g.instances@.subrange(0, k as int));
            if inst.file_index == f {
                out.push((inst.start_token, inst.end_token));
            }
            assert(out@ =~= base + instance_windows(g.instances@.subrange(0, k + 1), f as int));
            k = k + 1;
        }
        assert(g.instances@.subrange(0, k as int) =~= g.instances@);
        assert(groups@.subrange(0, gi + 1).drop_last() =~= groups@.subrange(0, gi as int));
        gi = gi + 1;
    }
    assert(groups@.subrange(0, gi as int) =~= groups@);
    out
}

/// Windows of the same kinds, in token streams whose hashes are those of
/// their kinds, have the same hash.
proof fn lemma_same_window_same_hash(a: Seq<Token>, sa: int, b: Seq<Token>, sb: int, w: int)
    requires
        crate::tokens::hashes_ok(a),
        crate::tokens::hashes_ok(b),
        0 <= sa,
        0 <= sb,
        0 <= w,
        sa + w <= a.len(),
        sb + w <= b.len(),
        same_window(a, sa, b, sb, w),
    ensures
        wpoly(a, sa, w) == wpoly(b, sb, w),
    decreases w,
{
    if w > 0 {
        assert(same_window(a, sa, b, sb, w - 1));
        lemma_same_window_same_hash(a, sa, b, sb, w - 1);
        assert(a[sa + (w - 1)].kind@ == b[sb + (w - 1)].kind@);
        assert(a[sa + w - 1].kind_hash == crate::tokens::kind_hash_spec(a[sa + w - 1].kind@));
        assert(b[sb + w - 1].kind_hash == crate::tokens::kind_hash_spec(b[sb + w - 1].kind@));
    }
}

/// Number of the first `k` windows of `ws` whose hash is `h`.
pub open spec fn count_hash(ws: Seq<(u64, usize, usize)>, h: u64, k: int) -> nat
    decreases k,
{
    if k <= 0 || k > ws.len() {
        0
    } else {
        count_hash(ws, h, k - 1) + if ws[k - 1].0 == h { 1nat } else { 0nat }
    }
}

/// Number of windows of `ws` whose hash is `h`: the size of that bucket.
pub open spec fn bucket_size(ws: Seq<(u64, usize, usize)>, h: u64) -> nat {
    count_hash(ws, h, ws.len() as int)
}

proof fn lemma_run_count(ws: Seq<(u64, usize, usize)>, h: u64, a: int, b: int, k: int)
    requires
        forall|i: int, j: int| 0 <= i < j < ws.len() ==> (#[trigger] ws[i]).0 <= (#[trigger] ws[j]).0,
        0 <= a < b <= ws.len(),
        forall|i: int| a <= i < b ==> (#[trigger] ws[i]).0 == h,
        a == 0 || ws[a - 1].0 != h,
        b == ws.len() || ws[b].0 != h,
        0 <= k <= ws.len(),
    ensures
        count_hash(ws, h, k) == if k <= a { 0 } else if k <= b { k - a } else { b - a },
    decreases k,
{
    if k > 0 {
        lemma_run_count(ws, h, a, b, k - 1);
        if k - 1 < a {
            assert(ws[k - 1].0 <= ws[a - 1].0 || k - 1 == a - 1);
            assert(ws[a - 1].0 <= ws[a].0);
        }
        if k - 1 >= b {
            assert(ws[b].0 <= ws[k - 1].0 || k - 1 == b);
            assert(ws[b - 1].0 <= ws[b].0);
        }
    }
}

proof fn lemma_grouped_extend(old: Seq<CloneGroup>, new: Seq<CloneGroup>, f1: usize, s1: usize, f2: usize, s2: usize)
    requires
        new.len() >= old.len(),
        new.subrange(0, old.len() as int) == old,
        grouped(old, f1, s1, f2, s2),
    ensures
        grouped(new, f1, s1, f2, s2),
{
    let g = choose|g: int| 0 <= g < old.len() && has_pos((#[trigger] old[g]).instances@, f1, s1) && has_pos(old[g].instances@, f2, s2);
    assert(new.subrange(0, old.len() as int)[g] == new[g]);
}

/// Every group of `gs` is a clone group of `w`-token windows of `files`.
pub open spec fn sound(files: Seq<Vec<Token>>, gs: Seq<CloneGroup>, w: int) -> bool {
    forall|i: int| 0 <= i < gs.len() ==> #[trigger] valid_group(files, gs[i], w)
}

/// `ws` lists every `w`-token window of `files`, each with its hash.
pub open spec fn windows_exact(files: Seq<Vec<Token>>, ws: Seq<(u64, usize, usize)>, w: int) -> bool {
    &&& forall|i: int| 0 <= i < ws.len() ==> #[trigger] hashed_position(files, ws[i], w)
    &&& forall|f: usize, s: usize| f < files.len() && s + w <= files[f as int]@.len() ==> #[trigger] listed(ws, f, s)
}

/// Every two windows at different places with the same kinds share a
/// group of `gs`, unless their bucket in `ws` is outside `2..=MAX_BUCKET_SIZE`.
pub open spec fn complete(files: Seq<Vec<Token>>, ws: Seq<(u64, usize, usize)>, gs: Seq<CloneGroup>, w: int) -> bool {
    forall|f1: usize, s1: usize, f2: usize, s2: usize|
        f1 < files.len() && f2 < files.len() && s1 + w <= files[f1 as int]@.len() && s2 + w <= files[f2 as int]@.len()
            && !(f1 == f2 && s1 == s2) && #[trigger] same_window(files[f1 as int]@, s1 as int, files[f2 as int]@, s2 as int, w)
            && 2 <= bucket_size(ws, window_hash(files[f1 as int]@, s1 as int, w)) <= MAX_BUCKET_SIZE ==> grouped(gs, f1, s1, f2, s2)
}

proof fn lemma_instance_window_in(is: Seq<CloneInstance>, f: int, k: int)
    requires
        0 <= k < is.len(),
        is[k].file_index == f,
    ensures
        instance_windows(is, f).contains((is[k].start_token, is[k].end_token)),
    decreases is.len(),
{
    let iw = instance_windows(is.drop_last(), f);
    if k == is.len() - 1 {
        let tail = seq![(is.last().start_token, is.last().end_token)];
        assert(instance_windows(is, f) == iw + tail);
        assert((iw + tail)[iw.len() as int] == tail[0]);
    } else {
        lemma_instance_window_in(is.drop_last(), f, k);
        assert(is.drop_last()[k] == is[k]);
        let j = choose|j: int| 0 <= j < iw.len() && iw[j] == (is[k].start_token, is[k].end_token);
        let rest = if is.last().file_index == f { seq![(is.last().start_token, is.last().end_token)] } else { seq![] };
        assert(instance_windows(is, f) == iw + rest);
        assert((iw + rest)[j] == iw[j]);
    }
}

proof fn lemma_group_window_in(gs: Seq<CloneGroup>, f: int, g: int, k: int)
    requires
        0 <= g < gs.len(),
        0 <= k < gs[g].instances@.len(),
        gs[g].instances@[k].file_index == f,
    ensures
        group_windows(gs, f).contains((gs[g].instances@[k].start_token, gs[g].instances@[k].end_token)),
    decreases gs.len(),
{
    let gw = group_windows(gs.drop_last(), f);
    let iw = instance_windows(gs.last().instances@, f);
    assert(group_windows(gs, f) == gw + iw);
    let x = (gs[g].instances@[k].start_token, gs[g].instances@[k].end_token);
    if g == gs.len() - 1 {
        lemma_instance_window_in(gs.last().instances@, f, k);
        let j = choose|j: int| 0 <= j < iw.len() && iw[j] == x;
        assert((gw + iw)[gw.len() + j] == iw[j]);
    } else {
        assert(gs.drop_last()[g] == gs[g]);
        lemma_group_window_in(gs.drop_last(), f, g, k);
        let j = choose|j: int| 0 <= j < gw.len() && gw[j] == x;
        assert((gw + iw)[j] == gw[j]);
    }
}

proof fn lemma_instance_window_from(is: Seq<CloneInstance>, f: int, j: int) -> (k: int)
    requires
        0 <= j < instance_windows(is, f).len(),
    ensures
        0 <= k < is.len(),
        is[k].file_index == f,
        instance_windows(is, f)[j] == (is[k].start_token, is[k].end_token),
    decreases is.len(),
{
    let iw = instance_windows(is.drop_last(), f);
    let rest = if is.last().file_index == f { seq![(is.last().start_token, is.last().end_token)] } else { seq![] };
    assert(instance_windows(is, f) == iw + rest);
    if j < iw.len() {
        let k = lemma_instance_window_from(is.drop_last(), f, j);
        assert(is.drop_last()[k] == is[k]);
        assert((iw + rest)[j] == iw[j]);
        k
    } else {
        assert((iw + rest)[j] == rest[j - iw.len()]);
        (is.len() - 1) as int
    }
}

proof fn lemma_group_window_from(gs: Seq<CloneGroup>, f: int, j: int) -> (gk: (int, int))
    requires
        0 <= j < group_windows(gs, f).len(),
    ensures
        0 <= gk.0 < gs.len(),
        0 <= gk.1 < gs[gk.0].instances@.len(),
        gs[gk.0].instances@[gk.1].file_index == f,
        group_windows(gs, f)[j] == (gs[gk.0].instances@[gk.1].start_token, gs[gk.0].instances@[gk.1].end_token),
    decreases gs.len(),
{
    let gw = group_windows(gs.drop_last(), f);
    let iw = instance_windows(gs.last().instances@, f);
    assert(group_windows(gs, f) == gw + iw);
    if j < gw.len() {
        let gk = lemma_group_window_from(gs.drop_last(), f, j);
        assert(gs.drop_last()[gk.0] == gs[gk.0]);
        assert((gw + iw)[j] == gw[j]);
        gk
    } else {
        let k = lemma_instance_window_from(gs.last().instances@, f, j - gw.len());
        assert((gw + iw)[j] == iw[j - gw.len()]);
        ((gs.len() - 1) as int, k)
    }
}

proof fn lemma_count_covered_mono(a: Seq<(usize, usize)>, b: Seq<(usize, usize)>, n: int)
    requires
        forall|x: int| 0 <= x < n && crate::intervals::covered(a, x) ==> crate::intervals::covered(b, x),
    ensures
        crate::intervals::count_covered(a, n) <= crate::intervals::count_covered(b, n),
    decreases n,
{
    if n > 0 {
        lemma_count_covered_mono(a, b, n - 1);
    }
}

proof fn lemma_count_hash_one(ws: Seq<(u64, usize, usize)>, h: u64, i: int, k: int)
    requires
        0 <= i < k <= ws.len(),
        ws[i].0 == h,
    ensures
        count_hash(ws, h, k) >= 1,
    decreases k,
{
    if k - 1 != i {
        lemma_count_hash_one(ws, h, i, k - 1);
    }
}

proof fn lemma_count_hash_two(ws: Seq<(u64, usize, usize)>, h: u64, i: int, j: int, k: int)
    requires
        0 <= i < j < k <= ws.len(),
        ws[i].0 == h,
        ws[j].0 == h,
    ensures
        count_hash(ws, h, k) >= 2,
    decreases k,
{
    if k - 1 == j {
        lemma_count_hash_one(ws, h, i, k - 1);
    } else {
        lemma_count_hash_two(ws, h, i, j, k - 1);
    }
}

proof fn lemma_window_sym(a: Seq<Token>, sa: int, b: Seq<Token>, sb: int, w: int)
    requires
        same_window(a, sa, b, sb, w),
    ensures
        same_window(b, sb, a, sa, w),
{
    assert forall|k: int| 0 <= k < w implies #[trigger] b[sb + k].kind@ == a[sa + k].kind@ by {
        assert(a[sa + k].kind@ == b[sb + k].kind@);
    }
}

proof fn lemma_window_trans(a: Seq<Token>, sa: int, b: Seq<Token>, sb: int, c: Seq<Token>, sc: int, w: int)
    requires
        same_window(a, sa, b, sb, w),
        same_window(b, sb, c, sc, w),
    ensures
        same_window(a, sa, c, sc, w),
{
    assert forall|k: int| 0 <= k < w implies #[trigger] a[sa + k].kind@ == c[sc + k].kind@ by {
        assert(a[sa + k].kind@ == b[sb + k].kind@);
        assert(b[sb + k].kind@ == c[sc + k].kind@);
    }
}

/// Every point that a `w2`-window clone covers in file `f` is covered by a
/// `w1`-window clone when `w1 <= w2`, provided no bucket of the `w1` run
/// was too large to verify.
proof fn lemma_covered_shrinks(
    files: Seq<Vec<Token>>,
    w1: int,
    ws1: Seq<(u64, usize, usize)>,
    gs1: Seq<CloneGroup>,
    w2: int,
    gs2: Seq<CloneGroup>,
    f: int,
    x: int,
)
    requires
        0 < w1 <= w2,
        forall|t: int| 0 <= t < files.len() ==> crate::tokens::hashes_ok(#[trigger] files[t]@),
        windows_exact(files, ws1, w1),
        complete(files, ws1, gs1, w1),
        sound(files, gs1, w1),
        sound(files, gs2, w2),
        forall|h: u64| #[trigger] bucket_size(ws1, h) <= MAX_BUCKET_SIZE,
        0 <= f < files.len(),
        crate::intervals::covered(group_windows(gs2, f), x),
    ensures
        crate::intervals::covered(group_windows(gs1, f), x),
{
    let iv2 = group_windows(gs2, f);
    let j = choose|j: int| 0 <= j < iv2.len() && #[trigger] iv2[j].0 <= x && x < iv2[j].1;
    let gk = lemma_group_window_from(gs2, f, j);
    let g = gs2[gk.0];
    assert(valid_group(files, g, w2));
    let inst = g.instances@[gk.1];
    let other_k: int = if gk.1 == 0 { 1 } else { 0 };
    let other = g.instances@[other_k];
    assert(valid_instance(files, inst, w2));
    assert(valid_instance(files, other, w2));
    let fs = files[inst.file_index as int]@;
    let fo = files[other.file_index as int]@;
    let first = g.instances@[0];
    let f0 = files[first.file_index as int]@;
    assert(same_window(f0, first.start_token as int, fs, inst.start_token as int, w2));
    assert(same_window(f0, first.start_token as int, fo, other.start_token as int, w2));
    lemma_window_sym(f0, first.start_token as int, fs, inst.start_token as int, w2);
    lemma_window_trans(fs, inst.start_token as int, f0, first.start_token as int, fo, other.start_token as int, w2);
    assert(inst.file_index != other.file_index || inst.start_token != other.start_token) by {
        if gk.1 < other_k {
            assert(distinct_positions(g.instances@));
        } else {
            assert(distinct_positions(g.instances@));
        }
    }
    let d: int = if x - inst.start_token <= w2 - w1 { x - inst.start_token } else { w2 - w1 };
    let s1 = (inst.start_token + d) as usize;
    let t1 = (other.start_token + d) as usize;
    assert(same_window(fs, s1 as int, fo, t1 as int, w1)) by {
        assert forall|k: int| 0 <= k < w1 implies #[trigger] fs[s1 + k].kind@ == fo[t1 + k].kind@ by {
            assert(fs[inst.start_token + (d + k)].kind@ == fo[other.start_token + (d + k)].kind@);
        }
    }
    let fa = inst.file_index;
    let fb = other.file_index;
    assert(s1 + w1 <= files[fa as int]@.len());
    assert(t1 + w1 <= files[fb as int]@.len());
    assert(listed(ws1, fa, s1));
    assert(listed(ws1, fb, t1));
    let ia = choose|k: int| 0 <= k < ws1.len() && (#[trigger] ws1[k]).1 == fa && ws1[k].2 == s1;
    let ib = choose|k: int| 0 <= k < ws1.len() && (#[trigger] ws1[k]).1 == fb && ws1[k].2 == t1;
    assert(hashed_position(files, ws1[ia], w1));
    assert(hashed_position(files, ws1[ib], w1));
    assert(crate::tokens::hashes_ok(files[fa as int]@));
    assert(crate::tokens::hashes_ok(files[fb as int]@));
    lemma_same_window_same_hash(fs, s1 as int, fo, t1 as int, w1);
    let h = window_hash(fs, s1 as int, w1);
    assert(ws1[ia].0 == h && ws1[ib].0 == h);
    assert(ia != ib);
    if ia < ib {
        lemma_count_hash_two(ws1, h, ia, ib, ws1.len() as int);
    } else {
        lemma_count_hash_two(ws1, h, ib, ia, ws1.len() as int);
    }
    assert(bucket_size(ws1, h) <= MAX_BUCKET_SIZE);
    assert(grouped(gs1, fa, s1, fb, t1));
    let g1 = choose|g1: int| 0 <= g1 < gs1.len() && has_pos((#[trigger] gs1[g1]).instances@, fa, s1) && has_pos(gs1[g1].instances@, fb, t1);
    let k1 = choose|k1: int| 0 <= k1 < gs1[g1].instances@.len() && (#[trigger] gs1[g1].instances@[k1]).file_index == fa
        && gs1[g1].instances@[k1].start_token == s1;
    assert(valid_group(files, gs1[g1], w1));
    assert(valid_instance(files, gs1[g1].instances@[k1], w1));
    lemma_group_window_in(gs1, f, g1, k1);
    let iv1 = group_windows(gs1, f);
    let jj = choose|jj: int| 0 <= jj < iv1.len() && iv1[jj] == (gs1[g1].instances@[k1].start_token, gs1[g1].instances@[k1].end_token);
    assert(iv1[jj].0 <= x && x < iv1[jj].1);
}

proof fn lemma_cloned_len_mono(
    files: Seq<Vec<Token>>,
    w1: int,
    ws1: Seq<(u64, usize, usize)>,
    gs1: Seq<CloneGroup>,
    w2: int,
    gs2: Seq<CloneGroup>,
    k: int,
)
    requires
        0 < w1 <= w2,
        forall|t: int| 0 <= t < files.len() ==> crate::tokens::hashes_ok(#[trigger] files[t]@),
        windows_exact(files, ws1, w1),
        complete(files, ws1, gs1, w1),
        sound(files, gs1, w1),
        sound(files, gs2, w2),
        forall|h: u64| #[trigger] bucket_size(ws1, h) <= MAX_BUCKET_SIZE,
        0 <= k <= files.len(),
    ensures
        cloned_len(gs2, k) <= cloned_len(gs1, k),
    decreases k,
{
    if k > 0 {
        lemma_cloned_len_mono(files, w1, ws1, gs1, w2, gs2, k - 1);
        assert forall|x: int| 0 <= x < usize::MAX && #[trigger] crate::intervals::covered(group_windows(gs2, k - 1), x) implies
            crate::intervals::covered(group_windows(gs1, k - 1), x) by {
            lemma_covered_shrinks(files, w1, ws1, gs1, w2, gs2, k - 1, x);
        }
        lemma_count_covered_mono(group_windows(gs2, k - 1), group_windows(gs1, k - 1), usize::MAX as int);
    }
}

/// Clone detection with a larger window never finds more cloned tokens, so
/// the duplication percentage cannot grow with `min_tokens`; this holds
/// whenever no bucket of the smaller window was too large to verify.
pub proof fn lemma_duplication_monotone(
    files: Seq<Vec<Token>>,
    w1: u32,
    r1: DuplicationResult,
    w2: u32,
    r2: DuplicationResult,
)
    requires
        0 < w1 <= w2,
        forall|t: int| 0 <= t < files.len() ==> crate::tokens::hashes_ok(#[trigger] files[t]@),
        windows_exact(files, r1.windows@, w1 as int),
        complete(files, r1.windows@, r1.clone_groups@, w1 as int),
        sound(files, r1.clone_groups@, w1 as int),
        sound(files, r2.clone_groups@, w2 as int),
        r1.cloned_tokens == cloned_len(r1.clone_groups@, files.len() as int),
        r2.cloned_tokens == cloned_len(r2.clone_groups@, files.len() as int),
        forall|h: u64| #[trigger] bucket_size(r1.windows@, h) <= MAX_BUCKET_SIZE,
    ensures
        r2.cloned_tokens <= r1.cloned_tokens,
{
    lemma_cloned_len_mono(files, w1 as int, r1.windows@, r1.clone_groups@, w2 as int, r2.clone_groups@, files.len() as int);
}

/// Finds clone groups of `min_tokens`-token windows across `files`, and
/// counts total and cloned tokens. Every two windows at different places
/// with the same kinds share a group, unless their hash bucket is larger
/// than `MAX_BUCKET_SIZE`. No windows are searched when `min_tokens` is 0.
pub fn detect_duplication(files: &Vec<Vec<Token>>, min_tokens: u32) -> (r: DuplicationResult)
    requires
        total_len(files@, files@.len() as int) <= usize::MAX,
        forall|f: int| 0 <= f < files@.len() ==> crate::tokens::hashes_ok(#[trigger] files@[f]@),
    ensures
        min_tokens > 0 ==> windows_exact(files@, r.windows@, min_tokens as int),
        forall|i: int, j: int| 0 <= i < j < r.windows@.len() ==> triple_le(#[trigger] r.windows@[i], #[trigger] r.windows@[j]),
        min_tokens == 0 ==> r.windows@.len() == 0,
        min_tokens > 0 ==> complete(files@, r.windows@, r.clone_groups@, min_tokens as int),
        r.total_tokens == total_len(files@, files@.len() as int),
        r.cloned_tokens == cloned_len(r.clone_groups@, files@.len() as int),
        r.cloned_tokens <= r.total_tokens,
        r.file_cloned@.len() == files@.len(),
        forall|f: int| 0 <= f < files@.len() ==> #[trigger] r.file_cloned@[f] == union_size(group_windows(r.clone_groups@, f))
            && r.file_cloned@[f] <= files@[f]@.len(),
        sound(files@, r.clone_groups@, min_tokens as int),
        min_tokens == 0 ==> r.clone_groups@.len() == 0,
{
    let w = min_tokens as usize;
    let mut groups: Vec<CloneGroup> = Vec::new();
    let mut pos: Vec<(u64, usize, usize)> = Vec::new();
    if w > 0 {
        pos = window_positions(files, w);
        let ghost before = pos@;
        sort_triples(&mut pos);
        proof {
            broadcast use vstd::seq_lib::group_to_multiset_ensures;
            assert forall|i: int| 0 <= i < pos@.len() implies #[trigger] hashed_position(files@, pos@[i], w as int) by {
                assert(pos@.contains(pos@[i]));
                assert(before.to_multiset().contains(pos@[i]));
                assert(before.contains(pos@[i]));
                let j = choose|j: int| 0 <= j < before.len() && before[j] == pos@[i];
                assert(hashed_position(files@, before[j], w as int));
            }
            assert forall|f: usize, s: usize| f < files@.len() && s + w <= files@[f as int]@.len() implies #[trigger] listed(pos@, f, s) by {
                assert(listed(before, f, s));
                let k = choose|k: int| 0 <= k < before.len() && (#[trigger] before[k]).1 == f && before[k].2 == s;
                assert(before.contains(before[k]));
                assert(pos@.to_multiset().contains(before[k]));
                assert(pos@.contains(before[k]));
                let j = choose|j: int| 0 <= j < pos@.len() && pos@[j] == before[k];
                assert(pos@[j].1 == f && pos@[j].2 == s);
            }
        }
        let mut a: usize = 0;
        while a < pos.len()
            invariant
                a <= pos@.len(),
                w >= 1,
                w == min_tokens,
                forall|t: int| 0 <= t < pos@.len() ==> #[trigger] hashed_position(files@, pos@[t], w as int),
                forall|i: int, j: int| 0 <= i < j < pos@.len() ==> triple_le(#[trigger] pos@[i], #[trigger] pos@[j]),
                forall|t: int| 0 <= t < groups@.len() ==> #[trigger] valid_group(files@, groups@[t], w as int),
                a == 0 || a == pos@.len() || pos@[a - 1].0 != pos@[a as int].0,
                forall|p: int, q: int|
                    0 <= p < a && 0 <= q < a && pos@[p].0 == pos@[q].0 && pos_match(files@, #[trigger] pos@[p], #[trigger] pos@[q], w as int)
                        && !(pos@[p].1 == pos@[q].1 && pos@[p].2 == pos@[q].2) && 2 <= bucket_size(pos@, pos@[p].0) <= MAX_BUCKET_SIZE
                        ==> grouped(groups@, pos@[p].1, pos@[p].2, pos@[q].1, pos@[q].2),
            decreases pos@.len() - a,
        {
            let h = pos[a].0;
            let mut b: usize = a + 1;
            while b < pos.len() && pos[b].0 == h
                invariant
                    a < b <= pos@.len(),
                    h == pos@[a as int].0,
                    forall|t: int| a <= t < b ==> (#[trigger] pos@[t]).0 == h,
                decreases pos@.len() - b,
            {
                b = b + 1;
            }
            let ghost gold = groups@;
            proof {
                assert forall|i: int, j: int| 0 <= i < j < pos@.len() implies (#[trigger] pos@[i]).0 <= (#[trigger] pos@[j]).0 by {
                    assert(triple_le(pos@[i], pos@[j]));
                }
                lemma_run_count(pos@, h, a as int, b as int, pos@.len() as int);
            }
            let size = b - a;
            if size >= 2 && size <= MAX_BUCKET_SIZE {
                proof {
                    assert forall|t: int| 0 <= t < pos@.len() implies #[trigger] valid_position(files@, pos@[t], w as int) by {
                        assert(hashed_position(files@, pos@[t], w as int));
                    }
                }
                verify_bucket(files, &pos, a, b, w, &mut groups);
            }
            assert(groups@.subrange(0, gold.len() as int) =~= gold);
            assert(groups@.len() >= gold.len());
            proof {
                assert forall|p: int, q: int|
                    0 <= p < b && 0 <= q < b && pos@[p].0 == pos@[q].0 && pos_match(files@, #[trigger] pos@[p], #[trigger] pos@[q], w as int)
                        && !(pos@[p].1 == pos@[q].1 && pos@[p].2 == pos@[q].2) && 2 <= bucket_size(pos@, pos@[p].0) <= MAX_BUCKET_SIZE
                        implies grouped(groups@, pos@[p].1, pos@[p].2, pos@[q].1, pos@[q].2) by {
                    if p < a && q < a {
                        lemma_grouped_extend(gold, groups@, pos@[p].1, pos@[p].2, pos@[q].1, pos@[q].2);
                    } else if p >= a && q >= a {
                        assert(pos@[p].0 == h);
                        assert(bucket_size(pos@, h) == b - a);
                    } else if p < a {
                        assert(pos@[a - 1].0 <= pos@[a as int].0 || p == a - 1);
                        assert(pos@[p].0 <= pos@[a - 1].0 || p == a - 1);
                        assert(pos@[a - 1].0 <= pos@[a as int].0) by { assert(triple_le(pos@[a - 1], pos@[a as int])); }
                        assert(pos@[q].0 == h);
                    } else {
                        assert(pos@[a - 1].0 <= pos@[a as int].0) by { assert(triple_le(pos@[a - 1], pos@[a as int])); }
                        assert(pos@[p].0 == h);
                    }
                }
            }
            a = b;
        }
        proof {
            assert forall|f1: usize, s1: usize, f2: usize, s2: usize|
                f1 < files@.len() && f2 < files@.len() && s1 + min_tokens <= files@[f1 as int]@.len() && s2 + min_tokens
                    <= files@[f2 as int]@.len() && !(f1 == f2 && s1 == s2) && #[trigger] same_window(
                    files@[f1 as int]@,
                    s1 as int,
                    files@[f2 as int]@,
                    s2 as int,
                    min_tokens as int,
                ) && 2 <= bucket_size(pos@, window_hash(files@[f1 as int]@, s1 as int, min_tokens as int))
                    <= MAX_BUCKET_SIZE implies grouped(groups@, f1, s1, f2, s2) by {
                assert(listed(pos@, f1, s1));
                assert(listed(pos@, f2, s2));
                let ip = choose|k: int| 0 <= k < pos@.len() && (#[trigger] pos@[k]).1 == f1 && pos@[k].2 == s1;
                let iq = choose|k: int| 0 <= k < pos@.len() && (#[trigger] pos@[k]).1 == f2 && pos@[k].2 == s2;
                assert(hashed_position(files@, pos@[ip], w as int));
                assert(hashed_position(files@, pos@[iq], w as int));
                assert(crate::tokens::hashes_ok(files@[f1 as int]@));
                assert(crate::tokens::hashes_ok(files@[f2 as int]@));
                lemma_same_window_same_hash(files@[f1 as int]@, s1 as int, files@[f2 as int]@, s2 as int, w as int);
                assert(pos@[ip].0 == pos@[iq].0);
                assert(pos_match(files@, pos@[ip], pos@[iq], w as int));
            }
        }
    }
    let mut total: usize = 0;
    let mut cloned: usize = 0;
    let mut per_file: Vec<usize> = Vec::new();
    let mut f: usize = 0;
    while f < files.len()
        invariant
            f <= files@.len(),
            per_file@.len() == f,
            forall|t: int| 0 <= t < f ==> #[trigger] per_file@[t] == union_size(group_windows(groups@, t))
                && per_file@[t] <= files@[t]@.len(),
            total_len(files@, files@.len() as int) <= usize::MAX,
            w as int == min_tokens as int,
            total == total_len(files@, f as int),
            cloned == cloned_len(groups@, f as int),
            cloned <= total,
            forall|t: int| 0 <= t < groups@.len() ==> #[trigger] valid_group(files@, groups@[t], min_tokens as int),
        decreases files@.len() - f,
    {
        proof {
            lemma_total_len_mono(files@, f + 1, files@.len() as int);
        }
        let len = files[f].len();
        let mut iv = windows_of_file(&groups, f, len, w, Ghost(files@));
        let c = count_merged_intervals(&mut iv);
        total = total + len;
        cloned = cloned + c;
        per_file.push(c);
        f = f + 1;
    }
    DuplicationResult { clone_groups: groups, total_tokens: total, cloned_tokens: cloned, file_cloned: per_file, windows: pos }
}

proof fn lemma_total_len_mono(files: Seq<Vec<Token>>, j: int, k: int)
    requires
        0 <= j <= k <= files.len(),
    ensures
        total_len(files, j) <= total_len(files, k),
    decreases k - j,
{
    if j < k {
        lemma_total_len_mono(files, j, k - 1);
    }
}

} // verus!
