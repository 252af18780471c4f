//! Logical line counting: lines that hold code, as opposed to blank lines,
//! comments and lines of braces alone.

use vstd::prelude::*;

verus! {

/// ASCII whitespace: space, tab, line feed, vertical tab, form feed, carriage return.
pub open spec fn is_ws(b: u8) -> bool {
    b == 32 || b == 9 || b == 10 || b == 11 || b == 12 || b == 13
}

/// `t` without its leading whitespace.
pub open spec fn trim_start(t: Seq<u8>) -> Seq<u8>
    decreases t.len(),
{
    if t.len() > 0 && is_ws(t[0]) {
        trim_start(t.drop_first())
    } else {
        t
    }
}

/// `t` without its trailing whitespace.
pub open spec fn trim_end(t: Seq<u8>) -> Seq<u8>
    decreases t.len(),
{
    if t.len() > 0 && is_ws(t.last()) {
        trim_end(t.drop_last())
    } else {
        t
    }
}

/// `t` without leading and trailing whitespace.
pub open spec fn trim(t: Seq<u8>) -> Seq<u8> {
    trim_end(trim_start(t))
}

/// Index of the first `\n` in `t` at or after `i`.
pub open spec fn newline_from(t: Seq<u8>, i: int) -> Option<int>
    decreases t.len() - i,
{
    if i < 0 || i >= t.len() {
        None
    } else if t[i] == 10 {
        Some(i)
    } else {
        newline_from(t, i + 1)
    }
}

/// Index of the first `*/` in `t` at or after `i`.
pub open spec fn close_from(t: Seq<u8>, i: int) -> Option<int>
    decreases t.len() - i,
{
    if i < 0 || i + 1 >= t.len() {
        None
    } else if t[i] == 42 && t[i + 1] == 47 {
        Some(i)
    } else {
        close_from(t, i + 1)
    }
}

/// A line made of braces alone: `{`, `}`, `};` or `},`.
pub open spec fn is_brace_line(l: Seq<u8>) -> bool {
    l == seq![123u8] || l == seq![125u8] || l == seq![125u8, 59u8] || l == seq![125u8, 44u8]
}

/// 1 when something other than whitespace follows the `*/` at `ci`.
pub open spec fn after_close(l: Seq<u8>, ci: int) -> nat {
    if trim(l.subrange(ci + 2, l.len() as int)).len() > 0 {
        1
    } else {
        0
    }
}

/// What one trimmed line adds to the count, and whether a block comment is
/// open after it.
pub open spec fn line_step(l: Seq<u8>, in_block: bool) -> (nat, bool) {
    if in_block {
        match close_from(l, 0) {
            Some(ci) => (after_close(l, ci), false),
            None => (0, true),
        }
    } else if l.len() == 0 || is_brace_line(l) {
        (0, false)
    } else if l.len() >= 2 && l[0] == 47 && l[1] == 47 {
        (0, false)
    } else if l.len() >= 2 && l[0] == 47 && l[1] == 42 {
        match close_from(l, 2) {
            Some(ci) => (after_close(l, ci), false),
            None => (0, true),
        }
    } else {
        (1, false)
    }
}

/// Logical lines of `t`, split at `\n`, starting inside a block comment when
/// `in_block` holds.
pub open spec fn logical_lines(t: Seq<u8>, in_block: bool) -> nat
    decreases t.len(),
{
    match newline_from(t, 0) {
        None => line_step(trim(t), in_block).0,
        Some(j) => {
            let s = line_step(trim(t.subrange(0, j)), in_block);
            if 0 <= j < t.len() {
                s.0 + logical_lines(t.subrange(j + 1, t.len() as int), s.1)
            } else {
                0
            }
        },
    }
}

/// The bytes of `source` from `start` to `end`, with `end` cut to the source.
pub open spec fn clipped(source: Seq<u8>, start: int, end: int) -> Seq<u8> {
    let e = if end < source.len() { end } else { source.len() as int };
    if start >= e {
        Seq::empty()
    } else {
        source.subrange(start, e)
    }
}

proof fn lemma_newline_bounds(t: Seq<u8>, i: int)
    requires
        0 <= i,
    ensures
        match newline_from(t, i) {
            Some(j) => i <= j < t.len() && t[j] == 10 && forall|k: int| i <= k < j ==> t[k] != 10,
            None => forall|k: int| i <= k < t.len() ==> t[k] != 10,
        },
    decreases t.len() - i,
{
    if i < t.len() && t[i] != 10 {
        lemma_newline_bounds(t, i + 1);
    }
}

proof fn lemma_newline_from_shift(t: Seq<u8>, lo: int, i: int)
    requires
        0 <= lo <= t.len(),
        0 <= i,
    ensures
        newline_from(t.subrange(lo, t.len() as int), i) == match newline_from(t, lo + i) {
            Some(j) => Some(j - lo),
            None => None::<int>,
        },
    decreases t.len() - lo - i,
{
    if lo + i < t.len() && t[lo + i] != 10 {
        lemma_newline_from_shift(t, lo, i + 1);
    }
}

/// Position of the first `\n` in `t` at or after `i`.
fn find_newline(t: &[u8], i: usize) -> (r: Option<usize>)
    requires
        i <= t@.len(),
    ensures
        match r {
            Some(j) => newline_from(t@, i as int) == Some(j as int) && j < t@.len(),
            None => newline_from(t@, i as int) == None::<int>,
        },
{
    let mut k: usize = i;
    while k < t.len()
        invariant
            i <= k <= t@.len(),
            newline_from(t@, i as int) == newline_from(t@, k as int),
        decreases t@.len() - k,
    {
        if t[k] == 10 {
            return Some(k);
        }
        k = k + 1;
    }
    None
}

/// Position of the first `*/` in `t[lo..hi]` at or after `lo + i`, relative to `lo`.
fn find_close(t: &[u8], lo: usize, hi: usize, i: usize) -> (r: Option<usize>)
    requires
        lo <= hi <= t@.len(),
        i <= hi - lo,
    ensures
        match r {
            Some(c) => close_from(t@.subrange(lo as int, hi as int), i as int) == Some(c as int)
                && c + 1 < hi - lo,
            None => close_from(t@.subrange(lo as int, hi as int), i as int) == None::<int>,
        },
{
    let ghost l = t@.subrange(lo as int, hi as int);
    let n = hi - lo;
    let mut k: usize = i;
    while k < n && n - k >= 2
        invariant
            n == hi - lo,
            lo <= hi <= t@.len(),
            i <= k <= hi - lo,
            l == t@.subrange(lo as int, hi as int),
            close_from(l, i as int) == close_from(l, k as int),
        decreases hi - lo - k,
    {
        if t[lo + k] == 42 && t[lo + k + 1] == 47 {
            return Some(k);
        }
        k = k + 1;
    }
    None
}

proof fn lemma_trim_start_step(t: Seq<u8>, lo: int, hi: int)
    requires
        0 <= lo < hi <= t.len(),
        is_ws(t[lo]),
    ensures
        trim_start(t.subrange(lo, hi)) == trim_start(t.subrange(lo + 1, hi)),
{
    assert(t.subrange(lo, hi).drop_first() =~= t.subrange(lo + 1, hi));
}

proof fn lemma_trim_end_step(t: Seq<u8>, lo: int, hi: int)
    requires
        0 <= lo < hi <= t.len(),
        is_ws(t[hi - 1]),
    ensures
        trim_end(t.subrange(lo, hi)) == trim_end(t.subrange(lo, hi - 1)),
{
    assert(t.subrange(lo, hi).drop_last() =~= t.subrange(lo, hi - 1));
}

/// Bounds of `t[lo..hi]` with whitespace trimmed from both ends.
fn trim_range(t: &[u8], lo: usize, hi: usize) -> (r: (usize, usize))
    requires
        lo <= hi <= t@.len(),
    ensures
        lo <= r.0 <= r.1 <= hi,
        t@.subrange(r.0 as int, r.1 as int) == trim(t@.subrange(lo as int, hi as int)),
{
    let mut a: usize = lo;
    while a < hi && is_ws_exec(t[a])
        invariant
            lo <= a <= hi <= t@.len(),
            trim_start(t@.subrange(lo as int, hi as int)) == trim_start(t@.subrange(a as int, hi as int)),
        decreases hi - a,
    {
        proof {
            lemma_trim_start_step(t@, a as int, hi as int);
        }
        a = a + 1;
    }
    let ghost s = t@.subrange(a as int, hi as int);
    assert(trim_start(s) == s);
    let mut b: usize = hi;
    while b > a && is_ws_exec(t[b - 1])
        invariant
            lo <= a <= b <= hi <= t@.len(),
            trim_end(s) == trim_end(t@.subrange(a as int, b as int)),
            s == t@.subrange(a as int, hi as int),
        decreases b - a,
    {
        proof {
            lemma_trim_end_step(t@, a as int, b as int);
        }
        b = b - 1;
    }
    let ghost e = t@.subrange(a as int, b as int);
    assert(trim_end(e) == e);
    (a, b)
}

fn is_ws_exec(b: u8) -> (r: bool)
    ensures
        r == is_ws(b),
{
    b == 32 || b == 9 || b == 10 || b == 11 || b == 12 || b == 13
}

/// Whether something other than whitespace follows position `c + 2` in `t[lo..hi]`.
fn rest_nonempty(t: &[u8], lo: usize, hi: usize, c: usize) -> (r: u32)
    requires
        lo <= hi <= t@.len(),
        c + 2 <= hi - lo,
    ensures
        r == after_close(t@.subrange(lo as int, hi as int), c as int),
{
    let ghost l = t@.subrange(lo as int, hi as int);
    assert(l.subrange(c + 2, l.len() as int) =~= t@.subrange(lo + c + 2, hi as int));
    let (a, b) = trim_range(t, lo + c + 2, hi);
    if a < b {
        1
    } else {
        0
    }
}

/// What the trimmed line `t[lo..hi]` adds, and whether a block comment is open after it.
fn step(t: &[u8], lo: usize, hi: usize, in_block: bool) -> (r: (u32, bool))
    requires
        lo <= hi <= t@.len(),
    ensures
        r.0 as nat == line_step(t@.subrange(lo as int, hi as int), in_block).0,
        r.1 == line_step(t@.subrange(lo as int, hi as int), in_block).1,
        r.0 <= 1,
{
    let ghost l = t@.subrange(lo as int, hi as int);
    let n = hi - lo;
    if in_block {
        return match find_close(t, lo, hi, 0) {
            Some(c) => (rest_nonempty(t, lo, hi, c), false),
            None => (0, true),
        };
    }
    let brace = (n == 1 && (t[lo] == 123 || t[lo] == 125)) || (n == 2 && t[lo] == 125 && (t[lo + 1]
        == 59 || t[lo + 1] == 44));
    proof {
        if n == 1 {
            assert(l =~= seq![t@[lo as int]]);
        }
        if n == 2 {
            assert(l =~= seq![t@[lo as int], t@[lo + 1]]);
        }
        if is_brace_line(l) {
            assert(l.len() == n);
        }
        if n >= 1 {
            assert(l[0] == t@[lo as int]);
        }
        if n >= 2 {
            assert(l[1] == t@[lo + 1]);
        }
    }
    if n == 0 || brace {
        assert(l.len() == 0 || is_brace_line(l));
        (0, false)
    } else if n >= 2 && t[lo] == 47 && t[lo + 1] == 47 {
        (0, false)
    } else if n >= 2 && t[lo] == 47 && t[lo + 1] == 42 {
        match find_close(t, lo, hi, 2) {
            Some(c) => (rest_nonempty(t, lo, hi, c), false),
            None => (0, true),
        }
    } else {
        assert(!is_brace_line(l));
        assert(line_step(l, in_block).0 == 1);
        (1, false)
    }
}

/// Counts the logical lines of `source[start_byte..end_byte]`, `end_byte` cut
/// to the source. Blank lines, `//` lines, block comments (save what follows
/// their close on the same line) and lines of braces alone do not count.
pub fn count_logical_lines(source: &[u8], start_byte: usize, end_byte: usize) -> (r: u32)
    requires
        source@.len() < u32::MAX,
    ensures
        r as nat == logical_lines(clipped(source@, start_byte as int, end_byte as int), false),
        r as nat <= source@.len() + 1,
{
    let end = if end_byte < source.len() {
        end_byte
    } else {
        source.len()
    };
    if start_byte >= end {
        proof {
            let e: Seq<u8> = Seq::empty();
            assert(newline_from(e, 0) == None::<int>);
            assert(trim_start(e) == e);
            assert(trim_end(e) == e);
        }
        return 0;
    }
    let ghost whole = source@.subrange(start_byte as int, end as int);
    assert(clipped(source@, start_byte as int, end_byte as int) == whole);
    let mut count: u32 = 0;
    let mut in_block = false;
    let mut pos: usize = start_byte;
    loop
        invariant
            start_byte <= pos <= end <= source@.len(),
            source@.len() < u32::MAX,
            whole == source@.subrange(start_byte as int, end as int),
            clipped(source@, start_byte as int, end_byte as int) == whole,
            count as nat + logical_lines(source@.subrange(pos as int, end as int), in_block)
                == logical_lines(whole, false),
            count as nat <= pos - start_byte,
        decreases end - pos,
    {
        let ghost rest = source@.subrange(pos as int, end as int);
        let ghost src_end = source@.subrange(0, end as int);
        proof {
            lemma_newline_from_shift(src_end, pos as int, 0);
            assert(src_end.subrange(pos as int, end as int) =~= rest);
        }
        match find_newline_in(source, pos, end) {
            None => {
                let (a, b) = trim_range(source, pos, end);
                let (c, _) = step(source, a, b, in_block);
                assert(newline_from(rest, 0) == None::<int>);
                assert(logical_lines(rest, in_block) == c);
                return count + c;
            },
            Some(j) => {
                proof {
                    assert(rest.subrange(0, j - pos) =~= source@.subrange(pos as int, j as int));
                    assert(rest.subrange(j - pos + 1, rest.len() as int) =~= source@.subrange(
                        j + 1,
                        end as int,
                    ));
                }
                let (a, b) = trim_range(source, pos, j);
                let (c, nb) = step(source, a, b, in_block);
                count = count + c;
                in_block = nb;
                pos = j + 1;
            },
        }
    }
}

/// Position of the first `\n` in `t[pos..end]`.
fn find_newline_in(t: &[u8], pos: usize, end: usize) -> (r: Option<usize>)
    requires
        pos <= end <= t@.len(),
    ensures
        match r {
            Some(j) => pos <= j < end && newline_from(t@.subrange(0, end as int), pos as int) == Some(j as int),
            None => newline_from(t@.subrange(0, end as int), pos as int) == None::<int>,
        },
{
    let ghost te = t@.subrange(0, end as int);
    let mut k: usize = pos;
    while k < end
        invariant
            pos <= k <= end <= t@.len(),
            te == t@.subrange(0, end as int),
            newline_from(te, pos as int) == newline_from(te, k as int),
        decreases end - k,
    {
        if t[k] == 10 {
            return Some(k);
        }
        k = k + 1;
    }
    None
}

} // verus!
