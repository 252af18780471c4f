//! Token streams for clone detection: the leaves of a tree, type-only
//! subtrees, comments and separators left out, identifiers folded into `V`.

use vstd::prelude::*;
use vstd::utf8::*;
use vstd::wrapping::u64_specs;
use crate::kinds::{is_type_only_kind, is_type_only_node, is_skipped_kind, is_skipped_kind_spec, normalize_kind, normalize_kind_spec};
use crate::syntax::SyntaxNode;

verus! {

/// Base of the polynomial hashes.
pub const HASH_BASE: u64 = 37;

/// One normalized token, with the hash of its kind and its byte range.
#[derive(Debug, Clone)]
pub struct Token {
    pub kind: String,
    pub kind_hash: u64,
    pub start_byte: usize,
    pub end_byte: usize,
}

/// Polynomial hash of `b` in base 37, wrapping at 64 bits.
pub open spec fn hash_bytes(b: Seq<u8>) -> u64
    decreases b.len(),
{
    if b.len() == 0 {
        0
    } else {
        u64_specs::wrapping_add(u64_specs::wrapping_mul(hash_bytes(b.drop_last()), HASH_BASE), b.last() as u64)
    }
}

/// Hash of a kind, over its UTF-8 bytes.
pub open spec fn kind_hash_spec(k: Seq<char>) -> u64 {
    hash_bytes(encode_utf8(k))
}

/// Hashes a token kind: `h = h * 37 + byte` over its bytes, wrapping.
pub fn token_hash(kind: &str) -> (r: u64)
    ensures
        r == kind_hash_spec(kind@),
{
    let b = kind.as_bytes();
    let mut h: u64 = 0;
    let mut i: usize = 0;
    while i < b.len()
        invariant
            i <= b@.len(),
            b@ == encode_utf8(kind@),
            h == hash_bytes(b@.subrange(0, i as int)),
        decreases b@.len() - i,
    {
        assert(b@.subrange(0, i + 1).drop_last() =~= b@.subrange(0, i as int));
        h = h.wrapping_mul(HASH_BASE).wrapping_add(b[i] as u64);
        i = i + 1;
    }
    assert(b@.subrange(0, i as int) =~= b@);
    h
}

/// A token as kind and byte range.
pub open spec fn tok(k: Seq<char>, s: usize, e: usize) -> (Seq<char>, usize, usize) {
    (k, s, e)
}

/// The tokens of the subtree of `n`, as kind and byte range, in order.
pub open spec fn tokens_of(n: SyntaxNode) -> Seq<(Seq<char>, usize, usize)>
    decreases n, 1int,
{
    if is_type_only_kind(n.kind@) {
        seq![]
    } else if n.children@.len() == 0 {
        if is_skipped_kind_spec(n.kind@) {
            seq![]
        } else {
            seq![tok(normalize_kind_spec(n.kind@), n.start_byte, n.end_byte)]
        }
    } else {
        tokens_children(n, n.children@.len() as int)
    }
}

/// The tokens of the first `k` children of `n`.
pub open spec fn tokens_children(n: SyntaxNode, k: int) -> Seq<(Seq<char>, usize, usize)>
    decreases n, 0int, k,
{
    if k <= 0 || k > n.children@.len() {
        seq![]
    } else {
        tokens_children(n, k - 1) + tokens_of(n.children@[k - 1])
    }
}

/// A token as kind and byte range.
pub open spec fn token_view(t: Token) -> (Seq<char>, usize, usize) {
    (t.kind@, t.start_byte, t.end_byte)
}

/// Every token carries the hash of its kind.
pub open spec fn hashes_ok(ts: Seq<Token>) -> bool {
    forall|i: int| 0 <= i < ts.len() ==> #[trigger] ts[i].kind_hash == kind_hash_spec(ts[i].kind@)
}

fn tokenize_node(n: &SyntaxNode, out: &mut Vec<Token>)
    requires
        hashes_ok(old(out)@),
    ensures
        final(out)@.map_values(|t: Token| token_view(t)) == old(out)@.map_values(|t: Token| token_view(t)) + tokens_of(*n),
        hashes_ok(final(out)@),
    decreases n, 1int,
{
    let ghost o0 = out@.map_values(|t: Token| token_view(t));
    if is_type_only_node(n.kind.as_str()) {
        assert(o0 + tokens_of(*n) =~= o0);
        return;
    }
    if n.children.len() == 0 {
        if is_skipped_kind(n.kind.as_str()) {
            assert(o0 + tokens_of(*n) =~= o0);
            return;
        }
        let k = normalize_kind(n.kind.as_str());
        let t = Token { kind: k.to_owned(), kind_hash: token_hash(k), start_byte: n.start_byte, end_byte: n.end_byte };
        out.push(t);
        assert(out@.map_values(|t: Token| token_view(t)) =~= o0 + tokens_of(*n));
        return;
    }
    tokenize_children(n, out, n.children.len());
}

fn tokenize_children(n: &SyntaxNode, out: &mut Vec<Token>, k: usize)
    requires
        k <= n.children@.len(),
        hashes_ok(old(out)@),
    ensures
        final(out)@.map_values(|t: Token| token_view(t)) == old(out)@.map_values(|t: Token| token_view(t)) + tokens_children(*n, k as int),
        hashes_ok(final(out)@),
    decreases n, 0int, k,
{
    let ghost o0 = out@.map_values(|t: Token| token_view(t));
    if k == 0 {
        assert(o0 + tokens_children(*n, 0) =~= o0);
        return;
    }
    tokenize_children(n, out, k - 1);
    tokenize_node(&n.children[k - 1], out);
    assert(out@.map_values(|t: Token| token_view(t)) =~= o0 + tokens_children(*n, k as int));
}

/// The token stream of a tree, in document order.
pub fn tokenize_tree(root: &SyntaxNode) -> (r: Vec<Token>)
    ensures
        r@.map_values(|t: Token| token_view(t)) == tokens_of(*root),
        hashes_ok(r@),
{
    let mut out: Vec<Token> = Vec::new();
    assert(out@.map_values(|t: Token| token_view(t)) =~= Seq::<(Seq<char>, usize, usize)>::empty());
    tokenize_node(root, &mut out);
    assert(Seq::<(Seq<char>, usize, usize)>::empty() + tokens_of(*root) =~= tokens_of(*root));
    out
}

} // verus!
