//! Structural metrics: nesting depth, parameter count, function length, and
//! the per-file export count.

use vstd::prelude::*;
use crate::kinds::{is_function_kind, is_function_node, is_nesting_kind, is_nesting_construct, is_punctuation, is_punctuation_kind};
use crate::syntax::{SyntaxNode, weight, weight_children, lemma_child_weight};

verus! {

/// The larger of two naturals.
pub open spec fn max_nat(a: nat, b: nat) -> nat {
    if a >= b { a } else { b }
}

/// Deepest nesting reached in the subtree of `n`, entered at depth `d`;
/// nested functions are not entered.
pub open spec fn nest_max(n: SyntaxNode, d: nat) -> nat
    decreases n, 1int,
{
    if is_function_kind(n.kind@) {
        0
    } else if is_nesting_kind(n.kind@) {
        max_nat(d + 1, nest_max_children(n, d + 1, n.children@.len() as int))
    } else {
        nest_max_children(n, d, n.children@.len() as int)
    }
}

/// Deepest nesting reached in the first `k` children of `n`, entered at depth `d`.
pub open spec fn nest_max_children(n: SyntaxNode, d: nat, k: int) -> nat
    decreases n, 0int, k,
{
    if k <= 0 || k > n.children@.len() {
        0
    } else {
        max_nat(nest_max_children(n, d, k - 1), nest_max(n.children@[k - 1], d))
    }
}

/// Deepest nesting of control constructs within a function body.
pub open spec fn nesting_depth_spec(body: SyntaxNode) -> nat {
    nest_max_children(body, 0, body.children@.len() as int)
}

fn nesting_walk(n: &SyntaxNode, d: u32) -> (r: u32)
    requires
        d + weight(*n) <= u32::MAX,
    ensures
        r == nest_max(*n, d as nat),
        r <= d + weight(*n),
    decreases n,
{
    if is_function_node(n.kind.as_str()) {
        return 0;
    }
    let nesting = is_nesting_construct(n.kind.as_str());
    let d2: u32 = if nesting {
        d + 1
    } else {
        d
    };
    let mut best: u32 = 0;
    let mut i: usize = 0;
    while i < n.children.len()
        invariant
            i <= n.children@.len(),
            d + weight(*n) <= u32::MAX,
            d2 <= d + 1,
            d2 == if nesting { d + 1 } else { d as int },
            nesting == is_nesting_kind(n.kind@),
            best == nest_max_children(*n, d2 as nat, i as int),
            best <= d2 + weight_children(*n, n.children@.len() as int),
            weight(*n) == n.children@.len() + 2 + weight_children(*n, n.children@.len() as int),
        decreases n.children@.len() - i,
    {
        proof {
            lemma_child_weight(*n, i as int);
        }
        let c = nesting_walk(&n.children[i], d2);
        if c > best {
            best = c;
        }
        i = i + 1;
    }
    if nesting && d2 > best {
        d2
    } else {
        best
    }
}

/// Deepest nesting of `if`, loops, `switch`, `catch` and ternaries within a
/// function body, nested functions excluded.
pub fn max_nesting_depth(body: &SyntaxNode) -> (r: u32)
    requires
        weight(*body) <= u32::MAX,
    ensures
        r == nesting_depth_spec(*body),
        r <= weight(*body),
{
    let mut best: u32 = 0;
    let mut i: usize = 0;
    while i < body.children.len()
        invariant
            i <= body.children@.len(),
            weight(*body) <= u32::MAX,
            weight(*body) == body.children@.len() + 2 + weight_children(*body, body.children@.len() as int),
            best == nest_max_children(*body, 0, i as int),
            best <= weight_children(*body, body.children@.len() as int),
        decreases body.children@.len() - i,
    {
        proof {
            lemma_child_weight(*body, i as int);
        }
        let c = nesting_walk(&body.children[i], 0);
        if c > best {
            best = c;
        }
        i = i + 1;
    }
    best
}

/// Whether a child of a function node holds parameters.
pub open spec fn is_param_list_kind(k: Seq<char>) -> bool {
    k == "formal_parameters"@ || k == "type_parameters"@
}

/// Number of the first `k` children of `n` that are not punctuation.
pub open spec fn non_punct(n: SyntaxNode, k: int) -> nat
    decreases k,
{
    if k <= 0 || k > n.children@.len() {
        0
    } else {
        non_punct(n, k - 1) + if is_punctuation_kind(n.children@[k - 1].kind@) {
            0nat
        } else {
            1nat
        }
    }
}

/// Parameters declared in the first `k` children of the function node `f`:
/// value parameters and type parameters alike.
pub open spec fn params_in(f: SyntaxNode, k: int) -> nat
    decreases k,
{
    if k <= 0 || k > f.children@.len() {
        0
    } else {
        let c = f.children@[k - 1];
        params_in(f, k - 1) + if is_param_list_kind(c.kind@) {
            non_punct(c, c.children@.len() as int)
        } else {
            0nat
        }
    }
}

/// Parameters of the function node `f`.
pub open spec fn params_count_spec(f: SyntaxNode) -> nat {
    params_in(f, f.children@.len() as int)
}

fn count_non_punct(n: &SyntaxNode) -> (r: u32)
    requires
        n.children@.len() <= u32::MAX,
    ensures
        r == non_punct(*n, n.children@.len() as int),
        r <= n.children@.len(),
{
    let mut acc: u32 = 0;
    let mut i: usize = 0;
    while i < n.children.len()
        invariant
            i <= n.children@.len() <= u32::MAX,
            acc == non_punct(*n, i as int),
            acc <= i,
        decreases n.children@.len() - i,
    {
        if !is_punctuation(n.children[i].kind.as_str()) {
            acc = acc + 1;
        }
        i = i + 1;
    }
    acc
}

/// Counts the parameters of a function node: the children of its parameter
/// and type-parameter lists, punctuation excluded.
pub fn count_parameters(f: &SyntaxNode) -> (r: u32)
    requires
        weight(*f) <= u32::MAX,
    ensures
        r == params_count_spec(*f),
{
    let mut acc: u32 = 0;
    let mut i: usize = 0;
    while i < f.children.len()
        invariant
            i <= f.children@.len(),
            weight(*f) <= u32::MAX,
            weight(*f) == f.children@.len() + 2 + weight_children(*f, f.children@.len() as int),
            acc == params_in(*f, i as int),
            acc <= weight_children(*f, i as int),
        decreases f.children@.len() - i,
    {
        proof {
            lemma_child_weight(*f, i as int);
        }
        let c = &f.children[i];
        if c.is_kind("formal_parameters") || c.is_kind("type_parameters") {
            assert(c.children@.len() <= weight(*c));
            acc = acc + count_non_punct(c);
        }
        i = i + 1;
    }
    acc
}

/// Number of the first `k` children of `root` that are export statements.
pub open spec fn exports_in(root: SyntaxNode, k: int) -> nat
    decreases k,
{
    if k <= 0 || k > root.children@.len() {
        0
    } else {
        exports_in(root, k - 1) + if root.children@[k - 1].kind@ == "export_statement"@ {
            1nat
        } else {
            0nat
        }
    }
}

/// Counts the export statements directly under the program root.
pub fn count_exports(root: &SyntaxNode) -> (r: u32)
    requires
        root.children@.len() <= u32::MAX,
    ensures
        r == exports_in(*root, root.children@.len() as int),
{
    let mut acc: u32 = 0;
    let mut i: usize = 0;
    while i < root.children.len()
        invariant
            i <= root.children@.len() <= u32::MAX,
            acc == exports_in(*root, i as int),
            acc <= i,
        decreases root.children@.len() - i,
    {
        if root.children[i].is_kind("export_statement") {
            acc = acc + 1;
        }
        i = i + 1;
    }
    acc
}

} // verus!
