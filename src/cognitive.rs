//! Cognitive complexity, with nesting-weighted structural increments, flat
//! increments for `else`, labelled jumps, self-recursion and each logical
//! operator, and callback arrows counted once at the first level.

use vstd::prelude::*;
use crate::kinds::{is_function_kind, is_function_node};
use crate::syntax::{SyntaxNode, weight, lemma_child_weight};
use crate::text::str_eq;

verus! {

/// `x` capped at the largest `u64`.
pub open spec fn cap(x: nat) -> nat {
    if x > u64::MAX { u64::MAX as nat } else { x }
}

/// Adding capped values and capping again is capping the sum.
pub proof fn lemma_cap_add(x: nat, y: nat)
    ensures
        cap(cap(x) + cap(y)) == cap(x + y),
{
}

pub fn sat_add(a: u64, b: u64) -> (r: u64)
    ensures
        r == cap((a + b) as nat),
{
    if a > u64::MAX - b {
        u64::MAX
    } else {
        a + b
    }
}

/// Kinds that add `1 + nesting` and open a nesting level (besides `if`).
pub open spec fn is_structural_kind(k: Seq<char>) -> bool {
    k == "for_statement"@ || k == "for_in_statement"@ || k == "while_statement"@ || k
        == "do_statement"@ || k == "switch_statement"@ || k == "ternary_expression"@ || k
        == "catch_clause"@
}

/// Logical operators, each adding one.
pub open spec fn is_logical_op(k: Seq<char>) -> bool {
    k == "&&"@ || k == "||"@ || k == "??"@
}

/// Children of a callback arrow that are not visited.
pub open spec fn is_arrow_skipped(k: Seq<char>) -> bool {
    k == "formal_parameters"@ || k == "identifier"@ || k == "=>"@ || k == "("@ || k == ")"@ || k
        == "type_annotation"@
}

/// Whether a call expression calls the enclosing function `f` by name.
pub open spec fn is_self_call(n: SyntaxNode, f: Seq<char>) -> bool {
    n.children@.len() > 0 && n.children@[0].kind@ == "identifier"@ && f.len() > 0
        && n.children@[0].text@ == f
}

/// Whether a `break` or `continue` carries a label.
pub open spec fn has_label(n: SyntaxNode) -> bool {
    exists|i: int| 0 <= i < n.children@.len() && n.children@[i].kind@ == "statement_identifier"@
}

/// Cognitive increments of the subtree of `n` at nesting level `nest`, inside
/// function `f`. With `inner` unset an arrow function is a callback; with it
/// set (inside a callback) arrows are boundaries like other functions.
pub open spec fn visit(n: SyntaxNode, nest: nat, inner: bool, f: Seq<char>) -> nat
    decreases n, 10int, 0int,
{
    let k = n.kind@;
    let len = n.children@.len() as int;
    if k == "arrow_function"@ && !inner {
        (1 + nest) + sum_arrow(n, nest, f, len)
    } else if is_function_kind(k) {
        0
    } else if k == "if_statement"@ {
        (1 + nest) + sum_if(n, nest, inner, f, len)
    } else if k == "else_clause"@ {
        1 + else_first(n, nest, inner, f, 0)
    } else if is_structural_kind(k) {
        (1 + nest) + sum_plain(n, nest + 1, inner, f, len)
    } else if k == "binary_expression"@ {
        sum_binary(n, nest, inner, f, len)
    } else if k == "call_expression"@ {
        (if is_self_call(n, f) { 1nat } else { 0nat }) + sum_plain(n, nest, inner, f, len)
    } else if k == "break_statement"@ || k == "continue_statement"@ {
        if has_label(n) { 1 } else { 0 }
    } else {
        sum_plain(n, nest, inner, f, len)
    }
}

/// Sum of `visit` over the first `k` children of `n`.
pub open spec fn sum_plain(n: SyntaxNode, nest: nat, inner: bool, f: Seq<char>, k: int) -> nat
    decreases n, 5int, k,
{
    if k <= 0 || k > n.children@.len() {
        0
    } else {
        sum_plain(n, nest, inner, f, k - 1) + visit(n.children@[k - 1], nest, inner, f)
    }
}

/// The children of an `if`: the condition and branch one level deeper, each
/// `else` clause at the `if`'s own level.
pub open spec fn sum_if(n: SyntaxNode, nest: nat, inner: bool, f: Seq<char>, k: int) -> nat
    decreases n, 5int, k,
{
    if k <= 0 || k > n.children@.len() {
        0
    } else {
        let c = n.children@[k - 1];
        sum_if(n, nest, inner, f, k - 1) + if c.kind@ == "else_clause"@ {
            1 + else_first(c, nest, inner, f, 0)
        } else {
            visit(c, nest + 1, inner, f)
        }
    }
}

/// The body of an `else` clause from child `i` on: an `if` continues the
/// chain at the same level, anything else is one level deeper.
pub open spec fn else_first(n: SyntaxNode, nest: nat, inner: bool, f: Seq<char>, i: int) -> nat
    decreases n, 5int, n.children@.len() - i,
{
    if i < 0 || i >= n.children@.len() {
        0
    } else {
        let c = n.children@[i];
        if c.kind@ == "else"@ {
            else_first(n, nest, inner, f, i + 1)
        } else if c.kind@ == "if_statement"@ {
            visit(c, nest, inner, f)
        } else {
            visit(c, nest + 1, inner, f)
        }
    }
}

/// The children of a binary expression: each logical operator adds one.
pub open spec fn sum_binary(n: SyntaxNode, nest: nat, inner: bool, f: Seq<char>, k: int) -> nat
    decreases n, 5int, k,
{
    if k <= 0 || k > n.children@.len() {
        0
    } else {
        let c = n.children@[k - 1];
        sum_binary(n, nest, inner, f, k - 1) + if is_logical_op(c.kind@) {
            1
        } else {
            visit(c, nest, inner, f)
        }
    }
}

/// The children of a callback arrow, one level deeper, with arrows inside as
/// boundaries; a statement block is entered statement by statement.
pub open spec fn sum_arrow(n: SyntaxNode, nest: nat, f: Seq<char>, k: int) -> nat
    decreases n, 5int, k,
{
    if k <= 0 || k > n.children@.len() {
        0
    } else {
        let c = n.children@[k - 1];
        sum_arrow(n, nest, f, k - 1) + if c.kind@ == "statement_block"@ {
            sum_plain(c, nest + 1, true, f, c.children@.len() as int)
        } else if is_arrow_skipped(c.kind@) {
            0
        } else {
            visit(c, nest + 1, true, f)
        }
    }
}

/// Index of the first child of `n` after an `=>` child, if any.
pub open spec fn after_arrow_from(n: SyntaxNode, i: int, seen: bool) -> Option<int>
    decreases n.children@.len() - i,
{
    if i < 0 || i >= n.children@.len() {
        None
    } else if n.children@[i].kind@ == "=>"@ {
        after_arrow_from(n, i + 1, true)
    } else if seen {
        Some(i)
    } else {
        after_arrow_from(n, i + 1, false)
    }
}

/// Cognitive complexity of the function node `g` named `f`: its statement
/// block, statement by statement, or the expression body of an arrow.
pub open spec fn cognitive_spec(g: SyntaxNode, f: Seq<char>) -> nat {
    match crate::cyclomatic::first_child_kind(g, "statement_block"@) {
        Some(b) => sum_plain(g.children@[b], 0, false, f, g.children@[b].children@.len() as int),
        None => if g.kind@ == "arrow_function"@ {
            match after_arrow_from(g, 0, false) {
                Some(i) => visit(g.children@[i], 0, false, f),
                None => 0,
            }
        } else {
            0
        },
    }
}

fn is_structural(k: &str) -> (r: bool)
    ensures
        r == is_structural_kind(k@),
{
    str_eq(k, "for_statement") || str_eq(k, "for_in_statement") || str_eq(k, "while_statement")
        || str_eq(k, "do_statement") || str_eq(k, "switch_statement") || str_eq(
        k,
        "ternary_expression",
    ) || str_eq(k, "catch_clause")
}

fn is_logical(k: &str) -> (r: bool)
    ensures
        r == is_logical_op(k@),
{
    str_eq(k, "&&") || str_eq(k, "||") || str_eq(k, "??")
}

fn arrow_skipped(k: &str) -> (r: bool)
    ensures
        r == is_arrow_skipped(k@),
{
    str_eq(k, "formal_parameters") || str_eq(k, "identifier") || str_eq(k, "=>") || str_eq(k, "(")
        || str_eq(k, ")") || str_eq(k, "type_annotation")
}

fn self_call(n: &SyntaxNode, f: &str) -> (r: bool)
    ensures
        r == is_self_call(*n, f@),
{
    n.children.len() > 0 && n.children[0].is_kind("identifier") && !f.is_empty() && str_eq(
        n.children[0].text.as_str(),
        f,
    )
}

fn labelled(n: &SyntaxNode) -> (r: bool)
    ensures
        r == has_label(*n),
{
    crate::cyclomatic::child_kind_exists(n, "statement_identifier")
}

fn visit_exec(n: &SyntaxNode, nest: u64, inner: bool, f: &str) -> (r: u64)
    requires
        nest + weight(*n) <= u64::MAX,
    ensures
        r == cap(visit(*n, nest as nat, inner, f@)),
    decreases n, 10int, 0int,
{
    let k = n.kind.as_str();
    let len = n.children.len();
    proof {
        if len > 0 {
            lemma_child_weight(*n, 0);
        }
    }
    if str_eq(k, "arrow_function") && !inner {
        let s = sum_arrow_exec(n, nest, f, len);
        proof {
            lemma_cap_add((1 + nest) as nat, sum_arrow(*n, nest as nat, f@, len as int));
        }
        sat_add(1 + nest, s)
    } else if is_function_node(k) {
        0
    } else if str_eq(k, "if_statement") {
        let s = sum_if_exec(n, nest, inner, f, len);
        proof {
            lemma_cap_add((1 + nest) as nat, sum_if(*n, nest as nat, inner, f@, len as int));
        }
        sat_add(1 + nest, s)
    } else if str_eq(k, "else_clause") {
        let s = else_first_exec(n, nest, inner, f, 0);
        proof {
            lemma_cap_add(1, else_first(*n, nest as nat, inner, f@, 0));
        }
        sat_add(1, s)
    } else if is_structural(k) {
        let s = sum_plain_exec(n, nest + 1, inner, f, len);
        proof {
            lemma_cap_add((1 + nest) as nat, sum_plain(*n, (nest + 1) as nat, inner, f@, len as int));
        }
        sat_add(1 + nest, s)
    } else if str_eq(k, "binary_expression") {
        sum_binary_exec(n, nest, inner, f, len)
    } else if str_eq(k, "call_expression") {
        let s = sum_plain_exec(n, nest, inner, f, len);
        let own: u64 = if self_call(n, f) {
            1
        } else {
            0
        };
        proof {
            lemma_cap_add(own as nat, sum_plain(*n, nest as nat, inner, f@, len as int));
        }
        sat_add(own, s)
    } else if str_eq(k, "break_statement") || str_eq(k, "continue_statement") {
        if labelled(n) {
            1
        } else {
            0
        }
    } else {
        sum_plain_exec(n, nest, inner, f, len)
    }
}

fn sum_plain_exec(n: &SyntaxNode, nest: u64, inner: bool, f: &str, k: usize) -> (r: u64)
    requires
        nest + weight(*n) <= u64::MAX + 1,
        k <= n.children@.len(),
    ensures
        r == cap(sum_plain(*n, nest as nat, inner, f@, k as int)),
    decreases n, 5int, k,
{
    if k == 0 {
        return 0;
    }
    proof {
        lemma_child_weight(*n, k - 1);
    }
    let a = sum_plain_exec(n, nest, inner, f, k - 1);
    let b = visit_exec(&n.children[k - 1], nest, inner, f);
    proof {
        lemma_cap_add(
            sum_plain(*n, nest as nat, inner, f@, k - 1),
            visit(n.children@[k - 1], nest as nat, inner, f@),
        );
    }
    sat_add(a, b)
}

fn sum_if_exec(n: &SyntaxNode, nest: u64, inner: bool, f: &str, k: usize) -> (r: u64)
    requires
        nest + weight(*n) <= u64::MAX + 1,
        k <= n.children@.len(),
    ensures
        r == cap(sum_if(*n, nest as nat, inner, f@, k as int)),
    decreases n, 5int, k,
{
    if k == 0 {
        return 0;
    }
    proof {
        lemma_child_weight(*n, k - 1);
    }
    let a = sum_if_exec(n, nest, inner, f, k - 1);
    let c = &n.children[k - 1];
    let ghost gc = n.children@[k - 1];
    let b = if c.is_kind("else_clause") {
        let s = else_first_exec(c, nest, inner, f, 0);
        proof {
            lemma_cap_add(1, else_first(gc, nest as nat, inner, f@, 0));
        }
        sat_add(1, s)
    } else {
        visit_exec(c, nest + 1, inner, f)
    };
    proof {
        let x = if gc.kind@ == "else_clause"@ {
            1 + else_first(gc, nest as nat, inner, f@, 0)
        } else {
            visit(gc, (nest + 1) as nat, inner, f@)
        };
        lemma_cap_add(sum_if(*n, nest as nat, inner, f@, k - 1), x);
    }
    sat_add(a, b)
}

fn else_first_exec(n: &SyntaxNode, nest: u64, inner: bool, f: &str, i: usize) -> (r: u64)
    requires
        nest + weight(*n) <= u64::MAX + 1,
        i <= n.children@.len(),
    ensures
        r == cap(else_first(*n, nest as nat, inner, f@, i as int)),
    decreases n, 5int, n.children@.len() - i,
{
    if i >= n.children.len() {
        return 0;
    }
    proof {
        lemma_child_weight(*n, i as int);
    }
    let c = &n.children[i];
    if c.is_kind("else") {
        else_first_exec(n, nest, inner, f, i + 1)
    } else if c.is_kind("if_statement") {
        visit_exec(c, nest, inner, f)
    } else {
        visit_exec(c, nest + 1, inner, f)
    }
}

fn sum_binary_exec(n: &SyntaxNode, nest: u64, inner: bool, f: &str, k: usize) -> (r: u64)
    requires
        nest + weight(*n) <= u64::MAX + 1,
        k <= n.children@.len(),
    ensures
        r == cap(sum_binary(*n, nest as nat, inner, f@, k as int)),
    decreases n, 5int, k,
{
    if k == 0 {
        return 0;
    }
    proof {
        lemma_child_weight(*n, k - 1);
    }
    let a = sum_binary_exec(n, nest, inner, f, k - 1);
    let c = &n.children[k - 1];
    let ghost gc = n.children@[k - 1];
    let b = if is_logical(c.kind.as_str()) {
        1
    } else {
        visit_exec(c, nest, inner, f)
    };
    proof {
        let x = if is_logical_op(gc.kind@) {
            1
        } else {
            visit(gc, nest as nat, inner, f@)
        };
        lemma_cap_add(sum_binary(*n, nest as nat, inner, f@, k - 1), x);
    }
    sat_add(a, b)
}

fn sum_arrow_exec(n: &SyntaxNode, nest: u64, f: &str, k: usize) -> (r: u64)
    requires
        nest + weight(*n) <= u64::MAX + 1,
        k <= n.children@.len(),
    ensures
        r == cap(sum_arrow(*n, nest as nat, f@, k as int)),
    decreases n, 5int, k,
{
    if k == 0 {
        return 0;
    }
    proof {
        lemma_child_weight(*n, k - 1);
    }
    let a = sum_arrow_exec(n, nest, f, k - 1);
    let c = &n.children[k - 1];
    let ghost gc = n.children@[k - 1];
    let b = if c.is_kind("statement_block") {
        sum_plain_exec(c, nest + 1, true, f, c.children.len())
    } else if arrow_skipped(c.kind.as_str()) {
        0
    } else {
        visit_exec(c, nest + 1, true, f)
    };
    proof {
        let x = if gc.kind@ == "statement_block"@ {
            sum_plain(gc, (nest + 1) as nat, true, f@, gc.children@.len() as int)
        } else if is_arrow_skipped(gc.kind@) {
            0
        } else {
            visit(gc, (nest + 1) as nat, true, f@)
        };
        lemma_cap_add(sum_arrow(*n, nest as nat, f@, k - 1), x);
    }
    sat_add(a, b)
}

fn after_arrow(n: &SyntaxNode) -> (r: Option<usize>)
    ensures
        match r {
            Some(i) => i < n.children@.len() && after_arrow_from(*n, 0, false) == Some(i as int),
            None => after_arrow_from(*n, 0, false) == None::<int>,
        },
{
    let mut seen = false;
    let mut i: usize = 0;
    while i < n.children.len()
        invariant
            i <= n.children@.len(),
            after_arrow_from(*n, 0, false) == after_arrow_from(*n, i as int, seen),
        decreases n.children@.len() - i,
    {
        if n.children[i].is_kind("=>") {
            seen = true;
        } else if seen {
            return Some(i);
        }
        i = i + 1;
    }
    None
}

/// Cognitive complexity of the function node `g` whose display name is `f`,
/// capped at the largest `u64`.
pub fn cognitive_of(g: &SyntaxNode, f: &str) -> (r: u64)
    requires
        weight(*g) <= u64::MAX,
    ensures
        r == cap(cognitive_spec(*g, f@)),
{
    match crate::cyclomatic::find_child_kind(g, "statement_block") {
        Some(b) => {
            proof {
                lemma_child_weight(*g, b as int);
            }
            let body = &g.children[b];
            sum_plain_exec(body, 0, false, f, body.children.len())
        },
        None => {
            if g.is_kind("arrow_function") {
                match after_arrow(g) {
                    Some(i) => {
                        proof {
                            lemma_child_weight(*g, i as int);
                        }
                        visit_exec(&g.children[i], 0, false, f)
                    },
                    None => 0,
                }
            } else {
                0
            }
        },
    }
}

} // verus!
