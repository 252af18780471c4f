//! Halstead base counts: distinct and total operators and operands of a
//! function body, type-only subtrees and nested functions excluded.

use vstd::prelude::*;
use crate::kinds::{is_function_kind, is_function_node, is_type_only_kind, is_type_only_node, is_operator_kind, is_operator_token, is_operand_kind, is_operand_token};
use crate::syntax::SyntaxNode;
use crate::text::str_eq;

verus! {

/// The four base counts from which the Halstead measures derive.
#[derive(Debug, Clone, Copy, PartialEq, Eq, Structural)]
pub struct HalsteadCounts {
    /// Distinct operators (n1).
    pub distinct_operators: usize,
    /// Distinct operands (n2).
    pub distinct_operands: usize,
    /// Operator occurrences (N1).
    pub total_operators: usize,
    /// Operand occurrences (N2).
    pub total_operands: usize,
}

/// Whether a subtree is not looked into at all.
pub open spec fn is_opaque(k: Seq<char>) -> bool {
    is_function_kind(k) || is_type_only_kind(k)
}

/// Operator occurrences in the subtree of `n`, in walk order: operator
/// leaves by kind, and each ternary as one `?:`.
pub open spec fn ops(n: SyntaxNode) -> Seq<Seq<char>>
    decreases n, 1int,
{
    if is_opaque(n.kind@) {
        seq![]
    } else if n.kind@ == "ternary_expression"@ {
        seq!["?:"@] + ops_children(n, n.children@.len() as int)
    } else if n.children@.len() == 0 {
        if is_operator_kind(n.kind@) { seq![n.kind@] } else { seq![] }
    } else {
        ops_children(n, n.children@.len() as int)
    }
}

/// Operator occurrences in the first `k` children of `n`.
pub open spec fn ops_children(n: SyntaxNode, k: int) -> Seq<Seq<char>>
    decreases n, 0int, k,
{
    if k <= 0 || k > n.children@.len() {
        seq![]
    } else {
        ops_children(n, k - 1) + ops(n.children@[k - 1])
    }
}

/// Operand occurrences in the subtree of `n`, in walk order, by source text.
pub open spec fn opnds(n: SyntaxNode) -> Seq<Seq<char>>
    decreases n, 1int,
{
    if is_opaque(n.kind@) {
        seq![]
    } else if n.kind@ != "ternary_expression"@ && n.children@.len() == 0 {
        if !is_operator_kind(n.kind@) && is_operand_kind(n.kind@) { seq![n.text@] } else { seq![] }
    } else {
        opnds_children(n, n.children@.len() as int)
    }
}

/// Operand occurrences in the first `k` children of `n`.
pub open spec fn opnds_children(n: SyntaxNode, k: int) -> Seq<Seq<char>>
    decreases n, 0int, k,
{
    if k <= 0 || k > n.children@.len() {
        seq![]
    } else {
        opnds_children(n, k - 1) + opnds(n.children@[k - 1])
    }
}

/// Children of a function without a statement block that are not measured.
pub open spec fn is_signature_kind(k: Seq<char>) -> bool {
    k == "formal_parameters"@ || k == "=>"@ || k == "identifier"@ || k == "type_annotation"@
}

/// What of the function node `f` is measured: the statements of its block,
/// or else its children besides parameters, arrow and annotations.
pub open spec fn measured(f: SyntaxNode) -> Seq<SyntaxNode> {
    match crate::cyclomatic::first_child_kind(f, "statement_block"@) {
        Some(b) => f.children@[b].children@,
        None => f.children@.filter(|c: SyntaxNode| !is_signature_kind(c.kind@)),
    }
}

/// Operator occurrences over a sequence of subtrees.
pub open spec fn ops_seq(s: Seq<SyntaxNode>) -> Seq<Seq<char>>
    decreases s.len(),
{
    if s.len() == 0 {
        seq![]
    } else {
        ops_seq(s.drop_last()) + ops(s.last())
    }
}

/// Operand occurrences over a sequence of subtrees.
pub open spec fn opnds_seq(s: Seq<SyntaxNode>) -> Seq<Seq<char>>
    decreases s.len(),
{
    if s.len() == 0 {
        seq![]
    } else {
        opnds_seq(s.drop_last()) + opnds(s.last())
    }
}

/// The Halstead base counts of the function node `f`.
pub open spec fn halstead_spec(f: SyntaxNode) -> HalsteadCounts {
    let o = ops_seq(measured(f));
    let d = opnds_seq(measured(f));
    HalsteadCounts {
        distinct_operators: o.to_set().len() as usize,
        distinct_operands: d.to_set().len() as usize,
        total_operators: o.len() as usize,
        total_operands: d.len() as usize,
    }
}

/// Views of a vector of strings.
pub open spec fn views(v: Seq<String>) -> Seq<Seq<char>> {
    v.map_values(|s: String| s@)
}

fn collect(n: &SyntaxNode, o: &mut Vec<String>, d: &mut Vec<String>)
    ensures
        views(final(o)@) == views(old(o)@) + ops(*n),
        views(final(d)@) == views(old(d)@) + opnds(*n),
    decreases n, 1int,
{
    let k = n.kind.as_str();
    if is_function_node(k) || is_type_only_node(k) {
        assert(views(o@) =~= views(o@) + ops(*n));
        assert(views(d@) =~= views(d@) + opnds(*n));
        return;
    }
    if str_eq(k, "ternary_expression") {
        let ghost o0 = views(o@);
        o.push("?:".to_owned());
        assert(views(o@) =~= o0 + seq!["?:"@]);
        collect_children(n, o, d, n.children.len());
        assert(views(o@) =~= o0 + ops(*n));
        return;
    }
    if n.children.len() == 0 {
        if is_operator_token(k) {
            let ghost o0 = views(o@);
            o.push(k.to_owned());
            assert(views(o@) =~= o0 + ops(*n));
            assert(views(d@) =~= views(d@) + opnds(*n));
        } else if is_operand_token(k) {
            let ghost d0 = views(d@);
            d.push(n.text.clone());
            assert(views(d@) =~= d0 + opnds(*n));
            assert(views(o@) =~= views(o@) + ops(*n));
        } else {
            assert(views(o@) =~= views(o@) + ops(*n));
            assert(views(d@) =~= views(d@) + opnds(*n));
        }
        return;
    }
    collect_children(n, o, d, n.children.len());
}

fn collect_children(n: &SyntaxNode, o: &mut Vec<String>, d: &mut Vec<String>, k: usize)
    requires
        k <= n.children@.len(),
    ensures
        views(final(o)@) == views(old(o)@) + ops_children(*n, k as int),
        views(final(d)@) == views(old(d)@) + opnds_children(*n, k as int),
    decreases n, 0int, k,
{
    if k == 0 {
        assert(views(o@) =~= views(o@) + ops_children(*n, 0));
        assert(views(d@) =~= views(d@) + opnds_children(*n, 0));
        return;
    }
    let ghost o0 = views(o@);
    let ghost d0 = views(d@);
    collect_children(n, o, d, k - 1);
    collect(&n.children[k - 1], o, d);
    assert(views(o@) =~= o0 + ops_children(*n, k as int));
    assert(views(d@) =~= d0 + opnds_children(*n, k as int));
}

fn is_signature(k: &str) -> (r: bool)
    ensures
        r == is_signature_kind(k@),
{
    str_eq(k, "formal_parameters") || str_eq(k, "=>") || str_eq(k, "identifier") || str_eq(
        k,
        "type_annotation",
    )
}

/// Number of distinct values among the views of `v`.
fn distinct_count(v: &Vec<String>) -> (r: usize)
    ensures
        r == views(v@).to_set().len(),
{
    let mut seen: Vec<String> = Vec::new();
    let mut i: usize = 0;
    while i < v.len()
        invariant
            i <= v@.len(),
            seen@.len() <= i,
            views(seen@).no_duplicates(),
            views(seen@).to_set() == views(v@).subrange(0, i as int).to_set(),
        decreases v@.len() - i,
    {
        let mut j: usize = 0;
        let mut found = false;
        while j < seen.len()
            invariant
                j <= seen@.len(),
                i < v@.len(),
                !found ==> forall|t: int| 0 <= t < j ==> seen@[t]@ != v@[i as int]@,
                found ==> exists|t: int| 0 <= t < seen@.len() && seen@[t]@ == v@[i as int]@,
            decreases seen@.len() - j,
        {
            if seen[j] == v[i] {
                found = true;
                assert(seen@[j as int]@ == v@[i as int]@);
            }
            j = j + 1;
        }
        let ghost before = views(v@).subrange(0, i as int);
        assert(views(v@).subrange(0, i + 1) =~= before.push(views(v@)[i as int]));
        proof {
            before.lemma_push_to_set_commute(views(v@)[i as int]);
        }
        if !found {
            let ghost s0 = views(seen@);
            seen.push(v[i].clone());
            assert(views(seen@) =~= s0.push(v@[i as int]@));
            proof {
                s0.lemma_push_to_set_commute(v@[i as int]@);
                assert(!s0.contains(v@[i as int]@));
            }
        } else {
            proof {
                let t = choose|t: int| 0 <= t < seen@.len() && seen@[t]@ == v@[i as int]@;
                assert(views(seen@)[t] == v@[i as int]@);
                assert(views(seen@).to_set().contains(v@[i as int]@));
            }
            assert(views(seen@).to_set() =~= views(v@).subrange(0, i + 1).to_set());
        }
        i = i + 1;
    }
    assert(views(v@).subrange(0, i as int) =~= views(v@));
    proof {
        views(seen@).unique_seq_to_set();
    }
    seen.len()
}

/// Counts the Halstead operators and operands of the function node `f`.
pub fn halstead_of(f: &SyntaxNode) -> (r: HalsteadCounts)
    ensures
        r == halstead_spec(*f),
{
    let mut o: Vec<String> = Vec::new();
    let mut d: Vec<String> = Vec::new();
    let ghost ms = measured(*f);
    match crate::cyclomatic::find_child_kind(f, "statement_block") {
        Some(b) => {
            let body = &f.children[b];
            let mut i: usize = 0;
            while i < body.children.len()
                invariant
                    i <= body.children@.len(),
                    ms == body.children@,
                    views(o@) == ops_seq(ms.subrange(0, i as int)),
                    views(d@) == opnds_seq(ms.subrange(0, i as int)),
                decreases body.children@.len() - i,
            {
                collect(&body.children[i], &mut o, &mut d);
                assert(ms.subrange(0, i + 1).drop_last() =~= ms.subrange(0, i as int));
                i = i + 1;
            }
            assert(ms.subrange(0, i as int) =~= ms);
        },
        None => {
            let mut i: usize = 0;
            let ghost taken: Seq<SyntaxNode> = seq![];
            while i < f.children.len()
                invariant
                    i <= f.children@.len(),
                    taken == f.children@.subrange(0, i as int).filter(|c: SyntaxNode| !is_signature_kind(c.kind@)),
                    views(o@) == ops_seq(taken),
                    views(d@) == opnds_seq(taken),
                decreases f.children@.len() - i,
            {
                let c = &f.children[i];
                proof {
                    f.children@.subrange(0, i as int).lemma_filter_push(f.children@[i as int], |c: SyntaxNode| !is_signature_kind(c.kind@));
                    assert(f.children@.subrange(0, i + 1) =~= f.children@.subrange(0, i as int).push(f.children@[i as int]));
                }
                if !is_signature(c.kind.as_str()) {
                    collect(c, &mut o, &mut d);
                    proof {
                        let t2 = taken.push(f.children@[i as int]);
                        assert(t2.drop_last() =~= taken);
                        taken = t2;
                    }
                }
                i = i + 1;
            }
            assert(f.children@.subrange(0, i as int) =~= f.children@);
        },
    }
    HalsteadCounts {
        distinct_operators: distinct_count(&o),
        distinct_operands: distinct_count(&d),
        total_operators: o.len(),
        total_operands: d.len(),
    }
}

} // verus!
