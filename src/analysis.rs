//! Per-file analysis: one walk that discovers the functions of a tree in
//! depth-first order, names each, and measures it with every metric family.

use vstd::prelude::*;
use crate::cognitive::{cap, cognitive_of, cognitive_spec};
use crate::cyclomatic::{CyclomaticConfig, cyclomatic_of, cyclomatic_spec, find_child_kind, first_child_kind};
use crate::halstead::{HalsteadCounts, halstead_of, halstead_spec};
use crate::kinds::{is_function_kind, is_function_node};
use crate::lines::{clipped, count_logical_lines, logical_lines};
use crate::naming::{NameContext, NameCtx, context_for, display_name, effective_ctx, resolve_name};
use crate::structural::{count_parameters, max_nesting_depth, nesting_depth_spec, params_count_spec};
use crate::syntax::{SyntaxNode, lemma_child_weight, weight};

verus! {

/// The integer metrics of one function.
#[derive(Debug)]
pub struct FunctionMetrics {
    /// Display name.
    pub name: String,
    /// First line, 1-based.
    pub start_line: usize,
    /// Last line, 1-based.
    pub end_line: usize,
    /// First column, 0-based.
    pub start_col: usize,
    pub cyclomatic: u32,
    pub cognitive: u64,
    pub halstead: HalsteadCounts,
    /// Logical lines of the body; 1 for an expression body.
    pub function_length: u32,
    pub params_count: u32,
    /// Deepest nesting of control constructs in the body.
    pub nesting_depth: u32,
}

/// A 0-based row as a 1-based line.
pub open spec fn one_based(r: usize) -> usize {
    if r < usize::MAX { (r + 1) as usize } else { r }
}

fn one_based_exec(r: usize) -> (l: usize)
    ensures
        l == one_based(r),
{
    if r < usize::MAX { r + 1 } else { r }
}

/// The 1-based last line of a node spanning rows `start` to `end`, never
/// before its first line.
pub open spec fn last_line(start: usize, end: usize) -> usize {
    if one_based(end) >= one_based(start) { one_based(end) } else { one_based(start) }
}

/// Logical length of a function: the lines of its statement block, or 1
/// for an expression body.
pub open spec fn length_spec(f: SyntaxNode, source: Seq<u8>) -> nat {
    match first_child_kind(f, "statement_block"@) {
        Some(b) => logical_lines(
            clipped(source, f.children@[b].start_byte as int, f.children@[b].end_byte as int),
            false,
        ),
        None => 1,
    }
}

/// Nesting depth of a function: that of its statement block, else 0.
pub open spec fn nesting_spec(f: SyntaxNode) -> nat {
    match first_child_kind(f, "statement_block"@) {
        Some(b) => nesting_depth_spec(f.children@[b]),
        None => 0,
    }
}

/// `m` holds the metrics of the function node `f` named `name`.
pub open spec fn measures(
    m: FunctionMetrics,
    f: SyntaxNode,
    name: Seq<char>,
    cfg: CyclomaticConfig,
    source: Seq<u8>,
) -> bool {
    &&& m.name@ == name
    &&& m.start_line == one_based(f.start_row)
    &&& m.end_line == last_line(f.start_row, f.end_row)
    &&& m.start_col == f.start_col
    &&& m.cyclomatic == cyclomatic_spec(f, cfg)
    &&& m.cognitive == cap(cognitive_spec(f, name))
    &&& m.halstead == halstead_spec(f)
    &&& m.function_length == length_spec(f, source)
    &&& m.params_count == params_count_spec(f)
    &&& m.nesting_depth == nesting_spec(f)
}

/// Measures the function node `f` under the name `name`.
pub fn measure_function(f: &SyntaxNode, name: String, cfg: &CyclomaticConfig, source: &[u8]) -> (r: FunctionMetrics)
    requires
        is_function_kind(f.kind@),
        weight(*f) <= u32::MAX,
        source@.len() < u32::MAX,
    ensures
        measures(r, *f, name@, *cfg, source@),
{
    let cyclomatic = cyclomatic_of(f, cfg);
    let cognitive = cognitive_of(f, name.as_str());
    let halstead = halstead_of(f);
    let params_count = count_parameters(f);
    let (function_length, nesting_depth) = match find_child_kind(f, "statement_block") {
        Some(b) => {
            proof {
                lemma_child_weight(*f, b as int);
            }
            let body = &f.children[b];
            (count_logical_lines(source, body.start_byte, body.end_byte), max_nesting_depth(body))
        },
        None => (1, 0),
    };
    FunctionMetrics {
        name,
        start_line: one_based_exec(f.start_row),
        end_line: {
            let s = one_based_exec(f.start_row);
            let e = one_based_exec(f.end_row);
            if e >= s { e } else { s }
        },
        start_col: f.start_col,
        cyclomatic,
        cognitive,
        halstead,
        function_length,
        params_count,
        nesting_depth,
    }
}

/// The functions of the subtree of `n` under context `ctx`, in depth-first
/// order, with their display names. A function comes before the functions
/// nested in it, which are named without the context of their ancestors.
/// A leaf of a function kind is the `function` keyword, not a function.
pub open spec fn found(n: SyntaxNode, ctx: Option<NameCtx>) -> Seq<(SyntaxNode, Seq<char>)>
    decreases n, 1int,
{
    if is_function_kind(n.kind@) && n.children@.len() > 0 {
        seq![(n, display_name(n, ctx))] + found_children(n, None, n.children@.len() as int)
    } else {
        found_children(n, effective_ctx(n, ctx), n.children@.len() as int)
    }
}

/// The functions of the first `k` children of `n`, under context `ctx`.
pub open spec fn found_children(n: SyntaxNode, ctx: Option<NameCtx>, k: int) -> Seq<(SyntaxNode, Seq<char>)>
    decreases n, 0int, k,
{
    if k <= 0 || k > n.children@.len() {
        seq![]
    } else {
        found_children(n, ctx, k - 1) + found(n.children@[k - 1], ctx)
    }
}

/// `out[from..]` holds the metrics of the functions `fs`, in order.
pub open spec fn all_measured(
    out: Seq<FunctionMetrics>,
    from: int,
    fs: Seq<(SyntaxNode, Seq<char>)>,
    cfg: CyclomaticConfig,
    source: Seq<u8>,
) -> bool {
    &&& out.len() == from + fs.len()
    &&& forall|i: int|
        0 <= i < fs.len() ==> #[trigger] measures(out[from + i], fs[i].0, fs[i].1, cfg, source)
}

/// View of an optional context reference.
pub open spec fn ctx_view(c: Option<&NameContext>) -> Option<NameCtx> {
    match c {
        Some(x) => Some(x@),
        None => None,
    }
}

fn walk(
    n: &SyntaxNode,
    ctx: Option<&NameContext>,
    cfg: &CyclomaticConfig,
    source: &[u8],
    out: &mut Vec<FunctionMetrics>,
)
    requires
        weight(*n) <= u32::MAX,
        source@.len() < u32::MAX,
    ensures
        final(out)@.subrange(0, old(out)@.len() as int) == old(out)@,
        all_measured(final(out)@, old(out)@.len() as int, found(*n, ctx_view(ctx)), *cfg, source@),
    decreases n, 1int,
{
    if is_function_node(n.kind.as_str()) && n.children.len() > 0 {
        let name = resolve_name(n, ctx);
        let m = measure_function(n, name, cfg, source);
        let ghost o0 = out@;
        out.push(m);
        assert(out@.subrange(0, o0.len() as int) =~= o0);
        assert(out@[o0.len() as int] == m);
        let ghost o1 = out@;
        walk_children(n, None, cfg, source, out, n.children.len());
        let ghost head = seq![(*n, display_name(*n, ctx_view(ctx)))];
        let ghost rest = found_children(*n, None, n.children@.len() as int);
        assert(found(*n, ctx_view(ctx)) == head + rest);
        assert forall|i: int| 0 <= i < head.len() + rest.len() implies #[trigger] measures(
            out@[o0.len() + i],
            (head + rest)[i].0,
            (head + rest)[i].1,
            *cfg,
            source@,
        ) by {
            if i == 0 {
                assert(out@.subrange(0, o1.len() as int)[o0.len() as int] == o1[o0.len() as int]);
            } else {
                let j = i - 1;
                assert(measures(out@[o1.len() + j], rest[j].0, rest[j].1, *cfg, source@));
            }
        }
        assert(out@.subrange(0, o0.len() as int) =~= o0) by {
            assert(out@.subrange(0, o1.len() as int) == o1);
            assert(o1.subrange(0, o0.len() as int) == o0);
        }
        return;
    }
    let own = context_for(n);
    let eff: Option<&NameContext> = match &own {
        Some(c) => Some(c),
        None => ctx,
    };
    assert(ctx_view(eff) == effective_ctx(*n, ctx_view(ctx)));
    walk_children(n, eff, cfg, source, out, n.children.len());
}

fn walk_children(
    n: &SyntaxNode,
    ctx: Option<&NameContext>,
    cfg: &CyclomaticConfig,
    source: &[u8],
    out: &mut Vec<FunctionMetrics>,
    k: usize,
)
    requires
        weight(*n) <= u32::MAX,
        source@.len() < u32::MAX,
        k <= n.children@.len(),
    ensures
        final(out)@.subrange(0, old(out)@.len() as int) == old(out)@,
        all_measured(final(out)@, old(out)@.len() as int, found_children(*n, ctx_view(ctx), k as int), *cfg, source@),
    decreases n, 0int, k,
{
    let ghost o0 = out@;
    let ghost c = ctx_view(ctx);
    if k == 0 {
        assert(out@.subrange(0, o0.len() as int) =~= o0);
        return;
    }
    proof {
        lemma_child_weight(*n, k - 1);
    }
    walk_children(n, ctx, cfg, source, out, k - 1);
    let ghost o1 = out@;
    walk(&n.children[k - 1], ctx, cfg, source, out);
    let ghost fa = found_children(*n, c, k - 1);
    let ghost fb = found(n.children@[k - 1], c);
    assert(found_children(*n, c, k as int) == fa + fb);
    assert forall|i: int| 0 <= i < fa.len() + fb.len() implies #[trigger] measures(
        out@[o0.len() + i],
        (fa + fb)[i].0,
        (fa + fb)[i].1,
        *cfg,
        source@,
    ) by {
        if i < fa.len() {
            assert(measures(o1[o0.len() + i], fa[i].0, fa[i].1, *cfg, source@));
            assert(out@.subrange(0, o1.len() as int)[o0.len() + i] == o1[o0.len() + i]);
        } else {
            let j = i - fa.len();
            assert(measures(out@[o1.len() + j], fb[j].0, fb[j].1, *cfg, source@));
        }
    }
    assert(out@.subrange(0, o0.len() as int) =~= o0) by {
        assert(out@.subrange(0, o1.len() as int) == o1);
        assert(o1.subrange(0, o0.len() as int) == o0);
    }
}

/// Discovers and measures every function of the tree `root`, in
/// depth-first order; nested functions follow their enclosing one.
pub fn analyze_functions(root: &SyntaxNode, cfg: &CyclomaticConfig, source: &[u8]) -> (r: Vec<FunctionMetrics>)
    requires
        weight(*root) <= u32::MAX,
        source@.len() < u32::MAX,
    ensures
        all_measured(r@, 0, found(*root, None), *cfg, source@),
{
    let mut out: Vec<FunctionMetrics> = Vec::new();
    walk(root, None, cfg, source, &mut out);
    out
}

} // verus!
