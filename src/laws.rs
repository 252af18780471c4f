//! Properties that hold of every input, proved over the specifications of
//! the analysis functions.

use vstd::prelude::*;
use crate::analysis::{FunctionMetrics, measures, length_spec, nesting_spec};
use crate::cyclomatic::{CyclomaticConfig, cyclomatic_spec, decision_points, decision_points_children, own_decisions, first_child_kind};
use crate::exit_codes::{ExitCode, exit_code_spec};
use crate::halstead::{halstead_spec, measured, ops, opnds, ops_seq, opnds_seq, ops_children, opnds_children, HalsteadCounts};
use crate::kinds::{is_function_kind, is_type_only_kind};
use crate::pipeline::{AnalysisConfig, FileAnalysis, analysis_of};
use crate::syntax::{SyntaxNode, rows_well_formed, rows_well_formed_children};
use crate::analysis::{found, found_children};
use crate::naming::{NameCtx, effective_ctx};
use crate::tokens::tokens_of;
use crate::cognitive::{visit, sum_plain, sum_binary, cognitive_spec, after_arrow_from, is_structural_kind, is_logical_op, is_self_call, has_label};

verus! {

/// Every measured function has cyclomatic complexity at least 1, a first
/// line at least 1, and a last line no earlier than its first.
pub proof fn lemma_function_record_bounds(m: FunctionMetrics, f: SyntaxNode, name: Seq<char>, cfg: CyclomaticConfig, source: Seq<u8>)
    requires
        measures(m, f, name, cfg, source),
    ensures
        m.cyclomatic >= 1,
        m.start_line >= 1,
        m.end_line >= m.start_line,
{
}

/// All metric families of a file are aligned: the i-th record of the file
/// carries the cyclomatic, cognitive, Halstead and structural values of one
/// and the same function, the i-th one discovered, and there are exactly as
/// many records as functions.
pub proof fn lemma_metrics_aligned(fa: FileAnalysis, root: SyntaxNode, source: Seq<u8>, cfg: AnalysisConfig)
    requires
        analysis_of(fa, root, source, cfg),
    ensures
        fa.functions@.len() == found(root, None).len(),
        forall|i: int|
            0 <= i < fa.functions@.len() ==> {
                let f = found(root, None)[i].0;
                let x = #[trigger] fa.functions@[i];
                &&& x.cyclomatic == cyclomatic_spec(f, cfg.cyclomatic)
                &&& x.cognitive == crate::cognitive::cap(cognitive_spec(f, found(root, None)[i].1))
                &&& x.halstead == halstead_spec(f)
                &&& x.function_length == length_spec(f, source)
                &&& x.params_count == crate::structural::params_count_spec(f)
                &&& x.nesting_depth == nesting_spec(f)
            },
{
    let fs = found(root, None);
    assert forall|i: int| 0 <= i < fa.functions@.len() implies {
        let f = fs[i].0;
        let x = #[trigger] fa.functions@[i];
        &&& x.cyclomatic == cyclomatic_spec(f, cfg.cyclomatic)
        &&& x.cognitive == crate::cognitive::cap(cognitive_spec(f, fs[i].1))
        &&& x.halstead == halstead_spec(f)
        &&& x.function_length == length_spec(f, source)
        &&& x.params_count == crate::structural::params_count_spec(f)
        &&& x.nesting_depth == nesting_spec(f)
    } by {
        assert(measures(fa.functions@[0 + i], fs[i].0, fs[i].1, cfg.cyclomatic, source));
    }
}

/// Exit-code priority: `fail_on = "none"` gives success whatever else holds;
/// otherwise parse errors come first, then errors or a failed baseline, then
/// warnings when `fail_on = "warning"`, then success.
pub proof fn lemma_exit_code_priority(
    has_parse_errors: bool,
    error_count: u32,
    warning_count: u32,
    fail_on: Option<Seq<char>>,
    baseline_failed: bool,
)
    ensures
        ({
            let r = exit_code_spec(has_parse_errors, error_count, warning_count, fail_on, baseline_failed);
            &&& fail_on == Some("none"@) ==> r == ExitCode::Success
            &&& fail_on != Some("none"@) && has_parse_errors ==> r == ExitCode::ParseError
            &&& fail_on != Some("none"@) && !has_parse_errors && (error_count > 0 || baseline_failed) ==> r
                == ExitCode::ErrorsFound
            &&& fail_on != Some("none"@) && !has_parse_errors && error_count == 0 && !baseline_failed
                && warning_count > 0 && fail_on == Some("warning"@) ==> r == ExitCode::WarningsFound
            &&& r == ExitCode::WarningsFound ==> fail_on == Some("warning"@)
            &&& r != ExitCode::ConfigError
        }),
{
}

/// A subtree in which no node adds a decision point.
pub open spec fn decision_free(n: SyntaxNode, cfg: CyclomaticConfig) -> bool
    decreases n, 1int,
{
    (is_function_kind(n.kind@) || (own_decisions(n, cfg) == 0 && decision_free_children(n, cfg, n.children@.len() as int)))
}

/// The first `k` children of `n` are decision free.
pub open spec fn decision_free_children(n: SyntaxNode, cfg: CyclomaticConfig, k: int) -> bool
    decreases n, 0int, k,
{
    k <= 0 || k > n.children@.len() || (decision_free_children(n, cfg, k - 1) && decision_free(
        n.children@[k - 1],
        cfg,
    ))
}

proof fn lemma_decision_free_zero(n: SyntaxNode, cfg: CyclomaticConfig)
    requires
        decision_free(n, cfg),
    ensures
        decision_points(n, cfg) == 0,
    decreases n, 1int,
{
    if !is_function_kind(n.kind@) {
        lemma_decision_free_children_zero(n, cfg, n.children@.len() as int);
    }
}

proof fn lemma_decision_free_children_zero(n: SyntaxNode, cfg: CyclomaticConfig, k: int)
    requires
        decision_free_children(n, cfg, k),
    ensures
        decision_points_children(n, cfg, k) == 0,
    decreases n, 0int, k,
{
    if k > 0 && k <= n.children@.len() {
        lemma_decision_free_children_zero(n, cfg, k - 1);
        lemma_decision_free_zero(n.children@[k - 1], cfg);
    }
}

/// A function whose body holds no decision point has cyclomatic complexity 1.
pub proof fn lemma_no_decisions_cyclomatic_one(f: SyntaxNode, cfg: CyclomaticConfig)
    requires
        decision_free(f, cfg),
        match first_child_kind(f, "statement_block"@) {
            Some(b) => decision_free(f.children@[b], cfg),
            None => true,
        },
    ensures
        cyclomatic_spec(f, cfg) == 1,
{
    match first_child_kind(f, "statement_block"@) {
        Some(b) => lemma_decision_free_zero(f.children@[b], cfg),
        None => lemma_decision_free_zero(f, cfg),
    }
}

/// A subtree with nothing that cognitive complexity counts: no branch,
/// loop, `switch`, ternary, `catch`, `else`, logical operator, labelled
/// jump, self-call or callback arrow, down to nested function boundaries.
pub open spec fn cognitive_free(n: SyntaxNode, f: Seq<char>) -> bool
    decreases n, 1int,
{
    let k = n.kind@;
    if k != "arrow_function"@ && is_function_kind(k) {
        true
    } else {
        &&& k != "arrow_function"@
        &&& k != "if_statement"@
        &&& k != "else_clause"@
        &&& !is_structural_kind(k)
        &&& !(k == "call_expression"@ && is_self_call(n, f))
        &&& !((k == "break_statement"@ || k == "continue_statement"@) && has_label(n))
        &&& cognitive_free_children(n, f, n.children@.len() as int)
    }
}

/// The first `k` children of `n` are cognitive free and none is a logical operator.
pub open spec fn cognitive_free_children(n: SyntaxNode, f: Seq<char>, k: int) -> bool
    decreases n, 0int, k,
{
    k <= 0 || k > n.children@.len() || (cognitive_free_children(n, f, k - 1) && !is_logical_op(
        n.children@[k - 1].kind@,
    ) && cognitive_free(n.children@[k - 1], f))
}

proof fn lemma_cognitive_free_zero(n: SyntaxNode, nest: nat, inner: bool, f: Seq<char>)
    requires
        cognitive_free(n, f),
    ensures
        visit(n, nest, inner, f) == 0,
    decreases n, 1int,
{
    if !is_function_kind(n.kind@) {
        lemma_cognitive_free_children_zero(n, nest, inner, f, n.children@.len() as int);
    }
}

proof fn lemma_cognitive_free_children_zero(n: SyntaxNode, nest: nat, inner: bool, f: Seq<char>, k: int)
    requires
        cognitive_free_children(n, f, k),
    ensures
        sum_plain(n, nest, inner, f, k) == 0,
        sum_binary(n, nest, inner, f, k) == 0,
    decreases n, 0int, k,
{
    if k > 0 && k <= n.children@.len() {
        lemma_cognitive_free_children_zero(n, nest, inner, f, k - 1);
        lemma_cognitive_free_zero(n.children@[k - 1], nest, inner, f);
    }
}

/// A function with nothing that cognitive complexity counts has cognitive
/// complexity 0.
pub proof fn lemma_no_decisions_cognitive_zero(g: SyntaxNode, f: Seq<char>)
    requires
        match first_child_kind(g, "statement_block"@) {
            Some(b) => cognitive_free_children(g.children@[b], f, g.children@[b].children@.len() as int),
            None => match after_arrow_from(g, 0, false) {
                Some(i) => cognitive_free(g.children@[i], f),
                None => true,
            },
        },
    ensures
        cognitive_spec(g, f) == 0,
{
    match first_child_kind(g, "statement_block"@) {
        Some(b) => lemma_cognitive_free_children_zero(g.children@[b], 0, false, f, g.children@[b].children@.len() as int),
        None => match after_arrow_from(g, 0, false) {
            Some(i) => lemma_cognitive_free_zero(g.children@[i], 0, false, f),
            None => {},
        },
    }
}

/// A function whose statement block is empty has all Halstead counts zero.
pub proof fn lemma_empty_body_halstead_zero(f: SyntaxNode)
    requires
        first_child_kind(f, "statement_block"@) is Some,
        f.children@[first_child_kind(f, "statement_block"@)->0].children@.len() == 0,
    ensures
        halstead_spec(f) == (HalsteadCounts {
            distinct_operators: 0,
            distinct_operands: 0,
            total_operators: 0,
            total_operands: 0,
        }),
{
    let m = measured(f);
    assert(m.len() == 0);
    assert(ops_seq(m) == Seq::<Seq<char>>::empty());
    assert(opnds_seq(m) == Seq::<Seq<char>>::empty());
    assert(Seq::<Seq<char>>::empty().to_set() =~= Set::<Seq<char>>::empty());
}

/// A function without a statement block (an arrow with an expression body)
/// has length 1 and nesting depth 0.
pub proof fn lemma_expression_body_shape(f: SyntaxNode, source: Seq<u8>)
    requires
        first_child_kind(f, "statement_block"@) is None,
    ensures
        length_spec(f, source) == 1,
        nesting_spec(f) == 0,
{
}

/// A type-only subtree adds no operator, no operand and no token, so type
/// annotations leave the Halstead counts and the token stream unchanged.
pub proof fn lemma_type_subtrees_add_nothing(n: SyntaxNode)
    requires
        is_type_only_kind(n.kind@),
    ensures
        ops(n) == Seq::<Seq<char>>::empty(),
        opnds(n) == Seq::<Seq<char>>::empty(),
        tokens_of(n).len() == 0,
{
}

/// `j` is `t` with every type-only subtree deleted: the same kinds and
/// texts, leaves where `t` has leaves, and the children of `t` that are not
/// type-only matched in order with the children of `j`.
pub open spec fn stripped(t: SyntaxNode, j: SyntaxNode) -> bool
    decreases t, 1int, 0int,
{
    &&& t.kind@ == j.kind@
    &&& t.text@ == j.text@
    &&& (t.children@.len() == 0 <==> j.children@.len() == 0)
    &&& j.children@.len() <= t.children@.len()
    &&& stripped_children(t, j, t.children@.len() as int, j.children@.len() as int)
}

/// The first `k` children of `t`, type-only ones deleted, match the first
/// `m` children of `j`.
pub open spec fn stripped_children(t: SyntaxNode, j: SyntaxNode, k: int, m: int) -> bool
    decreases t, 0int, k,
{
    if k <= 0 || k > t.children@.len() {
        m == 0
    } else if is_type_only_kind(t.children@[k - 1].kind@) {
        stripped_children(t, j, k - 1, m)
    } else {
        0 < m <= j.children@.len() && stripped(t.children@[k - 1], j.children@[m - 1]) && stripped_children(
            t,
            j,
            k - 1,
            m - 1,
        )
    }
}

proof fn lemma_stripped_same_counts(t: SyntaxNode, j: SyntaxNode)
    requires
        stripped(t, j),
        !is_type_only_kind(t.kind@),
    ensures
        ops(t) == ops(j),
        opnds(t) == opnds(j),
    decreases t, 1int, 0int,
{
    lemma_stripped_children_counts(t, j, t.children@.len() as int, j.children@.len() as int);
}

proof fn lemma_stripped_children_counts(t: SyntaxNode, j: SyntaxNode, k: int, m: int)
    requires
        stripped_children(t, j, k, m),
        0 <= k <= t.children@.len(),
        0 <= m <= j.children@.len(),
    ensures
        ops_children(t, k) == ops_children(j, m),
        opnds_children(t, k) == opnds_children(j, m),
    decreases t, 0int, k,
{
    if k > 0 {
        let c = t.children@[k - 1];
        if is_type_only_kind(c.kind@) {
            lemma_stripped_children_counts(t, j, k - 1, m);
            assert(ops(c) == Seq::<Seq<char>>::empty());
            assert(opnds(c) == Seq::<Seq<char>>::empty());
            assert(ops_children(t, k) =~= ops_children(t, k - 1));
            assert(opnds_children(t, k) =~= opnds_children(t, k - 1));
        } else {
            lemma_stripped_children_counts(t, j, k - 1, m - 1);
            lemma_stripped_same_counts(c, j.children@[m - 1]);
        }
    }
}

proof fn lemma_seq_is_children(n: SyntaxNode, k: int)
    requires
        0 <= k <= n.children@.len(),
    ensures
        ops_seq(n.children@.subrange(0, k)) == ops_children(n, k),
        opnds_seq(n.children@.subrange(0, k)) == opnds_children(n, k),
    decreases k,
{
    if k > 0 {
        lemma_seq_is_children(n, k - 1);
        assert(n.children@.subrange(0, k).drop_last() =~= n.children@.subrange(0, k - 1));
    } else {
        assert(n.children@.subrange(0, 0) =~= Seq::<SyntaxNode>::empty());
    }
}

/// Deleting type annotations leaves the Halstead counts unchanged: two
/// functions whose statement blocks differ only by deleted type-only
/// subtrees have the same distinct and total operators and operands.
pub proof fn lemma_halstead_ignores_types(f: SyntaxNode, g: SyntaxNode)
    requires
        first_child_kind(f, "statement_block"@) is Some,
        first_child_kind(g, "statement_block"@) is Some,
        stripped(
            f.children@[first_child_kind(f, "statement_block"@)->0],
            g.children@[first_child_kind(g, "statement_block"@)->0],
        ),
    ensures
        halstead_spec(f) == halstead_spec(g),
{
    let bf = f.children@[first_child_kind(f, "statement_block"@)->0];
    let bg = g.children@[first_child_kind(g, "statement_block"@)->0];
    lemma_stripped_children_counts(bf, bg, bf.children@.len() as int, bg.children@.len() as int);
    lemma_seq_is_children(bf, bf.children@.len() as int);
    lemma_seq_is_children(bg, bg.children@.len() as int);
    assert(bf.children@.subrange(0, bf.children@.len() as int) =~= bf.children@);
    assert(bg.children@.subrange(0, bg.children@.len() as int) =~= bg.children@);
    assert(measured(f) == bf.children@);
    assert(measured(g) == bg.children@);
}

/// Analysing the same tree of the same source twice gives the same
/// functions, in the same order, with the same names and metrics, and the
/// same file-level numbers.
pub proof fn lemma_analysis_deterministic(
    a: FileAnalysis,
    b: FileAnalysis,
    root: SyntaxNode,
    source: Seq<u8>,
    cfg: AnalysisConfig,
)
    requires
        analysis_of(a, root, source, cfg),
        analysis_of(b, root, source, cfg),
    ensures
        a.functions@.len() == b.functions@.len(),
        forall|i: int|
            0 <= i < a.functions@.len() ==> {
                let x = #[trigger] a.functions@[i];
                let y = b.functions@[i];
                &&& x.name@ == y.name@
                &&& x.start_line == y.start_line && x.end_line == y.end_line && x.start_col == y.start_col
                &&& x.cyclomatic == y.cyclomatic && x.cognitive == y.cognitive && x.halstead == y.halstead
                &&& x.function_length == y.function_length && x.params_count == y.params_count
                &&& x.nesting_depth == y.nesting_depth
            },
        a.file_length == b.file_length,
        a.export_count == b.export_count,
        a.tokens@.len() == b.tokens@.len(),
{
    let fs = crate::analysis::found(root, None);
    assert forall|i: int| 0 <= i < a.functions@.len() implies {
        let x = #[trigger] a.functions@[i];
        let y = b.functions@[i];
        &&& x.name@ == y.name@
        &&& x.start_line == y.start_line && x.end_line == y.end_line && x.start_col == y.start_col
        &&& x.cyclomatic == y.cyclomatic && x.cognitive == y.cognitive && x.halstead == y.halstead
        &&& x.function_length == y.function_length && x.params_count == y.params_count
        &&& x.nesting_depth == y.nesting_depth
    } by {
        assert(measures(a.functions@[0 + i], fs[i].0, fs[i].1, cfg.cyclomatic, source));
        assert(measures(b.functions@[0 + i], fs[i].0, fs[i].1, cfg.cyclomatic, source));
    }
    if cfg.duplication.enabled {
        assert(a.tokens@.map_values(|t: crate::tokens::Token| crate::tokens::token_view(t)).len() == a.tokens@.len());
        assert(b.tokens@.map_values(|t: crate::tokens::Token| crate::tokens::token_view(t)).len() == b.tokens@.len());
    }
}

/// Functions listed in non-decreasing order of their first row.
pub open spec fn rows_sorted(s: Seq<(SyntaxNode, Seq<char>)>) -> bool {
    forall|i: int, j: int| 0 <= i < j < s.len() ==> (#[trigger] s[i]).0.start_row <= (#[trigger] s[j]).0.start_row
}

proof fn lemma_found_bounds(n: SyntaxNode, ctx: Option<NameCtx>)
    requires
        rows_well_formed(n),
    ensures
        forall|i: int|
            0 <= i < found(n, ctx).len() ==> n.start_row <= (#[trigger] found(n, ctx)[i]).0.start_row
                <= n.end_row,
    decreases n, 1int,
{
    let len = n.children@.len() as int;
    if is_function_kind(n.kind@) && len > 0 {
        lemma_found_children_bounds(n, None, len);
        let fc = found_children(n, None, len);
        assert(found(n, ctx) == seq![(n, crate::naming::display_name(n, ctx))] + fc);
        assert forall|i: int| 0 <= i < found(n, ctx).len() implies n.start_row <= (#[trigger] found(n, ctx)[i]).0.start_row
            <= n.end_row by {
            if i > 0 {
                assert(found(n, ctx)[i] == fc[i - 1]);
            }
        }
    } else {
        lemma_found_children_bounds(n, effective_ctx(n, ctx), len);
    }
}

proof fn lemma_found_children_bounds(n: SyntaxNode, ctx: Option<NameCtx>, k: int)
    requires
        rows_well_formed_children(n, k),
        0 <= k <= n.children@.len(),
        n.start_row <= n.end_row,
    ensures
        forall|i: int|
            0 <= i < found_children(n, ctx, k).len() ==> n.start_row <= (#[trigger] found_children(n, ctx, k)[i]).0.start_row
                && found_children(n, ctx, k)[i].0.start_row <= n.end_row
                && (k >= 1 ==> found_children(n, ctx, k)[i].0.start_row <= n.children@[k - 1].end_row),
    decreases n, 0int, k,
{
    if k > 0 {
        let c = n.children@[k - 1];
        lemma_found_children_bounds(n, ctx, k - 1);
        lemma_found_bounds(c, ctx);
        let a = found_children(n, ctx, k - 1);
        let b = found(c, ctx);
        assert(found_children(n, ctx, k) == a + b);
        assert forall|i: int| 0 <= i < (a + b).len() implies n.start_row <= (#[trigger] (a + b)[i]).0.start_row
            && (a + b)[i].0.start_row <= n.end_row && (a + b)[i].0.start_row <= c.end_row by {
            if i < a.len() {
                assert((a + b)[i] == a[i]);
                if k >= 2 {
                    assert(a[i].0.start_row <= n.children@[k - 2].end_row);
                }
            } else {
                assert((a + b)[i] == b[i - a.len()]);
            }
        }
    }
}

proof fn lemma_found_sorted(n: SyntaxNode, ctx: Option<NameCtx>)
    requires
        rows_well_formed(n),
    ensures
        rows_sorted(found(n, ctx)),
    decreases n, 1int,
{
    let len = n.children@.len() as int;
    if is_function_kind(n.kind@) && len > 0 {
        lemma_found_children_sorted(n, None, len);
        lemma_found_children_bounds(n, None, len);
        let fc = found_children(n, None, len);
        let s = seq![(n, crate::naming::display_name(n, ctx))] + fc;
        assert(found(n, ctx) == s);
        assert forall|i: int, j: int| 0 <= i < j < s.len() implies (#[trigger] s[i]).0.start_row <= (#[trigger] s[j]).0.start_row by {
            assert(s[j] == fc[j - 1]);
            if i > 0 {
                assert(s[i] == fc[i - 1]);
            }
        }
    } else {
        lemma_found_children_sorted(n, effective_ctx(n, ctx), len);
    }
}

proof fn lemma_found_children_sorted(n: SyntaxNode, ctx: Option<NameCtx>, k: int)
    requires
        rows_well_formed_children(n, k),
        0 <= k <= n.children@.len(),
        n.start_row <= n.end_row,
    ensures
        rows_sorted(found_children(n, ctx, k)),
    decreases n, 0int, k,
{
    if k > 0 {
        let c = n.children@[k - 1];
        lemma_found_children_sorted(n, ctx, k - 1);
        lemma_found_children_bounds(n, ctx, k - 1);
        lemma_found_sorted(c, ctx);
        lemma_found_bounds(c, ctx);
        let a = found_children(n, ctx, k - 1);
        let b = found(c, ctx);
        let s = a + b;
        assert(found_children(n, ctx, k) == s);
        assert forall|i: int, j: int| 0 <= i < j < s.len() implies (#[trigger] s[i]).0.start_row <= (#[trigger] s[j]).0.start_row by {
            if j < a.len() {
                assert(s[i] == a[i] && s[j] == a[j]);
            } else if i >= a.len() {
                assert(s[i] == b[i - a.len()] && s[j] == b[j - a.len()]);
            } else {
                assert(s[i] == a[i] && s[j] == b[j - a.len()]);
                assert(a[i].0.start_row <= n.children@[k - 2].end_row);
            }
        }
    }
}

/// In a tree laid out as a parser lays it out, a file's functions come in
/// non-decreasing order of their first line.
pub proof fn lemma_functions_in_line_order(fa: FileAnalysis, root: SyntaxNode, source: Seq<u8>, cfg: AnalysisConfig)
    requires
        rows_well_formed(root),
        analysis_of(fa, root, source, cfg),
    ensures
        forall|i: int, j: int|
            0 <= i < j < fa.functions@.len() ==> (#[trigger] fa.functions@[i]).start_line
                <= (#[trigger] fa.functions@[j]).start_line,
{
    lemma_found_sorted(root, None);
    let fs = found(root, None);
    assert forall|i: int, j: int| 0 <= i < j < fa.functions@.len() implies (#[trigger] fa.functions@[i]).start_line
        <= (#[trigger] fa.functions@[j]).start_line by {
        assert(measures(fa.functions@[0 + i], fs[i].0, fs[i].1, cfg.cyclomatic, source));
        assert(measures(fa.functions@[0 + j], fs[j].0, fs[j].1, cfg.cyclomatic, source));
        assert(fs[i].0.start_row <= fs[j].0.start_row);
    }
}

} // verus!
