//! Cyclomatic complexity: one plus the number of decision points in a
//! function body, nested functions excluded.

use vstd::prelude::*;
use crate::kinds::{is_function_kind, is_function_node};
use crate::syntax::{SyntaxNode, weight, weight_children, lemma_child_weight};

verus! {

/// How `switch` statements count.
#[derive(Debug, Clone, Copy, PartialEq, Eq, Structural)]
pub enum SwitchCaseMode {
    /// Each case with an expression counts once.
    Classic,
    /// The whole switch counts once.
    Modified,
}

/// Which constructs count as decision points, and the thresholds of the metric.
#[derive(Debug, Clone, Copy)]
pub struct CyclomaticConfig {
    pub count_logical_operators: bool,
    pub count_nullish_coalescing: bool,
    pub count_optional_chaining: bool,
    pub count_ternary: bool,
    pub count_default_params: bool,
    pub switch_case_mode: SwitchCaseMode,
    pub warning_threshold: u32,
    pub error_threshold: u32,
}

impl CyclomaticConfig {
    /// Every construct counts, switches count per case, thresholds 10 and 20.
    pub fn new() -> (r: Self)
        ensures
            r.count_logical_operators && r.count_nullish_coalescing && r.count_optional_chaining
                && r.count_ternary && r.count_default_params,
            r.switch_case_mode == SwitchCaseMode::Classic,
            r.warning_threshold == 10 && r.error_threshold == 20,
    {
        CyclomaticConfig {
            count_logical_operators: true,
            count_nullish_coalescing: true,
            count_optional_chaining: true,
            count_ternary: true,
            count_default_params: true,
            switch_case_mode: SwitchCaseMode::Classic,
            warning_threshold: 10,
            error_threshold: 20,
        }
    }
}

impl Default for CyclomaticConfig {
    fn default() -> (r: Self)
        ensures
            r.count_logical_operators && r.count_nullish_coalescing && r.count_optional_chaining
                && r.count_ternary && r.count_default_params,
            r.switch_case_mode == SwitchCaseMode::Classic,
            r.warning_threshold == 10 && r.error_threshold == 20,
    {
        CyclomaticConfig::new()
    }
}

/// Statement kinds that always add one decision.
pub open spec fn is_branch_kind(k: Seq<char>) -> bool {
    k == "if_statement"@ || k == "while_statement"@ || k == "do_statement"@ || k
        == "for_statement"@ || k == "for_in_statement"@ || k == "catch_clause"@
}

/// Whether a child of a binary expression is a counted operator.
pub open spec fn is_counted_binary_op(k: Seq<char>, cfg: CyclomaticConfig) -> bool {
    (cfg.count_logical_operators && (k == "&&"@ || k == "||"@)) || (cfg.count_nullish_coalescing
        && k == "??"@)
}

/// Whether a child of an augmented assignment is a counted operator.
pub open spec fn is_counted_assign_op(k: Seq<char>, cfg: CyclomaticConfig) -> bool {
    cfg.count_logical_operators && (k == "&&="@ || k == "||="@)
}

/// Whether a child of a switch case is its tested expression.
pub open spec fn is_case_expression(k: Seq<char>) -> bool {
    k != "case"@ && k != ":"@ && k != "default"@
}

/// Number of the first `k` children of `n` that are counted operators: of a
/// binary expression when `assign` is false, of an augmented assignment else.
pub open spec fn counted_ops(n: SyntaxNode, cfg: CyclomaticConfig, assign: bool, k: int) -> nat
    decreases k,
{
    if k <= 0 || k > n.children@.len() {
        0
    } else {
        let c = n.children@[k - 1].kind@;
        counted_ops(n, cfg, assign, k - 1) + if (assign && is_counted_assign_op(c, cfg)) || (!assign
            && is_counted_binary_op(c, cfg)) {
            1nat
        } else {
            0nat
        }
    }
}

/// Whether one of the children of `n` has kind `k`.
pub open spec fn has_child_kind(n: SyntaxNode, k: Seq<char>) -> bool {
    exists|i: int| 0 <= i < n.children@.len() && n.children@[i].kind@ == k
}

/// Whether one of the children of a switch case is an expression.
pub open spec fn has_case_expression(n: SyntaxNode) -> bool {
    exists|i: int| 0 <= i < n.children@.len() && is_case_expression(n.children@[i].kind@)
}

/// Decision points that node `n` adds by itself.
pub open spec fn own_decisions(n: SyntaxNode, cfg: CyclomaticConfig) -> nat {
    let k = n.kind@;
    let base: nat = if is_branch_kind(k) {
        1
    } else if k == "ternary_expression"@ && cfg.count_ternary {
        1
    } else if k == "switch_statement"@ && cfg.switch_case_mode == SwitchCaseMode::Modified {
        1
    } else if k == "switch_case"@ && cfg.switch_case_mode == SwitchCaseMode::Classic {
        if has_case_expression(n) { 1 } else { 0 }
    } else if k == "binary_expression"@ {
        counted_ops(n, cfg, false, n.children@.len() as int)
    } else if k == "augmented_assignment_expression"@ {
        counted_ops(n, cfg, true, n.children@.len() as int)
    } else {
        0
    };
    let chain: nat = if cfg.count_optional_chaining && (k == "member_expression"@ || k
        == "call_expression"@ || k == "subscript_expression"@) && (has_child_kind(n, "?."@)
        || has_child_kind(n, "optional_chain"@)) {
        1
    } else {
        0
    };
    base + chain
}

/// Decision points in the subtree of `n`, stopping at nested functions.
pub open spec fn decision_points(n: SyntaxNode, cfg: CyclomaticConfig) -> nat
    decreases n, 1int,
{
    if is_function_kind(n.kind@) {
        0
    } else {
        own_decisions(n, cfg) + decision_points_children(n, cfg, n.children@.len() as int)
    }
}

/// Decision points in the first `k` children of `n`.
pub open spec fn decision_points_children(n: SyntaxNode, cfg: CyclomaticConfig, k: int) -> nat
    decreases n, 0int, k,
{
    if k <= 0 || k > n.children@.len() {
        0
    } else {
        decision_points_children(n, cfg, k - 1) + decision_points(n.children@[k - 1], cfg)
    }
}

/// Index of the first child of `n` with kind `k`, if any.
pub open spec fn first_child_kind(n: SyntaxNode, k: Seq<char>) -> Option<int> {
    first_child_kind_from(n, k, 0)
}

/// Index of the first child at or after `i` with kind `k`, if any.
pub open spec fn first_child_kind_from(n: SyntaxNode, k: Seq<char>, i: int) -> Option<int>
    decreases n.children@.len() - i,
{
    if i < 0 || i >= n.children@.len() {
        None
    } else if n.children@[i].kind@ == k {
        Some(i)
    } else {
        first_child_kind_from(n, k, i + 1)
    }
}

/// Cyclomatic complexity of a function node: one plus the decision points of
/// its statement block. A function without one (an arrow function with an
/// expression body) has complexity one.
pub open spec fn cyclomatic_spec(f: SyntaxNode, cfg: CyclomaticConfig) -> nat {
    1 + match first_child_kind(f, "statement_block"@) {
        Some(i) => decision_points(f.children@[i], cfg),
        None => decision_points(f, cfg),
    }
}

/// Index of the first child of `n` with kind `k`.
pub fn find_child_kind(n: &SyntaxNode, k: &str) -> (r: Option<usize>)
    ensures
        match r {
            Some(i) => i < n.children@.len() && first_child_kind(*n, k@) == Some(i as int),
            None => first_child_kind(*n, k@) == None::<int>,
        },
{
    let mut i: usize = 0;
    while i < n.children.len()
        invariant
            i <= n.children@.len(),
            first_child_kind(*n, k@) == first_child_kind_from(*n, k@, i as int),
        decreases n.children@.len() - i,
    {
        if n.children[i].is_kind(k) {
            return Some(i);
        }
        i = i + 1;
    }
    None
}

/// Whether a child of `n` has kind `k`.
pub fn child_kind_exists(n: &SyntaxNode, k: &str) -> (r: bool)
    ensures
        r == has_child_kind(*n, k@),
{
    let mut i: usize = 0;
    while i < n.children.len()
        invariant
            i <= n.children@.len(),
            forall|j: int| 0 <= j < i ==> n.children@[j].kind@ != k@,
        decreases n.children@.len() - i,
    {
        if n.children[i].is_kind(k) {
            return true;
        }
        i = i + 1;
    }
    false
}

fn case_expression_exists(n: &SyntaxNode) -> (r: bool)
    ensures
        r == has_case_expression(*n),
{
    let mut i: usize = 0;
    while i < n.children.len()
        invariant
            i <= n.children@.len(),
            forall|j: int| 0 <= j < i ==> !is_case_expression(#[trigger] n.children@[j].kind@),
        decreases n.children@.len() - i,
    {
        let c = &n.children[i];
        if !c.is_kind("case") && !c.is_kind(":") && !c.is_kind("default") {
            return true;
        }
        i = i + 1;
    }
    false
}

fn count_ops(n: &SyntaxNode, cfg: &CyclomaticConfig, assign: bool) -> (r: u32)
    requires
        n.children@.len() <= u32::MAX,
    ensures
        r == counted_ops(*n, *cfg, assign, n.children@.len() as int),
        r <= n.children@.len(),
{
    let mut acc: u32 = 0;
    let mut i: usize = 0;
    while i < n.children.len()
        invariant
            i <= n.children@.len() <= u32::MAX,
            acc == counted_ops(*n, *cfg, assign, i as int),
            acc <= i,
        decreases n.children@.len() - i,
    {
        let c = &n.children[i];
        let hit = if assign {
            cfg.count_logical_operators && (c.is_kind("&&=") || c.is_kind("||="))
        } else {
            (cfg.count_logical_operators && (c.is_kind("&&") || c.is_kind("||")))
                || (cfg.count_nullish_coalescing && c.is_kind("??"))
        };
        if hit {
            acc = acc + 1;
        }
        i = i + 1;
    }
    acc
}

fn own_decision_count(n: &SyntaxNode, cfg: &CyclomaticConfig) -> (r: u32)
    requires
        n.children@.len() <= u32::MAX - 2,
    ensures
        r == own_decisions(*n, *cfg),
        r <= n.children@.len() + 2,
{
    let base: u32 = if n.is_kind("if_statement") || n.is_kind("while_statement") || n.is_kind(
        "do_statement",
    ) || n.is_kind("for_statement") || n.is_kind("for_in_statement") || n.is_kind(
        "catch_clause",
    ) {
        1
    } else if n.is_kind("ternary_expression") && cfg.count_ternary {
        1
    } else if n.is_kind("switch_statement") && cfg.switch_case_mode == SwitchCaseMode::Modified {
        1
    } else if n.is_kind("switch_case") && cfg.switch_case_mode == SwitchCaseMode::Classic {
        if case_expression_exists(n) {
            1
        } else {
            0
        }
    } else if n.is_kind("binary_expression") {
        count_ops(n, cfg, false)
    } else if n.is_kind("augmented_assignment_expression") {
        count_ops(n, cfg, true)
    } else {
        0
    };
    let chain: u32 = if cfg.count_optional_chaining && (n.is_kind("member_expression") || n.is_kind(
        "call_expression",
    ) || n.is_kind("subscript_expression")) && (child_kind_exists(n, "?.") || child_kind_exists(
        n,
        "optional_chain",
    )) {
        1
    } else {
        0
    };
    base + chain
}

/// Counts the decision points in the subtree of `n`, stopping at nested
/// functions.
pub fn count_decision_points(n: &SyntaxNode, cfg: &CyclomaticConfig) -> (r: u32)
    requires
        weight(*n) <= u32::MAX,
    ensures
        r == decision_points(*n, *cfg),
        r <= weight(*n),
    decreases n,
{
    if is_function_node(n.kind.as_str()) {
        return 0;
    }
    let own = own_decision_count(n, cfg);
    let mut acc: u32 = own;
    let mut i: usize = 0;
    while i < n.children.len()
        invariant
            i <= n.children@.len(),
            weight(*n) <= u32::MAX,
            weight(*n) == n.children@.len() + 2 + weight_children(*n, n.children@.len() as int),
            own <= n.children@.len() + 2,
            acc == own + decision_points_children(*n, *cfg, i as int),
            acc <= own + weight_children(*n, i as int),
            weight_children(*n, i as int) <= weight_children(*n, n.children@.len() as int),
        decreases n.children@.len() - i,
    {
        proof {
            lemma_child_weight(*n, i as int);
        }
        let d = count_decision_points(&n.children[i], cfg);
        acc = acc + d;
        i = i + 1;
    }
    acc
}

/// Cyclomatic complexity of the function node `f`.
pub fn cyclomatic_of(f: &SyntaxNode, cfg: &CyclomaticConfig) -> (r: u32)
    requires
        is_function_kind(f.kind@),
        weight(*f) <= u32::MAX,
    ensures
        r == cyclomatic_spec(*f, *cfg),
        r >= 1,
{
    match find_child_kind(f, "statement_block") {
        Some(i) => {
            proof {
                lemma_child_weight(*f, i as int);
            }
            1 + count_decision_points(&f.children[i], cfg)
        },
        None => 1,
    }
}

} // verus!
