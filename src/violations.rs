//! Threshold violations of one function: at most one per metric, in a
//! fixed order of metrics, each at the function's position.

use vstd::prelude::*;
use crate::analysis::FunctionMetrics;
use crate::report::{Severity, Violation, classify_spec, classify_metric};
use crate::text::{concat, push_char};

verus! {

/// Warning and error thresholds of the integer-valued metrics.
#[derive(Debug, Clone, Copy)]
pub struct IntThresholds {
    pub cyclomatic_warning: u32,
    pub cyclomatic_error: u32,
    pub cognitive_warning: u32,
    pub cognitive_error: u32,
    pub nesting_depth_warning: u32,
    pub nesting_depth_error: u32,
    pub line_count_warning: u32,
    pub line_count_error: u32,
    pub params_count_warning: u32,
    pub params_count_error: u32,
}

/// Severities and messages of the four Halstead metrics, which are
/// floating point and are classified by the caller.
#[derive(Debug, Clone)]
pub struct HalsteadVerdicts {
    pub volume: Option<(Severity, String)>,
    pub difficulty: Option<(Severity, String)>,
    pub effort: Option<(Severity, String)>,
    pub bugs: Option<(Severity, String)>,
}

/// The character of decimal digit `d`.
pub open spec fn digit_char(d: u64) -> char {
    if d == 0 { '0' } else if d == 1 { '1' } else if d == 2 { '2' } else if d == 3 { '3' } else if d == 4 {
        '4'
    } else if d == 5 { '5' } else if d == 6 { '6' } else if d == 7 { '7' } else if d == 8 { '8' } else { '9' }
}

/// The decimal digits of `n`, most significant first, without leading zeros.
pub open spec fn decimal(n: u64) -> Seq<char>
    decreases n,
{
    if n < 10 {
        seq![digit_char(n)]
    } else {
        decimal(n / 10).push(digit_char(n % 10))
    }
}

fn digit_exec(d: u64) -> (c: char)
    ensures
        c == digit_char(d),
{
    if d == 0 { '0' } else if d == 1 { '1' } else if d == 2 { '2' } else if d == 3 { '3' } else if d == 4 {
        '4'
    } else if d == 5 { '5' } else if d == 6 { '6' } else if d == 7 { '7' } else if d == 8 { '8' } else { '9' }
}

/// Writes `n` in decimal.
pub fn decimal_string(n: u64) -> (r: String)
    ensures
        r@ == decimal(n),
    decreases n,
{
    if n < 10 {
        let mut s = String::new();
        push_char(&mut s, digit_exec(n));
        assert(s@ =~= seq![digit_char(n)]);
        s
    } else {
        let mut s = decimal_string(n / 10);
        push_char(&mut s, digit_exec(n % 10));
        s
    }
}

/// A violation as severity, rule id, message, line and column.
pub open spec fn violation_view(v: Violation) -> (Severity, Seq<char>, Seq<char>, usize, usize) {
    (v.severity, v.rule_id@, v.message@, v.line, v.col)
}

/// The message of an integer metric `label` at `value` over `limit`.
pub open spec fn int_message(label: Seq<char>, value: u64, s: Severity, limit: u64) -> Seq<char> {
    label + " "@ + decimal(value) + " exceeds "@ + (if s == Severity::Error { "error"@ } else { "warning"@ })
        + " threshold "@ + decimal(limit)
}

/// The violation, if any, of integer metric `rule` at `value`.
pub open spec fn int_entry(
    f: FunctionMetrics,
    rule: Seq<char>,
    label: Seq<char>,
    value: u64,
    w: u64,
    e: u64,
) -> Seq<(Severity, Seq<char>, Seq<char>, usize, usize)> {
    match classify_spec(value, w, e) {
        Some(s) => seq![(s, "complexity-guard/"@ + rule, int_message(label, value, s, if s == Severity::Error { e } else { w }), f.start_line, f.start_col)],
        None => seq![],
    }
}

/// The violation, if any, handed in for Halstead metric `rule`.
pub open spec fn given_entry(
    f: FunctionMetrics,
    rule: Seq<char>,
    h: Option<(Severity, String)>,
) -> Seq<(Severity, Seq<char>, Seq<char>, usize, usize)> {
    match h {
        Some((s, m)) => seq![(s, "complexity-guard/"@ + rule, m@, f.start_line, f.start_col)],
        None => seq![],
    }
}

/// The violations of `f`, in the order cyclomatic, cognitive, the four
/// Halstead metrics, nesting depth, line count, parameter count.
pub open spec fn violations_spec(f: FunctionMetrics, t: IntThresholds, h: HalsteadVerdicts) -> Seq<(Severity, Seq<char>, Seq<char>, usize, usize)> {
    int_entry(f, "cyclomatic"@, "Cyclomatic complexity"@, f.cyclomatic as u64, t.cyclomatic_warning as u64, t.cyclomatic_error as u64)
        + int_entry(f, "cognitive"@, "Cognitive complexity"@, f.cognitive, t.cognitive_warning as u64, t.cognitive_error as u64)
        + given_entry(f, "halstead-volume"@, h.volume)
        + given_entry(f, "halstead-difficulty"@, h.difficulty)
        + given_entry(f, "halstead-effort"@, h.effort)
        + given_entry(f, "halstead-bugs"@, h.bugs)
        + int_entry(f, "nesting-depth"@, "Nesting depth"@, f.nesting_depth as u64, t.nesting_depth_warning as u64, t.nesting_depth_error as u64)
        + int_entry(f, "line-count"@, "Line count"@, f.function_length as u64, t.line_count_warning as u64, t.line_count_error as u64)
        + int_entry(f, "param-count"@, "Params count"@, f.params_count as u64, t.params_count_warning as u64, t.params_count_error as u64)
}

/// Views of a list of violations.
pub open spec fn views_of(vs: Seq<Violation>) -> Seq<(Severity, Seq<char>, Seq<char>, usize, usize)> {
    vs.map_values(|v: Violation| violation_view(v))
}

fn push_int(out: &mut Vec<Violation>, f: &FunctionMetrics, rule: &str, label: &str, value: u64, w: u64, e: u64)
    ensures
        views_of(final(out)@) == views_of(old(out)@) + int_entry(*f, rule@, label@, value, w, e),
{
    let ghost o0 = views_of(out@);
    match classify_metric(value, w, e) {
        Some(s) => {
            let limit = if s == Severity::Error { e } else { w };
            let word = if s == Severity::Error { "error" } else { "warning" };
            let m1 = concat(label, " ");
            let d = decimal_string(value);
            let m2 = concat(m1.as_str(), d.as_str());
            let m3 = concat(m2.as_str(), " exceeds ");
            let m4 = concat(m3.as_str(), word);
            let m5 = concat(m4.as_str(), " threshold ");
            let dl = decimal_string(limit);
            let message = concat(m5.as_str(), dl.as_str());
            let rule_id = concat("complexity-guard/", rule);
            out.push(Violation { line: f.start_line, col: f.start_col, severity: s, message, rule_id });
            assert(views_of(out@) =~= o0 + int_entry(*f, rule@, label@, value, w, e));
        },
        None => {
            assert(views_of(out@) =~= o0 + int_entry(*f, rule@, label@, value, w, e));
        },
    }
}

fn push_given(out: &mut Vec<Violation>, f: &FunctionMetrics, rule: &str, h: &Option<(Severity, String)>)
    ensures
        views_of(final(out)@) == views_of(old(out)@) + given_entry(*f, rule@, *h),
{
    let ghost o0 = views_of(out@);
    match h {
        Some((s, m)) => {
            let rule_id = concat("complexity-guard/", rule);
            out.push(Violation { line: f.start_line, col: f.start_col, severity: *s, message: m.clone(), rule_id });
            assert(views_of(out@) =~= o0 + given_entry(*f, rule@, *h));
        },
        None => {
            assert(views_of(out@) =~= o0 + given_entry(*f, rule@, *h));
        },
    }
}

/// The threshold violations of one function: for each integer metric a
/// violation exactly when its value reaches a threshold, with the worse
/// severity reached; for each Halstead metric the verdict handed in; all at
/// the function's first line and column.
pub fn function_violations(f: &FunctionMetrics, t: &IntThresholds, h: &HalsteadVerdicts) -> (r: Vec<Violation>)
    ensures
        views_of(r@) == violations_spec(*f, *t, *h),
        forall|i: int| 0 <= i < r@.len() ==> (#[trigger] r@[i]).line == f.start_line && r@[i].col == f.start_col,
{
    let mut out: Vec<Violation> = Vec::new();
    assert(views_of(out@) =~= Seq::empty());
    push_int(&mut out, f, "cyclomatic", "Cyclomatic complexity", f.cyclomatic as u64, t.cyclomatic_warning as u64, t.cyclomatic_error as u64);
    push_int(&mut out, f, "cognitive", "Cognitive complexity", f.cognitive, t.cognitive_warning as u64, t.cognitive_error as u64);
    push_given(&mut out, f, "halstead-volume", &h.volume);
    push_given(&mut out, f, "halstead-difficulty", &h.difficulty);
    push_given(&mut out, f, "halstead-effort", &h.effort);
    push_given(&mut out, f, "halstead-bugs", &h.bugs);
    push_int(&mut out, f, "nesting-depth", "Nesting depth", f.nesting_depth as u64, t.nesting_depth_warning as u64, t.nesting_depth_error as u64);
    push_int(&mut out, f, "line-count", "Line count", f.function_length as u64, t.line_count_warning as u64, t.line_count_error as u64);
    push_int(&mut out, f, "param-count", "Params count", f.params_count as u64, t.params_count_warning as u64, t.params_count_error as u64);
    assert(views_of(out@) =~= violations_spec(*f, *t, *h));
    assert forall|i: int| 0 <= i < out@.len() implies (#[trigger] out@[i]).line == f.start_line && out@[i].col == f.start_col by {
        assert(views_of(out@)[i] == violation_view(out@[i]));
        assert(violations_spec(*f, *t, *h)[i].3 == f.start_line);
    }
    out
}

} // verus!
