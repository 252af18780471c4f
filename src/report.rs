//! Threshold violations and their severities.

use vstd::prelude::*;

verus! {

/// Severity of a threshold violation; errors are worse than warnings.
#[derive(Debug, Clone, Copy, PartialEq, Eq, Structural, PartialOrd, Ord)]
pub enum Severity {
    Warning,
    Error,
}

/// One threshold violation of one function metric.
#[derive(Debug, Clone)]
pub struct Violation {
    pub line: usize,
    pub col: usize,
    pub severity: Severity,
    pub message: String,
    pub rule_id: String,
}

/// The severity of a value against a `(warning, error)` pair: error at or
/// above the error threshold, else warning at or above the warning one.
pub open spec fn classify_spec(value: u64, warning: u64, error: u64) -> Option<Severity> {
    if value >= error {
        Some(Severity::Error)
    } else if value >= warning {
        Some(Severity::Warning)
    } else {
        None
    }
}

/// Classifies an integer metric against its thresholds.
pub fn classify_metric(value: u64, warning: u64, error: u64) -> (r: Option<Severity>)
    ensures
        r == classify_spec(value, warning, error),
{
    if value >= error {
        Some(Severity::Error)
    } else if value >= warning {
        Some(Severity::Warning)
    } else {
        None
    }
}

/// Whether some violation has severity `s`.
pub open spec fn has_severity(vs: Seq<Violation>, s: Severity) -> bool {
    exists|i: int| 0 <= i < vs.len() && vs[i].severity == s
}

/// The worst severity among the violations, if any.
pub open spec fn worst_spec(vs: Seq<Violation>) -> Option<Severity> {
    if has_severity(vs, Severity::Error) {
        Some(Severity::Error)
    } else if has_severity(vs, Severity::Warning) {
        Some(Severity::Warning)
    } else {
        None
    }
}

fn any_with(vs: &[Violation], s: Severity) -> (r: bool)
    ensures
        r == has_severity(vs@, s),
{
    let mut i: usize = 0;
    while i < vs.len()
        invariant
            i <= vs@.len(),
            forall|j: int| 0 <= j < i ==> vs@[j].severity != s,
        decreases vs@.len() - i,
    {
        if vs[i].severity == s {
            return true;
        }
        i = i + 1;
    }
    false
}

/// The worst severity among a function's violations.
pub fn worst_severity(vs: &[Violation]) -> (r: Option<Severity>)
    ensures
        r == worst_spec(vs@),
{
    if any_with(vs, Severity::Error) {
        Some(Severity::Error)
    } else if any_with(vs, Severity::Warning) {
        Some(Severity::Warning)
    } else {
        None
    }
}

/// The status word of a function: `"error"`, `"warning"` or `"ok"`, after
/// its worst violation.
pub fn function_status(vs: &[Violation]) -> (r: &'static str)
    ensures
        worst_spec(vs@) == Some(Severity::Error) ==> r@ == "error"@,
        worst_spec(vs@) == Some(Severity::Warning) ==> r@ == "warning"@,
        worst_spec(vs@) == None::<Severity> ==> r@ == "ok"@,
{
    match worst_severity(vs) {
        Some(Severity::Error) => "error",
        Some(Severity::Warning) => "warning",
        None => "ok",
    }
}

} // verus!
