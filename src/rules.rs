//! The stable rule identifiers of the reports and their fixed order.

use vstd::prelude::*;
use crate::report::Severity;
use crate::text::str_eq;

verus! {

/// The rule identifiers, in their fixed order.
pub open spec fn rule_ids() -> Seq<Seq<char>> {
    seq![
        "complexity-guard/cyclomatic"@,
        "complexity-guard/cognitive"@,
        "complexity-guard/halstead-volume"@,
        "complexity-guard/halstead-difficulty"@,
        "complexity-guard/halstead-effort"@,
        "complexity-guard/halstead-bugs"@,
        "complexity-guard/line-count"@,
        "complexity-guard/param-count"@,
        "complexity-guard/nesting-depth"@,
        "complexity-guard/health-score"@,
        "complexity-guard/duplication"@,
    ]
}

/// Number of declared rules.
pub const RULE_COUNT: usize = 11;

/// The rule identifiers, in their fixed order.
pub fn rule_id_list() -> (r: Vec<&'static str>)
    ensures
        r@.len() == rule_ids().len(),
        forall|i: int| 0 <= i < r@.len() ==> (#[trigger] r@[i])@ == rule_ids()[i],
{
    let mut v: Vec<&'static str> = Vec::new();
    v.push("complexity-guard/cyclomatic");
    v.push("complexity-guard/cognitive");
    v.push("complexity-guard/halstead-volume");
    v.push("complexity-guard/halstead-difficulty");
    v.push("complexity-guard/halstead-effort");
    v.push("complexity-guard/halstead-bugs");
    v.push("complexity-guard/line-count");
    v.push("complexity-guard/param-count");
    v.push("complexity-guard/nesting-depth");
    v.push("complexity-guard/health-score");
    v.push("complexity-guard/duplication");
    v
}

/// Position of `rule_id` in the fixed rule order, or 0 when it is unknown.
pub fn rule_id_to_index(rule_id: &str) -> (r: usize)
    ensures
        r < RULE_COUNT,
        (exists|i: int| 0 <= i < rule_ids().len() && rule_ids()[i] == rule_id@) ==> rule_ids()[r as int] == rule_id@,
        !(exists|i: int| 0 <= i < rule_ids().len() && rule_ids()[i] == rule_id@) ==> r == 0,
{
    let ids = rule_id_list();
    let mut i: usize = 0;
    while i < ids.len()
        invariant
            i <= ids@.len(),
            ids@.len() == rule_ids().len(),
            forall|j: int| 0 <= j < ids@.len() ==> (#[trigger] ids@[j])@ == rule_ids()[j],
            forall|j: int| 0 <= j < i ==> rule_ids()[j] != rule_id@,
        decreases ids@.len() - i,
    {
        if str_eq(ids[i], rule_id) {
            return i;
        }
        i = i + 1;
    }
    assert(!(exists|j: int| 0 <= j < rule_ids().len() && rule_ids()[j] == rule_id@));
    0
}

/// The declared identifier equal to `rule_id`; unknown identifiers map to
/// the first rule.
pub fn rule_id_static(rule_id: &str) -> (r: &'static str)
    ensures
        (exists|i: int| 0 <= i < rule_ids().len() && rule_ids()[i] == rule_id@) ==> r@ == rule_id@,
        !(exists|i: int| 0 <= i < rule_ids().len() && rule_ids()[i] == rule_id@) ==> r@ == rule_ids()[0],
{
    let ids = rule_id_list();
    let i = rule_id_to_index(rule_id);
    ids[i]
}

/// The SARIF level of a severity.
pub fn severity_to_level(severity: &Severity) -> (r: &'static str)
    ensures
        *severity == Severity::Error ==> r@ == "error"@,
        *severity == Severity::Warning ==> r@ == "warning"@,
{
    match severity {
        Severity::Error => "error",
        Severity::Warning => "warning",
    }
}

} // verus!
