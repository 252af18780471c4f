//! Process exit codes and the policy that chooses one.

use vstd::prelude::*;
use crate::text::opt_str_eq;

verus! {

/// Outcome of a run, as reported to the calling process.
#[derive(Debug, Clone, Copy, PartialEq, Eq, Structural)]
pub enum ExitCode {
    /// Analysis completed with no gating issue.
    Success,
    /// Errors were found, or the baseline health check failed.
    ErrorsFound,
    /// Warnings were found and warnings are configured to fail the run.
    WarningsFound,
    /// The configuration could not be loaded.
    ConfigError,
    /// One or more files failed to parse.
    ParseError,
}

impl ExitCode {
    /// Numeric value handed to the operating system.
    pub open spec fn code_spec(self) -> i32 {
        match self {
            ExitCode::Success => 0,
            ExitCode::ErrorsFound => 1,
            ExitCode::WarningsFound => 2,
            ExitCode::ConfigError => 3,
            ExitCode::ParseError => 4,
        }
    }

    /// Numeric value handed to the operating system.
    pub fn code(&self) -> (r: i32)
        ensures
            r == self.code_spec(),
    {
        match self {
            ExitCode::Success => 0,
            ExitCode::ErrorsFound => 1,
            ExitCode::WarningsFound => 2,
            ExitCode::ConfigError => 3,
            ExitCode::ParseError => 4,
        }
    }
}

/// The gating policy: `fail_on = "none"` always succeeds; otherwise parse
/// errors win over errors (or a failed baseline), which win over warnings
/// (only when `fail_on = "warning"`), which win over success.
pub open spec fn exit_code_spec(
    has_parse_errors: bool,
    error_count: u32,
    warning_count: u32,
    fail_on: Option<Seq<char>>,
    baseline_failed: bool,
) -> ExitCode {
    if fail_on == Some("none"@) {
        ExitCode::Success
    } else if has_parse_errors {
        ExitCode::ParseError
    } else if baseline_failed || error_count > 0 {
        ExitCode::ErrorsFound
    } else if warning_count > 0 && fail_on == Some("warning"@) {
        ExitCode::WarningsFound
    } else {
        ExitCode::Success
    }
}

/// View of an optional string argument.
pub open spec fn opt_view(s: Option<&str>) -> Option<Seq<char>> {
    match s {
        Some(x) => Some(x@),
        None => None,
    }
}

/// Chooses the exit code for a finished analysis.
pub fn determine_exit_code(
    has_parse_errors: bool,
    error_count: u32,
    warning_count: u32,
    fail_on: Option<&str>,
    baseline_failed: bool,
) -> (r: ExitCode)
    ensures
        r == exit_code_spec(has_parse_errors, error_count, warning_count, opt_view(fail_on), baseline_failed),
        opt_view(fail_on) == Some("none"@) ==> r == ExitCode::Success,
        opt_view(fail_on) != Some("none"@) && has_parse_errors ==> r == ExitCode::ParseError,
        opt_view(fail_on) != Some("none"@) && !has_parse_errors && (baseline_failed || error_count > 0)
            ==> r == ExitCode::ErrorsFound,
        r == ExitCode::WarningsFound ==> warning_count > 0 && opt_view(fail_on) == Some("warning"@),
        r != ExitCode::ConfigError,
{
    if opt_str_eq(fail_on, "none") {
        return ExitCode::Success;
    }
    if has_parse_errors {
        return ExitCode::ParseError;
    }
    if baseline_failed || error_count > 0 {
        return ExitCode::ErrorsFound;
    }
    if warning_count > 0 && opt_str_eq(fail_on, "warning") {
        return ExitCode::WarningsFound;
    }
    ExitCode::Success
}

} // verus!
