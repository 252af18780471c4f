//! Per-walker result records and the parse summary, drawn from the merged
//! per-function metrics.

use vstd::prelude::*;
use crate::analysis::FunctionMetrics;
use crate::parser::ParseError;
use crate::pipeline::{AnalysisConfig, FileAnalysis, analyze_source, decided_outcome, grammar_of_path};
use vstd::string::StringSliceAdditionalSpecFns;

verus! {

/// A function's name and position.
#[derive(Debug, Clone)]
pub struct FunctionInfo {
    pub name: String,
    /// 1-based.
    pub start_line: usize,
    /// 0-based.
    pub start_column: usize,
    /// 1-based.
    pub end_line: usize,
}

/// The functions found in one parsed file.
#[derive(Debug, Clone)]
pub struct ParseResult {
    pub path: String,
    pub functions: Vec<FunctionInfo>,
    pub source_len: usize,
    /// The parser recovered from syntax errors.
    pub error: bool,
}

/// Cyclomatic complexity of one function.
#[derive(Debug, Clone)]
pub struct CyclomaticResult {
    pub name: String,
    pub complexity: u32,
    pub start_line: usize,
    pub end_line: usize,
    pub start_col: usize,
}

/// Structural metrics of one function.
#[derive(Debug, Clone)]
pub struct StructuralResult {
    pub name: String,
    pub function_length: u32,
    pub params_count: u32,
    pub nesting_depth: u32,
    pub start_line: usize,
    pub end_line: usize,
    pub start_col: usize,
}

/// Structural metrics of one file.
#[derive(Debug, Clone, Copy)]
pub struct FileStructuralResult {
    pub file_length: u32,
    pub export_count: u32,
}

/// Cognitive complexity of one function.
#[derive(Debug, Clone)]
pub struct CognitiveResult {
    pub name: String,
    pub complexity: u64,
    pub start_line: usize,
    pub end_line: usize,
    pub start_col: usize,
}

impl FunctionMetrics {
    /// The name and position of the function.
    pub fn info(&self) -> (r: FunctionInfo)
        ensures
            r.name@ == self.name@,
            r.start_line == self.start_line,
            r.start_column == self.start_col,
            r.end_line == self.end_line,
    {
        FunctionInfo {
            name: self.name.clone(),
            start_line: self.start_line,
            start_column: self.start_col,
            end_line: self.end_line,
        }
    }

    /// The cyclomatic record of the function.
    pub fn cyclomatic_result(&self) -> (r: CyclomaticResult)
        ensures
            r.name@ == self.name@,
            r.complexity == self.cyclomatic,
            r.start_line == self.start_line,
            r.end_line == self.end_line,
            r.start_col == self.start_col,
    {
        CyclomaticResult {
            name: self.name.clone(),
            complexity: self.cyclomatic,
            start_line: self.start_line,
            end_line: self.end_line,
            start_col: self.start_col,
        }
    }

    /// The cognitive record of the function.
    pub fn cognitive_result(&self) -> (r: CognitiveResult)
        ensures
            r.name@ == self.name@,
            r.complexity == self.cognitive,
            r.start_line == self.start_line,
            r.end_line == self.end_line,
            r.start_col == self.start_col,
    {
        CognitiveResult {
            name: self.name.clone(),
            complexity: self.cognitive,
            start_line: self.start_line,
            end_line: self.end_line,
            start_col: self.start_col,
        }
    }

    /// The structural record of the function.
    pub fn structural_result(&self) -> (r: StructuralResult)
        ensures
            r.name@ == self.name@,
            r.function_length == self.function_length,
            r.params_count == self.params_count,
            r.nesting_depth == self.nesting_depth,
            r.start_line == self.start_line,
            r.end_line == self.end_line,
            r.start_col == self.start_col,
    {
        StructuralResult {
            name: self.name.clone(),
            function_length: self.function_length,
            params_count: self.params_count,
            nesting_depth: self.nesting_depth,
            start_line: self.start_line,
            end_line: self.end_line,
            start_col: self.start_col,
        }
    }
}

impl FileAnalysis {
    /// The file-level structural record.
    pub fn structural_result(&self) -> (r: FileStructuralResult)
        ensures
            r.file_length == self.file_length,
            r.export_count == self.export_count,
    {
        FileStructuralResult { file_length: self.file_length, export_count: self.export_count }
    }
}

/// Names and positions of the functions of `fs`, in order.
pub fn infos_of(fs: &Vec<FunctionMetrics>) -> (r: Vec<FunctionInfo>)
    ensures
        r@.len() == fs@.len(),
        forall|i: int|
            0 <= i < fs@.len() ==> (#[trigger] r@[i]).name@ == fs@[i].name@ && r@[i].start_line
                == fs@[i].start_line && r@[i].start_column == fs@[i].start_col && r@[i].end_line
                == fs@[i].end_line,
{
    let mut out: Vec<FunctionInfo> = Vec::new();
    let mut i: usize = 0;
    while i < fs.len()
        invariant
            i <= fs@.len(),
            out@.len() == i,
            forall|j: int|
                0 <= j < i ==> (#[trigger] out@[j]).name@ == fs@[j].name@ && out@[j].start_line
                    == fs@[j].start_line && out@[j].start_column == fs@[j].start_col
                    && out@[j].end_line == fs@[j].end_line,
        decreases fs@.len() - i,
    {
        out.push(fs[i].info());
        i = i + 1;
    }
    out
}

/// Parses the source read from `path` and lists its functions. Fails as
/// the per-file analysis fails.
pub fn parse_file(path: &str, source: &[u8], cfg: &AnalysisConfig) -> (r: Result<ParseResult, ParseError>)
    ensures
        decided_outcome(path.spec_bytes(), source@, r),
        r is Ok ==> r->Ok_0.path@ == path@ && r->Ok_0.source_len == source@.len(),
        r is Ok ==> forall|i: int|
            0 <= i < r->Ok_0.functions@.len() ==> (#[trigger] r->Ok_0.functions@[i]).start_line >= 1
                && r->Ok_0.functions@[i].end_line >= r->Ok_0.functions@[i].start_line,
{
    match analyze_source(path, source, cfg) {
        Ok(fa) => {
            let functions = infos_of(&fa.functions);
            assert(forall|i: int| 0 <= i < fa.functions@.len() ==> (#[trigger] fa.functions@[i]).start_line >= 1);
            Ok(ParseResult { path: path.to_owned(), functions, source_len: source.len(), error: fa.has_error })
        },
        Err(e) => Err(e),
    }
}

} // verus!
