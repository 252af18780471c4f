//! Per-file unit of work: size gate, grammar selection, parse, metric walk
//! and tokenization, on a source already read.

use vstd::prelude::*;
use crate::analysis::{FunctionMetrics, analyze_functions, all_measured, found};
use crate::cognitive::{cap, sat_add, lemma_cap_add};
use crate::cyclomatic::CyclomaticConfig;
use crate::lines::{clipped, count_logical_lines, logical_lines};
use crate::parser::{Grammar, ParsedSource, ParseError, grammar_for_ext, parse_source, select_language};
use vstd::utf8::{valid_utf8, decode_utf8};
use crate::paths::extension_of;
use vstd::string::StringSliceAdditionalSpecFns;
use crate::structural::{count_exports, exports_in};
use crate::syntax::{SyntaxNode, weight, weight_children, rows_consistent, rows_well_formed};
use crate::tokens::{Token, tokenize_tree, tokens_of, token_view, hashes_ok};

verus! {

/// Files with more lines than this are skipped, not parsed.
pub const MAX_FILE_LINES: usize = 50000;

/// Thresholds of cognitive complexity.
#[derive(Debug, Clone, Copy)]
pub struct CognitiveConfig {
    pub warning_threshold: u32,
    pub error_threshold: u32,
}

impl CognitiveConfig {
    /// Thresholds 15 and 30.
    pub fn new() -> (r: Self)
        ensures
            r.warning_threshold == 15 && r.error_threshold == 30,
    {
        CognitiveConfig { warning_threshold: 15, error_threshold: 30 }
    }
}

impl Default for CognitiveConfig {
    fn default() -> (r: Self)
        ensures
            r.warning_threshold == 15 && r.error_threshold == 30,
    {
        CognitiveConfig::new()
    }
}

/// Clone detection settings.
#[derive(Debug, Clone, Copy)]
pub struct DuplicationConfig {
    /// Window size, in tokens.
    pub min_tokens: u32,
    pub enabled: bool,
}

impl DuplicationConfig {
    /// Windows of 25 tokens, detection on.
    pub fn new() -> (r: Self)
        ensures
            r.min_tokens == 25 && r.enabled,
    {
        DuplicationConfig { min_tokens: 25, enabled: true }
    }
}

impl Default for DuplicationConfig {
    fn default() -> (r: Self)
        ensures
            r.min_tokens == 25 && r.enabled,
    {
        DuplicationConfig::new()
    }
}

/// What the per-file analysis needs to know.
#[derive(Debug, Clone, Copy)]
pub struct AnalysisConfig {
    pub cyclomatic: CyclomaticConfig,
    pub cognitive: CognitiveConfig,
    pub duplication: DuplicationConfig,
}

/// The integer results of analysing one file.
#[derive(Debug)]
pub struct FileAnalysis {
    /// Functions in depth-first discovery order.
    pub functions: Vec<FunctionMetrics>,
    /// Token stream, empty when clone detection is off.
    pub tokens: Vec<Token>,
    /// Logical lines of the whole source.
    pub file_length: u32,
    /// Export statements directly under the program root.
    pub export_count: u32,
    /// The parser recovered from syntax errors.
    pub has_error: bool,
    /// The tree's rows are laid out as a parser lays them out; its
    /// functions are then listed in order of their first line.
    pub rows_consistent: bool,
}

/// `fa` is the analysis of the tree `root` of `source` under `cfg`.
pub open spec fn analysis_of(fa: FileAnalysis, root: SyntaxNode, source: Seq<u8>, cfg: AnalysisConfig) -> bool {
    &&& all_measured(fa.functions@, 0, found(root, None), cfg.cyclomatic, source)
    &&& fa.file_length == logical_lines(clipped(source, 0, source.len() as int), false)
    &&& fa.export_count == exports_in(root, root.children@.len() as int)
    &&& (cfg.duplication.enabled ==> fa.tokens@.map_values(|t: Token| token_view(t)) == tokens_of(root))
    &&& (!cfg.duplication.enabled ==> fa.tokens@.len() == 0)
    &&& hashes_ok(fa.tokens@)
    &&& fa.rows_consistent == rows_well_formed(root)
}

/// The functions of `fs` come in non-decreasing order of their first line.
pub open spec fn in_line_order(fs: Seq<FunctionMetrics>) -> bool {
    forall|i: int, j: int| 0 <= i < j < fs.len() ==> (#[trigger] fs[i]).start_line <= (#[trigger] fs[j]).start_line
}

/// Analyses the tree `root` of `source`: functions, file length, exports
/// and, when clone detection is on, tokens.
pub fn analyze_tree(root: &SyntaxNode, has_error: bool, source: &[u8], cfg: &AnalysisConfig) -> (r: FileAnalysis)
    requires
        weight(*root) <= u32::MAX,
        source@.len() < u32::MAX,
    ensures
        analysis_of(r, *root, source@, *cfg),
        r.has_error == has_error,
{
    let functions = analyze_functions(root, &cfg.cyclomatic, source);
    let file_length = count_logical_lines(source, 0, source.len());
    assert(root.children@.len() <= weight(*root));
    let export_count = count_exports(root);
    let tokens = if cfg.duplication.enabled {
        tokenize_tree(root)
    } else {
        Vec::new()
    };
    let rows_consistent = rows_consistent(root);
    FileAnalysis { functions, tokens, file_length, export_count, has_error, rows_consistent }
}

/// The weight of a tree, capped at the largest `u64`.
pub fn tree_weight(n: &SyntaxNode) -> (r: u64)
    ensures
        r == cap(weight(*n)),
    decreases n,
{
    let len = n.children.len();
    let mut acc: u64 = 0;
    let mut i: usize = 0;
    while i < len
        invariant
            i <= len == n.children@.len(),
            acc == cap(weight_children(*n, i as int)),
        decreases len - i,
    {
        let c = tree_weight(&n.children[i]);
        proof {
            lemma_cap_add(weight_children(*n, i as int), weight(n.children@[i as int]));
        }
        acc = sat_add(acc, c);
        i = i + 1;
    }
    let base: u64 = if len as u64 <= u64::MAX - 2 { len as u64 + 2 } else { u64::MAX };
    proof {
        lemma_cap_add((len + 2) as nat, weight_children(*n, len as int));
    }
    sat_add(base, acc)
}

/// Number of lines of `source`: one more than its line feeds.
pub open spec fn line_count_spec(source: Seq<u8>) -> nat {
    source.filter(|b: u8| b == 10u8).len() + 1
}

/// Counts the lines of `source`, as the size gate does.
pub fn count_lines(source: &[u8]) -> (r: usize)
    requires
        source@.len() < usize::MAX,
    ensures
        r == line_count_spec(source@),
{
    let mut n: usize = 0;
    let mut i: usize = 0;
    while i < source.len()
        invariant
            i <= source@.len() < usize::MAX,
            n == source@.subrange(0, i as int).filter(|b: u8| b == 10u8).len(),
            n <= i,
        decreases source@.len() - i,
    {
        proof {
            source@.subrange(0, i as int).lemma_filter_push(source@[i as int], |b: u8| b == 10u8);
            assert(source@.subrange(0, i + 1) =~= source@.subrange(0, i as int).push(source@[i as int]));
        }
        if source[i] == 10 {
            n = n + 1;
        }
        i = i + 1;
    }
    assert(source@.subrange(0, i as int) =~= source@);
    n + 1
}

/// The 1-based line of byte offset `byte` of `source`: one more than the
/// line feeds before it (the offset is cut to the source).
pub fn line_at(source: &[u8], byte: usize) -> (r: usize)
    requires
        source@.len() < usize::MAX,
    ensures
        r == source@.subrange(0, if byte < source@.len() { byte as int } else { source@.len() as int }).filter(
            |b: u8| b == 10u8,
        ).len() + 1,
{
    let end = if byte < source.len() { byte } else { source.len() };
    let mut n: usize = 0;
    let mut i: usize = 0;
    while i < end
        invariant
            end <= source@.len() < usize::MAX,
            i <= end,
            n == source@.subrange(0, i as int).filter(|b: u8| b == 10u8).len(),
            n <= i,
        decreases end - i,
    {
        proof {
            source@.subrange(0, i as int).lemma_filter_push(source@[i as int], |b: u8| b == 10u8);
            assert(source@.subrange(0, i + 1) =~= source@.subrange(0, i as int).push(source@[i as int]));
        }
        if source[i] == 10 {
            n = n + 1;
        }
        i = i + 1;
    }
    n + 1
}

/// Whether a source is over the size gate and is skipped.
pub fn exceeds_line_limit(source: &[u8]) -> (r: bool)
    requires
        source@.len() < usize::MAX,
    ensures
        r == (line_count_spec(source@) > MAX_FILE_LINES),
{
    count_lines(source) > MAX_FILE_LINES
}

/// The grammar a path's extension selects, if any.
pub open spec fn grammar_of_path(path: Seq<u8>) -> Option<Grammar> {
    match extension_of(path) {
        Some(e) => grammar_for_ext(e),
        None => None,
    }
}

/// How grammar selection, the size limit and the parser decide the outcome
/// of analysing `source` read from `path`: which error comes on which input,
/// and that success comes only with a grammar and a source that fits.
pub open spec fn decided_outcome<T>(path: Seq<u8>, source: Seq<u8>, r: Result<T, ParseError>) -> bool {
    &&& (extension_of(path) is None) <==> (r matches Err(ParseError::NoExtension))
    &&& (extension_of(path) is Some && grammar_of_path(path) is None) <==> (r matches Err(ParseError::UnsupportedExtension(_)))
    &&& match r {
        Err(ParseError::UnsupportedExtension(x)) => valid_utf8(extension_of(path)->0) ==> x@ == decode_utf8(
            extension_of(path)->0,
        ),
        _ => true,
    }
    &&& !(r matches Err(ParseError::IoError(_)))
    &&& grammar_of_path(path) is Some && source.len() >= u32::MAX ==> (r matches Err(ParseError::TooLarge))
    &&& (r matches Err(ParseError::TooLarge)) ==> grammar_of_path(path) is Some
    &&& ((r matches Err(ParseError::LanguageError(_))) || (r matches Err(ParseError::ParseFailed)))
        ==> grammar_of_path(path) is Some && source.len() < u32::MAX
    &&& r is Ok ==> grammar_of_path(path) is Some && source.len() < u32::MAX
}

/// Every function of `fs` starts on a line at least 1 and ends no earlier.
pub open spec fn lines_ordered(fs: Seq<FunctionMetrics>) -> bool {
    forall|i: int| 0 <= i < fs.len() ==> (#[trigger] fs[i]).start_line >= 1 && fs[i].end_line >= fs[i].start_line
}

/// Analyses one source file already read: selects the grammar from the
/// path, parses, and measures. Fails with `NoExtension` or
/// `UnsupportedExtension` as the path's extension decides, with `TooLarge`
/// when the source or its tree is beyond what the 32-bit counters hold, and
/// with `LanguageError` or `ParseFailed` as the parser decides.
pub fn analyze_source(path: &str, source: &[u8], cfg: &AnalysisConfig) -> (r: Result<FileAnalysis, ParseError>)
    ensures
        decided_outcome(path.spec_bytes(), source@, r),
        r is Ok ==> exists|root: SyntaxNode|
            weight(root) <= u32::MAX && #[trigger] analysis_of(r->Ok_0, root, source@, *cfg),
        r is Ok ==> lines_ordered(r->Ok_0.functions@),
        r is Ok && r->Ok_0.rows_consistent ==> in_line_order(r->Ok_0.functions@),
{
    let grammar = match select_language(path) {
        Ok(g) => g,
        Err(e) => return Err(e),
    };
    if source.len() >= u32::MAX as usize {
        return Err(ParseError::TooLarge);
    }
    let parsed = match parse_source(grammar, source) {
        Ok(p) => p,
        Err(e) => return Err(e),
    };
    let r = analyze_parsed(&parsed, source, cfg);
    assert(r is Ok ==> weight(parsed.root) <= u32::MAX && analysis_of(r->Ok_0, parsed.root, source@, *cfg));
    r
}

/// Measures a parsed source: fails with `TooLarge` exactly when the source
/// or its tree is beyond what the 32-bit counters hold, and otherwise
/// returns the analysis of the tree.
pub fn analyze_parsed(parsed: &ParsedSource, source: &[u8], cfg: &AnalysisConfig) -> (r: Result<FileAnalysis, ParseError>)
    ensures
        (r matches Err(ParseError::TooLarge)) <==> (source@.len() >= u32::MAX || weight(parsed.root) > u32::MAX),
        r is Err ==> (r matches Err(ParseError::TooLarge)),
        r is Ok ==> analysis_of(r->Ok_0, parsed.root, source@, *cfg) && r->Ok_0.has_error == parsed.has_error,
        r is Ok ==> lines_ordered(r->Ok_0.functions@),
        r is Ok && r->Ok_0.rows_consistent ==> in_line_order(r->Ok_0.functions@),
{
    if source.len() >= u32::MAX as usize {
        return Err(ParseError::TooLarge);
    }
    let w = tree_weight(&parsed.root);
    if w > u32::MAX as u64 {
        return Err(ParseError::TooLarge);
    }
    assert(weight(parsed.root) <= u32::MAX);
    let fa = analyze_tree(&parsed.root, parsed.has_error, source, cfg);
    proof {
        let fs = crate::analysis::found(parsed.root, None);
        assert forall|i: int| 0 <= i < fa.functions@.len() implies (#[trigger] fa.functions@[i]).start_line >= 1
            && fa.functions@[i].end_line >= fa.functions@[i].start_line by {
            assert(crate::analysis::measures(fa.functions@[0 + i], fs[i].0, fs[i].1, cfg.cyclomatic, source@));
            crate::laws::lemma_function_record_bounds(fa.functions@[i], fs[i].0, fs[i].1, cfg.cyclomatic, source@);
        }
        if fa.rows_consistent {
            crate::laws::lemma_functions_in_line_order(fa, parsed.root, source@, *cfg);
        }
    }
    Ok(fa)
}

} // verus!
