use complexity_guard::violations::{function_violations, HalsteadVerdicts, IntThresholds};
use complexity_guard::cyclomatic::{CyclomaticConfig, SwitchCaseMode};
use complexity_guard::duplication::{tokens_match, make_instance, RollingHasher};
use complexity_guard::exit_codes::{determine_exit_code, ExitCode};
use complexity_guard::intervals::count_merged_intervals;
use complexity_guard::kinds::{is_function_node, is_skipped_kind, normalize_kind, is_type_only_node, is_operator_token, is_operand_token, is_nesting_construct, PUNCTUATION};
use complexity_guard::lines::count_logical_lines;
use complexity_guard::parser::{select_language, Grammar, ParseError};
use complexity_guard::paths::{is_declaration_file, is_json_config, is_target_extension, is_excluded_dir, EXCLUDED_DIRS};
use complexity_guard::pipeline::{CognitiveConfig, DuplicationConfig, count_lines, exceeds_line_limit};
use complexity_guard::report::{classify_metric, function_status, worst_severity, Severity, Violation};
use complexity_guard::tokens::{token_hash, Token};
use complexity_guard::rules::{rule_id_list, rule_id_static, rule_id_to_index, severity_to_level};
use complexity_guard::config::ThresholdPair;
use complexity_guard::ordering::order_by_path;

fn violation(severity: Severity) -> Violation {
    Violation { line: 1, col: 0, severity, message: "test".to_string(), rule_id: "test".to_string() }
}

#[test]
fn is_function_node_recognizes_all_types() {
    assert!(is_function_node("function_declaration"));
    assert!(is_function_node("function"));
    assert!(is_function_node("function_expression"));
    assert!(is_function_node("arrow_function"));
    assert!(is_function_node("method_definition"));
    assert!(is_function_node("generator_function"));
    assert!(is_function_node("generator_function_declaration"));
}

#[test]
fn mod_is_function_node_recognizes_all_types() {
    assert!(is_function_node("function_declaration"));
    assert!(is_function_node("function"));
    assert!(is_function_node("function_expression"));
    assert!(is_function_node("arrow_function"));
    assert!(is_function_node("method_definition"));
    assert!(is_function_node("generator_function"));
    assert!(is_function_node("generator_function_declaration"));
}

#[test]
fn is_function_node_rejects_non_function() {
    assert!(!is_function_node("if_statement"));
    assert!(!is_function_node("variable_declarator"));
    assert!(!is_function_node("class_declaration"));
    assert!(!is_function_node("statement_block"));
}

#[test]
fn mod_is_function_node_rejects_non_function() {
    assert!(!is_function_node("if_statement"));
    assert!(!is_function_node("variable_declarator"));
    assert!(!is_function_node("class_declaration"));
    assert!(!is_function_node("statement_block"));
}

#[test]
fn punctuation_contains_expected_tokens() {
    assert!(PUNCTUATION.contains(&","));
    assert!(PUNCTUATION.contains(&"("));
    assert!(PUNCTUATION.contains(&")"));
    assert!(PUNCTUATION.contains(&"<"));
    assert!(PUNCTUATION.contains(&">"));
    assert!(PUNCTUATION.contains(&";"));
    assert_eq!(PUNCTUATION.len(), 6);
}

#[test]
fn mod_punctuation_contains_expected_tokens() {
    assert!(PUNCTUATION.contains(&","));
    assert!(PUNCTUATION.contains(&"("));
    assert!(PUNCTUATION.contains(&")"));
    assert!(PUNCTUATION.contains(&"<"));
    assert!(PUNCTUATION.contains(&">"));
    assert!(PUNCTUATION.contains(&";"));
    assert_eq!(PUNCTUATION.len(), 6);
}

#[test]
fn test_function_status_ok() {
    assert_eq!(function_status(&[]), "ok");
}

#[test]
fn console_test_function_status_ok() {
    assert_eq!(function_status(&[]), "ok");
}

#[test]
fn test_function_status_warning() {
    let v = violation(Severity::Warning);
    assert_eq!(function_status(&[v]), "warning");
}

#[test]
fn console_test_function_status_warning() {
    let v = violation(Severity::Warning);
    assert_eq!(function_status(&[v]), "warning");
}

#[test]
fn test_function_status_error() {
    let v = violation(Severity::Error);
    assert_eq!(function_status(&[v]), "error");
}

#[test]
fn console_test_function_status_error() {
    let v = violation(Severity::Error);
    assert_eq!(function_status(&[v]), "error");
}

#[test]
fn worst_severity_prefers_error() {
    let vs = vec![violation(Severity::Warning), violation(Severity::Error)];
    assert_eq!(worst_severity(&vs), Some(Severity::Error));
    assert_eq!(worst_severity(&vs[..1]), Some(Severity::Warning));
    assert_eq!(worst_severity(&[]), None);
}

#[test]
fn classify_metric_thresholds() {
    assert_eq!(classify_metric(9, 10, 20), None);
    assert_eq!(classify_metric(10, 10, 20), Some(Severity::Warning));
    assert_eq!(classify_metric(19, 10, 20), Some(Severity::Warning));
    assert_eq!(classify_metric(20, 10, 20), Some(Severity::Error));
}

#[test]
fn test_success_when_no_issues() {
    let code = determine_exit_code(false, 0, 0, None, false);
    assert_eq!(code, ExitCode::Success);
    assert_eq!(code as i32, 0);
}

#[test]
fn test_errors_found_when_error_count_positive() {
    let code = determine_exit_code(false, 1, 0, None, false);
    assert_eq!(code, ExitCode::ErrorsFound);
    assert_eq!(code as i32, 1);
}

#[test]
fn test_errors_found_when_multiple_errors() {
    let code = determine_exit_code(false, 5, 3, None, false);
    assert_eq!(code, ExitCode::ErrorsFound);
}

#[test]
fn test_warnings_only_with_no_fail_on_is_success() {
    let code = determine_exit_code(false, 0, 5, None, false);
    assert_eq!(code, ExitCode::Success);
}

#[test]
fn test_warnings_with_fail_on_warning_causes_warnings_found() {
    let code = determine_exit_code(false, 0, 3, Some("warning"), false);
    assert_eq!(code, ExitCode::WarningsFound);
    assert_eq!(code as i32, 2);
}

#[test]
fn test_parse_error_takes_priority_over_all() {
    let code = determine_exit_code(true, 5, 3, Some("warning"), true);
    assert_eq!(code, ExitCode::ParseError);
    assert_eq!(code as i32, 4);
}

#[test]
fn test_parse_error_takes_priority_over_errors() {
    let code = determine_exit_code(true, 10, 0, None, false);
    assert_eq!(code, ExitCode::ParseError);
}

#[test]
fn test_baseline_failed_returns_errors_found() {
    let code = determine_exit_code(false, 0, 0, None, true);
    assert_eq!(code, ExitCode::ErrorsFound);
    assert_eq!(code as i32, 1);
}

#[test]
fn test_fail_on_none_returns_success_despite_errors() {
    let code = determine_exit_code(false, 5, 3, Some("none"), false);
    assert_eq!(code, ExitCode::Success);
}

#[test]
fn test_fail_on_none_returns_success_despite_baseline_failure() {
    let code = determine_exit_code(false, 0, 0, Some("none"), true);
    assert_eq!(code, ExitCode::Success);
}

#[test]
fn test_fail_on_error_same_as_default() {
    let code_error = determine_exit_code(false, 0, 5, Some("error"), false);
    let code_none = determine_exit_code(false, 0, 5, None, false);
    assert_eq!(code_error, code_none);
    assert_eq!(code_error, ExitCode::Success);
}

#[test]
fn test_fail_on_error_with_errors_found() {
    let code = determine_exit_code(false, 2, 0, Some("error"), false);
    assert_eq!(code, ExitCode::ErrorsFound);
}

#[test]
fn test_exit_code_values() {
    assert_eq!(ExitCode::Success as i32, 0);
    assert_eq!(ExitCode::ErrorsFound as i32, 1);
    assert_eq!(ExitCode::WarningsFound as i32, 2);
    assert_eq!(ExitCode::ConfigError as i32, 3);
    assert_eq!(ExitCode::ParseError as i32, 4);
}

#[test]
fn exit_code_numeric_values_match_code() {
    assert_eq!(ExitCode::ParseError.code(), 4);
    assert_eq!(ExitCode::WarningsFound.code(), 2);
}

#[test]
fn test_is_target_extension() {
    assert!(is_target_extension("file.ts"));
    assert!(is_target_extension("file.tsx"));
    assert!(is_target_extension("file.js"));
    assert!(is_target_extension("file.jsx"));

    assert!(!is_target_extension("file.rs"));
    assert!(!is_target_extension("file.py"));
    assert!(!is_target_extension("file.json"));
    assert!(!is_target_extension("file.css"));
    assert!(!is_target_extension("file"));
}

#[test]
fn test_is_declaration_file() {
    assert!(is_declaration_file("types.d.ts"));
    assert!(is_declaration_file("global.d.tsx"));
    assert!(is_declaration_file("path/to/types.d.ts"));

    assert!(!is_declaration_file("file.ts"));
    assert!(!is_declaration_file("file.tsx"));
    assert!(!is_declaration_file("file.js"));
}

#[test]
fn test_excluded_dirs_matches_zig() {
    assert_eq!(EXCLUDED_DIRS.len(), 10);
    assert!(EXCLUDED_DIRS.contains(&"node_modules"));
    assert!(EXCLUDED_DIRS.contains(&".git"));
    assert!(EXCLUDED_DIRS.contains(&"dist"));
    assert!(EXCLUDED_DIRS.contains(&"build"));
    assert!(EXCLUDED_DIRS.contains(&".next"));
    assert!(EXCLUDED_DIRS.contains(&"coverage"));
    assert!(EXCLUDED_DIRS.contains(&"__pycache__"));
    assert!(EXCLUDED_DIRS.contains(&".svn"));
    assert!(EXCLUDED_DIRS.contains(&".hg"));
    assert!(EXCLUDED_DIRS.contains(&"vendor"));
}

#[test]
fn excluded_dir_names_agree_with_list() {
    for d in EXCLUDED_DIRS.iter() {
        assert!(is_excluded_dir(d));
    }
    assert!(!is_excluded_dir("src"));
}

#[test]
fn hidden_file_without_extension_is_not_a_target() {
    assert!(!is_target_extension(".ts"));
    assert!(is_target_extension("dir.v2/a.ts"));
    assert!(!is_target_extension("dir.ts/file"));
}

#[test]
fn test_no_config_file_returns_none() {
    assert!(is_json_config(".complexityguard.json"));
    assert!(is_json_config("complexityguard.config.json"));
    assert!(!is_json_config(".complexityguard.toml"));
    assert!(!is_json_config("other.json"));
}

#[test]
fn cyclomatic_config_default_matches_zig() {
    let config = CyclomaticConfig::default();
    assert!(config.count_logical_operators);
    assert!(config.count_nullish_coalescing);
    assert!(config.count_optional_chaining);
    assert!(config.count_ternary);
    assert!(config.count_default_params);
    assert_eq!(config.switch_case_mode, SwitchCaseMode::Classic);
    assert_eq!(config.warning_threshold, 10);
    assert_eq!(config.error_threshold, 20);
}

#[test]
fn cognitive_config_default_matches_zig() {
    let config = CognitiveConfig::default();
    assert_eq!(config.warning_threshold, 15);
    assert_eq!(config.error_threshold, 30);
}

#[test]
fn duplication_config_default() {
    let c = DuplicationConfig::default();
    assert_eq!(c.min_tokens, 25);
    assert!(c.enabled);
}

#[test]
fn token_hash_deterministic() {
    let h1 = token_hash("function");
    let h2 = token_hash("function");
    assert_eq!(h1, h2, "same input should produce same hash");

    let h3 = token_hash("return");
    assert_ne!(h1, h3, "different inputs should produce different hashes");
}

#[test]
fn token_hash_exact_values() {
    assert_eq!(token_hash(""), 0);
    assert_eq!(token_hash("V"), 86);
    assert_eq!(token_hash("ab"), 97 * 37 + 98);
}

#[test]
fn is_skipped_kind_filters_correctly() {
    assert!(is_skipped_kind("comment"));
    assert!(is_skipped_kind("line_comment"));
    assert!(is_skipped_kind("block_comment"));
    assert!(is_skipped_kind(";"));
    assert!(is_skipped_kind(","));
    assert!(is_skipped_kind("hash_bang_line"));
    assert!(!is_skipped_kind("identifier"));
    assert!(!is_skipped_kind("function"));
}

#[test]
fn kind_classifiers() {
    assert_eq!(normalize_kind("identifier"), "V");
    assert_eq!(normalize_kind("shorthand_property_identifier_pattern"), "V");
    assert_eq!(normalize_kind("return"), "return");
    assert!(is_type_only_node("type_annotation"));
    assert!(!is_type_only_node("identifier"));
    assert!(is_operator_token("&&"));
    assert!(!is_operator_token("identifier"));
    assert!(is_operand_token("this"));
    assert!(!is_operand_token("+"));
    assert!(is_nesting_construct("catch_clause"));
    assert!(!is_nesting_construct("else_clause"));
}

#[test]
fn count_merged_intervals_basic() {
    let mut intervals = vec![(0, 5), (3, 8), (10, 15)];
    let count = count_merged_intervals(&mut intervals);
    assert_eq!(count, 13);
}

#[test]
fn count_merged_intervals_no_overlap() {
    let mut intervals = vec![(0, 3), (5, 8), (10, 12)];
    let count = count_merged_intervals(&mut intervals);
    assert_eq!(count, 3 + 3 + 2);
}

#[test]
fn count_merged_intervals_empty() {
    let mut intervals: Vec<(usize, usize)> = vec![];
    let count = count_merged_intervals(&mut intervals);
    assert_eq!(count, 0);
}

#[test]
fn count_merged_intervals_unsorted_and_touching() {
    let mut intervals = vec![(10, 15), (0, 5), (5, 10), (2, 3)];
    assert_eq!(count_merged_intervals(&mut intervals), 15);
}

#[test]
fn logical_lines_code_only() {
    let source = b"{\n  const a = 1;\n  const b = 2;\n  return a + b;\n}";
    assert_eq!(count_logical_lines(source, 0, source.len()), 3);
}

#[test]
fn logical_lines_skips_blanks() {
    let source = b"{\n  const a = 1;\n\n  const b = 2;\n\n  return a + b;\n}";
    assert_eq!(count_logical_lines(source, 0, source.len()), 3);
}

#[test]
fn logical_lines_skips_comments() {
    let source = b"{\n  // comment\n  const a = 1;\n  // another\n  return a;\n}";
    assert_eq!(count_logical_lines(source, 0, source.len()), 2);
}

#[test]
fn logical_lines_skips_block_comments() {
    let source = b"{\n  /*\n   * Block\n   */\n  const a = 1;\n  return a;\n}";
    assert_eq!(count_logical_lines(source, 0, source.len()), 2);
}

#[test]
fn logical_lines_empty_range() {
    let source = b"some source";
    assert_eq!(count_logical_lines(source, 5, 5), 0);
}

#[test]
fn logical_lines_code_after_block_comment_close() {
    let source = b"/* a\n b */ x();\n/* c */ y();\n/* d */\n};\n";
    assert_eq!(count_logical_lines(source, 0, source.len()), 2);
    assert_eq!(count_logical_lines(source, 0, 1000), 2);
}

#[test]
fn line_counting_for_size_gate() {
    assert_eq!(count_lines(b""), 1);
    assert_eq!(count_lines(b"a\nb\n"), 3);
    assert!(!exceeds_line_limit(b"a\nb"));
    let big = vec![b'\n'; 50_000];
    assert!(exceeds_line_limit(&big));
    let edge = vec![b'\n'; 49_999];
    assert!(!exceeds_line_limit(&edge));
}

#[test]
fn test_unsupported_extension_returns_error() {
    let result = select_language("test.py");
    assert!(result.is_err(), "should return error for unsupported extension");
    assert!(matches!(result, Err(ParseError::UnsupportedExtension(ref e)) if e == "py"), "expected UnsupportedExtension, got: {:?}", result);
}

#[test]
fn test_no_extension_returns_error() {
    let result = select_language("Makefile");
    assert!(matches!(result, Err(ParseError::NoExtension)), "expected NoExtension, got: {:?}", result);
}

#[test]
fn grammar_selection_by_extension() {
    assert_eq!(select_language("a/b.ts").unwrap(), Grammar::TypeScript);
    assert_eq!(select_language("b.tsx").unwrap(), Grammar::Tsx);
    assert_eq!(select_language("b.js").unwrap(), Grammar::JavaScript);
    assert_eq!(select_language("b.jsx").unwrap(), Grammar::JavaScript);
}

fn tok(kind: &str) -> Token {
    Token { kind: kind.to_string(), kind_hash: token_hash(kind), start_byte: 0, end_byte: 0 }
}

#[test]
fn rolling_hash_matches_direct_hash() {
    let ts: Vec<Token> = ["a", "b", "c", "d"].iter().map(|k| tok(k)).collect();
    let mut h = RollingHasher::new(&ts, 3);
    let direct = RollingHasher::new(&ts[1..], 3);
    assert_eq!(h.base_pow, 37 * 37);
    h.roll(&ts[0], &ts[3]);
    assert_eq!(h.hash, direct.hash);
}

#[test]
fn windows_match_by_kind() {
    let a: Vec<Token> = ["x", "V", "y"].iter().map(|k| tok(k)).collect();
    let b: Vec<Token> = ["V", "y", "z"].iter().map(|k| tok(k)).collect();
    assert!(tokens_match(&a, 1, &b, 0, 2));
    assert!(!tokens_match(&a, 0, &b, 0, 2));
    let i = make_instance(1, 4, 25);
    assert_eq!(i.end_token, 29);
    assert_eq!(i.start_line, 0);
}

#[test]
fn rule_order_and_lookup() {
    let ids = rule_id_list();
    assert_eq!(ids.len(), 11);
    assert_eq!(ids[0], "complexity-guard/cyclomatic");
    assert_eq!(ids[10], "complexity-guard/duplication");
    assert_eq!(rule_id_to_index("complexity-guard/nesting-depth"), 8);
    assert_eq!(rule_id_to_index("complexity-guard/unknown"), 0);
    assert_eq!(rule_id_static("complexity-guard/param-count"), "complexity-guard/param-count");
    assert_eq!(rule_id_static("other"), "complexity-guard/cyclomatic");
    assert_eq!(severity_to_level(&Severity::Error), "error");
    assert_eq!(severity_to_level(&Severity::Warning), "warning");
}

#[test]
fn threshold_pairs_merge_and_resolve() {
    let base = ThresholdPair { warning: Some(5), error: None };
    let over = ThresholdPair { warning: None, error: Some(9) };
    let m = base.merged(&over);
    assert_eq!(m, ThresholdPair { warning: Some(5), error: Some(9) });
    assert_eq!(base.merged(&base), base);
    assert_eq!(base.resolved(10, 20), (5, 20));
}

#[test]
fn results_ordered_by_path_bytes() {
    let paths: Vec<String> = ["src/b.ts", "src/a.ts", "lib/z.ts", "src/a.ts", "src/B.ts"].iter().map(|s| s.to_string()).collect();
    assert_eq!(order_by_path(&paths), vec![2, 4, 1, 3, 0]);
    assert!(order_by_path(&Vec::new()).is_empty());
}

fn metrics_for_violations() -> complexity_guard::analysis::FunctionMetrics {
    complexity_guard::analysis::FunctionMetrics {
        name: "f".to_string(),
        start_line: 7,
        end_line: 9,
        start_col: 2,
        cyclomatic: 12,
        cognitive: 40,
        halstead: complexity_guard::halstead::HalsteadCounts {
            distinct_operators: 0,
            distinct_operands: 0,
            total_operators: 0,
            total_operands: 0,
        },
        function_length: 3,
        params_count: 6,
        nesting_depth: 0,
    }
}

#[test]
fn violations_one_per_metric_in_order() {
    let t = IntThresholds {
        cyclomatic_warning: 10,
        cyclomatic_error: 20,
        cognitive_warning: 15,
        cognitive_error: 30,
        nesting_depth_warning: 3,
        nesting_depth_error: 5,
        line_count_warning: 25,
        line_count_error: 50,
        params_count_warning: 3,
        params_count_error: 6,
    };
    let h = HalsteadVerdicts {
        volume: Some((Severity::Warning, "Halstead volume 600.000 exceeds warning threshold 500.000".to_string())),
        difficulty: None,
        effort: None,
        bugs: None,
    };
    let vs = function_violations(&metrics_for_violations(), &t, &h);
    let ids: Vec<&str> = vs.iter().map(|v| v.rule_id.as_str()).collect();
    assert_eq!(ids, vec!["complexity-guard/cyclomatic", "complexity-guard/cognitive", "complexity-guard/halstead-volume", "complexity-guard/param-count"]);
    assert_eq!(vs[0].severity, Severity::Warning);
    assert_eq!(vs[0].message, "Cyclomatic complexity 12 exceeds warning threshold 10");
    assert_eq!(vs[1].severity, Severity::Error);
    assert_eq!(vs[1].message, "Cognitive complexity 40 exceeds error threshold 30");
    assert_eq!(vs[3].message, "Params count 6 exceeds error threshold 6");
    assert!(vs.iter().all(|v| v.line == 7 && v.col == 2));
    assert_eq!(function_status(&vs), "error");
}
