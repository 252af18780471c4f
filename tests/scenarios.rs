use complexity_guard::parser::{source_text, ParseError};
use complexity_guard::records::parse_file;
use complexity_guard::analysis::FunctionMetrics;
use complexity_guard::cyclomatic::CyclomaticConfig;
use complexity_guard::duplication::detect_duplication;
use complexity_guard::pipeline::{line_at, analyze_source, AnalysisConfig, CognitiveConfig, DuplicationConfig, FileAnalysis};

fn config() -> AnalysisConfig {
    AnalysisConfig {
        cyclomatic: CyclomaticConfig::default(),
        cognitive: CognitiveConfig::default(),
        duplication: DuplicationConfig::default(),
    }
}

fn analyze(path: &str, src: &str) -> FileAnalysis {
    analyze_source(path, src.as_bytes(), &config()).expect("analysis should succeed")
}

fn find<'a>(fa: &'a FileAnalysis, name: &str) -> &'a FunctionMetrics {
    fa.functions
        .iter()
        .find(|f| f.name == name)
        .unwrap_or_else(|| panic!("no function {}: {:?}", name, fa.functions.iter().map(|f| f.name.clone()).collect::<Vec<_>>()))
}

#[test]
fn baseline_function() {
    let fa = analyze("a.ts", "function baseline(){}");
    assert_eq!(fa.functions.len(), 1);
    let f = &fa.functions[0];
    assert_eq!(f.name, "baseline");
    assert_eq!(f.cyclomatic, 1);
    assert_eq!(f.cognitive, 0);
    assert_eq!(f.halstead.total_operators + f.halstead.total_operands, 0);
    assert!(f.function_length <= 1);
    assert_eq!(f.params_count, 0);
    assert_eq!(f.nesting_depth, 0);
    assert_eq!(f.start_line, 1);
    assert!(!fa.has_error);
}

#[test]
fn if_else_chain() {
    let fa = analyze("a.ts", "function ifElseChain(x){ if(x>0) return \"a\"; else if(x<0) return \"b\"; else return \"c\"; }");
    let f = find(&fa, "ifElseChain");
    assert_eq!(f.cyclomatic, 3);
    assert_eq!(f.cognitive, 4);
    assert_eq!(f.nesting_depth, 2);
    assert_eq!(f.params_count, 1);
}

#[test]
fn logical_operators_count_per_operator() {
    let fa = analyze("a.ts", "function logicalOps(a,b,c){ return a && b || c; }");
    let f = find(&fa, "logicalOps");
    assert_eq!(f.cyclomatic, 3);
    assert_eq!(f.cognitive, 2);
    assert_eq!(f.params_count, 3);
}

#[test]
fn promise_chain_callbacks_count_once() {
    let src = "function fetchUserData(){ return fetch(u).then(r=>{ if(r.ok){return r.json();}else{throw new Error();} }).catch(e=>{ if(e){return null;} return undefined; }); }";
    let fa = analyze("a.ts", src);
    let f = find(&fa, "fetchUserData");
    assert_eq!(f.cognitive, 7);
    assert!(f.cognitive < 18);
    assert!(fa.functions.iter().any(|g| g.name == "then callback"));
    assert!(fa.functions.iter().any(|g| g.name == "catch callback"));
}

#[test]
fn default_export_name() {
    let fa = analyze("a.js", "export default function(){ return 1; }");
    assert_eq!(fa.functions.len(), 1);
    assert_eq!(fa.functions[0].name, "default export");
    assert_eq!(fa.export_count, 1);
}

#[test]
fn naming_rules() {
    let src = "class Foo { bar() { return 1; } }\nconst handler = () => 2;\nconst o = { 'quoted': () => 3, plain: function() { return 4; } };\n[1].map(x => x);\ndocument.addEventListener(\"click\", () => {});\nel.addEventListener(name, () => {});";
    let fa = analyze("a.ts", src);
    let names: Vec<String> = fa.functions.iter().map(|f| f.name.clone()).collect();
    assert_eq!(
        names,
        vec!["Foo.bar", "handler", "quoted", "plain", "map callback", "click handler", "addEventListener handler"]
    );
}

#[test]
fn expression_body_arrow() {
    let fa = analyze("a.ts", "const f = (a: number) => a ? 1 : 2;");
    let f = find(&fa, "f");
    assert_eq!(f.function_length, 1);
    assert_eq!(f.nesting_depth, 0);
    assert_eq!(f.cyclomatic, 1);
    assert_eq!(f.cognitive, 1);
}

#[test]
fn empty_body_halstead_is_zero() {
    let fa = analyze("a.ts", "function empty() {}");
    let h = fa.functions[0].halstead;
    assert_eq!((h.distinct_operators, h.distinct_operands, h.total_operators, h.total_operands), (0, 0, 0, 0));
}

#[test]
fn halstead_ignores_type_annotations() {
    let ts = analyze("a.ts", "function f(x: number, y: string): boolean { const z: number = x + 1; return z > 0 && y !== ''; }");
    let js = analyze("a.js", "function f(x, y) { const z = x + 1; return z > 0 && y !== ''; }");
    assert_eq!(ts.functions[0].halstead, js.functions[0].halstead);
    let h = js.functions[0].halstead;
    assert_eq!(h.total_operators, 6);
    assert_eq!(h.distinct_operands, 5);
}

#[test]
fn file_without_functions() {
    let fa = analyze("a.ts", "const x = 1;\nexport const y = 2;\n");
    assert!(fa.functions.is_empty());
    assert_eq!(fa.file_length, 2);
    assert_eq!(fa.export_count, 1);
}

#[test]
fn functions_in_discovery_order() {
    let fa = analyze("a.ts", "function a() { function b() { return 1; } }\nfunction c(p, q) { if (p) { while (q) { q--; } } }");
    let names: Vec<&str> = fa.functions.iter().map(|f| f.name.as_str()).collect();
    assert_eq!(names, vec!["a", "b", "c"]);
    let c = find(&fa, "c");
    assert_eq!(c.nesting_depth, 2);
    assert_eq!(c.cyclomatic, 3);
    assert_eq!(c.cognitive, 3);
    assert_eq!(c.start_line, 2);
    assert!(fa.functions.iter().all(|f| f.end_line >= f.start_line && f.start_line >= 1));
}

#[test]
fn switch_and_optional_chaining() {
    let fa = analyze("a.ts", "function s(x) { switch (x) { case 1: return a?.b; case 2: return 2; default: return x ?? 3; } }");
    let f = find(&fa, "s");
    assert_eq!(f.cyclomatic, 5);
}

#[test]
fn recovered_parse_sets_error_flag() {
    let fa = analyze("a.ts", "function broken( { return 1; }");
    assert!(fa.has_error);
}

#[test]
fn unsupported_source_is_rejected() {
    assert!(analyze_source("a.rs", b"fn main() {}", &config()).is_err());
}

#[test]
fn identical_functions_across_files_are_clones() {
    let src = "function add(a, b) { const s = a + b; if (s > 10) { return s * 2; } return s - 1; }\n";
    let a = analyze("a.js", src);
    let b = analyze("b.js", src);
    let n = a.tokens.len();
    assert!(n >= 25 && n <= 60, "token count {}", n);
    let files = vec![a.tokens.clone(), b.tokens.clone()];
    let r = detect_duplication(&files, 25);
    assert!(!r.clone_groups.is_empty());
    for g in &r.clone_groups {
        assert_eq!(g.instances.len(), 2);
        assert_eq!(g.token_count, 25);
    }
    assert_eq!(r.total_tokens, 2 * n);
    assert_eq!(r.cloned_tokens, 2 * n);
    assert!(r.cloned_tokens <= r.total_tokens);
}

#[test]
fn duplication_edge_cases() {
    let src = "function add(a, b) { const s = a + b; if (s > 10) { return s * 2; } return s - 1; }\n";
    let a = analyze("a.js", src);
    let other = analyze("b.js", "let q = [1, 2, 3].map(v => v * v).filter(Boolean);");
    let only_one = vec![a.tokens.clone(), other.tokens.clone()];
    let r = detect_duplication(&only_one, 25);
    assert!(r.clone_groups.is_empty());
    assert_eq!(r.cloned_tokens, 0);
    let r0 = detect_duplication(&only_one, 0);
    assert!(r0.clone_groups.is_empty());
    let empty: Vec<Vec<complexity_guard::tokens::Token>> = Vec::new();
    let re = detect_duplication(&empty, 25);
    assert_eq!(re.total_tokens, 0);
}

#[test]
fn disabled_duplication_keeps_no_tokens() {
    let mut cfg = config();
    cfg.duplication.enabled = false;
    let fa = analyze_source("a.ts", b"function f() { return 1; }", &cfg).unwrap();
    assert!(fa.tokens.is_empty());
}

#[test]
fn same_source_same_result() {
    let src = "function f(a) { return a?.b ?? 1; }";
    let x = analyze("a.ts", src);
    let y = analyze("a.ts", src);
    assert_eq!(x.functions.len(), y.functions.len());
    assert_eq!(x.functions[0].cognitive, y.functions[0].cognitive);
    assert_eq!(x.functions[0].halstead, y.functions[0].halstead);
    assert_eq!(x.tokens.len(), y.tokens.len());
}

#[test]
fn parse_file_decides_errors_from_the_path() {
    let r = parse_file("test.py", b"", &config());
    assert!(matches!(r, Err(ParseError::UnsupportedExtension(ref e)) if e == "py"));
    assert!(matches!(parse_file("Makefile", b"", &config()), Err(ParseError::NoExtension)));
    let ok = parse_file("src/m.ts", b"export function greet() {\n  return 1;\n}\n", &config()).unwrap();
    assert_eq!(ok.source_len, 40);
    assert_eq!(ok.functions.len(), 1);
    assert_eq!(ok.functions[0].name, "greet");
    assert_eq!(ok.functions[0].start_line, 1);
    assert_eq!(ok.functions[0].start_column, 7);
    assert_eq!(ok.functions[0].end_line, 3);
    assert!(!ok.error);
}

#[test]
fn source_text_is_bounded() {
    assert_eq!(source_text(b"abcdef", 1, 4).unwrap(), "bcd");
    assert!(source_text(b"abc", 2, 9).is_none());
    assert!(source_text(b"abc", 2, 1).is_none());
    assert!(source_text(&[0xff, 0xfe], 0, 2).is_none());
}

#[test]
fn clone_instances_are_distinct_positions() {
    let src = "function add(a, b) { const s = a + b; if (s > 10) { return s * 2; } return s - 1; }\n";
    let a = analyze("a.js", src);
    let files = vec![a.tokens.clone(), a.tokens.clone(), a.tokens.clone()];
    let r = detect_duplication(&files, 25);
    for g in &r.clone_groups {
        assert_eq!(g.instances.len(), 3);
        for i in 0..g.instances.len() {
            for j in (i + 1)..g.instances.len() {
                let (x, y) = (&g.instances[i], &g.instances[j]);
                assert!(x.file_index != y.file_index || x.start_token != y.start_token);
            }
        }
    }
    assert_eq!(r.file_cloned, vec![a.tokens.len(); 3]);
}

#[test]
fn windows_are_listed_and_bucketed() {
    let src = "function add(a, b) { const s = a + b; if (s > 10) { return s * 2; } return s - 1; }\n";
    let a = analyze("a.js", src);
    let n = a.tokens.len();
    let files = vec![a.tokens.clone(), a.tokens.clone()];
    let r = detect_duplication(&files, 25);
    assert_eq!(r.windows.len(), 2 * (n - 24));
    assert!(r.windows.windows(2).all(|p| p[0] <= p[1]));
    assert_eq!(r.clone_groups.len(), n - 24);
    assert_eq!(line_at(src.as_bytes(), 1000), 2);
    assert_eq!(line_at(b"a\nb\nc", 4), 3);
}

#[test]
fn larger_window_finds_no_more_clones() {
    let src = "function add(a, b) { const s = a + b; if (s > 10) { return s * 2; } return s - 1; }\nfunction sub(a, b) { const s = a - b; if (s > 10) { return s * 2; } return s + 1; }\n";
    let a = analyze("a.js", src);
    let b = analyze("b.js", "let x = [1, 2, 3].map(v => v * v);\n");
    let files = vec![a.tokens.clone(), b.tokens.clone()];
    let mut last = usize::MAX;
    for w in [5u32, 10, 15, 25, 40] {
        let r = detect_duplication(&files, w);
        assert!(r.cloned_tokens <= last, "window {}", w);
        assert!(r.cloned_tokens <= r.total_tokens);
        last = r.cloned_tokens;
    }
    assert!(detect_duplication(&files, 5).cloned_tokens > 0);
}
