use repo_analyzer::messages;
use repo_analyzer::metrics::complexity::{
    analyze_source, classify, inspect_blob, spec_for_path, ComplexityCollector, FunctionMetric, FunctionShape, Halstead,
    MAX_METRICS,
};
use repo_analyzer::syntax::{name_of_grammar, Grammar};
use repo_analyzer::types::MetricValue;

fn analyze(grammar: Grammar, source: &str) -> Vec<FunctionShape> {
    analyze_source(grammar, "test", source)
}

#[test]
fn rust_simple_function_cc_1() {
    let src = "fn foo() {}";
    let m = analyze(Grammar::Rust, src);
    assert_eq!(m.len(), 1);
    assert_eq!(m[0].cyclomatic, 1);
    assert_eq!(m[0].name, "foo");
}

#[test]
fn rust_if_else_cc_2() {
    let src = "fn foo(x: i32) -> i32 { if x > 0 { 1 } else { 2 } }";
    let m = analyze(Grammar::Rust, src);
    assert_eq!(m.iter().find(|x| x.name == "foo").unwrap().cyclomatic, 2);
}

#[test]
fn rust_match_arms_count() {
    let src = "fn foo(x: i32) -> i32 { match x { 0 => 1, 1 => 2, _ => 3 } }";
    let m = analyze(Grammar::Rust, src);
    // 1 base + 3 match arms = 4
    assert_eq!(m.iter().find(|x| x.name == "foo").unwrap().cyclomatic, 4);
}

#[test]
fn python_if_elif_cc() {
    let src = "def foo(x):\n    if x > 0:\n        return 1\n    elif x < 0:\n        return -1\n    return 0\n";
    let m = analyze(Grammar::Python, src);
    // 1 base + 1 if + 1 elif = 3
    assert_eq!(m.iter().find(|x| x.name == "foo").unwrap().cyclomatic, 3);
}

#[test]
fn typescript_for_and_if() {
    let src =
        "function foo(xs: number[]) { for (const x of xs) { if (x > 0) console.log(x); } }";
    let m = analyze(Grammar::TypeScript, src);
    // 1 + for_in_statement (for-of) + if = 3
    let cc = m.iter().find(|x| x.name == "foo").unwrap().cyclomatic;
    assert!(cc >= 2, "expected >= 2, got {cc}");
}

#[test]
fn complexity_classify_thresholds() {
    assert_eq!(classify(1).code, messages::COMPLEXITY_RECOMMENDATION_SIMPLE);
    assert_eq!(classify(7).code, messages::COMPLEXITY_RECOMMENDATION_OK);
    assert_eq!(classify(15).code, messages::COMPLEXITY_RECOMMENDATION_HIGH);
    assert_eq!(
        classify(50).code,
        messages::COMPLEXITY_RECOMMENDATION_VERY_HIGH
    );
}

#[test]
fn unsupported_extension_returns_none() {
    assert!(spec_for_path("foo.scala").is_none());
    assert!(spec_for_path("foo.rs").is_some());
}

#[test]
fn java_method_with_branches() {
    let src = "class C { int f(int x) { if (x > 0) return 1; for (int i = 0; i < x; i++) {} return 0; } }";
    let m = analyze(Grammar::Java, src);
    let cc = m.iter().find(|x| x.name == "f").unwrap().cyclomatic;
    // 1 base + if + for = 3
    assert!(cc >= 3, "expected >= 3, got {cc}");
}

#[test]
fn go_switch_cases_count() {
    let src = "package p\nfunc f(x int) int {\n  switch x {\n  case 0: return 1\n  case 1: return 2\n  default: return 3\n  }\n}\n";
    let m = analyze(Grammar::Go, src);
    let cc = m.iter().find(|x| x.name == "f").unwrap().cyclomatic;
    // 1 base + 2 expression_case + 1 default_case = 4
    assert!(cc >= 3, "expected >= 3, got {cc}");
}

#[test]
fn nested_function_captured_separately() {
    let src = "fn outer() { let inner = || { if true { 1 } else { 2 } }; }";
    let m = analyze(Grammar::Rust, src);
    // outer (CC=1) + closure (CC=2)
    let outer = m.iter().find(|x| x.name == "outer").unwrap();
    assert_eq!(outer.cyclomatic, 1);
    let closure = m.iter().find(|x| x.name == "<anonymous>").unwrap();
    assert_eq!(closure.cyclomatic, 2);
}

#[test]
fn unsupported_source_yields_no_metrics() {
    // Garbage source for an unsupported file path: spec_for_path returns None
    assert!(spec_for_path("foo.cobol").is_none());
}

#[test]
fn javascript_if_and_ternary() {
    let src = "function f(x) { return x > 0 ? (x > 10 ? 'big' : 'small') : 'neg'; }";
    let m = analyze(Grammar::JavaScript, src);
    let cc = m.iter().find(|x| x.name == "f").unwrap().cyclomatic;
    // 1 base + 2 ternary
    assert!(cc >= 3, "expected >= 3, got {cc}");
}

#[test]
fn javascript_spec_resolves_for_mjs_and_cjs() {
    assert_eq!(name_of_grammar(spec_for_path("a.js").unwrap().grammar), "JavaScript");
    assert_eq!(name_of_grammar(spec_for_path("a.jsx").unwrap().grammar), "JavaScript");
    assert_eq!(name_of_grammar(spec_for_path("a.mjs").unwrap().grammar), "JavaScript");
    assert_eq!(name_of_grammar(spec_for_path("a.cjs").unwrap().grammar), "JavaScript");
    // .ts / .tsx should still go to TypeScript, not JavaScript.
    assert_eq!(name_of_grammar(spec_for_path("a.ts").unwrap().grammar), "TypeScript");
    assert_eq!(name_of_grammar(spec_for_path("a.tsx").unwrap().grammar), "TypeScript");
}

#[test]
fn kotlin_when_branches_count() {
    let src = "fun f(x: Int): Int {\n    return when (x) {\n        0 -> 1\n        1 -> 2\n        else -> 3\n    }\n}\n";
    let m = analyze(Grammar::Kotlin, src);
    let cc = m.iter().find(|x| x.name == "f").unwrap().cyclomatic;
    // 1 base + 3 when_entry = 4
    assert!(cc >= 3, "expected >= 3, got {cc}");
}

#[test]
fn kotlin_spec_resolves_for_kt_and_kts() {
    assert_eq!(name_of_grammar(spec_for_path("a.kt").unwrap().grammar), "Kotlin");
    assert_eq!(name_of_grammar(spec_for_path("build.gradle.kts").unwrap().grammar), "Kotlin");
}

#[test]
fn dart_if_and_for() {
    let src =
        "int f(List<int> xs) { var n = 0; for (var x in xs) { if (x > 0) n++; } return n; }\n";
    let m = analyze(Grammar::Dart, src);
    let cc = m.iter().find(|x| x.name == "f").unwrap().cyclomatic;
    // 1 base + for + if = 3
    assert!(cc >= 3, "expected >= 3, got {cc}");
}

#[test]
fn dart_spec_resolves() {
    assert_eq!(name_of_grammar(spec_for_path("lib/main.dart").unwrap().grammar), "Dart");
}

#[test]
fn cognitive_nested_decisions_weighted() {
    // Nested if-in-for-in-function:
    //   for { if { ... } }
    // depth 0 decision: for  → +1
    // depth 1 decision: if   → +2
    // cognitive = 3; cyclomatic = 3 (base 1 + for + if).
    let src = "fn f(xs: &[i32]) { for x in xs { if *x > 0 { println!(\"{}\", x); } } }";
    let m = analyze(Grammar::Rust, src);
    let entry = m.iter().find(|x| x.name == "f").unwrap();
    assert_eq!(entry.cyclomatic, 3);
    assert_eq!(entry.cognitive, 3);
}

#[test]
fn cognitive_flat_decisions_match_cyclomatic() {
    // Sequential (non-nested) decisions: depth stays 0, so cognitive
    // and (cyclomatic - 1) should match.
    let src = "fn f(x: i32) -> i32 { if x > 0 { return 1; } if x < 0 { return -1; } 0 }";
    let m = analyze(Grammar::Rust, src);
    let e = m.iter().find(|x| x.name == "f").unwrap();
    // cyclomatic: 1 + 2 ifs = 3. Cognitive: two flat +1 = 2.
    assert_eq!(e.cyclomatic, 3);
    assert_eq!(e.cognitive, 2);
}

#[test]
fn cognitive_deep_nesting_blows_up() {
    // if { if { if { ... } } } at depths 0, 1, 2 → 1 + 2 + 3 = 6.
    let src = "fn f(a: bool, b: bool, c: bool) { if a { if b { if c { println!(\"x\"); } } } }";
    let m = analyze(Grammar::Rust, src);
    let e = m.iter().find(|x| x.name == "f").unwrap();
    assert_eq!(e.cyclomatic, 4); // base + 3 ifs
    assert_eq!(e.cognitive, 6);
}

#[test]
fn nargs_counts_declared_parameters() {
    let rust_src = "fn f(a: i32, b: &str, c: bool) {}";
    let m = analyze(Grammar::Rust, rust_src);
    assert_eq!(m.iter().find(|x| x.name == "f").unwrap().nargs, 3);

    let py_src = "def f(self, x, y, *args, **kwargs):\n    pass\n";
    let m = analyze(Grammar::Python, py_src);
    assert_eq!(m.iter().find(|x| x.name == "f").unwrap().nargs, 5);

    let go_src = "package p\nfunc f(a int, b string) {}\n";
    let m = analyze(Grammar::Go, go_src);
    assert_eq!(m.iter().find(|x| x.name == "f").unwrap().nargs, 2);
}

#[test]
fn nargs_zero_for_noarg_functions() {
    let src = "fn f() {}";
    let m = analyze(Grammar::Rust, src);
    assert_eq!(m.iter().find(|x| x.name == "f").unwrap().nargs, 0);
}

#[test]
fn nexits_counts_return_points() {
    let src = "fn f(x: i32) -> i32 { if x > 0 { return 1; } if x < 0 { return -1; } return 0; }";
    let m = analyze(Grammar::Rust, src);
    assert_eq!(m.iter().find(|x| x.name == "f").unwrap().nexits, 3);
}

#[test]
fn nexits_zero_when_no_explicit_return() {
    // Implicit Rust expression-value return is not counted.
    let src = "fn f(x: i32) -> i32 { x + 1 }";
    let m = analyze(Grammar::Rust, src);
    assert_eq!(m.iter().find(|x| x.name == "f").unwrap().nexits, 0);
}

#[test]
fn nested_function_exits_dont_leak() {
    // The closure's return should not count toward the outer function's
    // exits, mirroring how nested-function decisions are isolated.
    let src = "fn outer() { let inner = || { return 42; }; let _ = inner(); }";
    let m = analyze(Grammar::Rust, src);
    let outer = m.iter().find(|x| x.name == "outer").unwrap();
    assert_eq!(outer.nexits, 0);
    let closure = m.iter().find(|x| x.name == "<anonymous>").unwrap();
    assert_eq!(closure.nexits, 1);
}

#[test]
fn lines_counts_code_only_excluding_comments_and_blanks() {
    // Function with 1 code line, 2 comment lines, 1 blank.
    let src = "fn f() {\n    // comment one\n    // comment two\n\n    let _ = 1;\n}\n";
    let m = analyze(Grammar::Rust, src);
    let metric = m.iter().find(|x| x.name == "f").unwrap();
    // Body code lines: `fn f() {`, `let _ = 1;`, `}` => 3 code lines.
    assert_eq!(
        metric.line_count, 3,
        "expected code-only SLOC of 3, got {}",
        metric.line_count
    );
}


#[test]
fn tokens_are_counted() {
    let short = &analyze(Grammar::Rust, "fn f() { let a = 1; }")[0].halstead;
    let long = &analyze(Grammar::Rust, "fn f() { let a = 1; let b = 2; let c = 3; let d = 4; }")[0].halstead;
    assert!(long.operators > short.operators && long.operands > short.operands);
    assert!(long.distinct_operands > short.distinct_operands);
    assert_eq!(long.distinct_operators, short.distinct_operators);
    // f, a and 1 are named; fn, the brackets, let, = and ; are not.
    assert_eq!((short.operands, short.distinct_operands), (3, 3));
    assert_eq!(short.distinct_operators, 8);
}

fn metric(cyclomatic: u64, line: u32) -> FunctionMetric {
    FunctionMetric {
        shape: FunctionShape {
            file: "a.rs".into(),
            name: "f".into(),
            start_line: line,
            line_count: 1,
            cyclomatic,
            cognitive: 0,
            nargs: 0,
            nexits: 0,
            halstead: Halstead { operators: 0, operands: 0, distinct_operators: 0, distinct_operands: 0 },
            language: "Rust",
        },
        mi: 100,
    }
}

#[test]
fn the_most_complex_are_kept() {
    let mut coll = ComplexityCollector::new();
    for i in 0..500u64 {
        coll.push_bounded(metric((i * 7) % 500, i as u32));
    }
    assert_eq!(coll.metrics.len(), MAX_METRICS);
    assert!(coll.metrics.iter().all(|m| m.shape.cyclomatic >= 300));
    let result = coll.finalize();
    assert!(matches!(result.entries[0].values.get("cyclomatic"), Some(MetricValue::Count(499))));
    assert_eq!(result.entries[0].key, "a.rs::f:357");
    assert!(coll.metrics.is_empty());
}

#[test]
fn blobs_that_cannot_be_parsed_hold_no_functions() {
    assert_eq!(inspect_blob("a.rs", b"fn f() {}").len(), 1);
    assert!(inspect_blob("a.txt", b"fn f() {}").is_empty());
    assert!(inspect_blob("a.rs", b"fn f() {} // \xff").is_empty());
}

#[test]
fn arguments_are_found_below_the_signature() {
    let src = "class A {\n  int area(int w, int h) {\n    return w * h;\n  }\n}\n";
    let m = analyze(Grammar::Dart, src);
    assert!(!m.is_empty());
    assert!(m.iter().all(|f| f.nargs == 2));
}

#[test]
fn arguments_of_functions_in_the_body_are_not_counted() {
    let m = analyze(Grammar::JavaScript, "const f = x => (a, b) => a;\n");
    assert_eq!(m.iter().map(|f| f.nargs).collect::<Vec<u64>>(), vec![0, 2]);
}

#[test]
fn a_path_without_a_point_is_taken_whole() {
    assert!(spec_for_path("go").is_some());
    assert!(spec_for_path("src/rs").is_none());
    assert!(spec_for_path("src/x.cpp").is_none());
    assert!(spec_for_path("x.go").is_some());
}
