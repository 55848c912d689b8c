use repo_analyzer::metrics::clones::{ast_hash, function_kinds, function_name, group_by_hash, ClonesCollector, FunctionRecord};
use repo_analyzer::syntax::{parse, subtree_ends, Grammar, SyntaxNode};
use repo_analyzer::types::MetricValue;

/// The nodes of a source, and the first that is a function.
fn first_function(grammar: Grammar, src: &str) -> (Vec<SyntaxNode>, usize) {
    let nodes = parse(grammar, src).expect("tree");
    let at = nodes.iter().position(|n| function_kinds(grammar).contains(&n.kind.as_str())).expect("function");
    (nodes, at)
}

fn hash_of(grammar: Grammar, src: &str) -> u64 {
    let (nodes, at) = first_function(grammar, src);
    let ends = subtree_ends(&nodes);
    ast_hash(grammar, &nodes, &ends, at)
}

#[test]
fn clones_differ_only_in_identifier_names_share_hash() {
    let a =
        "fn sum(xs: &[i32]) -> i32 { let mut total = 0; for x in xs { total += *x; } total }";
    let b = "fn fold(values: &[i32]) -> i32 { let mut acc = 0; for v in values { acc += *v; } acc }";
    let ha = hash_of(Grammar::Rust, a);
    let hb = hash_of(Grammar::Rust, b);
    assert_eq!(ha, hb, "renamed variables must not change the hash");
}

#[test]
fn structurally_different_functions_get_different_hashes() {
    let a = "fn f(x: i32) -> i32 { x + 1 }";
    let b = "fn f(x: i32) -> i32 { if x > 0 { 1 } else { 2 } }";
    assert_ne!(hash_of(Grammar::Rust, a), hash_of(Grammar::Rust, b));
}

#[test]
fn different_literals_still_same_hash() {
    let a = "fn f() -> i32 { 42 }";
    let b = "fn f() -> i32 { 9001 }";
    assert_eq!(hash_of(Grammar::Rust, a), hash_of(Grammar::Rust, b));
}

#[test]
fn python_clone_detected() {
    let a = "def add(a, b):\n    total = a + b\n    return total\n";
    let b = "def sum_two(x, y):\n    result = x + y\n    return result\n";
    assert_eq!(hash_of(Grammar::Python, a), hash_of(Grammar::Python, b));
}

#[test]
fn dart_named_function_clone_detected() {
    // Regression: Dart named functions must be recognized via the
    // `function_declaration` node (which spans the body), not the
    // ~1-line `function_signature`. Two functions differing only in
    // identifier names must share a hash, with real names attached.
    let a = "int add(int a, int b) {\n  var total = a + b;\n  return total;\n}\n";
    let b = "int sumTwo(int x, int y) {\n  var result = x + y;\n  return result;\n}\n";
    assert_eq!(hash_of(Grammar::Dart, a), hash_of(Grammar::Dart, b));

    // The declaration node carries a real function name (not <anonymous>).
    let (nodes, at) = first_function(Grammar::Dart, a);
    let ends = subtree_ends(&nodes);
    assert_eq!(function_name(&nodes, &ends, a, at).as_deref(), Some("add"));
}

#[test]
fn finalize_groups_duplicates_and_ranks_by_payoff() {
    // Seed records manually to avoid needing a real repo. Two groups:
    //   group A: 30-line function cloned twice → payoff 30
    //   group B: 50-line function cloned twice → payoff 50 (ranks higher)
    let mut coll = ClonesCollector::new();
    for i in 0..2 {
        coll.records.push(FunctionRecord {
            hash: 111,
            file: format!("a/f{i}.rs"),
            name: format!("small{i}"),
            start_line: 1,
            size_lines: 30,
        });
        coll.records.push(FunctionRecord {
            hash: 222,
            file: format!("b/f{i}.rs"),
            name: format!("big{i}"),
            start_line: 1,
            size_lines: 50,
        });
    }
    let result = coll.finalize();
    assert_eq!(result.entries.len(), 2);
    // Bigger payoff (50-line group) must rank first.
    let first_key = &result.entries[0].key;
    assert!(
        first_key.contains("b/f0.rs"),
        "expected 50-line group first, got {first_key}"
    );
}

#[test]
fn singleton_hashes_dropped() {
    let mut coll = ClonesCollector::new();
    coll.records.push(FunctionRecord {
        hash: 42,
        file: "only.rs".into(),
        name: "loner".into(),
        start_line: 1,
        size_lines: 50,
    });
    let result = coll.finalize();
    assert!(
        result.entries.is_empty(),
        "singleton function must not produce a clone group"
    );
}


#[test]
fn groups_hold_every_function_once() {
    let record = |hash: u64, line: u32| FunctionRecord { hash, file: "a.rs".into(), name: "f".into(), start_line: line, size_lines: 12 };
    let groups = group_by_hash(vec![record(2, 1), record(1, 2), record(2, 3), record(3, 4)]);
    let lines: Vec<Vec<u32>> = groups.iter().map(|g| g.records.iter().map(|r| r.start_line).collect()).collect();
    assert_eq!(lines, vec![vec![1, 3], vec![2], vec![4]]);
}

#[test]
fn long_clones_are_found_across_files() {
    let body = |name: &str| format!("fn {name}(x: i32) -> i32 {{\n{}    x\n}}\n", "    let y = x + 1;\n".repeat(10));
    let mut coll = ClonesCollector::new();
    coll.inspect_blob("b.rs", body("one").as_bytes());
    coll.inspect_blob("a.rs", body("two").as_bytes());
    coll.inspect_blob("c.rs", b"fn short() {}\n");
    let result = coll.finalize();
    assert_eq!(result.entries.len(), 1);
    assert_eq!(result.entries[0].key, "#1: a.rs::two:1");
    assert!(matches!(result.entries[0].values.get("occurrences"), Some(MetricValue::Count(2))));
    assert!(matches!(result.entries[0].values.get("size_lines"), Some(MetricValue::Count(13))));
    match result.entries[0].values.get("other_locations") {
        Some(MetricValue::Text(s)) => assert_eq!(s, "b.rs::one:1"),
        other => panic!("expected a text, got {other:?}"),
    }
}
