use repo_analyzer::metrics::dead_code::{is_entry_point, is_test_path, DeadCodeCollector, MAX_ORPHANS};
use repo_analyzer::metrics::fan_in_out::path_set;

#[test]
fn entry_points_not_flagged() {
    assert!(is_entry_point("src/main.rs"));
    assert!(is_entry_point("src/lib.rs"));
    assert!(is_entry_point("web/src/index.ts"));
    assert!(is_entry_point("pkg/foo/__init__.py"));
    assert!(is_entry_point("cmd/api/main.go"));
    // Not entry points.
    assert!(!is_entry_point("src/utils.rs"));
    assert!(!is_entry_point("pkg/foo/helpers.py"));
}

#[test]
fn test_paths_detected() {
    assert!(is_test_path("tests/integration.rs"));
    assert!(is_test_path("src/foo_test.go"));
    assert!(is_test_path("web/__tests__/component.ts"));
    assert!(is_test_path("app/spec/api_spec.rb"));
    assert!(is_test_path("src/FooTest.java"));
    assert!(is_test_path("src/FooSpec.kt"));
    assert!(is_test_path("web/src/App.test.tsx"));
    assert!(is_test_path("web/src/utils.spec.ts"));
    assert!(is_test_path("tests/test_auth.py"));
    // Not tests.
    assert!(!is_test_path("src/main.rs"));
    assert!(!is_test_path("src/handlers.go"));
}

#[test]
fn orphan_list_truncated_and_sorted() {
    let mut coll = DeadCodeCollector::new();
    // Seed 300 orphans in reverse-alphabetical order to exercise sort +
    // truncation in finalize().
    for i in (0..300u32).rev() {
        coll.orphans.push(format!("src/{i:04}.rs"));
    }
    let result = coll.finalize();
    assert_eq!(result.entries.len(), MAX_ORPHANS);
    let keys: Vec<&str> = result.entries.iter().map(|e| e.key.as_str()).collect();
    assert_eq!(keys[0], "src/0000.rs");
    assert!(keys[1] < keys[2]); // confirm ascending sort
}


#[test]
fn what_is_imported_is_no_orphan() {
    let all: Vec<String> = ["src/main.rs", "src/a.rs", "src/b.rs", "README.md"].iter().map(|s| s.to_string()).collect();
    let paths = path_set(&all);
    let mut coll = DeadCodeCollector::new();
    coll.inspect_blob("src/main.rs", b"use crate::a::x;\n", &paths);
    coll.judge(&all);
    let result = coll.finalize();
    let keys: Vec<&str> = result.entries.iter().map(|e| e.key.as_str()).collect();
    assert_eq!(keys, vec!["src/b.rs"]);
}
