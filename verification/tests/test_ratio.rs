use repo_analyzer::metrics::test_ratio::{is_test_file, measure, TestRatioCollector};
use repo_analyzer::types::MetricValue;

#[test]
fn test_file_detection_directories() {
    assert!(is_test_file("tests/unit/foo.rs"));
    assert!(is_test_file("test/main_test.go"));
    assert!(is_test_file("src/__tests__/App.test.tsx"));
    assert!(is_test_file("spec/models/user_spec.rb"));
}

#[test]
fn test_file_detection_suffixes() {
    assert!(is_test_file("pkg/handler_test.go"));
    assert!(is_test_file("src/test_utils.py"));
    assert!(is_test_file("src/utils_test.py"));
    assert!(is_test_file("src/App.test.tsx"));
    assert!(is_test_file("src/App.spec.js"));
    assert!(is_test_file("com/example/UserTest.java"));
    assert!(is_test_file("app/UserTests.java"));
    assert!(is_test_file("lib/user_spec.rb"));
    assert!(is_test_file("Services/PaymentTest.cs"));
}

#[test]
fn non_test_files_rejected() {
    assert!(!is_test_file("src/main.rs"));
    assert!(!is_test_file("src/utils.py"));
    assert!(!is_test_file("src/App.tsx"));
    assert!(!is_test_file("cmd/main.go"));
    assert!(!is_test_file("lib/testing.rb"));
}

#[test]
fn test_ratio_empty_collector_produces_named_result() {
    let mut coll = TestRatioCollector::new();
    let result = coll.finalize();
    assert_eq!(result.name, "test_ratio");
    // Should have at least the summary row.
    assert_eq!(result.entries.len(), 1);
    assert_eq!(result.entries[0].key, "(total)");
}


#[test]
fn test_lines_are_set_against_source_lines() {
    let mut coll = TestRatioCollector::new();
    coll.inspect_blob("src/a.rs", b"fn a() {}\nfn b() {}\nfn c() {}\n");
    coll.inspect_blob("tests/a.rs", b"fn t() {}\n");
    assert_eq!(measure("src/a.rs", b"fn a() {}\n"), Some(("Rust".to_string(), 1)));
    let result = coll.finalize();
    let total = result.entries.iter().find(|e| e.key == "(total)").expect("total");
    assert!(matches!(total.values.get("test_pct"), Some(MetricValue::Percent { num: 1, den: 4 })));
    let rust = result.entries.iter().find(|e| e.key == "Rust").expect("rust");
    assert!(matches!(rust.values.get("source_lines"), Some(MetricValue::Count(3))));
}

#[test]
fn files_are_counted_while_there_is_room() {
    let mut c = TestRatioCollector::new();
    assert!(c.try_inspect_blob("src/a.rs", b"fn a() {}\n"));
    assert!(c.has_room("src/b.rs", "Rust", u64::MAX - 1));
    assert!(!c.has_room("src/b.rs", "Rust", u64::MAX));
    c.record("tests/b.rs", "Rust".to_string(), u64::MAX - 1);
    assert!(!c.try_inspect_blob("src/c.rs", b"fn c() {}\n"));
    assert!(c.try_inspect_blob("notes.bin", &[0, 1, 2]));
    assert_eq!(c.stats.value_at(0).source_files, 1);
    assert_eq!(c.stats.value_at(0).test_lines, u64::MAX - 1);
}
