use repo_analyzer::metrics::half_life::{
    ancient_cutoff, classify, is_source, pick_paths, wants_blob, BlameRange, HalfLifeCollector,
};
use repo_analyzer::types::MetricValue;

#[test]
fn half_life_classify_thresholds() {
    assert_eq!(classify(0), "Hot zone — frequent rewrites");
    assert_eq!(classify(15), "Hot zone — frequent rewrites");
    assert_eq!(classify(35), "Aging steadily");
    assert_eq!(classify(70), "Mostly stable");
    assert_eq!(classify(95), "Stable core");
}

#[test]
fn is_source_recognizes_rust() {
    assert!(is_source("src/main.rs"));
    assert!(is_source("foo.py"));
    assert!(!is_source("README.md"));
    assert!(!is_source("data.json"));
}

#[test]
fn classify_boundaries_exact() {
    // boundary exactly on inclusive end of "Hot zone" (20)
    assert_eq!(classify(20), "Hot zone — frequent rewrites");
    assert_eq!(classify(21), "Aging steadily");
    assert_eq!(classify(50), "Aging steadily");
    assert_eq!(classify(51), "Mostly stable");
    assert_eq!(classify(80), "Mostly stable");
    assert_eq!(classify(81), "Stable core");
}

#[test]
fn is_source_handles_extensionless_files() {
    assert!(!is_source("Makefile"));
    assert!(!is_source("LICENSE"));
    assert!(!is_source("path/without/dot"));
}

#[test]
fn is_source_handles_multi_dot_files() {
    // Should pick the LAST extension after final dot.
    assert!(is_source("foo.bar.rs"));
    assert!(!is_source("foo.rs.bak"));
}


#[test]
fn old_lines_are_counted() {
    let now: i64 = 1_750_000_000;
    let old = ancient_cutoff(now) - 1;
    let mut coll = HalfLifeCollector::new();
    let ranges = [
        BlameRange { len: 3, time: Some(old) },
        BlameRange { len: 1, time: Some(now) },
        BlameRange { len: 4, time: None },
    ];
    coll.record_blame("a.rs", &ranges, now);
    let file = coll.files.get("a.rs").expect("file");
    assert!(file.ancient_lines == 3 && file.ancient_lines <= file.total_lines);
    let result = coll.finalize();
    assert_eq!(result.entries[0].key, "a.rs");
    assert!(matches!(result.entries[0].values.get("total_lines"), Some(MetricValue::Count(_))));
}

#[test]
fn small_sources_are_blamed() {
    assert!(wants_blob("a.rs", 100));
    assert!(!wants_blob("a.rs", 60_000));
    assert!(!wants_blob("a.md", 100));
    let many: Vec<String> = (0..80).map(|i| format!("f{i:02}.rs")).collect();
    assert_eq!(pick_paths(many).len(), 50);
}

#[test]
fn a_file_named_like_an_extension_is_source() {
    assert!(is_source("py"));
    assert!(is_source("a.py"));
    assert!(!is_source("bin/py"));
    assert!(wants_blob("py", 100));
}
