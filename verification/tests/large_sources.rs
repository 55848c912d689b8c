use repo_analyzer::langs::detect_language_info;
use repo_analyzer::metrics::large_sources::{
    classify, human_size, is_source_language, is_source_path, measure, LargeSourcesCollector,
};
use repo_analyzer::types::MetricValue;

#[test]
fn large_sources_classify_thresholds() {
    assert_eq!(classify(0), "Sizeable — monitor");
    assert_eq!(classify(1499), "Sizeable — monitor");
    assert_eq!(classify(1500), "Very large — consider splitting");
    assert_eq!(classify(4999), "Very large — consider splitting");
    assert_eq!(
        classify(5000),
        "Enormous — likely generated or a god module"
    );
}

#[test]
fn source_path_detection_whitelist() {
    assert!(is_source_path("src/main.rs"));
    assert!(is_source_path("lib/app.dart"));
    assert!(is_source_path("Main.java"));
    assert!(is_source_path("script.mjs"));
    assert!(!is_source_path("README.md"));
    assert!(!is_source_path("package.json"));
    assert!(!is_source_path("data.csv"));
    assert!(!is_source_path("image.png"));
}

#[test]
fn source_language_whitelist_matches_detection_names() {
    // Sanity: the language names here must match what `detect_language_info`
    // returns. Pick a handful to guard against drift.
    let rust = detect_language_info("x.rs", None).unwrap();
    assert!(is_source_language(rust.name));
    let md = detect_language_info("README.md", None).unwrap();
    assert!(!is_source_language(md.name));
}

#[test]
fn human_size_formats() {
    assert_eq!(human_size(100), "100 B");
    assert_eq!(human_size(2048), "2.0 KB");
    assert_eq!(human_size(5 * 1024 * 1024), "5.00 MB");
}


#[test]
fn only_large_files_are_listed() {
    let mut coll = LargeSourcesCollector::new();
    let big = "let x = 1;\n".repeat(600);
    coll.inspect_blob("src/big.rs", big.as_bytes());
    coll.inspect_blob("src/small.rs", b"let x = 1;\n");
    coll.inspect_blob("data.json", big.as_bytes());
    assert_eq!(measure("src/big.rs", big.as_bytes()).expect("measured").code, 600);
    let result = coll.finalize();
    assert_eq!(result.entries.len(), 1);
    assert_eq!(result.entries[0].key, "src/big.rs");
    assert!(matches!(result.entries[0].values.get("code_lines"), Some(MetricValue::Count(600))));
}

#[test]
fn a_name_without_a_point_has_no_extension() {
    assert!(!is_source_path("go"));
    assert!(!is_source_path("bin/rs"));
    assert!(is_source_path("bin/x.go"));
}
