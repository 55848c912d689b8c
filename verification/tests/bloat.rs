use repo_analyzer::messages;
use repo_analyzer::metrics::bloat::{
    classify, human_size, suspicious, wants_blob, BloatCollector, SizedFile, Suspicion, MAX_ENTRIES,
};
use repo_analyzer::types::{MetricEntry, MetricValue};

#[test]
fn test_human_size() {
    assert_eq!(human_size(100), "100 B");
    assert_eq!(human_size(1500), "1.46 KB");
    assert_eq!(human_size(5 * 1024 * 1024), "5.00 MB");
}

#[test]
fn test_classify() {
    assert_eq!(
        classify("normal.rs", 100).code,
        messages::BLOAT_RECOMMENDATION_OK
    );
    assert_eq!(
        classify("normal.rs", 600 * 1024).code,
        messages::BLOAT_RECOMMENDATION_LARGE_FILE
    );
    assert_eq!(
        classify("big.bin", 10 * 1024 * 1024).code,
        messages::BLOAT_RECOMMENDATION_VERY_LARGE_FILE
    );
    assert_eq!(
        classify("src/app.min.js", 10).code,
        messages::BLOAT_RECOMMENDATION_MINIFIED_BUNDLE
    );
    assert_eq!(
        classify("node_modules/foo", 10).code,
        messages::BLOAT_RECOMMENDATION_VENDORED_DEPS
    );
}

#[test]
fn test_suspicious_is_segment_anchored() {
    // Substring, not a real path segment -> no match.
    assert!(suspicious("src/mynode_modules_backup/x").is_none());
    // Real segment -> Directory match with the correct root.
    match suspicious("frontend/node_modules/a/b.js") {
        Some(Suspicion::Directory { root, .. }) => {
            assert_eq!(root, "frontend/node_modules");
        }
        _ => panic!("expected Directory match"),
    }
}

fn size_of(entry: &MetricEntry) -> u64 {
    match entry.values.get("size_bytes") {
        Some(MetricValue::Count(n)) => *n,
        _ => 0,
    }
}

#[test]
fn test_directory_aggregation() {
    let mut c = BloatCollector::new();
    // Two distinct vendored roots plus a build tree, many files each.
    c.files = vec![
        ("node_modules/a/x.js".into(), 100),
        ("node_modules/b/y.js".into(), 200),
        ("node_modules/c/z.js".into(), 300),
        ("frontend/node_modules/p.js".into(), 40),
        ("frontend/node_modules/q.js".into(), 60),
        ("target/debug/app".into(), 1000),
        ("target/debug/dep".into(), 500),
        ("src/main.rs".into(), 10),
    ]
        .into_iter()
        .map(|(path, size): (String, u64)| SizedFile { path, size })
        .collect();

    let result = c.finalize();

    // One row per vendored/build root, none per file.
    let roots: Vec<&str> = result.entries.iter().map(|e| e.key.as_str()).collect();
    assert!(roots.contains(&"node_modules"), "roots = {:?}", roots);
    assert!(
        roots.contains(&"frontend/node_modules"),
        "roots = {:?}",
        roots
    );
    assert!(roots.contains(&"target"), "roots = {:?}", roots);
    // No individual file under an aggregated root leaks through.
    assert!(
        !roots.iter().any(|k| k.starts_with("node_modules/")
            || k.starts_with("frontend/node_modules/")
            || k.starts_with("target/")),
        "roots = {:?}",
        roots
    );

    let nm = result
        .entries
        .iter()
        .find(|e| e.key == "node_modules")
        .expect("node_modules root");
    assert_eq!(size_of(nm), 600); // 100 + 200 + 300

    let tgt = result
        .entries
        .iter()
        .find(|e| e.key == "target")
        .expect("target root");
    assert_eq!(size_of(tgt), 1500); // 1000 + 500

    // Columns/schema are unchanged.
    assert_eq!(result.columns.len(), 3);
}

#[test]
fn test_max_entries_cap() {
    let mut c = BloatCollector::new();
    // Far more suspicious files than the cap: distinct .DS_Store paths.
    c.files = (0..(MAX_ENTRIES + 50))
        .map(|i| SizedFile { path: format!("dir{i}/.DS_Store"), size: 10 })
        .collect();

    let result = c.finalize();
    assert!(result.entries.len() <= MAX_ENTRIES);
}


#[test]
fn sizes_of_all_kinds() {
    assert_eq!(human_size(1023), "1023 B");
    assert_eq!(human_size(1024), "1.00 KB");
    assert_eq!(human_size(3 * 1024 * 1024 * 1024), "3.00 GB");
    assert!(wants_blob("big.bin", 6 * 1024 * 1024));
    assert_eq!(classify("a/.DS_Store", 1).code, messages::BLOAT_RECOMMENDATION_OS_METADATA);
}

#[test]
fn one_row_for_each_directory() {
    let mut c = BloatCollector::new();
    for i in 0..5 {
        c.files.push(SizedFile { path: format!("node_modules/p/{i}.js"), size: 1 });
    }
    let result = c.finalize();
    let rows: Vec<&str> = result.entries.iter().map(|e| e.key.as_str()).collect();
    assert_eq!(rows, vec!["node_modules"]);
    assert_eq!(size_of(&result.entries[0]), 5);
}

#[test]
fn a_file_named_like_an_extension_is_weighed() {
    assert!(wants_blob("go", 10 * 1024 * 1024));
    assert!(!wants_blob("x.go", 10 * 1024 * 1024));
}
