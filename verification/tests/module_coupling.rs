use repo_analyzer::metrics::module_coupling::{aggregate_streamed, module_of, FileInCommit, ModuleCouplingCollector};

#[test]
fn module_of_truncates_to_depth() {
    assert_eq!(module_of("src/metrics/foo.rs", 2), "src/metrics");
    assert_eq!(module_of("src/metrics/sub/foo.rs", 2), "src/metrics");
    assert_eq!(module_of("README.md", 2), "<root>");
    assert_eq!(module_of("src/lib.rs", 2), "src");
}


fn rows_of(rows: &[(&str, &str)]) -> Vec<FileInCommit> {
    rows.iter().map(|(o, f)| FileInCommit { oid: o.to_string(), file: f.to_string() }).collect()
}

#[test]
fn streamed_aggregation_matches_expected_pair_counts() {
    // c1: src/a, src/b            -> pair (src/a, src/b)
    // c2: src/a, src/b, src/c     -> pairs a-b, a-c, b-c
    // c3: src/a (README ignored)  -> no pairs
    // c4: src/b, src/c            -> pair b-c
    let rows = [
        ("c1", "src/a/one.rs"),
        ("c1", "src/a/two.rs"),
        ("c1", "src/b/one.rs"),
        ("c2", "src/a/x.rs"),
        ("c2", "src/b/y.rs"),
        ("c2", "src/c/z.rs"),
        ("c3", "src/a/q.rs"),
        ("c3", "README.md"),
        ("c4", "src/b/m.rs"),
        ("c4", "src/c/n.rs"),
    ];
    let (co_changes, totals) = aggregate_streamed(&rows_of(&rows));
    let pair = |a: &str, b: &str| co_changes.get(a).and_then(|m| m.get(b)).copied();
    assert_eq!(pair("src/a", "src/b"), Some(2)); // c1, c2
    assert_eq!(pair("src/a", "src/c"), Some(1)); // c2
    assert_eq!(pair("src/b", "src/c"), Some(2)); // c2, c4
    let count: usize = (0..co_changes.len()).map(|i| co_changes.value_at(i).len()).sum();
    assert_eq!(count, 3);
    assert_eq!(totals.get("src/a"), Some(&3)); // c1, c2, c3
    assert_eq!(totals.get("src/b"), Some(&3)); // c1, c2, c4
    assert_eq!(totals.get("src/c"), Some(&2)); // c2, c4
    assert_eq!(totals.len(), 3);
}

#[test]
fn pairs_that_change_together_often_are_listed() {
    let mut rows = Vec::new();
    for i in 0..4 {
        rows.push(FileInCommit { oid: format!("c{i}"), file: "src/a/x.rs".into() });
        rows.push(FileInCommit { oid: format!("c{i}"), file: "src/b/x.rs".into() });
    }
    let result = ModuleCouplingCollector::new().finalize_from_rows(&rows);
    assert_eq!(result.entries.len(), 1);
}
