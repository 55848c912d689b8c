use repo_analyzer::metrics::commit_size::{anomaly_threshold, CommitRow, CommitSizeCollector, Stats};
use repo_analyzer::types::MetricValue;

#[test]
fn commit_size_empty_collector_produces_named_result() {
    let mut coll = CommitSizeCollector::new();
    let result = coll.finalize();
    assert_eq!(result.name, "commit_size");
}

#[test]
fn stats_from_tiny_distribution() {
    let sizes = vec![1, 2, 3, 4, 5, 6, 7, 8, 9, 100];
    let s = Stats::from_sorted(&sizes);
    assert_eq!(s.max, 100);
    // p95 index = floor(10 * 0.95) = 9 → value 100.
    assert_eq!(s.p95, 100);
    // mean of that set ≈ 14.5 → rounds to 15.
    assert_eq!(s.mean, 15);
}

#[test]
fn anomaly_threshold_uses_max_of_p95x10_and_p99() {
    // p95 small but p99 large — threshold should track p99.
    let stats = Stats {
        mean: 10,
        median: 5,
        p95: 0,
        p99: 5_000,
        max: 10_000,
    };
    assert_eq!(anomaly_threshold(&stats), 5_000);
    // p95 large, p99 ~same — threshold should track p95 * 10.
    let stats = Stats {
        mean: 100,
        median: 50,
        p95: 200,
        p99: 250,
        max: 10_000,
    };
    assert_eq!(anomaly_threshold(&stats), 2_000);
}


#[test]
fn anomalies_are_listed() {
    let mut rows: Vec<CommitRow> = (0..200)
        .map(|i| CommitRow { oid: format!("{i:040}"), size: 2, email: "a@x".into(), ts: 0, message: "m".into() })
        .collect();
    rows.push(CommitRow { oid: "f".repeat(40), size: 5000, email: "b@x".into(), ts: 86400, message: "huge\nmore".into() });
    let result = CommitSizeCollector::new().finalize_from_rows(rows).expect("rows");
    let found = result.entry_groups.iter().find(|g| g.name == "anomalies").expect("anomalies");
    assert_eq!(found.entries.len(), 1);
    assert!(CommitSizeCollector::new().finalize_from_rows(Vec::new()).is_none());
    let summary = result.entry_groups.iter().find(|g| g.name == "summary").expect("summary");
    assert!(!summary.entries.is_empty());
    assert!(!matches!(summary.entries[0].values.get("value"), Some(MetricValue::Text(_))));
}

#[test]
fn figures_are_in_order() {
    let sizes: Vec<u64> = (1..=1000).collect();
    let s = Stats::from_sorted(&sizes);
    assert!(s.median <= s.p95 && s.p95 <= s.p99 && s.p99 <= s.max);
    assert_eq!((s.p95, s.p99, s.max), (951, 991, 1000));
}
