use repo_analyzer::metrics::coupling::{top_source_files, CouplingCollector, FileCount, PairRow};
use repo_analyzer::types::{MetricResult, MetricValue};

fn make_change(file: &str, oid: &str) -> (String, String) {
    (file.to_string(), oid.to_string())
}

/// How often each file changed, and each pair of files together.
fn store_with(changes: &[(String, String)]) -> (Vec<FileCount>, Vec<PairRow>) {
    let mut totals: Vec<FileCount> = Vec::new();
    let mut pairs: Vec<PairRow> = Vec::new();
    for (file, oid) in changes {
        match totals.iter_mut().find(|t| t.file == *file) {
            Some(t) => t.count += 1,
            None => totals.push(FileCount { file: file.clone(), count: 1 }),
        }
        for (other, _) in changes.iter().filter(|(f, o)| o == oid && file < f) {
            match pairs.iter_mut().find(|p| p.file_a == *file && p.file_b == *other) {
                Some(p) => p.co_changes += 1,
                None => pairs.push(PairRow { file_a: file.clone(), file_b: other.clone(), co_changes: 1 }),
            }
        }
    }
    (top_source_files(totals), pairs)
}

fn report(coll: &mut CouplingCollector, store: (Vec<FileCount>, Vec<PairRow>)) -> MetricResult {
    coll.finalize_from_rows(&store.0, store.1)
}

#[test]
fn coupling_empty_collector_returns_named_result() {
    let mut coll = CouplingCollector::new();
    let r = coll.finalize();
    assert_eq!(r.name, "coupling");
    assert!(r.entries.is_empty());
}

#[test]
fn finalize_from_db_returns_pairs_for_co_changing_files() {
    // Three commits each touch both files together — co_changes = 3 ≥
    // MIN_COUPLING_COUNT, score = 3/3 = 1.0 ≥ MIN_COUPLING_SCORE.
    let mut changes = vec![];
    for oid in &["c1", "c2", "c3"] {
        changes.push(make_change("a.rs", oid));
        changes.push(make_change("b.rs", oid));
    }
    let store = store_with(&changes);

    let mut coll = CouplingCollector::new();
    let r = report(&mut coll, store);
    assert!(!r.entries.is_empty());
    let entry = r.entries.first().unwrap();
    assert_eq!(entry.key, "a.rs <-> b.rs");
    match entry.values.get("co_changes") {
        Some(MetricValue::Count(n)) => assert_eq!(*n, 3),
        other => panic!("expected Count(3), got {other:?}"),
    }
    match entry.values.get("score") {
        Some(MetricValue::Ratio { num, den }) => assert!((*num as f64 / *den as f64 - 1.0).abs() < 1e-6),
        other => panic!("expected Float(1.0), got {other:?}"),
    }
}

#[test]
fn finalize_from_db_filters_below_min_coupling_count() {
    // Only two co-changes, below MIN_COUPLING_COUNT=3 — should produce no rows.
    let mut changes = vec![];
    for oid in &["c1", "c2"] {
        changes.push(make_change("a.rs", oid));
        changes.push(make_change("b.rs", oid));
    }
    let store = store_with(&changes);

    let mut coll = CouplingCollector::new();
    let r = report(&mut coll, store);
    assert!(
        r.entries.is_empty(),
        "expected no entries below MIN_COUPLING_COUNT, got {:?}",
        r.entries
    );
}

#[test]
fn finalize_from_db_filters_below_min_coupling_score() {
    // a.rs is touched in 10 commits; b.rs only co-changes in 3 of them.
    // score = 3/10 = 0.3 — exactly at the threshold (>= MIN_COUPLING_SCORE).
    // With score = 0.29 (3/11) we drop below.
    let mut changes = vec![];
    // 11 commits touching a.rs
    for i in 1..=11 {
        changes.push(make_change("a.rs", &format!("c{i}")));
    }
    // Only 3 of those also touch b.rs
    for i in 1..=3 {
        changes.push(make_change("b.rs", &format!("c{i}")));
    }
    let store = store_with(&changes);

    let mut coll = CouplingCollector::new();
    let r = report(&mut coll, store);
    assert!(
        r.entries.is_empty(),
        "score {} should be below MIN_COUPLING_SCORE",
        3.0 / 11.0
    );
}

#[test]
fn finalize_from_db_skips_self_pairs() {
    // Same file appears in many commits; the SQL `<` filter prevents
    // (a.rs, a.rs) from showing up.
    let changes: Vec<_> = (1..=4)
        .map(|i| make_change("a.rs", &format!("c{i}")))
        .collect();
    let store = store_with(&changes);

    let mut coll = CouplingCollector::new();
    let r = report(&mut coll, store);
    assert!(r.entries.iter().all(|e| !e.key.contains("a.rs <-> a.rs")));
}

#[test]
fn finalize_from_db_orders_by_co_changes_desc() {
    // (a, b) co-change 5 times, (c, d) co-change 3 times — both meet
    // thresholds; (a, b) must rank first.
    let mut changes = vec![];
    for oid in &["c1", "c2", "c3", "c4", "c5"] {
        changes.push(make_change("a.rs", oid));
        changes.push(make_change("b.rs", oid));
    }
    for oid in &["d1", "d2", "d3"] {
        changes.push(make_change("c.rs", oid));
        changes.push(make_change("d.rs", oid));
    }
    let store = store_with(&changes);

    let mut coll = CouplingCollector::new();
    let r = report(&mut coll, store);
    assert_eq!(r.entries[0].key, "a.rs <-> b.rs");
}

#[test]
fn pairs_with_more_common_changes_come_first() {
    let totals = [("a.rs", 9), ("b.rs", 9), ("c.rs", 9)].map(|(f, count)| FileCount { file: f.into(), count });
    let pair = |a: &str, b: &str, co_changes: u64| PairRow { file_a: a.into(), file_b: b.into(), co_changes };
    let result = CouplingCollector::new().finalize_from_rows(
        &totals,
        vec![pair("a.rs", "b.rs", 4), pair("a.rs", "c.rs", 2), pair("b.rs", "c.rs", 7)],
    );
    let keys: Vec<&str> = result.entries.iter().map(|e| e.key.as_str()).collect();
    assert_eq!(keys, vec!["b.rs <-> c.rs", "a.rs <-> b.rs"]);
}

#[test]
fn only_so_many_pairs_are_looked_at() {
    let pairs: Vec<PairRow> = (0..1001)
        .map(|i| PairRow { file_a: format!("a{i}.rs"), file_b: format!("b{i}.rs"), co_changes: 3 + i })
        .collect();
    let result = CouplingCollector::new().finalize_from_rows(&[], pairs);
    assert_eq!(result.entries.len(), 1000);
    assert_eq!(result.entries[0].key, "a1000.rs <-> b1000.rs");
    assert!(result.entries.iter().all(|e| e.key != "a0.rs <-> b0.rs"));
}

#[test]
fn the_most_active_sources_are_compared() {
    let rows = [("a.rs", 1), ("Cargo.lock", 9), ("b.rs", 5)].map(|(f, count)| FileCount { file: f.into(), count });
    let top = top_source_files(rows.into_iter().collect());
    let files: Vec<&str> = top.iter().map(|f| f.file.as_str()).collect();
    assert_eq!(files, vec!["b.rs", "a.rs"]);
}
