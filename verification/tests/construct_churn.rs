use repo_analyzer::calendar::date_text;
use repo_analyzer::metrics::construct_churn::{ConstructChanges, ConstructChurnCollector};
use repo_analyzer::types::{ts_to_date, MetricValue};

const DAY: i64 = 1_736_942_400;

fn make_change(file: &str, _oid: &str, email: &str, constructs: Vec<(String, u64)>) -> Vec<(String, String, String, u64)> {
    constructs.into_iter().map(|(name, lines)| (file.to_string(), name, email.to_string(), lines)).collect()
}

fn func(name: &str, start: u64, end: u64) -> (String, u64) {
    (name.to_string(), end - start + 1)
}

/// The changes, put together per construct, the most changed first.
fn store_with(changes: &[Vec<(String, String, String, u64)>]) -> Vec<ConstructChanges> {
    let mut rows: Vec<ConstructChanges> = Vec::new();
    let mut seen: Vec<(String, String, String)> = Vec::new();
    for (file, name, email, lines) in changes.iter().flatten() {
        let by = (file.clone(), name.clone(), email.clone());
        let fresh = !seen.contains(&by);
        seen.push(by);
        if !rows.iter().any(|r| r.file == *file && r.qualified_name == *name) {
            rows.push(ConstructChanges {
                file: file.clone(),
                qualified_name: name.clone(),
                kind: "function".to_string(),
                changes: 0,
                lines_touched: 0,
                unique_authors: 0,
                last_ts: DAY,
            });
        }
        for r in rows.iter_mut().filter(|r| r.file == *file && r.qualified_name == *name) {
            r.changes += 1;
            r.lines_touched += lines;
            r.unique_authors += fresh as u64;
        }
    }
    rows.sort_by_key(|r| u64::MAX - r.changes);
    rows
}

#[test]
fn construct_churn_empty_collector_returns_named_result() {
    let mut coll = ConstructChurnCollector::new();
    let r = coll.finalize();
    assert_eq!(r.name, "construct_churn");
    assert!(r.entries.is_empty());
}

#[test]
fn construct_churn_ts_to_date_known_value() {
    // 2024-06-15 00:00:00 UTC = 1718409600
    let date = ts_to_date(1_718_409_600);
    assert_eq!(date_text(date), "2024-06-15");
}

#[test]
fn finalize_from_db_groups_per_file_and_qualified_name() {
    let store = store_with(&[
        make_change("a.rs", "c1", "alice@x", vec![func("foo", 1, 10)]),
        make_change("a.rs", "c2", "alice@x", vec![func("foo", 1, 12)]),
        make_change("a.rs", "c3", "bob@x", vec![func("bar", 20, 30)]),
    ]);

    let mut coll = ConstructChurnCollector::new();
    let r = coll.finalize_from_rows(store);
    assert_eq!(r.entries.len(), 2, "two distinct constructs");
    let foo = r.entries.iter().find(|e| e.key.ends_with("::foo")).unwrap();
    match foo.values.get("changes") {
        Some(MetricValue::Count(n)) => assert_eq!(*n, 2),
        other => panic!("expected Count(2), got {other:?}"),
    }
    // foo only modified by alice -> unique_authors == 1
    match foo.values.get("unique_authors") {
        Some(MetricValue::Count(n)) => assert_eq!(*n, 1),
        other => panic!("expected Count(1), got {other:?}"),
    }
}

#[test]
fn finalize_from_db_excludes_non_source_files() {
    // package-lock.json is filtered by is_source_file.
    let store = store_with(&[
        make_change("package-lock.json", "c1", "alice@x", vec![func("x", 1, 1)]),
        make_change("real.rs", "c2", "alice@x", vec![func("y", 1, 1)]),
    ]);

    let mut coll = ConstructChurnCollector::new();
    let r = coll.finalize_from_rows(store);
    assert!(r.entries.iter().any(|e| e.key.starts_with("real.rs")));
    assert!(
        !r.entries.iter().any(|e| e.key.contains("package-lock")),
        "non-source file should have been filtered"
    );
}

#[test]
fn finalize_from_db_orders_by_changes_desc() {
    let store = store_with(&[
        make_change("a.rs", "c1", "alice@x", vec![func("once", 1, 1)]),
        make_change("a.rs", "c2", "bob@x", vec![func("often", 1, 1)]),
        make_change("a.rs", "c3", "bob@x", vec![func("often", 1, 1)]),
        make_change("a.rs", "c4", "bob@x", vec![func("often", 1, 1)]),
    ]);

    let mut coll = ConstructChurnCollector::new();
    let r = coll.finalize_from_rows(store);
    assert!(r.entries.first().unwrap().key.ends_with("::often"));
}

#[test]
fn construct_churn_finalize_from_db_emits_expected_value_keys() {
    let store = store_with(&[make_change(
        "a.rs",
        "c1",
        "alice@x",
        vec![func("foo", 1, 10)],
    )]);

    let mut coll = ConstructChurnCollector::new();
    let r = coll.finalize_from_rows(store);
    let entry = r.entries.first().unwrap();
    for key in [
        "kind",
        "file",
        "changes",
        "lines_touched",
        "unique_authors",
        "last_modified",
    ] {
        assert!(
            entry.values.get(key).is_some(),
            "missing value key {key} in construct_churn entry"
        );
    }
}

#[test]
fn only_the_most_changed_constructs_are_looked_at() {
    let rows: Vec<ConstructChanges> = (0..501)
        .map(|i| ConstructChanges {
            file: "a.rs".into(),
            qualified_name: format!("f{i}"),
            kind: "function".into(),
            changes: i,
            lines_touched: 1,
            unique_authors: 1,
            last_ts: DAY,
        })
        .collect();
    let r = ConstructChurnCollector::new().finalize_from_rows(rows);
    assert_eq!(r.entries.len(), 500);
    assert_eq!(r.entries[0].key, "a.rs::f500");
    assert_eq!(r.entries[499].key, "a.rs::f1");
}
