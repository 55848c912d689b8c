use repo_analyzer::metrics::construct_ownership::{
    compute_bus_factor, ConstructOwnershipCollector, ConstructTouches,
};
use repo_analyzer::table::TextMap;
use repo_analyzer::types::MetricValue;

/// One touch of a function by an author.
fn make_change(file: &str, _oid: &str, email: &str, constructs: Vec<(String, u32, u32)>) -> Vec<(String, String, String)> {
    constructs.into_iter().map(|(name, _, _)| (file.to_string(), name, email.to_string())).collect()
}

fn func(name: &str, start: u32, end: u32) -> (String, u32, u32) {
    (name.to_string(), start, end)
}

/// The touches, counted per construct and author.
fn store_with(changes: &[Vec<(String, String, String)>]) -> Vec<ConstructTouches> {
    let mut rows: Vec<ConstructTouches> = Vec::new();
    for (file, name, email) in changes.iter().flatten() {
        match rows.iter_mut().find(|r| r.file == *file && r.qualified_name == *name && r.email == *email) {
            Some(r) => r.touches += 1,
            None => rows.push(ConstructTouches {
                file: file.clone(),
                qualified_name: name.clone(),
                kind: "function".to_string(),
                email: email.clone(),
                touches: 1,
            }),
        }
    }
    rows
}

#[test]
fn construct_ownership_empty_collector_returns_named_result() {
    let mut coll = ConstructOwnershipCollector::new();
    let r = coll.finalize();
    assert_eq!(r.name, "construct_ownership");
    assert!(r.entries.is_empty());
}

#[test]
fn construct_ownership_bus_factor_single_author_is_one() {
    let mut authors: TextMap<u64> = TextMap::new();
    authors.insert("alice".into(), 100);
    assert_eq!(compute_bus_factor(&authors, 100), 1);
}

#[test]
fn construct_ownership_bus_factor_two_equal_authors_is_two() {
    // Need two authors for either to cross the half mark.
    let mut authors: TextMap<u64> = TextMap::new();
    authors.insert("alice".into(), 50);
    authors.insert("bob".into(), 50);
    assert_eq!(compute_bus_factor(&authors, 100), 2);
}

#[test]
fn construct_ownership_bus_factor_dominant_author_is_one() {
    // Top contributor alone exceeds half — single point of failure.
    let mut authors: TextMap<u64> = TextMap::new();
    authors.insert("alice".into(), 80);
    authors.insert("bob".into(), 10);
    authors.insert("carol".into(), 10);
    assert_eq!(compute_bus_factor(&authors, 100), 1);
}

#[test]
fn bus_factor_zero_total_returns_zero() {
    let authors: TextMap<u64> = TextMap::new();
    assert_eq!(compute_bus_factor(&authors, 0), 0);
}

#[test]
fn finalize_from_db_attributes_top_author_per_construct() {
    let store = store_with(&[
        // alice owns "foo" with 3 changes vs bob's 1
        make_change("a.rs", "c1", "alice@x", vec![func("foo", 1, 5)]),
        make_change("a.rs", "c2", "alice@x", vec![func("foo", 1, 5)]),
        make_change("a.rs", "c3", "alice@x", vec![func("foo", 1, 5)]),
        make_change("a.rs", "c4", "bob@x", vec![func("foo", 1, 5)]),
    ]);

    let mut coll = ConstructOwnershipCollector::new();
    let r = coll.finalize_from_rows(store);
    assert!(!r.entries.is_empty());
    let entry = r
        .entries
        .iter()
        .find(|e| e.key.ends_with("::foo"))
        .expect("foo entry");
    match entry.values.get("top_author") {
        Some(MetricValue::Text(s)) => assert_eq!(s, "alice@x"),
        other => panic!("expected Text(alice@x), got {other:?}"),
    }
    match entry.values.get("total_authors") {
        Some(MetricValue::Count(n)) => assert_eq!(*n, 2),
        other => panic!("expected Count(2), got {other:?}"),
    }
    // bus_factor is 1 because alice dominates 3 of 4 lines touched.
    match entry.values.get("bus_factor") {
        Some(MetricValue::Count(n)) => assert_eq!(*n, 1),
        other => panic!("expected Count(1), got {other:?}"),
    }
    match entry.values.get("top_pct") {
        Some(MetricValue::Count(pct)) => assert!((50..=100).contains(pct)),
        other => panic!("expected Count, got {other:?}"),
    }
}

#[test]
fn construct_ownership_finalize_from_db_filters_non_source_files() {
    let store = store_with(&[
        make_change("Cargo.lock", "c1", "alice@x", vec![func("x", 1, 1)]),
        make_change("real.rs", "c2", "alice@x", vec![func("y", 1, 1)]),
    ]);

    let mut coll = ConstructOwnershipCollector::new();
    let r = coll.finalize_from_rows(store);
    assert!(r.entries.iter().any(|e| e.key.starts_with("real.rs")));
    assert!(!r.entries.iter().any(|e| e.key.contains("Cargo.lock")));
}

#[test]
fn construct_ownership_finalize_from_db_emits_expected_value_keys() {
    let store = store_with(&[make_change(
        "a.rs",
        "c1",
        "alice@x",
        vec![func("foo", 1, 10)],
    )]);

    let mut coll = ConstructOwnershipCollector::new();
    let r = coll.finalize_from_rows(store);
    let entry = r.entries.first().unwrap();
    for key in [
        "kind",
        "file",
        "top_author",
        "top_pct",
        "total_authors",
        "bus_factor",
        "touches",
    ] {
        assert!(
            entry.values.get(key).is_some(),
            "missing value key {key} in construct_ownership entry"
        );
    }
}

#[test]
fn finalize_from_db_sorts_by_bus_factor_then_touches() {
    let store = store_with(&[
        // single-owner construct (bus_factor 1, fewer touches)
        make_change("a.rs", "c1", "alice@x", vec![func("solo", 1, 5)]),
        // two-author construct (bus_factor 2, more touches)
        make_change("b.rs", "c2", "alice@x", vec![func("shared", 1, 5)]),
        make_change("b.rs", "c3", "bob@x", vec![func("shared", 1, 5)]),
        make_change("b.rs", "c4", "alice@x", vec![func("shared", 1, 5)]),
        make_change("b.rs", "c5", "bob@x", vec![func("shared", 1, 5)]),
    ]);

    let mut coll = ConstructOwnershipCollector::new();
    let r = coll.finalize_from_rows(store);
    // Rows are sorted bus_factor ASC, then touches DESC; lowest bus
    // factor (highest risk) leads the report.
    assert!(r.entries.first().unwrap().key.ends_with("::solo"));
}


#[test]
fn fewest_authors_that_hold_half() {
    let mut authors: TextMap<u64> = TextMap::new();
    for (name, n) in [("a", 4), ("b", 3), ("c", 2), ("d", 1)] {
        authors.insert(name.to_string(), n);
    }
    assert_eq!(compute_bus_factor(&authors, 10), 2);
}

#[test]
fn only_the_most_touched_constructs_are_looked_at() {
    let rows: Vec<ConstructTouches> = (0..501)
        .map(|i| ConstructTouches {
            file: "a.rs".into(),
            qualified_name: format!("f{i}"),
            kind: "function".into(),
            email: "alice@x".into(),
            touches: i + 1,
        })
        .collect();
    let r = ConstructOwnershipCollector::new().finalize_from_rows(rows);
    assert!(r.entries.iter().any(|e| e.key == "a.rs::f1"));
    assert!(r.entries.iter().all(|e| e.key != "a.rs::f0"));
}

#[test]
fn constructs_are_told_apart_by_three_fields() {
    let row = |name: &str, kind: &str, touches: u64| ConstructTouches {
        file: "a.rs".into(),
        qualified_name: name.into(),
        kind: kind.into(),
        email: "alice@x".into(),
        touches,
    };
    // Five hundred constructs, and two that only differ in where a zero stands.
    let mut rows: Vec<ConstructTouches> = (0..499).map(|i| row(&format!("f{i}"), "function", 10)).collect();
    rows.push(row("x\0y", "z", 6));
    rows.push(row("x", "y\0z", 5));
    let r = ConstructOwnershipCollector::new().finalize_from_rows(rows);
    assert!(r.entries.iter().all(|e| e.key != "a.rs::x"));
}
