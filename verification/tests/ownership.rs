use repo_analyzer::metrics::ownership::{AuthorLines, OwnershipCollector};
use repo_analyzer::table::TextMap;
use repo_analyzer::tally::compute_bus_factor;
use repo_analyzer::types::{MetricEntry, MetricValue};

fn make_change(file: &str, _oid: &str, email: &str, added: u64) -> AuthorLines {
    AuthorLines { file: file.into(), email: email.into(), added }
}

#[test]
fn ownership_empty_collector_returns_named_result() {
    let mut coll = OwnershipCollector::new();
    let r = coll.finalize();
    assert_eq!(r.name, "ownership");
    assert!(r.entries.is_empty());
}

#[test]
fn bus_factor_zero_total_is_zero() {
    let authors: TextMap<u64> = TextMap::new();
    assert_eq!(compute_bus_factor(&authors, 0), 0);
}

#[test]
fn ownership_bus_factor_single_author_is_one() {
    let mut authors: TextMap<u64> = TextMap::new();
    authors.insert("alice".into(), 100);
    assert_eq!(compute_bus_factor(&authors, 100), 1);
}

#[test]
fn ownership_bus_factor_dominant_author_is_one() {
    // 80% from alice — alone she crosses the 50% mark.
    let mut authors: TextMap<u64> = TextMap::new();
    authors.insert("alice".into(), 80);
    authors.insert("bob".into(), 10);
    authors.insert("carol".into(), 10);
    assert_eq!(compute_bus_factor(&authors, 100), 1);
}

#[test]
fn ownership_bus_factor_two_equal_authors_is_two() {
    let mut authors: TextMap<u64> = TextMap::new();
    authors.insert("alice".into(), 50);
    authors.insert("bob".into(), 50);
    // alice alone is exactly 50%, not strictly > 50%, so we need both.
    assert_eq!(compute_bus_factor(&authors, 100), 2);
}

#[test]
fn bus_factor_three_balanced_authors_is_two() {
    // Top two combined exceed 50%, top alone does not.
    let mut authors: TextMap<u64> = TextMap::new();
    authors.insert("alice".into(), 40);
    authors.insert("bob".into(), 40);
    authors.insert("carol".into(), 20);
    assert_eq!(compute_bus_factor(&authors, 100), 2);
}

#[test]
fn finalize_from_db_picks_top_author_by_lines_added() {
    let store = vec![
        make_change("a.rs", "c1", "alice@x", 100),
        make_change("a.rs", "c2", "bob@x", 10),
    ];

    let mut coll = OwnershipCollector::new();
    let r = coll.finalize_from_rows(&store);
    let entry = r.entries.iter().find(|e| e.key == "a.rs").unwrap();
    match entry.values.get("top_author") {
        Some(MetricValue::Text(s)) => assert_eq!(s, "alice@x"),
        other => panic!("expected Text(alice@x), got {other:?}"),
    }
    match entry.values.get("total_authors") {
        Some(MetricValue::Count(n)) => assert_eq!(*n, 2),
        other => panic!("expected Count(2), got {other:?}"),
    }
    match entry.values.get("total_lines") {
        Some(MetricValue::Count(n)) => assert_eq!(*n, 110),
        other => panic!("expected Count(110), got {other:?}"),
    }
}

#[test]
fn ownership_finalize_from_db_filters_non_source_files() {
    let store = vec![
        make_change("Cargo.lock", "c1", "alice@x", 100),
        make_change("real.rs", "c2", "alice@x", 100),
    ];

    let mut coll = OwnershipCollector::new();
    let r = coll.finalize_from_rows(&store);
    assert!(r.entries.iter().any(|e| e.key == "real.rs"));
    assert!(!r.entries.iter().any(|e| e.key == "Cargo.lock"));
}

#[test]
fn finalize_from_db_sorts_by_bus_factor_asc() {
    let store = vec![
        // a.rs: bus_factor 2 (alice 50, bob 50)
        make_change("a.rs", "c1", "alice@x", 50),
        make_change("a.rs", "c2", "bob@x", 50),
        // b.rs: bus_factor 1 (alice 100)
        make_change("b.rs", "c3", "alice@x", 100),
    ];

    let mut coll = OwnershipCollector::new();
    let r = coll.finalize_from_rows(&store);
    // Highest risk (lowest bus_factor) leads.
    assert_eq!(r.entries[0].key, "b.rs");
    assert_eq!(r.entries[1].key, "a.rs");
}

#[test]
fn finalize_from_db_is_deterministic_for_tied_inputs() {
    // Three files that all tie on bus_factor and total_lines, plus a file
    // with two equal-line authors that ties on top_author. Every ordering
    // and tie-break must resolve identically on each run, so re-running
    // against a fresh store yields byte-identical entry keys and values.
    let build = || {
        let store = vec![
            // Tie on (bus_factor 1, total_lines 100); resolved by key ASC.
            make_change("c.rs", "c1", "zoe@x", 100),
            make_change("a.rs", "c2", "amy@x", 100),
            make_change("b.rs", "c3", "kim@x", 100),
            // Two authors with equal lines: top_author tie-broken by email ASC.
            make_change("d.rs", "c4", "zoe@x", 50),
            make_change("d.rs", "c5", "amy@x", 50),
        ];
        let mut coll = OwnershipCollector::new();
        coll.finalize_from_rows(&store)
    };

    let first = build();
    let keys: Vec<String> = first.entries.iter().map(|e| e.key.clone()).collect();
    // a.rs, b.rs, c.rs share (bus_factor 1, total_lines 100) → key ASC;
    // d.rs has bus_factor 2 so it sorts last.
    assert_eq!(keys, vec!["a.rs", "b.rs", "c.rs", "d.rs"]);

    let d = first.entries.iter().find(|e| e.key == "d.rs").unwrap();
    match d.values.get("top_author") {
        // amy@x < zoe@x, so the email-ascending tie-break selects amy@x.
        Some(MetricValue::Text(s)) => assert_eq!(s, "amy@x"),
        other => panic!("expected Text(amy@x), got {other:?}"),
    }

    // Re-running from an independent store must reproduce the same order.
    for _ in 0..5 {
        let again = build();
        let again_keys: Vec<String> = again.entries.iter().map(|e| e.key.clone()).collect();
        assert_eq!(again_keys, keys);
    }
}

#[test]
fn finalize_from_db_caps_entries_at_500() {
    // Build 600 source files. Files 0..=299 get a single author
    // (bus_factor 1, highest risk); files 300..=599 get two equal-line
    // authors (bus_factor 2). The 500-entry cap must keep the 300
    // bus_factor-1 files plus the 200 lowest-key bus_factor-2 files, and
    // drop the rest — never a bus_factor-1 file.
    let mut changes = Vec::new();
    for i in 0..600 {
        let file = format!("f{i:04}.rs");
        if i < 300 {
            changes.push(make_change(&file, &format!("c{i}a"), "alice@x", 100));
        } else {
            changes.push(make_change(&file, &format!("c{i}a"), "alice@x", 50));
            changes.push(make_change(&file, &format!("c{i}b"), "bob@x", 50));
        }
    }

    let store = changes;
    let mut coll = OwnershipCollector::new();
    let r = coll.finalize_from_rows(&store);

    assert_eq!(r.entries.len(), 500);
    // Every retained bus_factor-1 file must survive the cap.
    for i in 0..300 {
        let key = format!("f{i:04}.rs");
        assert!(
            r.entries.iter().any(|e| e.key == key),
            "expected {key} (bus_factor 1) to be retained"
        );
    }
    // The retained set is exactly the lowest-bus_factor files: no entry may
    // have a higher bus_factor than any dropped one would.
    let bus_of = |e: &MetricEntry| match e.values.get("bus_factor") {
        Some(MetricValue::Count(n)) => *n,
        _ => u64::MAX,
    };
    assert!(r.entries.iter().all(|e| bus_of(e) <= 2));
}
