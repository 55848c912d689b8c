use repo_analyzer::messages;
use repo_analyzer::metrics::hotspots::{ConstructActivity, FileActivity, HotspotsCollector};
use repo_analyzer::types::{MetricResult, MetricValue};

fn make_change(file: &str, _oid: &str, email: &str, constructs: Vec<String>) -> (String, String, Vec<String>) {
    (file.to_string(), email.to_string(), constructs)
}

/// The changes, put together per file and per construct.
fn store_with(changes: &[(String, String, Vec<String>)]) -> (Vec<FileActivity>, Vec<ConstructActivity>) {
    let mut files: Vec<FileActivity> = Vec::new();
    let mut constructs: Vec<ConstructActivity> = Vec::new();
    for (i, (file, email, names)) in changes.iter().enumerate() {
        if !files.iter().any(|f| f.file == *file) {
            files.push(FileActivity { file: file.clone(), changes: 0, authors: 0 });
        }
        let fresh = !changes[..i].iter().any(|(f, e, _)| f == file && e == email);
        for f in files.iter_mut().filter(|f| f.file == *file) {
            f.changes += 1;
            f.authors += fresh as u64;
        }
        for name in names {
            if !constructs.iter().any(|c| c.file == *file && c.qualified_name == *name) {
                constructs.push(ConstructActivity {
                    file: file.clone(),
                    qualified_name: name.clone(),
                    kind: "function".to_string(),
                    changes: 0,
                    authors: 0,
                });
            }
            let fresh = !changes[..i].iter().any(|(f, e, n)| f == file && e == email && n.contains(name));
            for c in constructs.iter_mut().filter(|c| c.file == *file && c.qualified_name == *name) {
                c.changes += 1;
                c.authors += fresh as u64;
            }
        }
    }
    (files, constructs)
}

fn report(coll: &mut HotspotsCollector, store: (Vec<FileActivity>, Vec<ConstructActivity>)) -> MetricResult {
    coll.finalize_from_rows(store.0, store.1)
}

#[test]
fn hotspots_empty_collector_returns_named_result() {
    let mut coll = HotspotsCollector::new();
    let r = coll.finalize();
    assert_eq!(r.name, "hotspots");
    assert!(r.entries.is_empty());
}

#[test]
fn finalize_from_db_emits_file_level_rows_with_score() {
    // 3 changes by 2 distinct authors → score = 3 * 2 = 6.
    let store = store_with(&[
        make_change("a.rs", "c1", "alice@x", vec![]),
        make_change("a.rs", "c2", "bob@x", vec![]),
        make_change("a.rs", "c3", "alice@x", vec![]),
    ]);

    let mut coll = HotspotsCollector::new();
    let r = report(&mut coll, store);
    let entry = r.entries.iter().find(|e| e.key == "a.rs").unwrap();
    match entry.values.get("changes") {
        Some(MetricValue::Count(n)) => assert_eq!(*n, 3),
        other => panic!("expected Count(3), got {other:?}"),
    }
    match entry.values.get("unique_authors") {
        Some(MetricValue::Count(n)) => assert_eq!(*n, 2),
        other => panic!("expected Count(2), got {other:?}"),
    }
    match entry.values.get("score") {
        Some(MetricValue::Count(n)) => assert_eq!(*n, 6),
        other => panic!("expected Count(6), got {other:?}"),
    }
    match entry.values.get("level") {
        Some(MetricValue::Message(m)) => assert_eq!(m.code, messages::HOTSPOT_LEVEL_FILE),
        other => panic!("expected file-level Message, got {other:?}"),
    }
}

#[test]
fn finalize_from_db_emits_construct_level_rows() {
    let func = |name: &str, _s: u32, _e: u32| name.to_string();
    let store = store_with(&[
        make_change("a.rs", "c1", "alice@x", vec![func("foo", 1, 10)]),
        make_change("a.rs", "c2", "bob@x", vec![func("foo", 1, 12)]),
    ]);

    let mut coll = HotspotsCollector::new();
    let r = report(&mut coll, store);

    let construct = r
        .entries
        .iter()
        .find(|e| e.key.ends_with("::foo"))
        .expect("construct-level hotspot row missing");
    match construct.values.get("level") {
        Some(MetricValue::Message(m)) => assert_eq!(m.code, messages::HOTSPOT_LEVEL_CONSTRUCT),
        other => panic!("expected construct-level Message, got {other:?}"),
    }
    // Construct-level rows always carry kind + file even though file
    // already lives in the key — keeps writers schema-stable.
    assert!(construct.values.get("kind").is_some());
    assert!(construct.values.get("file").is_some());
}

#[test]
fn finalize_from_db_filters_non_source_files_at_file_level() {
    // package-lock.json is dropped at the file level; construct-level
    // rows for it would never exist (no parser touches it).
    let store = store_with(&[
        make_change("package-lock.json", "c1", "alice@x", vec![]),
        make_change("real.rs", "c2", "alice@x", vec![]),
    ]);

    let mut coll = HotspotsCollector::new();
    let r = report(&mut coll, store);
    assert!(r.entries.iter().any(|e| e.key == "real.rs"));
    assert!(!r.entries.iter().any(|e| e.key == "package-lock.json"));
}

#[test]
fn finalize_from_db_sorts_by_score_desc() {
    let store = store_with(&[
        // big.rs: 4 changes × 2 authors = 8
        make_change("big.rs", "c1", "alice@x", vec![]),
        make_change("big.rs", "c2", "bob@x", vec![]),
        make_change("big.rs", "c3", "alice@x", vec![]),
        make_change("big.rs", "c4", "bob@x", vec![]),
        // small.rs: 1 change × 1 author = 1
        make_change("small.rs", "c5", "alice@x", vec![]),
    ]);

    let mut coll = HotspotsCollector::new();
    let r = report(&mut coll, store);
    assert_eq!(r.entries[0].key, "big.rs");
}

#[test]
fn constructs_of_generated_files_are_no_hotspots() {
    let store = store_with(&[make_change("dist/bundle.js", "c1", "alice@x", vec!["f".to_string()])]);
    assert_eq!(store.1.len(), 1);
    let mut coll = HotspotsCollector::new();
    assert!(report(&mut coll, store).entries.is_empty());

    let store = store_with(&[
        make_change("dist/bundle.js", "c1", "alice@x", vec!["f".to_string()]),
        make_change("src/a.js", "c1", "alice@x", vec!["g".to_string()]),
    ]);
    let keys: Vec<String> = report(&mut coll, store).entries.into_iter().map(|e| e.key).collect();
    assert_eq!(keys.len(), 2);
    assert!(keys.iter().all(|k| k.starts_with("src/a.js")));
}
