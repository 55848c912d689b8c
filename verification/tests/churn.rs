use repo_analyzer::metrics::churn::{ChurnCollector, FileChanges};
use repo_analyzer::types::MetricValue;

fn make_change(file: &str, _oid: &str, added: u64, deleted: u64) -> FileChanges {
    FileChanges { file: file.into(), added, deleted, change_count: 1 }
}

/// The changes, put together per file.
fn store_with(changes: &[FileChanges]) -> Vec<FileChanges> {
    let mut rows: Vec<FileChanges> = Vec::new();
    for c in changes {
        match rows.iter_mut().find(|r| r.file == c.file) {
            Some(r) => {
                r.added += c.added;
                r.deleted += c.deleted;
                r.change_count += 1;
            }
            None => rows.push(FileChanges {
                file: c.file.clone(),
                added: c.added,
                deleted: c.deleted,
                change_count: 1,
            }),
        }
    }
    rows
}

#[test]
fn test_churn_accumulation() {
    let store = store_with(&[
        make_change("a.rs", "c1", 10, 3),
        make_change("a.rs", "c2", 5, 2),
    ]);

    let mut collector = ChurnCollector::new();
    let result = collector.finalize_from_rows(store);
    let entry = result.entries.iter().find(|e| e.key == "a.rs").unwrap();

    match entry.values.get("lines_added") {
        Some(MetricValue::Count(n)) => assert_eq!(*n, 15),
        other => panic!("Expected Count(15), got {other:?}"),
    }
    match entry.values.get("lines_deleted") {
        Some(MetricValue::Count(n)) => assert_eq!(*n, 5),
        other => panic!("Expected Count(5), got {other:?}"),
    }
    match entry.values.get("total_churn") {
        Some(MetricValue::Count(n)) => assert_eq!(*n, 20),
        other => panic!("Expected Count(20), got {other:?}"),
    }
    match entry.values.get("change_count") {
        Some(MetricValue::Count(n)) => assert_eq!(*n, 2),
        other => panic!("Expected Count(2), got {other:?}"),
    }
}

#[test]
fn test_sorted_by_total_churn() {
    let store = store_with(&[
        make_change("small.rs", "c1", 2, 1),
        make_change("big.rs", "c2", 100, 50),
    ]);

    let mut collector = ChurnCollector::new();
    let result = collector.finalize_from_rows(store);
    assert_eq!(result.entries[0].key, "big.rs");
    assert_eq!(result.entries[1].key, "small.rs");
}

#[test]
fn the_most_churned_come_first() {
    let rows = vec![
        make_change("a.rs", "c1", 1, 1),
        make_change("b.rs", "c2", 0, 9),
        make_change("c.rs", "c3", 5, 0),
    ];
    let r = ChurnCollector::new().finalize_from_rows(rows);
    let keys: Vec<&str> = r.entries.iter().map(|e| e.key.as_str()).collect();
    assert_eq!(keys, vec!["b.rs", "c.rs", "a.rs"]);
}
