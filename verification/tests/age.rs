use repo_analyzer::calendar::date_text;
use repo_analyzer::git::diff::FileStatus;
use repo_analyzer::metrics::age::{AgeCollector, FileSpan};
use repo_analyzer::types::{ts_to_date, MetricValue};

const NOW: i64 = 1_750_000_000;

/// New Year's midnight of a year from 2020 on.
fn new_year(year: i64) -> i64 {
    1_577_836_800 + (year - 2020) * 365 * 86400 + if year > 2020 { 86400 } else { 0 }
}

fn make_change_at(file: &str, _oid: &str, status: FileStatus, ts_year: i64) -> FileSpan {
    let ts = new_year(ts_year);
    FileSpan { file: file.into(), first_ts: ts, last_ts: ts, change_count: 1, ever_deleted: status == FileStatus::Deleted }
}

/// The changes, put together per file.
fn store_with(changes: &[FileSpan]) -> Vec<FileSpan> {
    let mut rows: Vec<FileSpan> = Vec::new();
    for c in changes {
        match rows.iter_mut().find(|r| r.file == c.file) {
            Some(r) => {
                r.first_ts = r.first_ts.min(c.first_ts);
                r.last_ts = r.last_ts.max(c.last_ts);
                r.change_count += c.change_count;
                r.ever_deleted = r.ever_deleted || c.ever_deleted;
            }
            None => rows.push(FileSpan {
                file: c.file.clone(),
                first_ts: c.first_ts,
                last_ts: c.last_ts,
                change_count: c.change_count,
                ever_deleted: c.ever_deleted,
            }),
        }
    }
    rows
}

#[test]
fn empty_collector_finalize_returns_named_result() {
    let mut coll = AgeCollector::new();
    let result = coll.finalize();
    assert_eq!(result.name, "age");
    assert!(result.entries.is_empty());
}

#[test]
fn ts_to_date_handles_negative_timestamp_safely() {
    // Should not panic on out-of-range timestamps; uses default (epoch).
    let date = ts_to_date(i64::MIN);
    // The fallback returns NaiveDate::default() — assert it produced something.
    let _ = date_text(date);
}

#[test]
fn age_ts_to_date_known_value() {
    // 2024-06-15 00:00:00 UTC = 1718409600
    let date = ts_to_date(1_718_409_600);
    assert_eq!(date_text(date), "2024-06-15");
}

#[test]
fn finalize_from_db_skips_deleted_files() {
    let store = store_with(&[
        make_change_at("alive.rs", "c1", FileStatus::Added, 2020),
        make_change_at("alive.rs", "c2", FileStatus::Modified, 2021),
        make_change_at("gone.rs", "c3", FileStatus::Added, 2020),
        make_change_at("gone.rs", "c4", FileStatus::Deleted, 2021),
    ]);

    let mut coll = AgeCollector::new();
    let result = coll.finalize_from_rows(store, NOW);
    assert!(result.entries.iter().any(|e| e.key == "alive.rs"));
    assert!(
        !result.entries.iter().any(|e| e.key == "gone.rs"),
        "deleted files must not appear in the age report"
    );
}

#[test]
fn finalize_from_db_sorts_by_changes_per_year_desc() {
    // hot.rs has 3 changes in the same year window; cold.rs has 1.
    // Both share the same first_seen so changes_per_year orders them.
    let store = store_with(&[
        make_change_at("cold.rs", "c1", FileStatus::Added, 2020),
        make_change_at("hot.rs", "c2", FileStatus::Added, 2020),
        make_change_at("hot.rs", "c3", FileStatus::Modified, 2020),
        make_change_at("hot.rs", "c4", FileStatus::Modified, 2021),
    ]);

    let mut coll = AgeCollector::new();
    let result = coll.finalize_from_rows(store, NOW);
    assert!(result.entries.len() >= 2, "expected at least two entries");
    assert_eq!(result.entries[0].key, "hot.rs");
    assert_eq!(result.entries[1].key, "cold.rs");
}

#[test]
fn age_finalize_from_db_emits_expected_value_keys() {
    let store = store_with(&[make_change_at("a.rs", "c1", FileStatus::Added, 2020)]);

    let mut coll = AgeCollector::new();
    let result = coll.finalize_from_rows(store, NOW);
    let entry = result.entries.iter().find(|e| e.key == "a.rs").unwrap();
    for key in [
        "age_days",
        "first_seen",
        "last_modified",
        "days_since_last_change",
        "change_count",
        "changes_per_year",
    ] {
        assert!(
            entry.values.get(key).is_some(),
            "missing value key {key} in age entry"
        );
    }
    match entry.values.get("change_count") {
        Some(MetricValue::Count(n)) => assert_eq!(*n, 1),
        other => panic!("Expected Count(1), got {other:?}"),
    }
}

#[test]
fn rates_that_differ_in_their_last_digit_are_ranked() {
    let day = 86_400;
    let now = 1_000 * day;
    let row = |file: &str, days: i64, change_count: u64| FileSpan {
        file: file.into(),
        first_ts: now - days * day,
        last_ts: now,
        change_count,
        ever_deleted: false,
    };
    assert!(7.0 / (7.0 / 365.25) > 1.0 / (1.0 / 365.25));
    let rows = vec![row("day.rs", 1, 1), row("week.rs", 7, 7)];
    let r = AgeCollector::new().finalize_from_rows(rows, now);
    let keys: Vec<&str> = r.entries.iter().map(|e| e.key.as_str()).collect();
    assert_eq!(keys, vec!["week.rs", "day.rs"]);
}
