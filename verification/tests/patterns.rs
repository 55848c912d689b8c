use repo_analyzer::metrics::patterns::{HourOfDay, PatternsCollector};
use repo_analyzer::types::{EntryGroup, MetricResult, MetricValue};

/// A commit in January 2025, which began on a Wednesday; days count from Sunday.
fn make_change_at(_file: &str, oid: &str, _year: i32, _month: u32, day: i64, hour: i64) -> (String, i64, i64) {
    (oid.to_string(), hour, (day + 2) % 7)
}

/// The commits, each once, by hour and day of the week.
fn store_with(changes: &[(String, i64, i64)]) -> Vec<HourOfDay> {
    let mut rows: Vec<HourOfDay> = Vec::new();
    for (i, (oid, hour, dow)) in changes.iter().enumerate() {
        if !changes[..i].iter().any(|(o, _, _)| o == oid) {
            rows.push(HourOfDay { hour: *hour, dow: *dow, commits: 1 });
        }
    }
    rows
}

fn group<'a>(r: &'a MetricResult, name: &str) -> &'a EntryGroup {
    r.entry_groups
        .iter()
        .find(|g| g.name == name)
        .unwrap_or_else(|| panic!("group {name} missing"))
}

fn count_at(group: &EntryGroup, key: &str) -> u64 {
    let entry = group
        .entries
        .iter()
        .find(|e| e.key == key)
        .unwrap_or_else(|| panic!("entry {key} missing in group {}", group.name));
    match entry.values.get("commits") {
        Some(MetricValue::Count(n)) => *n,
        other => panic!("expected commits Count, got {other:?}"),
    }
}

#[test]
fn patterns_empty_collector_returns_named_result() {
    let mut coll = PatternsCollector::new();
    let r = coll.finalize();
    assert_eq!(r.name, "patterns");
    assert!(r.entries.is_empty());
    assert!(r.entry_groups.is_empty());
}

#[test]
fn finalize_from_db_emits_24_hourly_and_7_daily_slots() {
    let store = store_with(&[]);
    let mut coll = PatternsCollector::new();
    let r = coll.finalize_from_rows(&store);
    assert_eq!(group(&r, "hourly").entries.len(), 24);
    assert_eq!(group(&r, "daily").entries.len(), 7);
    // Day order is Mon..Sun, locked down by the writer column layout.
    let names: Vec<_> = group(&r, "daily")
        .entries
        .iter()
        .map(|e| e.key.clone())
        .collect();
    assert_eq!(names, vec!["Mon", "Tue", "Wed", "Thu", "Fri", "Sat", "Sun"]);
}

#[test]
fn finalize_from_db_buckets_hour_correctly() {
    // 2025-01-13 14:00 UTC = Mon at hour 14
    let store = store_with(&[make_change_at("a.rs", "c1", 2025, 1, 13, 14)]);
    let mut coll = PatternsCollector::new();
    let r = coll.finalize_from_rows(&store);
    assert_eq!(count_at(group(&r, "hourly"), "14:00"), 1);
    assert_eq!(count_at(group(&r, "hourly"), "13:00"), 0);
    assert_eq!(count_at(group(&r, "hourly"), "15:00"), 0);
}

#[test]
fn finalize_from_db_remaps_sunday_to_last_slot() {
    // 2025-01-12 is a Sunday — slot should be 6 (Sun), not 0.
    let store = store_with(&[make_change_at("a.rs", "csun", 2025, 1, 12, 10)]);
    let mut coll = PatternsCollector::new();
    let r = coll.finalize_from_rows(&store);
    assert_eq!(count_at(group(&r, "daily"), "Sun"), 1);
    assert_eq!(count_at(group(&r, "daily"), "Mon"), 0);
}

#[test]
fn finalize_from_db_remaps_weekdays_starting_at_monday() {
    // 2025-01-13 is a Monday → slot 0 (Mon).
    // 2025-01-18 is a Saturday → slot 5 (Sat).
    let store = store_with(&[
        make_change_at("a.rs", "cmon", 2025, 1, 13, 9),
        make_change_at("b.rs", "csat", 2025, 1, 18, 9),
    ]);
    let mut coll = PatternsCollector::new();
    let r = coll.finalize_from_rows(&store);
    assert_eq!(count_at(group(&r, "daily"), "Mon"), 1);
    assert_eq!(count_at(group(&r, "daily"), "Sat"), 1);
    assert_eq!(count_at(group(&r, "daily"), "Sun"), 0);
}

#[test]
fn finalize_from_db_dedupes_per_commit_across_files() {
    // Two file rows under the same commit_oid must count once in
    // both hourly and daily totals (the SQL groups by commit_oid first).
    let store = store_with(&[
        make_change_at("a.rs", "c1", 2025, 1, 13, 9),
        make_change_at("b.rs", "c1", 2025, 1, 13, 9),
    ]);
    let mut coll = PatternsCollector::new();
    let r = coll.finalize_from_rows(&store);
    assert_eq!(count_at(group(&r, "hourly"), "09:00"), 1);
    assert_eq!(count_at(group(&r, "daily"), "Mon"), 1);
}

#[test]
fn finalize_from_db_carries_order_value() {
    let store = store_with(&[]);
    let mut coll = PatternsCollector::new();
    let r = coll.finalize_from_rows(&store);
    // Hourly: order = 0..23 (used by writers to keep the table sorted by hour).
    let hourly = group(&r, "hourly");
    for (i, entry) in hourly.entries.iter().enumerate() {
        match entry.values.get("order") {
            Some(MetricValue::Count(n)) => assert_eq!(*n, i as u64),
            other => panic!("expected hourly order Count({i}), got {other:?}"),
        }
    }
    // Daily: order = 1..7 so ascending sort matches Mon..Sun.
    let daily = group(&r, "daily");
    for (i, entry) in daily.entries.iter().enumerate() {
        match entry.values.get("order") {
            Some(MetricValue::Count(n)) => assert_eq!(*n, (i + 1) as u64),
            other => panic!("expected daily order Count({}), got {other:?}", i + 1),
        }
    }
}
