use repo_analyzer::messages;
use repo_analyzer::metrics::succession::{
    classify, status_rank, LastSeen, SuccessionCollector, SuccessionRow, INACTIVE_DAYS,
};
use repo_analyzer::types::{LocalizedMessage, MetricEntry, MetricResult, MetricValue, Severity, Values};

const NOW: i64 = 1_750_000_000;

fn make_change_at(file: &str, _oid: &str, email: &str, ts: i64) -> (String, String, i64) {
    (file.to_string(), email.to_string(), ts)
}

/// The commits, counted per file and author, and when each author was last seen.
fn store_with(changes: &[(String, String, i64)]) -> (Vec<SuccessionRow>, Vec<LastSeen>) {
    let mut rows: Vec<SuccessionRow> = Vec::new();
    let mut seen: Vec<LastSeen> = Vec::new();
    for (file, email, ts) in changes {
        match rows.iter_mut().find(|r| r.file == *file && r.email == *email) {
            Some(r) => {
                r.commits += 1;
                r.first_ts = r.first_ts.min(*ts);
                r.last_ts = r.last_ts.max(*ts);
            }
            None => rows.push(SuccessionRow {
                file: file.clone(),
                email: email.clone(),
                commits: 1,
                first_ts: *ts,
                last_ts: *ts,
            }),
        }
        match seen.iter_mut().find(|s| s.email == *email) {
            Some(s) => s.last_ts = s.last_ts.max(*ts),
            None => seen.push(LastSeen { email: email.clone(), last_ts: *ts }),
        }
    }
    (rows, seen)
}

fn recent() -> i64 {
    NOW - 86400
}

fn ancient() -> i64 {
    NOW - (INACTIVE_DAYS + 30) * 86400
}

fn entry_for<'a>(r: &'a MetricResult, key: &str) -> &'a MetricEntry {
    r.entries
        .iter()
        .find(|e| e.key == key)
        .unwrap_or_else(|| panic!("missing entry {key}"))
}

fn status_code(e: &MetricEntry) -> String {
    match e.values.get("status") {
        Some(MetricValue::Message(m)) => m.code.clone(),
        other => panic!("expected status Message, got {other:?}"),
    }
}

#[test]
fn succession_empty_collector_returns_named_result() {
    let mut coll = SuccessionCollector::new();
    let r = coll.finalize();
    assert_eq!(r.name, "succession");
    assert!(r.entries.is_empty());
}

#[test]
fn classify_owned_when_original_active_and_few_authors() {
    let m = classify(true, 0, 1);
    assert_eq!(m.code, messages::SUCCESSION_STATUS_OWNED);
}

#[test]
fn classify_healthy_when_original_active_and_three_or_more_authors() {
    let m = classify(true, 2, 3);
    assert_eq!(m.code, messages::SUCCESSION_STATUS_HEALTHY);
}

#[test]
fn classify_orphaned_when_original_gone_and_no_successors() {
    let m = classify(false, 0, 1);
    assert_eq!(m.code, messages::SUCCESSION_STATUS_ORPHANED);
    assert_eq!(m.severity, Some(Severity::Error));
}

#[test]
fn classify_knowledge_transfer_when_original_gone_and_one_successor() {
    let m = classify(false, 1, 2);
    assert_eq!(
        m.code,
        messages::SUCCESSION_STATUS_KNOWLEDGE_TRANSFER_NEEDED
    );
    assert_eq!(m.severity, Some(Severity::Warning));
}

#[test]
fn classify_handed_off_when_original_gone_and_multiple_successors() {
    let m = classify(false, 3, 4);
    assert_eq!(m.code, messages::SUCCESSION_STATUS_HANDED_OFF);
}

#[test]
fn status_rank_orders_orphaned_above_handed_off_above_owned() {
    let make = |code: &str| {
        let mut values = Values::new();
        values.insert(
            "status",
            MetricValue::Message(LocalizedMessage::code(code)),
        );
        MetricEntry {
            key: "k".into(),
            values,
        }
    };
    let orphaned = make(messages::SUCCESSION_STATUS_ORPHANED);
    let knowledge = make(messages::SUCCESSION_STATUS_KNOWLEDGE_TRANSFER_NEEDED);
    let handed_off = make(messages::SUCCESSION_STATUS_HANDED_OFF);
    let owned = make(messages::SUCCESSION_STATUS_OWNED);
    let healthy = make(messages::SUCCESSION_STATUS_HEALTHY);
    assert_eq!(status_rank(&orphaned), 4);
    assert_eq!(status_rank(&knowledge), 3);
    assert_eq!(status_rank(&handed_off), 2);
    assert_eq!(status_rank(&owned), 1);
    assert_eq!(status_rank(&healthy), 0);
}

#[test]
fn finalize_from_db_emits_owned_for_active_single_author() {
    let store = store_with(&[
        make_change_at("a.rs", "c1", "alice@x", recent()),
        make_change_at("a.rs", "c2", "alice@x", recent()),
    ]);
    let mut coll = SuccessionCollector::new();
    let r = coll.finalize_from_rows(store.0, &store.1, NOW);
    assert_eq!(
        status_code(entry_for(&r, "a.rs")),
        messages::SUCCESSION_STATUS_OWNED
    );
}

#[test]
fn finalize_from_db_emits_orphaned_when_only_author_long_gone() {
    let store = store_with(&[make_change_at("a.rs", "c1", "alice@x", ancient())]);
    let mut coll = SuccessionCollector::new();
    let r = coll.finalize_from_rows(store.0, &store.1, NOW);
    assert_eq!(
        status_code(entry_for(&r, "a.rs")),
        messages::SUCCESSION_STATUS_ORPHANED
    );
}

#[test]
fn succession_finalize_from_db_filters_non_source_files() {
    let store = store_with(&[
        make_change_at("Cargo.lock", "c1", "alice@x", recent()),
        make_change_at("real.rs", "c2", "alice@x", recent()),
    ]);
    let mut coll = SuccessionCollector::new();
    let r = coll.finalize_from_rows(store.0, &store.1, NOW);
    assert!(r.entries.iter().any(|e| e.key == "real.rs"));
    assert!(!r.entries.iter().any(|e| e.key == "Cargo.lock"));
}

#[test]
fn finalize_from_db_orders_by_status_rank_desc() {
    // orphaned > handed_off > owned, so the orphaned file leads.
    let store = store_with(&[
        make_change_at("orphan.rs", "c1", "ghost@x", ancient()),
        make_change_at("active.rs", "c2", "alice@x", recent()),
    ]);
    let mut coll = SuccessionCollector::new();
    let r = coll.finalize_from_rows(store.0, &store.1, NOW);
    assert_eq!(r.entries[0].key, "orphan.rs");
}

#[test]
fn finalize_from_db_picks_earliest_author_as_original() {
    let very_old = NOW - 2 * 86400;
    let newer = recent();
    // alice was first; bob came later.
    let store = store_with(&[
        make_change_at("a.rs", "c2", "bob@x", newer),
        make_change_at("a.rs", "c1", "alice@x", very_old),
    ]);
    let mut coll = SuccessionCollector::new();
    let r = coll.finalize_from_rows(store.0, &store.1, NOW);
    let entry = entry_for(&r, "a.rs");
    match entry.values.get("original_author") {
        Some(MetricValue::Text(s)) => assert_eq!(s, "alice@x"),
        other => panic!("expected Text(alice@x), got {other:?}"),
    }
}
