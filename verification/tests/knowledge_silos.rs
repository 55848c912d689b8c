use repo_analyzer::calendar::date_text;
use repo_analyzer::messages;
use repo_analyzer::metrics::knowledge_silos::{risk_rank, KnowledgeSilosCollector, SiloRow, IDLE_DAYS};
use repo_analyzer::types::{ts_to_date, LocalizedMessage, MetricEntry, MetricValue, Severity, Values};

const NOW: i64 = 1_750_000_000;

fn make_change_at(file: &str, _oid: &str, email: &str, added: u64, ts: i64) -> SiloRow {
    SiloRow { file: file.into(), email: email.into(), added, last_ts: ts }
}

fn recent() -> i64 {
    NOW - 86400
}

fn ancient() -> i64 {
    NOW - (IDLE_DAYS as i64 + 30) * 86400
}

#[test]
fn knowledge_silos_empty_collector_returns_named_result() {
    let mut coll = KnowledgeSilosCollector::new();
    let r = coll.finalize();
    assert_eq!(r.name, "knowledge_silos");
    assert!(r.entries.is_empty());
}

#[test]
fn risk_rank_orders_at_risk_above_single_owner() {
    let make = |code: &str| {
        let mut values = Values::new();
        values.insert(
            "risk",
            MetricValue::Message(LocalizedMessage::code(code)),
        );
        MetricEntry {
            key: "k".into(),
            values,
        }
    };
    let at_risk = make(messages::KNOWLEDGE_SILO_RISK_AT_RISK);
    let single = make(messages::KNOWLEDGE_SILO_RISK_SINGLE_OWNER);
    let other = MetricEntry {
        key: "k".into(),
        values: Values::new(),
    };
    assert_eq!(risk_rank(&at_risk), 2);
    assert_eq!(risk_rank(&single), 1);
    assert_eq!(risk_rank(&other), 0);
}

#[test]
fn knowledge_silos_ts_to_date_known_value() {
    // 2024-06-15 00:00:00 UTC = 1718409600
    assert_eq!(
        date_text(ts_to_date(1_718_409_600)),
        "2024-06-15"
    );
}

#[test]
fn finalize_from_db_drops_non_silo_files() {
    // Two authors at 50/50 — ownership_pct = 50, below SILO_PCT (80).
    let store = vec![
        make_change_at("a.rs", "c1", "alice@x", 50, recent()),
        make_change_at("a.rs", "c2", "bob@x", 50, recent()),
    ];

    let mut coll = KnowledgeSilosCollector::new();
    let r = coll.finalize_from_rows(store, NOW);
    assert!(
        r.entries.is_empty(),
        "files below SILO_PCT must not appear: {:?}",
        r.entries
    );
}

#[test]
fn finalize_from_db_flags_single_owner_silo_when_active() {
    // alice owns 100 of 100 added lines, recently — single_owner risk.
    let store = vec![make_change_at("a.rs", "c1", "alice@x", 100, recent())];

    let mut coll = KnowledgeSilosCollector::new();
    let r = coll.finalize_from_rows(store, NOW);
    let entry = r.entries.iter().find(|e| e.key == "a.rs").unwrap();
    match entry.values.get("risk") {
        Some(MetricValue::Message(m)) => {
            assert_eq!(m.code, messages::KNOWLEDGE_SILO_RISK_SINGLE_OWNER);
            assert_eq!(m.severity, Some(Severity::Warning));
        }
        other => panic!("expected risk Message, got {other:?}"),
    }
    match entry.values.get("ownership_pct") {
        Some(MetricValue::Count(n)) => assert_eq!(*n, 100),
        other => panic!("expected Count(100), got {other:?}"),
    }
}

#[test]
fn finalize_from_db_flags_at_risk_when_owner_idle() {
    // alice owns everything but her last touch is well past IDLE_DAYS.
    let store = vec![make_change_at("a.rs", "c1", "alice@x", 100, ancient())];

    let mut coll = KnowledgeSilosCollector::new();
    let r = coll.finalize_from_rows(store, NOW);
    let entry = r.entries.iter().find(|e| e.key == "a.rs").unwrap();
    match entry.values.get("risk") {
        Some(MetricValue::Message(m)) => {
            assert_eq!(m.code, messages::KNOWLEDGE_SILO_RISK_AT_RISK);
            assert_eq!(m.severity, Some(Severity::Error));
        }
        other => panic!("expected at-risk Message, got {other:?}"),
    }
    match entry.values.get("owner_idle_days") {
        Some(MetricValue::Count(n)) => {
            assert!(*n >= IDLE_DAYS, "expected idle >= IDLE_DAYS");
        }
        other => panic!("expected Count, got {other:?}"),
    }
}

#[test]
fn knowledge_silos_finalize_from_db_filters_non_source_files() {
    let store = vec![
        make_change_at("Cargo.lock", "c1", "alice@x", 100, recent()),
        make_change_at("real.rs", "c2", "alice@x", 100, recent()),
    ];

    let mut coll = KnowledgeSilosCollector::new();
    let r = coll.finalize_from_rows(store, NOW);
    assert!(r.entries.iter().any(|e| e.key == "real.rs"));
    assert!(!r.entries.iter().any(|e| e.key == "Cargo.lock"));
}

#[test]
fn finalize_from_db_orders_at_risk_before_single_owner() {
    let store = vec![
        // single_owner — alice still active
        make_change_at("active.rs", "c1", "alice@x", 100, recent()),
        // at_risk — alice idle
        make_change_at("idle.rs", "c2", "bob@x", 100, ancient()),
    ];

    let mut coll = KnowledgeSilosCollector::new();
    let r = coll.finalize_from_rows(store, NOW);
    // at-risk row should come first (rank 2 > rank 1)
    assert_eq!(r.entries[0].key, "idle.rs");
    assert_eq!(r.entries[1].key, "active.rs");
}
