use repo_analyzer::metrics::commit_velocity::{CommitVelocityCollector, Period};

#[test]
fn commit_velocity_empty_collector_produces_named_result() {
    let mut coll = CommitVelocityCollector::new();
    let result = coll.finalize();
    assert_eq!(result.name, "commit_velocity");
}


#[test]
fn periods_are_grouped() {
    let p = |l: &str| Period { label: l.into(), commits: 2, lines: 7 };
    let result = CommitVelocityCollector::new().finalize_from_rows(vec![p("2025-W01"), p("2025-W02")], vec![p("2025-01")]);
    let sizes: Vec<usize> = result.entry_groups.iter().map(|g| g.entries.len()).collect();
    assert_eq!(sizes, vec![2, 1]);
    assert_eq!(result.entry_groups[0].entries[0].key, "2025-W01");
}

#[test]
fn periods_follow_one_another() {
    let p = |l: &str| Period { label: l.into(), commits: 1, lines: 1 };
    let r = CommitVelocityCollector::new().finalize_from_rows(vec![p("2025-W10"), p("2024-W52"), p("2025-W02")], vec![]);
    let keys: Vec<&str> = r.entry_groups[0].entries.iter().map(|e| e.key.as_str()).collect();
    assert_eq!(keys, vec!["2024-W52", "2025-W02", "2025-W10"]);
}
