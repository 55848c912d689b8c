use repo_analyzer::messages;
use repo_analyzer::metrics::quality::{
    is_low_quality_message, is_revert_message, subject_line, CommitRow, QualityCollector,
};
use repo_analyzer::types::{MetricEntry, MetricResult, MetricValue};

fn make_change(_oid: &str, message: &str, additions: u64, deletions: u64, parent_ids: Vec<String>) -> CommitRow {
    CommitRow { message: message.into(), lines: additions + deletions, parents: parent_ids.len() as u64 }
}

fn entry<'a>(r: &'a MetricResult, key: &str) -> &'a MetricEntry {
    r.entries
        .iter()
        .find(|e| e.key == key)
        .unwrap_or_else(|| panic!("missing key {key}"))
}

fn count_of(e: &MetricEntry, key: &str) -> u64 {
    match e.values.get(key) {
        Some(MetricValue::Count(n)) => *n,
        other => panic!("expected Count for {key}, got {other:?}"),
    }
}

fn rec_code(e: &MetricEntry) -> String {
    match e.values.get("recommendation") {
        Some(MetricValue::Message(m)) => m.code.clone(),
        other => panic!("expected recommendation Message, got {other:?}"),
    }
}

#[test]
fn quality_empty_collector_returns_named_result() {
    let mut coll = QualityCollector::new();
    let r = coll.finalize();
    assert_eq!(r.name, "quality");
    assert!(r.entries.is_empty());
}

#[test]
fn low_quality_message_detection_covers_common_lazy_phrases() {
    for s in ["wip", "WIP", "fix", "typo", "update", "...", "tmp", "stuff"] {
        assert!(
            is_low_quality_message(s),
            "{s:?} should be marked low-quality"
        );
    }
    assert!(is_low_quality_message("WIP debug"));
    assert!(is_low_quality_message("wip: refactor"));
    assert!(is_low_quality_message("temp foo"));
    assert!(is_low_quality_message("tmp bar"));
}

#[test]
fn low_quality_message_passes_real_messages() {
    assert!(!is_low_quality_message("Add feature X"));
    assert!(!is_low_quality_message("Refactor module Y for clarity"));
    assert!(!is_low_quality_message("Fix bug in parser"));
}

#[test]
fn revert_message_detection_supports_common_forms() {
    assert!(is_revert_message("Revert \"feat: x\""));
    assert!(is_revert_message("revert: foo"));
    assert!(is_revert_message("Revert this"));
}

#[test]
fn revert_message_negatives() {
    assert!(!is_revert_message("revertedly broken"));
    assert!(!is_revert_message("Add reverter helper"));
    assert!(!is_revert_message(""));
}

#[test]
fn finalize_from_db_emits_seven_signal_rows() {
    let store = vec![make_change("c1", "Add feature X with care", 10, 5, vec![])];
    let mut coll = QualityCollector::new();
    let r = coll.finalize_from_rows(&store);
    let keys: Vec<String> = r.entries.iter().map(|e| e.key.clone()).collect();
    for k in [
        "total_commits",
        "short_messages",
        "low_quality_messages",
        "mega_commits",
        "revert_commits",
        "merge_commits",
        "avg_message_length",
    ] {
        assert!(keys.contains(&k.to_string()), "missing signal row {k}");
    }
    // Single commit, 100% baseline.
    assert_eq!(count_of(entry(&r, "total_commits"), "commits"), 1);
}

#[test]
fn finalize_from_db_flags_short_messages_when_majority_short() {
    // 3 short, 1 long → 75% short > 20% triggers the warning.
    let store = vec![
        make_change("c1", "x", 1, 0, vec![]),
        make_change("c2", "y", 1, 0, vec![]),
        make_change("c3", "z", 1, 0, vec![]),
        make_change(
            "c4",
            "A reasonably detailed commit message about feature work",
            1,
            0,
            vec![],
        ),
    ];
    let mut coll = QualityCollector::new();
    let r = coll.finalize_from_rows(&store);
    assert_eq!(
        rec_code(entry(&r, "short_messages")),
        messages::QUALITY_RECOMMENDATION_ENFORCE_MSG_LENGTH
    );
}

#[test]
fn finalize_from_db_flags_low_quality_when_above_5pct() {
    // 2 of 10 commits are 'wip' = 20% > 5% → squash_wip recommendation.
    let mut commits: Vec<CommitRow> = (1..=8)
        .map(|i| {
            make_change(
                &format!("c{i}"),
                "Reasonable commit message describing work",
                1,
                0,
                vec![],
            )
        })
        .collect();
    commits.push(make_change("clow1", "wip", 1, 0, vec![]));
    commits.push(make_change("clow2", "WIP", 1, 0, vec![]));
    let store = commits;
    let mut coll = QualityCollector::new();
    let r = coll.finalize_from_rows(&store);
    assert_eq!(
        rec_code(entry(&r, "low_quality_messages")),
        messages::QUALITY_RECOMMENDATION_SQUASH_WIP
    );
}

#[test]
fn finalize_from_db_flags_mega_commit_when_above_threshold() {
    // 2 of 10 commits exceed 1000 lines (20% > 10%).
    let mut commits: Vec<CommitRow> = (1..=8)
        .map(|i| make_change(&format!("c{i}"), "Reasonable message", 5, 5, vec![]))
        .collect();
    commits.push(make_change("cbig1", "Reasonable message", 600, 500, vec![]));
    commits.push(make_change("cbig2", "Reasonable message", 700, 700, vec![]));
    let store = commits;
    let mut coll = QualityCollector::new();
    let r = coll.finalize_from_rows(&store);
    assert_eq!(
        rec_code(entry(&r, "mega_commits")),
        messages::QUALITY_RECOMMENDATION_SPLIT_MEGA
    );
}

#[test]
fn finalize_from_db_flags_revert_when_above_3pct() {
    // 1 revert in 20 commits = 5% > 3%.
    let mut commits: Vec<CommitRow> = (1..=19)
        .map(|i| make_change(&format!("c{i}"), "Reasonable message", 5, 5, vec![]))
        .collect();
    commits.push(make_change("crev", "Revert \"x\"", 5, 5, vec![]));
    let store = commits;
    let mut coll = QualityCollector::new();
    let r = coll.finalize_from_rows(&store);
    assert_eq!(
        rec_code(entry(&r, "revert_commits")),
        messages::QUALITY_RECOMMENDATION_STRENGTHEN_REVIEW
    );
}

#[test]
fn finalize_from_db_flags_merge_commits_when_above_30pct() {
    // 2 of 4 commits are merges (50% > 30%).
    let store = vec![
        make_change("c1", "Reasonable message", 1, 0, vec![]),
        make_change("c2", "Reasonable message", 1, 0, vec![]),
        make_change(
            "cm1",
            "Merge branch foo",
            1,
            0,
            vec!["p1".into(), "p2".into()],
        ),
        make_change(
            "cm2",
            "Merge branch bar",
            1,
            0,
            vec!["p1".into(), "p2".into()],
        ),
    ];
    let mut coll = QualityCollector::new();
    let r = coll.finalize_from_rows(&store);
    assert_eq!(
        rec_code(entry(&r, "merge_commits")),
        messages::QUALITY_RECOMMENDATION_REBASE_WORKFLOW
    );
}

#[test]
fn finalize_from_db_flags_avg_message_length_below_30() {
    let store = vec![make_change("c1", "Short msg", 1, 0, vec![])];
    let mut coll = QualityCollector::new();
    let r = coll.finalize_from_rows(&store);
    assert_eq!(
        rec_code(entry(&r, "avg_message_length")),
        messages::QUALITY_RECOMMENDATION_REQUIRE_DESCRIPTIONS
    );
}

#[test]
fn finalize_from_db_total_commits_baseline_has_no_severity() {
    let store = vec![make_change("c1", "msg ok", 1, 0, vec![])];
    let mut coll = QualityCollector::new();
    let r = coll.finalize_from_rows(&store);
    let baseline = entry(&r, "total_commits");
    match baseline.values.get("recommendation") {
        Some(MetricValue::Message(m)) => {
            assert_eq!(m.code, messages::QUALITY_RECOMMENDATION_BASELINE);
            assert!(m.severity.is_none());
        }
        other => panic!("expected baseline Message, got {other:?}"),
    }
}


#[test]
fn subjects_are_first_lines() {
    assert_eq!(subject_line("one\ntwo"), "one");
    assert_eq!(subject_line(""), "");
}
