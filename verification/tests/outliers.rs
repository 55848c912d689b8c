use repo_analyzer::messages;
use repo_analyzer::metrics::outliers::{build_recommendation, Candidate, OutliersCollector};
use repo_analyzer::types::MetricValue;

#[test]
fn outliers_are_told_apart() {
    assert_eq!(build_recommendation(100, 5).code, messages::OUTLIERS_RECOMMENDATION_GOD_FILE);
    assert_eq!(build_recommendation(100, 4).code, messages::OUTLIERS_RECOMMENDATION_HIGH_CHURN);
    assert_eq!(build_recommendation(99, 5).code, messages::OUTLIERS_RECOMMENDATION_DIFFUSE_OWNERSHIP);
    assert_eq!(build_recommendation(99, 4).code, messages::OUTLIERS_RECOMMENDATION_OK);
}

#[test]
fn only_sources_stand_out() {
    let row = |file: &str, change_count: u64| Candidate { file: file.into(), ever_deleted: false, change_count, unique_authors: 2, total_churn: 3 };
    let result = OutliersCollector::new().finalize_from_rows(vec![row("a.rs", 3), row("Cargo.lock", 900), row("b.rs", 190)]);
    assert!(result.entries.iter().all(|e| e.key != "Cargo.lock" && e.key != "a.rs"));
    let b = result.entries.iter().find(|e| e.key == "b.rs").expect("b");
    assert!(matches!(b.values.get("change_count"), Some(MetricValue::Count(190))));
}

#[test]
fn deleted_files_do_not_stand_out() {
    let row = |file: &str, ever_deleted: bool| Candidate { file: file.into(), ever_deleted, change_count: 100, unique_authors: 1, total_churn: 3 };
    let result = OutliersCollector::new().finalize_from_rows(vec![row("a.rs", true), row("b.rs", false)]);
    let keys: Vec<&str> = result.entries.iter().map(|e| e.key.as_str()).collect();
    assert_eq!(keys, vec!["b.rs"]);
}
