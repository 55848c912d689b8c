use repo_analyzer::metrics::churn_pareto::{files_to_reach_pct, pct, ChurnParetoCollector, FileChurn};
use repo_analyzer::types::MetricValue;

fn s(items: &[(&str, u64)]) -> Vec<(String, u64)> {
    items.iter().map(|(p, c)| (p.to_string(), *c)).collect()
}

#[test]
fn pareto_classic_80_20() {
    let sorted = s(&[("a", 80), ("b", 5), ("c", 5), ("d", 5), ("e", 5)]);
    assert_eq!(files_to_reach_pct(&sorted, 100, 50), 1);
    assert_eq!(files_to_reach_pct(&sorted, 100, 80), 1);
    assert_eq!(files_to_reach_pct(&sorted, 100, 90), 3);
}

#[test]
fn pct_handles_zero_whole() {
    assert_eq!(pct(5, 0), 0);
}


#[test]
fn larger_shares_take_more_files() {
    let sorted = s(&[("a", 40), ("b", 30), ("c", 20), ("d", 10)]);
    let needed: Vec<u64> = [10, 40, 41, 70, 100].iter().map(|p| files_to_reach_pct(&sorted, 100, *p)).collect();
    assert_eq!(needed, vec![1, 1, 2, 2, 4]);
    assert_eq!(pct(1, 3), 33);
}

#[test]
fn files_are_ranked_by_churn() {
    let rows = vec![
        FileChurn { file: "src/a.rs".into(), churn: 1 },
        FileChurn { file: "src/b.rs".into(), churn: 9 },
        FileChurn { file: "README.md".into(), churn: 50 },
    ];
    let result = ChurnParetoCollector::new().finalize_from_rows(rows);
    let b = result.entries.iter().find(|e| e.key == "src/b.rs").expect("b");
    assert!(matches!(b.values.get("churn"), Some(MetricValue::Count(9))));
    assert!(result.entries.iter().all(|e| e.key != "README.md"));
}

#[test]
fn files_without_churn_are_left_out() {
    let row = |file: &str, churn: u64| FileChurn { file: file.into(), churn };
    let r = ChurnParetoCollector::new().finalize_from_rows(vec![row("a.rs", 1), row("b.rs", 0), row("c.rs", 3)]);
    let keys: Vec<&str> = r.entries.iter().map(|e| e.key.as_str()).collect();
    assert_eq!(keys, vec!["<summary>", "c.rs", "a.rs"]);
    assert!(matches!(r.entries[1].values.get("cumulative_pct"), Some(MetricValue::Count(75))));
}
