use repo_analyzer::metrics::authors::{AuthorActivity, AuthorsCollector};
use repo_analyzer::types::MetricValue;

const DAY: i64 = 1_736_942_400;

fn mk(oid: &str, email: &str, _file: &str, added: u64, deleted: u64) -> (String, String, u64, u64) {
    (oid.to_string(), email.to_string(), added, deleted)
}

/// The changes, put together per author.
fn store_with(changes: &[(String, String, u64, u64)]) -> Vec<AuthorActivity> {
    let mut rows: Vec<AuthorActivity> = Vec::new();
    let mut seen: Vec<(String, String)> = Vec::new();
    for (oid, email, added, deleted) in changes {
        let fresh = !seen.contains(&(oid.clone(), email.clone()));
        seen.push((oid.clone(), email.clone()));
        if !rows.iter().any(|r| r.email == *email) {
            rows.push(AuthorActivity {
                email: email.clone(),
                commits: 0,
                lines_added: 0,
                lines_deleted: 0,
                active_days: 1,
                first_ts: DAY,
                last_ts: DAY,
            });
        }
        for r in rows.iter_mut().filter(|r| r.email == *email) {
            r.commits += fresh as u64;
            r.lines_added += added;
            r.lines_deleted += deleted;
        }
    }
    rows
}

#[test]
fn groups_by_email_counts_distinct_commits() {
    let store = store_with(&[
        mk("c1", "Alice@x", "a.rs", 10, 2),
        mk("c1", "Alice@x", "b.rs", 5, 1), // same commit, another file
        mk("c2", "Alice@x", "a.rs", 3, 0),
        mk("c3", "Bob@x", "a.rs", 1, 0),
    ]);

    let mut c = AuthorsCollector::new();
    let r = c.finalize_from_rows(store);
    assert_eq!(r.entries.len(), 2);

    let alice = r
        .entries
        .iter()
        .find(|e| e.key == "Alice@x")
        .expect("alice");
    assert!(matches!(
        alice.values.get("commits"),
        Some(MetricValue::Count(2))
    ));
    assert!(matches!(
        alice.values.get("lines_added"),
        Some(MetricValue::Count(18))
    ));
}

#[test]
fn the_busiest_author_comes_first() {
    let row = |email: &str, commits: u64| AuthorActivity {
        email: email.into(),
        commits,
        lines_added: 1,
        lines_deleted: 0,
        active_days: 1,
        first_ts: DAY,
        last_ts: DAY,
    };
    let r = AuthorsCollector::new().finalize_from_rows(vec![row("a@x", 1), row("b@x", 3), row("c@x", 2)]);
    let keys: Vec<&str> = r.entries.iter().map(|e| e.key.as_str()).collect();
    assert_eq!(keys, vec!["b@x", "c@x", "a@x"]);
}
