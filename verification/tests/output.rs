use repo_analyzer::i18n::Catalog;
use repo_analyzer::output::cells::{format_value, slug_of};
use repo_analyzer::output::csv_output::CsvWriter;
use repo_analyzer::output::json::{message_to_json, Json, JsonWriter};
use repo_analyzer::output::terminal::{TerminalBody, TerminalWriter};
use repo_analyzer::types::{
    humanize, Column, Date, EntryGroup, LocalizedMessage, MetricEntry, MetricResult, MetricValue, Severity, Values,
};

fn entry(key: &str, cells: &[(&str, u64)]) -> MetricEntry {
    let mut values = Values::new();
    for (k, n) in cells {
        values.insert(k, MetricValue::Count(*n));
    }
    MetricEntry { key: key.to_string(), values }
}

fn sample_result(name: &str) -> MetricResult {
    MetricResult::report(
        name,
        &["commits", "lines"],
        vec![entry("alice", &[("commits", 50), ("lines", 1200)]), entry("bob", &[("commits", 30), ("lines", 800)])],
    )
}

fn text(bytes: Vec<u8>) -> String {
    String::from_utf8(bytes).unwrap()
}

#[test]
fn test_csv_output() {
    let content = text(CsvWriter::render(&Catalog::load("en"), &sample_result("Authors"), None));
    assert!(content.contains("name,commits,lines"));
    assert!(content.contains("alice,50,1200"));
    assert!(content.contains("bob,30,800"));
}

#[test]
fn test_csv_multiple_reports_creates_separate_files() {
    assert_eq!(CsvWriter::multi_report_file("report", Some("csv"), "Authors"), "report_authors.csv");
    assert_eq!(CsvWriter::multi_report_file("report", Some("csv"), "Churn"), "report_churn.csv");
    let authors_content = text(CsvWriter::render(&Catalog::load("en"), &sample_result("Authors"), None));
    assert!(authors_content.contains("name,commits,lines"));
    assert!(authors_content.contains("alice"));
    let churn_content = text(CsvWriter::render(&Catalog::load("en"), &sample_result("Churn"), None));
    assert!(churn_content.contains("name,commits,lines"));
    assert!(churn_content.contains("bob"));
}

#[test]
fn a_report_file_without_an_extension_gets_one() {
    assert_eq!(CsvWriter::multi_report_file("report", None, "Churn Pareto"), "report_churn_pareto.csv");
}

#[test]
fn csv_fields_are_quoted() {
    let result = MetricResult::report("x", &["a"], vec![entry("one, \"two\"", &[])]);
    let content = text(CsvWriter::render(&Catalog::load("en"), &result, None));
    assert_eq!(content, "name,a\n\"one, \"\"two\"\"\",\n");
}

#[test]
fn csv_groups_and_limits() {
    let cat = Catalog::load("en");
    let rows = CsvWriter::records(&cat, &sample_result("a"), Some(1));
    assert_eq!(rows, vec![vec!["name", "commits", "lines"], vec!["alice", "50", "1200"]]);
    let grouped = MetricResult::grouped("a", &["n"], vec![EntryGroup::of("g", "l", vec![entry("x", &[("n", 1)])])]);
    let rows = CsvWriter::records(&cat, &grouped, Some(0));
    assert_eq!(rows, vec![vec!["group", "name", "n"], vec!["g", "x", "1"]]);
    let mut bare = MetricResult::empty("a");
    bare.entries.push(entry("x", &[("b", 2), ("a", 1)]));
    let rows = CsvWriter::records(&cat, &bare, None);
    assert_eq!(rows, vec![vec!["name", "a", "b"], vec!["x", "1", "2"]]);
}

fn get<'a>(j: &'a Json, name: &str) -> &'a Json {
    match j {
        Json::Object(fields) => &fields.iter().rev().find(|f| f.0 == name).expect("field").1,
        other => panic!("expected an object, got {other:?}"),
    }
}

fn items(j: &Json) -> &Vec<Json> {
    match j {
        Json::Array(v) => v,
        other => panic!("expected an array, got {other:?}"),
    }
}

fn as_str(j: &Json) -> &str {
    match j {
        Json::Text(s) => s,
        other => panic!("expected a text, got {other:?}"),
    }
}

fn as_u64(j: &Json) -> u64 {
    match j {
        Json::Unsigned(n) => *n,
        other => panic!("expected a number, got {other:?}"),
    }
}

#[test]
fn test_json_output_valid() {
    let result = MetricResult {
        name: "authors".to_string(),
        display_name: LocalizedMessage::code("Authors"),
        description: LocalizedMessage::code("Top authors"),
        columns: vec![Column { value: "commits".to_string(), label: LocalizedMessage::code("Commits") }],
        entry_groups: vec![],
        entries: vec![entry("alice", &[("commits", 50)]), entry("bob", &[("commits", 30)])],
    };
    let parsed = JsonWriter::document(&[result], None, "2025-01-01T00:00:00Z");
    assert_eq!(as_str(get(&parsed, "generated_at")), "2025-01-01T00:00:00Z");
    let authors = get(get(&parsed, "reports"), "authors");
    assert_eq!(as_str(get(authors, "name")), "authors");
    assert_eq!(as_str(get(authors, "display_name")), "Authors");
    assert_eq!(as_str(&items(get(authors, "column_labels"))[0]), "Commits");
    let entries = items(get(authors, "entries"));
    assert_eq!(entries.len(), 2);
    assert_eq!(as_str(get(&entries[0], "name")), "alice");
    assert_eq!(as_u64(get(&entries[0], "commits")), 50);
}

#[test]
fn json_tells_of_hidden_entries() {
    let j = JsonWriter::result_to_json(&sample_result("a"), Some(1));
    assert_eq!(as_u64(get(&j, "total_entries")), 2);
    assert_eq!(as_u64(get(&j, "shown_entries")), 1);
    assert_eq!(items(get(&j, "entries")).len(), 1);
    let grouped = MetricResult::grouped("a", &["n"], vec![EntryGroup::of("g", "l", vec![entry("x", &[("n", 1)])])]);
    let j = JsonWriter::result_to_json(&grouped, Some(0));
    assert_eq!(as_u64(get(&j, "shown_entries")), 1);
    assert_eq!(items(get(&j, "entry_groups")).len(), 1);
}

#[test]
fn messages_with_more_than_a_code_are_objects() {
    assert_eq!(as_str(&message_to_json(&LocalizedMessage::code("a"))), "a");
    let m = LocalizedMessage::code("a").with_severity(Severity::Error).with_param("n", 3_u64);
    let j = message_to_json(&m);
    assert_eq!(as_str(get(&j, "code")), "a");
    assert_eq!(as_str(get(&j, "severity")), "error");
    assert_eq!(as_u64(get(get(&j, "params"), "n")), 3);
}

#[test]
fn test_terminal_writer_no_panic() {
    let result = MetricResult::report("test_metric", &["commits", "lines"], vec![entry("alice", &[("commits", 42), ("lines", 1000)])]);
    let cat = Catalog::load("en");
    assert_eq!(TerminalWriter::title(&cat, &result), "test_metric");
    assert_eq!(TerminalWriter::description(&cat, &result), None);
    match TerminalWriter::body(&cat, &result, Some(10)) {
        TerminalBody::Table(t) => {
            assert_eq!(t.header, vec!["Name", "Commits", "Lines"]);
            assert_eq!(t.rows, vec![vec!["alice", "42", "1000"]]);
            assert_eq!(t.note, None);
        }
        other => panic!("expected a table, got {other:?}"),
    }
}

#[test]
fn the_terminal_tells_of_hidden_rows() {
    let cat = Catalog::load("en");
    match TerminalWriter::body(&cat, &sample_result("authors"), Some(1)) {
        TerminalBody::Table(t) => {
            assert_eq!(t.rows.len(), 1);
            assert_eq!(t.note.as_deref(), Some("  (1 of 2 shown; re-run without `--top` to see all)"));
        }
        other => panic!("expected a table, got {other:?}"),
    }
    assert_eq!(TerminalWriter::title(&cat, &sample_result("authors")), "Authors");
    assert!(matches!(TerminalWriter::body(&cat, &MetricResult::empty("x"), None), TerminalBody::NoData));
    let grouped = MetricResult::grouped("a", &["n"], vec![EntryGroup::of("g", "Weekly", vec![entry("x", &[("n", 1)])])]);
    match TerminalWriter::body(&cat, &grouped, None) {
        TerminalBody::Groups(g) => assert_eq!(g[0].0, "  -- Weekly (1 entries) --"),
        other => panic!("expected groups, got {other:?}"),
    }
}

#[test]
fn cells_as_text() {
    let cat = Catalog::load("en");
    let shown = |v: MetricValue| format_value(&cat, &v);
    assert_eq!(shown(MetricValue::Count(u64::MAX)), "18446744073709551615");
    assert_eq!(shown(MetricValue::SignedCount(-5)), "-5");
    assert_eq!(shown(MetricValue::Ratio { num: 1, den: 3 }), "0.33");
    assert_eq!(shown(MetricValue::Ratio { num: 1, den: 0 }), "0.00");
    assert_eq!(shown(MetricValue::Percent { num: 2, den: 3 }), "66.67");
    assert_eq!(shown(MetricValue::Percent { num: 1, den: 800 }), "0.12");
    assert_eq!(shown(MetricValue::PerYear { count: 2, days: 365 }), "2.00");
    assert_eq!(shown(MetricValue::PerYear { count: 3, days: 0 }), "3.00");
    assert_eq!(shown(MetricValue::Date(Date { days: 19889 })), "2024-06-15");
    assert_eq!(shown(MetricValue::Date(Date { days: i64::MAX })), "");
    let list = MetricValue::List(vec![MetricValue::Count(1), MetricValue::Text("a".into())]);
    assert_eq!(shown(list), "[1, a]");
    assert_eq!(shown(MetricValue::Message(LocalizedMessage::code("hotspot.level.file"))), "File");
    assert_eq!(slug_of("\u{c9}t\u{c9} A"), "\u{e9}t\u{e9}_a");
    assert_eq!(humanize("lines_added"), "Lines Added");
}

#[test]
fn commas_and_quotes_are_kept_apart() {
    let table = vec![vec!["a,b".to_string(), "c\"d".to_string()], vec!["".to_string(), "e".to_string()]];
    assert_eq!(CsvWriter::encode(&table), b"\"a,b\",\"c\"\"d\"\n,e\n".to_vec());
}
