use repo_analyzer::langs::detect_language_info;
use repo_analyzer::messages;
use repo_analyzer::metrics::debt_markers::{
    blame_for_line, classify, find_marker, scan_file, truncate_snippet, Blame, BlamedLines, DebtMarkersCollector,
    MarkerHit,
};
use repo_analyzer::types::{MetricValue, Severity};

#[test]
fn marker_regex_catches_plain_todo() {
    let caps = find_marker("// TODO: fix later").unwrap();
    assert_eq!(caps.groups[1].as_deref().unwrap(), "TODO");
    assert_eq!(caps.groups[2].as_deref(), None);
    assert_eq!(caps.groups[3].as_deref().unwrap(), "fix later");
}

#[test]
fn marker_regex_catches_owner_annotation() {
    let caps = find_marker("# FIXME(alice) broken on windows")
        .unwrap();
    assert_eq!(caps.groups[1].as_deref().unwrap(), "FIXME");
    assert_eq!(caps.groups[2].as_deref().unwrap(), "alice");
    assert_eq!(caps.groups[3].as_deref().unwrap(), "broken on windows");
}

#[test]
fn marker_regex_ignores_inline_word() {
    // "TODOS" is not a marker — \b boundary stops it.
    let matched_as_todo = find_marker("// TODOS list")
        .map(|c| c.groups[1].as_deref() == Some("TODO"))
        .unwrap_or(false);
    assert!(!matched_as_todo);
}

#[test]
fn classify_age_bands() {
    assert_eq!(
        classify(-1).code,
        messages::DEBT_MARKERS_RECOMMENDATION_AGE_UNKNOWN
    );
    assert_eq!(
        classify(5).code,
        messages::DEBT_MARKERS_RECOMMENDATION_FRESH
    );
    assert_eq!(
        classify(45).code,
        messages::DEBT_MARKERS_RECOMMENDATION_AGING
    );
    assert_eq!(
        classify(200).code,
        messages::DEBT_MARKERS_RECOMMENDATION_STALE
    );
    assert_eq!(
        classify(500).code,
        messages::DEBT_MARKERS_RECOMMENDATION_ROTTEN
    );
    assert_eq!(classify(500).severity, Some(Severity::Error));
}

#[test]
fn truncate_respects_utf8_boundary() {
    let t = "a".repeat(130);
    let out = truncate_snippet(&t);
    assert!(out.ends_with('…'));
    assert!(out.chars().count() < t.chars().count());

    // No truncation for short strings.
    assert_eq!(truncate_snippet("short"), "short");
}

#[test]
fn scan_file_finds_todo_in_comment_not_in_string() {
    let rust = detect_language_info("foo.rs", None).unwrap();
    let src = "fn f() {\n    // TODO: refactor\n    let s = \"TODO: string literal\";\n}\n";
    let mut hits: Vec<MarkerHit> = Vec::new();
    scan_file("foo.rs", src, &rust, &mut hits);
    assert_eq!(hits.len(), 1, "should only catch the comment TODO");
    assert_eq!(hits[0].marker, "TODO");
    assert_eq!(hits[0].line, 2);
    assert_eq!(hits[0].text, "refactor");
}

#[test]
fn scan_file_is_case_insensitive_and_normalises_to_uppercase() {
    let rust = detect_language_info("foo.rs", None).unwrap();
    let src = "// todo: lower\n// Todo: title\n// TODO: upper\n";
    let mut hits: Vec<MarkerHit> = Vec::new();
    scan_file("foo.rs", src, &rust, &mut hits);
    assert_eq!(hits.len(), 3);
    // All three are recorded as the same marker bucket.
    for h in &hits {
        assert_eq!(h.marker, "TODO");
    }
}

#[test]
fn scan_file_picks_up_hash_comment_style() {
    // Python/Ruby/Bash all use `#` — the language info drives the
    // comment detection, not the marker regex.
    let py = detect_language_info("foo.py", None).unwrap();
    let src = "x = 1  # TODO: follow up\n";
    let mut hits: Vec<MarkerHit> = Vec::new();
    scan_file("foo.py", src, &py, &mut hits);
    assert_eq!(hits.len(), 1);
    assert_eq!(hits[0].marker, "TODO");
}

#[test]
fn scan_file_picks_up_block_comment() {
    let rust = detect_language_info("foo.rs", None).unwrap();
    let src = "/*\n * FIXME: broken on arm64\n */\nfn f() {}\n";
    let mut hits: Vec<MarkerHit> = Vec::new();
    scan_file("foo.rs", src, &rust, &mut hits);
    assert_eq!(hits.len(), 1);
    assert_eq!(hits[0].marker, "FIXME");
}

#[test]
fn scan_file_picks_up_sql_style_dash_comment() {
    let sql = detect_language_info("q.sql", None).unwrap();
    let src = "SELECT 1; -- HACK: revisit index strategy\n";
    let mut hits: Vec<MarkerHit> = Vec::new();
    scan_file("q.sql", src, &sql, &mut hits);
    assert_eq!(hits.len(), 1);
    assert_eq!(hits[0].marker, "HACK");
}

#[test]
fn scan_file_handles_multiple_marker_kinds() {
    let rust = detect_language_info("foo.rs", None).unwrap();
    let src = "// TODO: a\n// FIXME: b\n// HACK: c\n// XXX: d\n// NOTE: ignored\n";
    let mut hits: Vec<MarkerHit> = Vec::new();
    scan_file("foo.rs", src, &rust, &mut hits);
    assert_eq!(hits.len(), 4, "NOTE is intentionally excluded");
    let kinds: Vec<&str> = hits.iter().map(|h| h.marker.as_str()).collect();
    assert_eq!(kinds, vec!["TODO", "FIXME", "HACK", "XXX"]);
}


#[test]
fn markers_are_blamed() {
    let mut coll = DebtMarkersCollector::new();
    coll.inspect_blob("src/a.rs", b"fn a() {}\n// TODO: one\n// FIXME(bob): two\n");
    assert_eq!(coll.wanted_files(), vec!["src/a.rs".to_string()]);
    let now: i64 = 1_750_000_000;
    let lines = || vec![BlamedLines { start: 0, len: 2, author: Some(("alice".into(), now - 400 * 86400)) }];
    assert_eq!(blame_for_line(&lines(), 2, now), Some(("alice".to_string(), 400)));
    assert_eq!(blame_for_line(&lines(), 3, now), None);
    coll.enrich(&[Blame { file: "src/a.rs".into(), lines: lines() }], now);
    let result = coll.finalize();
    assert_eq!(result.entries.len(), 2);
    assert_eq!(result.entries[0].key, "src/a.rs:2");
    match result.entries[0].values.get("recommendation") {
        Some(MetricValue::Message(m)) => assert_eq!(m.code, messages::DEBT_MARKERS_RECOMMENDATION_ROTTEN),
        other => panic!("expected a message, got {other:?}"),
    }
}
