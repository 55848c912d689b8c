use repo_analyzer::i18n::Catalog;
use repo_analyzer::output::html::{escape_html, split_template, HtmlWriter, ScriptEscapeWriter, Segment};
use repo_analyzer::output::json::Json;
use repo_analyzer::types::{Column, MetricEntry, MetricResult, MetricValue, Values};

#[test]
fn test_html_escapes_special_chars() {
    assert_eq!(escape_html("<script>"), "&lt;script&gt;");
    assert_eq!(escape_html("a & b"), "a &amp; b");
    assert_eq!(escape_html("\"hello\""), "&quot;hello&quot;");
    assert_eq!(escape_html("it's"), "it&#x27;s");
}

#[test]
fn script_escape_writer_rewrites_close_tags() {
    // Guard against a commit message or file path breaking out of the
    // embedded <script type="application/json"> block.
    let buf: Vec<u8> = {
        let mut w = ScriptEscapeWriter::new();
        w.write(b"{\"x\":\"foo</script>bar\"}");
        w.finish()
    };
    let out = String::from_utf8(buf).unwrap();
    assert!(!out.contains("</script"));
    assert!(out.contains("<\\/script"));
}

#[test]
fn script_escape_writer_handles_boundary_split() {
    // `<` at end of one write, `/` at start of next — must still rewrite.
    let buf: Vec<u8> = {
        let mut w = ScriptEscapeWriter::new();
        w.write(b"foo<");
        w.write(b"/bar");
        w.finish()
    };
    assert_eq!(String::from_utf8(buf).unwrap(), "foo<\\/bar");
}

#[test]
fn script_escape_writer_preserves_lone_lt() {
    let buf: Vec<u8> = {
        let mut w = ScriptEscapeWriter::new();
        w.write(b"a < b");
        w.finish()
    };
    assert_eq!(String::from_utf8(buf).unwrap(), "a < b");
}


fn text_of(j: &Json, name: &str) -> String {
    match j {
        Json::Object(fields) => match fields.iter().find(|f| f.0 == name) {
            Some((_, Json::Text(s))) => s.clone(),
            other => panic!("expected a text, got {other:?}"),
        },
        other => panic!("expected an object, got {other:?}"),
    }
}

#[test]
fn reports_are_put_in_words() {
    let mut values = Values::new();
    values.insert("commits", MetricValue::Count(50));
    let result = MetricResult::report("authors", &["commits"], vec![MetricEntry { key: "alice".into(), values }]);
    assert_eq!(result.columns[0].label.code, Column::in_report("authors", "commits").label.code);
    let data = HtmlWriter::build_report_json(&[result], &Catalog::load("en"));
    match data {
        Json::Array(items) => assert_eq!(text_of(&items[0], "display_name"), "Authors"),
        other => panic!("expected an array, got {other:?}"),
    }
}

#[test]
fn templates_are_split_at_markers() {
    let pieces = split_template("a{{GENERATED_AT}}{{REPORT_DATA_JSON}}b{{GENERATED_AT}}");
    assert_eq!(pieces.len(), 5);
    assert!(matches!(&pieces[0], Segment::Literal(s) if s == "a"));
    assert!(matches!(pieces[2], Segment::ReportData));
    assert!(split_template("").is_empty());
    let page = HtmlWriter::render("<p>{{GENERATED_AT}}</p><script>{{REPORT_DATA_JSON}}</script>", "a<b", b"[\"</script>\"]");
    assert_eq!(String::from_utf8(page).unwrap(), "<p>a&lt;b</p><script>[\"<\\/script>\"]</script>");
}

#[test]
fn pieces_may_be_cut_anywhere() {
    let all = b"a<</b</<";
    let mut whole = ScriptEscapeWriter::new();
    whole.write(all);
    let want = whole.finish();
    for cut in 0..all.len() {
        let mut w = ScriptEscapeWriter::new();
        w.write(&all[..cut]);
        w.write(&all[cut..]);
        assert_eq!(w.finish(), want);
    }
    assert_eq!(want, b"a<<\\/b<\\/<".to_vec());
}
