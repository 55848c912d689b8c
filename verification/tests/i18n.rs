use repo_analyzer::i18n::Catalog;
use repo_analyzer::table::TextMap;
use repo_analyzer::types::{LocalizedMessage, Severity};

#[test]
fn missing_code_renders_code_itself() {
    let cat = Catalog {
        entries: TextMap::new(),
    };
    let msg = LocalizedMessage::code("nonexistent.code");
    assert_eq!(cat.translate(&msg), "nonexistent.code");
}

#[test]
fn substitutes_params() {
    let mut entries: TextMap<String> = TextMap::new();
    entries.insert(
        "test.msg".to_string(),
        "size is {{size_bytes}} bytes".to_string(),
    );
    let cat = Catalog { entries };
    let msg = LocalizedMessage::code("test.msg")
        .with_severity(Severity::Warning)
        .with_param("size_bytes", 1024_u64);
    assert_eq!(cat.translate(&msg), "size is 1024 bytes");
}

#[test]
fn string_params_render_without_quotes() {
    let mut entries: TextMap<String> = TextMap::new();
    entries.insert("t".into(), "hello {{name}}".into());
    let cat = Catalog { entries };
    let msg = LocalizedMessage::code("t").with_param("name", "world");
    assert_eq!(cat.translate(&msg), "hello world");
}

#[test]
fn loads_bundled_en_catalog() {
    let cat = Catalog::load("en");
    // Catalog should at least parse without panicking.
    let _ = cat.translate_code("anything");
}


#[test]
fn english_is_known() {
    let cat = Catalog::load("fr");
    assert_eq!(cat.translate_code("report.authors.display_name"), "Authors");
    let msg = LocalizedMessage::code("complexity.recommendation.high").with_param("cyclomatic", 12_u64);
    assert_eq!(cat.translate(&msg), "High complexity (12): consider splitting it");
}

#[test]
fn malformed_catalogs_are_empty() {
    let cat = Catalog::read("{ not json");
    assert_eq!(cat.translate_code("a"), "a");
    let cat = Catalog::read("{\"a\": 1}");
    assert_eq!(cat.translate_code("a"), "a");
    let cat = Catalog::read("{\"a\": \"b {{x}} {{x}}\"}");
    let msg = LocalizedMessage::code("a").with_param("x", 1_u64).with_param("x", -2_i64);
    assert_eq!(cat.translate(&msg), "b -2 -2");
}
