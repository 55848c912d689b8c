use repo_analyzer::metrics::quick_composition::{is_skipped_dir, QuickComposition};
use repo_analyzer::output::json::Json;

fn field<'a>(item: &'a Json, name: &str) -> &'a Json {
    match item {
        Json::Object(fields) => &fields.iter().find(|(k, _)| k == name).expect("field").1,
        _ => panic!("an object"),
    }
}

fn filled() -> QuickComposition {
    let mut c = QuickComposition::new();
    c.inspect_blob("a.py", b"x = 1\n");
    c.inspect_blob("src/a.rs", b"// note\nfn a() {}\n\n");
    c.inspect_blob("src/b.rs", b"fn b() {}\n");
    c.inspect_blob("Cargo.lock", b"[[package]]\n");
    c.inspect_blob("README.md", b"# words\n");
    c.inspect_blob("src/empty.rs", b"");
    c.inspect_blob("src/odd.rs", &[0, 159, 146, 150]);
    c
}

#[test]
fn languages_come_by_their_share() {
    let items = match filled().finish(None) {
        Json::Array(items) => items,
        _ => panic!("an array"),
    };
    assert_eq!(items.len(), 2);
    assert!(matches!(field(&items[0], "language"), Json::Text(s) if s == "Rust"));
    assert!(matches!(field(&items[0], "percentage"), Json::Ratio { num: 6667, den: 100 }));
    assert!(matches!(field(&items[0], "code_lines"), Json::Unsigned(2)));
    assert!(matches!(field(&items[0], "files"), Json::Unsigned(2)));
    assert!(matches!(field(&items[1], "percentage"), Json::Ratio { num: 3333, den: 100 }));
}

#[test]
fn only_the_top_languages_are_shown() {
    assert!(matches!(filled().finish(Some(1)), Json::Array(items) if items.len() == 1));
    assert!(matches!(QuickComposition::new().finish(None), Json::Array(items) if items.is_empty()));
}

#[test]
fn generated_directories_are_skipped() {
    for name in [".git", "node_modules", "target", "dist", "build", "venv", "__pycache__", "vendor"] {
        assert!(is_skipped_dir(name));
    }
    assert!(!is_skipped_dir("src"));
}
