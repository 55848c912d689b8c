use repo_analyzer::messages;
use repo_analyzer::metrics::doc_coverage::{
    analyze_file, classify, coverage_pct, DocCoverageCollector, FileRow,
};
use repo_analyzer::syntax::Grammar;

fn scan(grammar: Grammar, src: &str) -> (u64, u64) {
    let row = analyze_file(grammar, "t", src).expect("row");
    (row.public_items, row.documented)
}

#[test]
fn rust_pub_fn_with_doc_counts_documented() {
    let src = "/// Doc for foo.\npub fn foo() {}\nfn private_bar() {}\n";
    let (public, documented) = scan(Grammar::Rust, src);
    assert_eq!(public, 1);
    assert_eq!(documented, 1);
}

#[test]
fn rust_undocumented_pub_item_still_counted_as_public() {
    let src = "pub fn a() {}\npub struct B;\npub fn c() {}\n";
    let (public, documented) = scan(Grammar::Rust, src);
    assert_eq!(public, 3);
    assert_eq!(documented, 0);
}

#[test]
fn rust_private_items_not_counted() {
    let src = "fn a() {}\nstruct B;\nfn c() {}\n";
    let (public, documented) = scan(Grammar::Rust, src);
    assert_eq!(public, 0);
    assert_eq!(documented, 0);
}

#[test]
fn python_docstring_detected() {
    let src = "def foo():\n    \"\"\"I am a docstring.\"\"\"\n    pass\n\ndef bar():\n    pass\n\ndef _private():\n    pass\n";
    let (public, documented) = scan(Grammar::Python, src);
    // foo and bar are public; _private is not.
    assert_eq!(public, 2);
    assert_eq!(documented, 1);
}

#[test]
fn go_capitalized_names_are_public() {
    let src = "package p\n// Foo does foo.\nfunc Foo() {}\n\nfunc bar() {}\n";
    let (public, documented) = scan(Grammar::Go, src);
    assert_eq!(public, 1);
    assert_eq!(documented, 1);
}

#[test]
fn typescript_export_with_jsdoc() {
    let src = "/** Adds two numbers. */\nexport function add(a: number, b: number): number { return a + b; }\nfunction helper() {}\n";
    let (public, documented) = scan(Grammar::TypeScript, src);
    assert_eq!(public, 1);
    assert_eq!(documented, 1);
}

#[test]
fn coverage_pct_computes_correctly() {
    let r = FileRow {
        file: "x".into(),
        language: "Rust",
        public_items: 4,
        documented: 1,
    };
    assert_eq!(coverage_pct(&r), 25);
    let r2 = FileRow {
        file: "x".into(),
        language: "Rust",
        public_items: 0,
        documented: 0,
    };
    // Zero-item file returns 100% to avoid "0% coverage" on empty files.
    assert_eq!(coverage_pct(&r2), 100);
}

#[test]
fn classify_threshold_boundaries() {
    assert_eq!(
        classify(10).code,
        messages::DOC_COVERAGE_RECOMMENDATION_POOR
    );
    assert_eq!(
        classify(50).code,
        messages::DOC_COVERAGE_RECOMMENDATION_LOW
    );
    assert_eq!(
        classify(70).code,
        messages::DOC_COVERAGE_RECOMMENDATION_OK
    );
    assert_eq!(
        classify(95).code,
        messages::DOC_COVERAGE_RECOMMENDATION_GOOD
    );
}


#[test]
fn other_languages_have_their_rules() {
    let java = "/** A. */\npublic class A {\n  public void f() {}\n  void g() {}\n}\n";
    assert_eq!(scan(Grammar::Java, java), (2, 1));
    let kotlin = "/** A. */\nfun a() {}\nprivate fun b() {}\n";
    assert_eq!(scan(Grammar::Kotlin, kotlin).0, 1);
    let js = "/** A. */\nexport class A {}\nfunction b() {}\n";
    assert_eq!(scan(Grammar::JavaScript, js), (1, 1));
}

#[test]
fn the_least_covered_come_first() {
    let row = |file: &str, public_items: u64, documented: u64| FileRow { file: file.into(), language: "Rust", public_items, documented };
    let mut coll = DocCoverageCollector::new();
    coll.per_file = vec![row("few.rs", 2, 0), row("good.rs", 4, 4), row("b.rs", 4, 1), row("a.rs", 8, 2), row("c.rs", 8, 1)];
    let keys: Vec<String> = coll.finalize().entries.into_iter().map(|e| e.key).collect();
    assert_eq!(keys, vec!["c.rs", "a.rs", "b.rs", "good.rs"]);
    assert_eq!(coverage_pct(&row("x", 8, 1)), 13);
    assert_eq!(coverage_pct(&row("x", 200, 29)), 14);
    assert_eq!(coverage_pct(&row("x", 40, 23)), 57);
    for public in 1..120u64 {
        for documented in 0..=public {
            let pct = ((documented as f64 / public as f64) * 100.0).round() as u32;
            assert_eq!(coverage_pct(&row("x", public, documented)), pct);
        }
    }
}

#[test]
fn only_sources_are_looked_at() {
    let mut coll = DocCoverageCollector::new();
    coll.inspect_blob("src/a.rs", b"pub fn a() {}\n");
    coll.inspect_blob("dist/a.js", b"export function a() {}\n");
    coll.inspect_blob("a.txt", b"pub fn a() {}\n");
    coll.inspect_blob("src/b.rs", b"\xff\xfe");
    assert_eq!(coll.per_file.len(), 1);
    assert_eq!(coll.per_file[0].public_items, 1);
}
