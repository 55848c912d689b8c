use repo_analyzer::messages;
use repo_analyzer::metrics::fan_in_out::{
    classify, detect_lang, expand_rust_use, extract_imports, normalize_path, path_set, resolve_python, resolve_rust, resolve_ts,
    FanInOutCollector, Lang,
};
use repo_analyzer::table::TextMap;
use repo_analyzer::types::MetricValue;

fn paths(items: &[&str]) -> TextMap<bool> {
    let owned: Vec<String> = items.iter().map(|s| s.to_string()).collect();
    path_set(&owned)
}

#[test]
fn rust_use_crate_resolves() {
    let p = paths(&["src/foo/bar.rs", "src/lib.rs"]);
    let r = resolve_rust("crate::foo::bar::Thing", "src/lib.rs", &p);
    assert_eq!(r.as_deref(), Some("src/foo/bar.rs"));
}

#[test]
fn rust_external_use_skipped() {
    let p = paths(&["src/lib.rs"]);
    assert!(resolve_rust("anyhow::Result", "src/lib.rs", &p).is_none());
}

#[test]
fn rust_mod_decl_resolves_sibling() {
    let p = paths(&["src/parser/registry.rs", "src/parser/mod.rs"]);
    let r = resolve_rust("mod:registry", "src/parser/mod.rs", &p);
    assert_eq!(r.as_deref(), Some("src/parser/registry.rs"));
}

#[test]
fn python_dotted_resolves() {
    let p = paths(&["a/b.py", "a/__init__.py"]);
    assert_eq!(resolve_python("a.b", &p).as_deref(), Some("a/b.py"));
}

#[test]
fn ts_relative_resolves_with_extension() {
    let p = paths(&["src/lib/foo.ts", "src/index.ts"]);
    let r = resolve_ts("./lib/foo", "src/index.ts", &p);
    assert_eq!(r.as_deref(), Some("src/lib/foo.ts"));
}

#[test]
fn ts_external_skipped() {
    let p = paths(&["src/index.ts"]);
    assert!(resolve_ts("react", "src/index.ts", &p).is_none());
}

#[test]
fn extract_rust_uses() {
    let src = "use crate::a::b::C;\nuse std::collections::HashMap;\nmod foo;\n";
    let imps = extract_imports(Lang::Rust, src);
    assert!(imps.iter().any(|s| s == "crate::a::b::C"));
    assert!(imps.iter().any(|s| s == "std::collections::HashMap"));
    assert!(imps.iter().any(|s| s == "mod:foo"));
}

#[test]
fn rust_brace_group_expands_to_each_item() {
    // `use crate::foo::{bar, baz}` must resolve BOTH foo/bar.rs and
    // foo/baz.rs, not just the parent module. (finding #15)
    let imps = expand_rust_use("crate::foo::{bar, baz as qux, self}");
    assert!(imps.contains(&"crate::foo::bar".to_string()));
    assert!(imps.contains(&"crate::foo::baz".to_string()));
    assert!(imps.contains(&"crate::foo".to_string())); // `self`

    let p = paths(&["src/foo/bar.rs", "src/foo/baz.rs", "src/lib.rs"]);
    assert_eq!(
        resolve_rust("crate::foo::bar", "src/lib.rs", &p).as_deref(),
        Some("src/foo/bar.rs")
    );
    assert_eq!(
        resolve_rust("crate::foo::baz", "src/lib.rs", &p).as_deref(),
        Some("src/foo/baz.rs")
    );
}

#[test]
fn rust_super_resolves_relative_to_parent_module() {
    // `super::helper` from src/metrics/foo.rs must resolve src/metrics/helper.rs,
    // not src/helper.rs (the old crate-root behavior). (finding #15)
    let p = paths(&["src/metrics/foo.rs", "src/metrics/helper.rs", "src/lib.rs"]);
    assert_eq!(
        resolve_rust("super::helper::Thing", "src/metrics/foo.rs", &p).as_deref(),
        Some("src/metrics/helper.rs")
    );
}

#[test]
fn rust_self_resolves_into_own_module_dir() {
    // `self::sub` from src/metrics/foo.rs -> src/metrics/foo/sub.rs. (finding #15)
    let p = paths(&["src/metrics/foo.rs", "src/metrics/foo/sub.rs"]);
    assert_eq!(
        resolve_rust("self::sub::Thing", "src/metrics/foo.rs", &p).as_deref(),
        Some("src/metrics/foo/sub.rs")
    );
}

#[test]
fn classify_hub_vs_orchestrator() {
    assert_eq!(classify(10, 1).code, messages::FAN_IN_OUT_ROLE_HUB);
    assert_eq!(classify(0, 8).code, messages::FAN_IN_OUT_ROLE_ORCHESTRATOR);
    assert_eq!(classify(0, 0).code, messages::FAN_IN_OUT_ROLE_MIXED);
}

#[test]
fn python_plain_import_resolves() {
    let p = paths(&["pkg/mod.py", "pkg/__init__.py"]);
    assert_eq!(resolve_python("pkg.mod", &p).as_deref(), Some("pkg/mod.py"));
}

#[test]
fn python_init_module_resolves() {
    let p = paths(&["pkg/__init__.py"]);
    assert_eq!(
        resolve_python("pkg", &p).as_deref(),
        Some("pkg/__init__.py")
    );
}

#[test]
fn ts_deep_relative_resolves() {
    // importer src/a/b/x.ts; import "../../c/leaf" → src/c/leaf.ts
    let p = paths(&["src/c/leaf.ts", "src/a/b/x.ts"]);
    assert_eq!(
        resolve_ts("../../c/leaf", "src/a/b/x.ts", &p).as_deref(),
        Some("src/c/leaf.ts")
    );
}

#[test]
fn ts_index_file_resolves() {
    let p = paths(&["lib/utils/index.ts"]);
    assert_eq!(
        resolve_ts("./utils", "lib/main.ts", &p).as_deref(),
        Some("lib/utils/index.ts")
    );
}

#[test]
fn normalize_path_collapses_dots() {
    assert_eq!(normalize_path("a/./b"), "a/b");
    assert_eq!(normalize_path("a/b/../c"), "a/c");
    assert_eq!(normalize_path("./a"), "a");
}

#[test]
fn extract_python_imports_both_forms() {
    let src = "from a.b import x\nimport c.d\n# import not_a_real comment\n";
    let imps = extract_imports(Lang::Python, src);
    assert!(imps.iter().any(|s| s == "a.b"));
    assert!(imps.iter().any(|s| s == "c.d"));
}

#[test]
fn extract_ts_handles_require_and_import() {
    let src = "import x from './foo';\nconst y = require('./bar');\n";
    let imps = extract_imports(Lang::TypeScript, src);
    assert!(imps.iter().any(|s| s == "./foo"));
    assert!(imps.iter().any(|s| s == "./bar"));
}

#[test]
fn rust_use_picks_longest_resolvable_prefix() {
    // `crate::a::b::Symbol` should resolve to src/a/b.rs even though Symbol isn't a file
    let p = paths(&["src/a/b.rs", "src/a.rs"]);
    let r = resolve_rust("crate::a::b::Symbol", "src/lib.rs", &p);
    assert_eq!(r.as_deref(), Some("src/a/b.rs"));
}


#[test]
fn braces_that_do_not_match_are_taken_as_they_stand() {
    assert_eq!(expand_rust_use("a::b"), vec!["a::b".to_string()]);
    let _ = expand_rust_use("a::}b{");
}

#[test]
fn settled_paths_stay() {
    for p in ["a/../../b", "./x/./y", "a//b", ".."] {
        let once = normalize_path(p);
        assert_eq!(normalize_path(&once), once);
    }
}

#[test]
fn links_are_counted() {
    let p = paths(&["src/a.rs", "src/b.rs", "src/lib.rs"]);
    let mut coll = FanInOutCollector::new();
    coll.inspect_blob("src/lib.rs", b"mod a;\nmod b;\n", &p);
    coll.inspect_blob("src/b.rs", b"use crate::a::X;\nuse crate::a::Y;\n", &p);
    let result = coll.finalize();
    let a = result.entries.iter().find(|e| e.key == "src/a.rs").expect("a");
    assert!(matches!(a.values.get("fan_in"), Some(MetricValue::Count(3))));
    let lib = result.entries.iter().find(|e| e.key == "src/lib.rs").expect("lib");
    assert!(matches!(lib.values.get("fan_out"), Some(MetricValue::Count(2))));
}

#[test]
fn a_name_without_a_point_is_its_own_extension() {
    assert!(matches!(detect_lang("rs"), Some(Lang::Rust)));
    assert!(detect_lang("bin/rs").is_none());
    assert!(detect_lang("a.py").is_some());
}
