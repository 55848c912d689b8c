use repo_analyzer::analysis::source_filter::{is_content_hashed, is_source_file, is_source_unless_vendored};

#[test]
fn rust_go_python_are_source() {
    assert!(is_source_file("src/main.rs"));
    assert!(is_source_file("cmd/api/main.go"));
    assert!(is_source_file("app/models.py"));
}

#[test]
fn frontend_sources_are_code() {
    assert!(is_source_file("web/src/App.tsx"));
    assert!(is_source_file("web/src/styles/main.scss"));
    assert!(is_source_file("web/index.html"));
}

#[test]
fn build_scripts_with_logic_are_code() {
    // Makefile / Dockerfile / CMake have logic — keep as code.
    assert!(is_source_file("Makefile"));
    assert!(is_source_file("Dockerfile"));
    assert!(is_source_file("CMakeLists.txt"));
}

#[test]
fn config_files_are_not_code() {
    assert!(!is_source_file("config.yaml"));
    assert!(!is_source_file(".github/workflows/ci.yml"));
    assert!(!is_source_file("pyproject.toml"));
    assert!(!is_source_file("tsconfig.json"));
}

#[test]
fn manifest_and_lockfiles_are_not_code() {
    assert!(!is_source_file("pom.xml"));
    assert!(!is_source_file("web/package.json"));
    assert!(!is_source_file("web/package-lock.json"));
    assert!(!is_source_file("Cargo.lock"));
    assert!(!is_source_file("vendor/foo.lock"));
    assert!(!is_source_file("go.sum"));
}

#[test]
fn build_manifests_across_ecosystems_rejected() {
    // Go modules — detected by linguist as a "Go Module" data language
    // in some versions; pin via exact filename for stability.
    assert!(!is_source_file("go.mod"));
    assert!(!is_source_file("cmd/api/go.mod"));

    // Gradle manifests — Groovy/Kotlin syntax but pure deps.
    assert!(!is_source_file("build.gradle"));
    assert!(!is_source_file("app/build.gradle"));
    assert!(!is_source_file("build.gradle.kts"));
    assert!(!is_source_file("settings.gradle"));
    assert!(!is_source_file("settings.gradle.kts"));

    // Ruby / PHP / Swift manifests.
    assert!(!is_source_file("Gemfile"));
    assert!(!is_source_file("project/Gemfile"));
    assert!(!is_source_file("composer.json"));
    assert!(!is_source_file("Podfile"));
    assert!(!is_source_file("ios/Podfile"));
}

#[test]
fn version_pin_files_rejected() {
    assert!(!is_source_file(".python-version"));
    assert!(!is_source_file(".ruby-version"));
    assert!(!is_source_file(".node-version"));
    assert!(!is_source_file(".nvmrc"));
    assert!(!is_source_file(".tool-versions"));
    assert!(!is_source_file("backend/.python-version"));
}

#[test]
fn build_scripts_with_real_logic_still_code() {
    // Regression guard: after adding manifest exact-match entries above,
    // nearby files that DO carry logic must remain classified as source.
    assert!(is_source_file("Rakefile"));
    assert!(is_source_file("Gulpfile.js"));
    assert!(is_source_file("webpack.config.js"));
    assert!(is_source_file("vite.config.ts"));
}

#[test]
fn docs_are_not_code() {
    assert!(!is_source_file("README.md"));
    assert!(!is_source_file("docs/guide.rst"));
    assert!(!is_source_file("LICENSE"));
    assert!(!is_source_file("CHANGELOG.md"));
}

#[test]
fn unknown_extensions_are_not_code() {
    assert!(!is_source_file("assets/logo.png"));
    assert!(!is_source_file("data/dump.bin"));
    assert!(!is_source_file("some.randomext"));
}

#[test]
fn nested_paths_resolve_correctly() {
    assert!(is_source_file("a/b/c/d.rs"));
    assert!(!is_source_file("a/b/c/config.yaml"));
}

#[test]
fn case_insensitive_filename_match() {
    assert!(!is_source_file("license"));
    assert!(!is_source_file("LICENSE.TXT".to_lowercase().as_str()));
}

#[test]
fn vendored_paths_dropped_by_linguist() {
    // Patterns that weren't in our hardcoded list but Linguist's
    // vendor.yml covers. Regression guard: if the linguist crate's
    // vendor patterns change in a way that stops catching these, the
    // signal for code-focused metrics regresses silently.
    assert!(!is_source_file("node_modules/react/index.js"));
    assert!(!is_source_file("vendor/bundle/gems/rails.rb"));
    assert!(!is_source_file("bower_components/jquery/jquery.js"));
    assert!(!is_source_file("web/dist/app.min.js"));
}

#[test]
fn asset_pipeline_paths_rejected() {
    // Real paths reported by users — vendored CSS/SCSS under
    // conventional asset directories that Linguist's vendor.yml does
    // not catch because the library name is unknown to Linguist.
    assert!(!is_source_file("eom-ui/assets/css/style.css"));
    assert!(!is_source_file(
        "eom-ui/assets/scss/theme/_custom-theme-options.scss"
    ));
    assert!(!is_source_file("eom-ui/assets/scss/icoicon/_icons.scss"));
    assert!(!is_source_file("eom-ui/assets/css/icofont.css"));
    assert!(!is_source_file("eom-ui/assets/scss/theme/_responsive.scss"));
    assert!(!is_source_file("eom-ui/assets/scss/theme/_rtl.scss"));
    assert!(!is_source_file("eom-ui/assets/css/flag-icon.css"));
    assert!(!is_source_file("eom-ui/assets/fonts/flag-icon/eg.svg"));
}

#[test]
fn conventional_build_and_static_folders_rejected() {
    assert!(!is_source_file("web/public/index.html"));
    assert!(!is_source_file("app/dist/bundle.js"));
    assert!(!is_source_file("packages/foo/build/out.js"));
    assert!(!is_source_file("site/.next/server/pages.js"));
    assert!(!is_source_file("proj/out/export.html"));
    assert!(!is_source_file("coverage/lcov-report/index.html"));
    assert!(!is_source_file("target/debug/deps/foo.d"));
    // Monorepo nesting still hits.
    assert!(!is_source_file(
        "apps/frontend/packages/ui/assets/theme.scss"
    ));
}

#[test]
fn content_hash_filenames_rejected() {
    // Webpack / rollup / vite content-hashed output.
    assert!(!is_source_file("ag.d70f5d9b5da738341efc.svg"));
    assert!(!is_source_file("main.4f8b2c9a.js"));
    assert!(!is_source_file("styles.a1b2c3d4e5f6.css"));
    assert!(!is_source_file("web/src/chunk.1234abcd.js"));
}

#[test]
fn non_hash_multi_dot_filenames_still_code() {
    // These have multi-dot filenames but the middle segment is not hex
    // — they must remain classified as source.
    assert!(is_source_file("src/my.module.ts"));
    assert!(is_source_file("web/src/foo.test.ts"));
    assert!(is_source_file("lib.v2.py"));
    assert!(is_source_file("web/src/Component.stories.tsx"));
}

#[test]
fn top_level_asset_dir_also_rejected() {
    // Not nested under another directory; our /-guarded substring
    // match still catches it.
    assert!(!is_source_file("assets/main.css"));
    assert!(!is_source_file("dist/bundle.js"));
    assert!(!is_source_file("public/favicon.ico"));
}


#[test]
fn what_is_vendored_is_given() {
    assert!(is_source_unless_vendored("src/main.rs", Some(false)));
    assert!(is_source_unless_vendored("src/main.rs", None));
    assert!(!is_source_unless_vendored("src/main.rs", Some(true)));
    assert!(!is_source_unless_vendored("config.yaml", Some(false)));
}

#[test]
fn hashes_have_eight_digits() {
    assert!(is_content_hashed("main.4f8b2c9a.js"));
    assert!(!is_content_hashed("main.4f8b2c9.js"));
    assert!(!is_content_hashed("4f8b2c9a.js"));
}
