//! Tells source code from configuration, data and markup.
//!
//! Code-focused reports use it to drop paths like `pom.xml`,
//! `package-lock.json` or README files that are not refactorable source code
//! and would otherwise dominate rankings.
//!
//! The rules are conservative, what is unknown is not code:
//! 1. Paths ending in `.lock` are always data.
//! 2. Explicit non-source file names (lockfiles, CI state, docs) are rejected.
//! 3. File names with a content hash (`<name>.<hex8+>.<ext>`) are rejected.
//! 4. Paths with a conventional asset or build directory are rejected.
//! 5. Paths matching Linguist's vendor patterns are rejected.
//! 6. Otherwise the language decides: it must be known and not a data or
//!    markup language.

use vstd::prelude::*;

use crate::langs::detect_language_info;
use crate::langs::detection;
use crate::text;

verus! {

/// Languages treated as data, markup, docs or configuration without logic.
#[verifier::opaque]
pub open spec fn non_code_languages() -> Seq<&'static str> {
    seq![
        "Apache Config", "AsciiDoc", "BibTeX", "CSV", "Dotenv", "EditorConfig", "INI", "JSON",
        "JSON5", "Markdown", "Nginx Config", "Org", "reStructuredText", "Roff", "SVG", "Textile",
        "TOML", "WiX", "XML", "YAML",
    ]
}

fn non_code_languages_list() -> (r: [&'static str; 20])
    ensures
        r@ == non_code_languages(),
{
    let r: [&'static str; 20] = [
        "Apache Config", "AsciiDoc", "BibTeX", "CSV", "Dotenv", "EditorConfig", "INI", "JSON",
        "JSON5", "Markdown", "Nginx Config", "Org", "reStructuredText", "Roff", "SVG", "Textile",
        "TOML", "WiX", "XML", "YAML",
    ];
    proof {
        reveal(non_code_languages);
        assert(r@ =~= non_code_languages());
    }
    r
}

/// Directories that hold generated, vendored or asset content.
#[verifier::opaque]
pub open spec fn non_code_path_segments() -> Seq<&'static str> {
    seq![
        "/assets/", "/static/", "/public/", "/dist/", "/build/", "/.next/", "/out/",
        "/coverage/", "/target/",
    ]
}

fn non_code_path_segments_list() -> (r: [&'static str; 9])
    ensures
        r@ == non_code_path_segments(),
{
    let r: [&'static str; 9] = [
        "/assets/", "/static/", "/public/", "/dist/", "/build/", "/.next/", "/out/",
        "/coverage/", "/target/",
    ];
    proof {
        reveal(non_code_path_segments);
        assert(r@ =~= non_code_path_segments());
    }
    r
}

/// File names that are never source code, capitals or not.
#[verifier::opaque]
pub open spec fn non_code_filenames() -> Seq<&'static str> {
    seq![
        "package.json", "package-lock.json", "yarn.lock", "pnpm-lock.yaml", "bun.lockb",
        "npm-shrinkwrap.json", "Cargo.lock", "Pipfile", "Pipfile.lock", "poetry.lock", "uv.lock",
        "requirements.txt", "requirements-dev.txt", "go.mod", "go.sum", "Gemfile",
        "Gemfile.lock", "composer.json", "composer.lock", "mix.lock", "build.gradle",
        "build.gradle.kts", "settings.gradle", "settings.gradle.kts", "pom.xml", "Podfile",
        ".python-version", ".ruby-version", ".node-version", ".nvmrc", ".tool-versions",
        "LICENSE", "LICENCE", "COPYING", "NOTICE", "AUTHORS", "CONTRIBUTORS", "CHANGELOG",
        "CHANGES", "README", "HISTORY", ".gitignore", ".gitattributes", ".gitmodules",
        ".editorconfig", ".dockerignore", ".npmignore", ".prettierignore", ".eslintignore",
    ]
}

fn non_code_filenames_list() -> (r: [&'static str; 49])
    ensures
        r@ == non_code_filenames(),
{
    let r: [&'static str; 49] = [
        "package.json", "package-lock.json", "yarn.lock", "pnpm-lock.yaml", "bun.lockb",
        "npm-shrinkwrap.json", "Cargo.lock", "Pipfile", "Pipfile.lock", "poetry.lock", "uv.lock",
        "requirements.txt", "requirements-dev.txt", "go.mod", "go.sum", "Gemfile",
        "Gemfile.lock", "composer.json", "composer.lock", "mix.lock", "build.gradle",
        "build.gradle.kts", "settings.gradle", "settings.gradle.kts", "pom.xml", "Podfile",
        ".python-version", ".ruby-version", ".node-version", ".nvmrc", ".tool-versions",
        "LICENSE", "LICENCE", "COPYING", "NOTICE", "AUTHORS", "CONTRIBUTORS", "CHANGELOG",
        "CHANGES", "README", "HISTORY", ".gitignore", ".gitattributes", ".gitmodules",
        ".editorconfig", ".dockerignore", ".npmignore", ".prettierignore", ".eslintignore",
    ];
    proof {
        reveal(non_code_filenames);
        assert(r@ =~= non_code_filenames());
    }
    r
}

/// What `linguist::is_vendored` says of a path; `None` for an error.
pub uninterp spec fn linguist_vendored(path: Seq<char>) -> Option<bool>;

/// `linguist::is_vendored`: whether a path matches one of the crate's vendor
/// patterns. The answer depends on the path alone.
#[verifier::external_body]
fn is_vendored(path: &str) -> (r: Option<bool>)
    ensures
        r == linguist_vendored(path@),
{
    linguist::is_vendored(path).ok()
}

pub open spec fn is_hex_digit(c: char) -> bool {
    text::is_digit_ascii(c) || 'a' <= c <= 'f' || 'A' <= c <= 'F'
}

/// A file name of the shape `<name>.<hex8+>.<ext>`.
pub open spec fn has_content_hash(name: Seq<char>) -> bool {
    let parts = text::split_on(name, '.');
    let hash = parts[parts.len() - 2];
    parts.len() >= 3 && hash.len() >= 8 && forall|i: int|
        0 <= i < hash.len() ==> is_hex_digit(#[trigger] hash[i])
}

/// The file name is one of those that are never source code.
pub open spec fn is_non_code_name(name: Seq<char>) -> bool {
    exists|i: int|
        0 <= i < non_code_filenames().len() && text::lower_ascii(name) == text::lower_ascii(
            #[trigger] non_code_filenames()[i]@,
        )
}

/// The path leads through one of the asset or build directories.
pub open spec fn is_asset_path(path: Seq<char>) -> bool {
    exists|i: int|
        0 <= i < non_code_path_segments().len() && text::contains(
            "/"@ + path,
            #[trigger] non_code_path_segments()[i]@,
        )
}

pub open spec fn is_non_code_language(name: Seq<char>) -> bool {
    exists|i: int| 0 <= i < non_code_languages().len() && #[trigger] non_code_languages()[i]@ == name
}

/// The rules that need no more than the path itself.
pub open spec fn is_plain_source_path(path: Seq<char>) -> bool {
    let name = text::after_last(path, '/');
    &&& !".lock"@.is_suffix_of(name)
    &&& !is_non_code_name(name)
    &&& !has_content_hash(name)
    &&& !is_asset_path(path)
}

/// A path is that of source code, given whether it counts as vendored.
pub open spec fn is_source_given(path: Seq<char>, vendored: Option<bool>) -> bool {
    &&& is_plain_source_path(path)
    &&& vendored != Some(true)
    &&& match detection::detected(path, None) {
        Some(lang) => !is_non_code_language(lang.name@),
        None => false,
    }
}

/// A path is that of human-maintained source code.
pub open spec fn is_source(path: Seq<char>) -> bool {
    is_source_given(path, linguist_vendored(path))
}

/// Whether a file name has the shape `<name>.<hex8+>.<ext>`, as build output
/// has. `my.module.ts` has not: its middle is not hexadecimal.
#[must_use]
#[verifier::loop_isolation(false)]
pub fn is_content_hashed(name: &str) -> (r: bool)
    ensures
        r == has_content_hash(name@),
{
    let parts = text::split(name, '.');
    proof {
        assert(text::views(parts@).len() == parts@.len());
    }
    if parts.len() < 3 {
        return false;
    }
    proof {
        assert(text::views(parts@)[parts@.len() - 2] == parts@[parts@.len() - 2]@);
    }
    let hash = text::to_chars(parts[parts.len() - 2].as_str());
    if hash.len() < 8 {
        return false;
    }
    let mut i: usize = 0;
    while i < hash.len()
        invariant
            i <= hash@.len(),
            forall|k: int| 0 <= k < i ==> is_hex_digit(#[trigger] hash@[k]),
        decreases hash@.len() - i,
    {
        let c = hash[i];
        if !(('0' <= c && c <= '9') || ('a' <= c && c <= 'f') || ('A' <= c && c <= 'F')) {
            proof {
                assert(!is_hex_digit(hash@[i as int]));
            }
            return false;
        }
        i += 1;
    }
    true
}

fn has_non_code_name(name: &str) -> (r: bool)
    ensures
        r == is_non_code_name(name@),
{
    let names = non_code_filenames_list();
    let lower = text::to_lower_ascii(name);
    let mut i: usize = 0;
    while i < names.len()
        invariant
            i <= names@.len(),
            names@ == non_code_filenames(),
            lower@ == text::lower_ascii(name@),
            forall|k: int|
                0 <= k < i ==> text::lower_ascii(name@) != text::lower_ascii(
                    #[trigger] non_code_filenames()[k]@,
                ),
        decreases names@.len() - i,
    {
        let other = text::to_lower_ascii(names[i]);
        if text::same(lower.as_str(), other.as_str()) {
            proof {
                assert(non_code_filenames()[i as int] == names@[i as int]);
            }
            return true;
        }
        i += 1;
    }
    false
}

fn leads_through_assets(path: &str) -> (r: bool)
    ensures
        r == is_asset_path(path@),
{
    let segments = non_code_path_segments_list();
    let guarded = text::cat("/", path);
    let mut i: usize = 0;
    while i < segments.len()
        invariant
            i <= segments@.len(),
            segments@ == non_code_path_segments(),
            guarded@ == "/"@ + path@,
            forall|k: int|
                0 <= k < i ==> !text::contains(
                    guarded@,
                    #[trigger] non_code_path_segments()[k]@,
                ),
        decreases segments@.len() - i,
    {
        if text::has(guarded.as_str(), segments[i]) {
            proof {
                assert(non_code_path_segments()[i as int] == segments@[i as int]);
            }
            return true;
        }
        i += 1;
    }
    false
}

fn names_non_code_language(name: &str) -> (r: bool)
    ensures
        r == is_non_code_language(name@),
{
    let langs = non_code_languages_list();
    let mut i: usize = 0;
    while i < langs.len()
        invariant
            i <= langs@.len(),
            langs@ == non_code_languages(),
            forall|k: int| 0 <= k < i ==> #[trigger] non_code_languages()[k]@ != name@,
        decreases langs@.len() - i,
    {
        if text::same(langs[i], name) {
            proof {
                assert(non_code_languages()[i as int] == langs@[i as int]);
            }
            return true;
        }
        i += 1;
    }
    false
}

/// Whether a path is that of source code, given whether it counts as vendored.
/// An error in that question counts as no.
pub fn is_source_unless_vendored(path: &str, vendored: Option<bool>) -> (r: bool)
    ensures
        r == is_source_given(path@, vendored),
{
    let name = text::tail_after(path, '/');
    if text::ends_with(name.as_str(), ".lock") {
        return false;
    }
    if has_non_code_name(name.as_str()) || is_content_hashed(name.as_str())
        || leads_through_assets(path) {
        return false;
    }
    if let Some(true) = vendored {
        return false;
    }
    match detect_language_info(path, None) {
        Some(lang) => !names_non_code_language(lang.name),
        None => false,
    }
}

/// Whether a path looks like human-maintained source code that would be a
/// plausible refactoring target. Config, data, docs and lockfiles are not.
#[must_use]
pub fn is_source_file(path: &str) -> (r: bool)
    ensures
        r == is_source(path@),
{
    let vendored = is_vendored(path);
    is_source_unless_vendored(path, vendored)
}

/// No lockfile is source code, wherever it lies.
pub proof fn lockfiles_are_never_source(path: Seq<char>)
    requires
        ".lock"@.is_suffix_of(text::after_last(path, '/')),
    ensures
        !is_source(path),
{
}

/// A vendored path is never source code.
pub proof fn vendored_is_never_source(path: Seq<char>)
    requires
        linguist_vendored(path) == Some(true),
    ensures
        !is_source(path),
{
}

/// A file of no known language is not source code.
pub proof fn unknown_is_never_source(path: Seq<char>)
    requires
        detection::detected(path, None) is None,
    ensures
        !is_source(path),
{
}

/// What lies in a directory of assets or of build output is never source code.
pub proof fn assets_are_never_source(path: Seq<char>)
    ensures
        text::contains("/"@ + path, "/assets/"@) ==> !is_source(path),
        text::contains("/"@ + path, "/static/"@) ==> !is_source(path),
        text::contains("/"@ + path, "/public/"@) ==> !is_source(path),
        text::contains("/"@ + path, "/dist/"@) ==> !is_source(path),
        text::contains("/"@ + path, "/build/"@) ==> !is_source(path),
        text::contains("/"@ + path, "/.next/"@) ==> !is_source(path),
        text::contains("/"@ + path, "/out/"@) ==> !is_source(path),
        text::contains("/"@ + path, "/coverage/"@) ==> !is_source(path),
        text::contains("/"@ + path, "/target/"@) ==> !is_source(path),
        non_code_path_segments().len() == 9,
{
    reveal(non_code_path_segments);
    assert(non_code_path_segments()[0]@ == "/assets/"@);
    assert(non_code_path_segments()[1]@ == "/static/"@);
    assert(non_code_path_segments()[2]@ == "/public/"@);
    assert(non_code_path_segments()[3]@ == "/dist/"@);
    assert(non_code_path_segments()[4]@ == "/build/"@);
    assert(non_code_path_segments()[5]@ == "/.next/"@);
    assert(non_code_path_segments()[6]@ == "/out/"@);
    assert(non_code_path_segments()[7]@ == "/coverage/"@);
    assert(non_code_path_segments()[8]@ == "/target/"@);
}

/// Manifests, lists of dependencies, licences and settings are never source code,
/// in letters of either case.
pub proof fn manifests_are_never_source(path: Seq<char>)
    ensures
        ({
            let name = text::lower_ascii(text::after_last(path, '/'));
            name == text::lower_ascii("package.json"@)
                || name == text::lower_ascii("package-lock.json"@)
                || name == text::lower_ascii("yarn.lock"@)
                || name == text::lower_ascii("pnpm-lock.yaml"@)
                || name == text::lower_ascii("bun.lockb"@)
                || name == text::lower_ascii("npm-shrinkwrap.json"@)
                || name == text::lower_ascii("Cargo.lock"@)
                || name == text::lower_ascii("Pipfile"@)
                || name == text::lower_ascii("Pipfile.lock"@)
                || name == text::lower_ascii("poetry.lock"@)
                || name == text::lower_ascii("uv.lock"@)
                || name == text::lower_ascii("requirements.txt"@)
                || name == text::lower_ascii("requirements-dev.txt"@)
                || name == text::lower_ascii("go.mod"@)
                || name == text::lower_ascii("go.sum"@)
                || name == text::lower_ascii("Gemfile"@)
                || name == text::lower_ascii("Gemfile.lock"@)
                || name == text::lower_ascii("composer.json"@)
                || name == text::lower_ascii("composer.lock"@)
                || name == text::lower_ascii("mix.lock"@)
                || name == text::lower_ascii("build.gradle"@)
                || name == text::lower_ascii("build.gradle.kts"@)
                || name == text::lower_ascii("settings.gradle"@)
                || name == text::lower_ascii("settings.gradle.kts"@)
                || name == text::lower_ascii("pom.xml"@)
                || name == text::lower_ascii("Podfile"@)
                || name == text::lower_ascii(".python-version"@)
                || name == text::lower_ascii(".ruby-version"@)
                || name == text::lower_ascii(".node-version"@)
                || name == text::lower_ascii(".nvmrc"@)
                || name == text::lower_ascii(".tool-versions"@)
                || name == text::lower_ascii("LICENSE"@)
                || name == text::lower_ascii("LICENCE"@)
                || name == text::lower_ascii("COPYING"@)
                || name == text::lower_ascii("NOTICE"@)
                || name == text::lower_ascii("AUTHORS"@)
                || name == text::lower_ascii("CONTRIBUTORS"@)
                || name == text::lower_ascii("CHANGELOG"@)
                || name == text::lower_ascii("CHANGES"@)
                || name == text::lower_ascii("README"@)
                || name == text::lower_ascii("HISTORY"@)
                || name == text::lower_ascii(".gitignore"@)
                || name == text::lower_ascii(".gitattributes"@)
                || name == text::lower_ascii(".gitmodules"@)
                || name == text::lower_ascii(".editorconfig"@)
                || name == text::lower_ascii(".dockerignore"@)
                || name == text::lower_ascii(".npmignore"@)
                || name == text::lower_ascii(".prettierignore"@)
                || name == text::lower_ascii(".eslintignore"@) ==> !is_source(path)
        }),
        non_code_filenames().len() == 49,
{
    reveal(non_code_filenames);
    assert(non_code_filenames()[0]@ == "package.json"@);
    assert(non_code_filenames()[1]@ == "package-lock.json"@);
    assert(non_code_filenames()[2]@ == "yarn.lock"@);
    assert(non_code_filenames()[3]@ == "pnpm-lock.yaml"@);
    assert(non_code_filenames()[4]@ == "bun.lockb"@);
    assert(non_code_filenames()[5]@ == "npm-shrinkwrap.json"@);
    assert(non_code_filenames()[6]@ == "Cargo.lock"@);
    assert(non_code_filenames()[7]@ == "Pipfile"@);
    assert(non_code_filenames()[8]@ == "Pipfile.lock"@);
    assert(non_code_filenames()[9]@ == "poetry.lock"@);
    assert(non_code_filenames()[10]@ == "uv.lock"@);
    assert(non_code_filenames()[11]@ == "requirements.txt"@);
    assert(non_code_filenames()[12]@ == "requirements-dev.txt"@);
    assert(non_code_filenames()[13]@ == "go.mod"@);
    assert(non_code_filenames()[14]@ == "go.sum"@);
    assert(non_code_filenames()[15]@ == "Gemfile"@);
    assert(non_code_filenames()[16]@ == "Gemfile.lock"@);
    assert(non_code_filenames()[17]@ == "composer.json"@);
    assert(non_code_filenames()[18]@ == "composer.lock"@);
    assert(non_code_filenames()[19]@ == "mix.lock"@);
    assert(non_code_filenames()[20]@ == "build.gradle"@);
    assert(non_code_filenames()[21]@ == "build.gradle.kts"@);
    assert(non_code_filenames()[22]@ == "settings.gradle"@);
    assert(non_code_filenames()[23]@ == "settings.gradle.kts"@);
    assert(non_code_filenames()[24]@ == "pom.xml"@);
    assert(non_code_filenames()[25]@ == "Podfile"@);
    assert(non_code_filenames()[26]@ == ".python-version"@);
    assert(non_code_filenames()[27]@ == ".ruby-version"@);
    assert(non_code_filenames()[28]@ == ".node-version"@);
    assert(non_code_filenames()[29]@ == ".nvmrc"@);
    assert(non_code_filenames()[30]@ == ".tool-versions"@);
    assert(non_code_filenames()[31]@ == "LICENSE"@);
    assert(non_code_filenames()[32]@ == "LICENCE"@);
    assert(non_code_filenames()[33]@ == "COPYING"@);
    assert(non_code_filenames()[34]@ == "NOTICE"@);
    assert(non_code_filenames()[35]@ == "AUTHORS"@);
    assert(non_code_filenames()[36]@ == "CONTRIBUTORS"@);
    assert(non_code_filenames()[37]@ == "CHANGELOG"@);
    assert(non_code_filenames()[38]@ == "CHANGES"@);
    assert(non_code_filenames()[39]@ == "README"@);
    assert(non_code_filenames()[40]@ == "HISTORY"@);
    assert(non_code_filenames()[41]@ == ".gitignore"@);
    assert(non_code_filenames()[42]@ == ".gitattributes"@);
    assert(non_code_filenames()[43]@ == ".gitmodules"@);
    assert(non_code_filenames()[44]@ == ".editorconfig"@);
    assert(non_code_filenames()[45]@ == ".dockerignore"@);
    assert(non_code_filenames()[46]@ == ".npmignore"@);
    assert(non_code_filenames()[47]@ == ".prettierignore"@);
    assert(non_code_filenames()[48]@ == ".eslintignore"@);
}

/// Data, markup and documents are never source code.
pub proof fn documents_are_never_source(path: Seq<char>)
    ensures
        detection::detected(path, None) matches Some(lang) ==> (lang.name@ == "Apache Config"@
            || lang.name@ == "AsciiDoc"@
            || lang.name@ == "BibTeX"@
            || lang.name@ == "CSV"@
            || lang.name@ == "Dotenv"@
            || lang.name@ == "EditorConfig"@
            || lang.name@ == "INI"@
            || lang.name@ == "JSON"@
            || lang.name@ == "JSON5"@
            || lang.name@ == "Markdown"@
            || lang.name@ == "Nginx Config"@
            || lang.name@ == "Org"@
            || lang.name@ == "reStructuredText"@
            || lang.name@ == "Roff"@
            || lang.name@ == "SVG"@
            || lang.name@ == "Textile"@
            || lang.name@ == "TOML"@
            || lang.name@ == "WiX"@
            || lang.name@ == "XML"@
            || lang.name@ == "YAML"@ ==> !is_source(path)),
        non_code_languages().len() == 20,
{
    reveal(non_code_languages);
    assert(non_code_languages()[0]@ == "Apache Config"@);
    assert(non_code_languages()[1]@ == "AsciiDoc"@);
    assert(non_code_languages()[2]@ == "BibTeX"@);
    assert(non_code_languages()[3]@ == "CSV"@);
    assert(non_code_languages()[4]@ == "Dotenv"@);
    assert(non_code_languages()[5]@ == "EditorConfig"@);
    assert(non_code_languages()[6]@ == "INI"@);
    assert(non_code_languages()[7]@ == "JSON"@);
    assert(non_code_languages()[8]@ == "JSON5"@);
    assert(non_code_languages()[9]@ == "Markdown"@);
    assert(non_code_languages()[10]@ == "Nginx Config"@);
    assert(non_code_languages()[11]@ == "Org"@);
    assert(non_code_languages()[12]@ == "reStructuredText"@);
    assert(non_code_languages()[13]@ == "Roff"@);
    assert(non_code_languages()[14]@ == "SVG"@);
    assert(non_code_languages()[15]@ == "Textile"@);
    assert(non_code_languages()[16]@ == "TOML"@);
    assert(non_code_languages()[17]@ == "WiX"@);
    assert(non_code_languages()[18]@ == "XML"@);
    assert(non_code_languages()[19]@ == "YAML"@);
}

/// A name that carries a hash of the content is never that of source code: the
/// piece before the last is made of eight or more hexadecimal digits.
pub proof fn hashed_names_are_never_source(path: Seq<char>)
    ensures
        ({
            let parts = text::split_on(text::after_last(path, '/'), '.');
            parts.len() >= 3 && parts[parts.len() - 2].len() >= 8 && (forall|i: int|
                0 <= i < parts[parts.len() - 2].len() ==> {
                    let c = #[trigger] parts[parts.len() - 2][i];
                    '0' <= c <= '9' || 'a' <= c <= 'f' || 'A' <= c <= 'F'
                }) ==> !is_source(path)
        }),
{
}

/// Everything else in a language of code is source.
pub proof fn all_other_code_is_source(path: Seq<char>)
    requires
        !".lock"@.is_suffix_of(text::after_last(path, '/')),
        !is_non_code_name(text::after_last(path, '/')),
        !has_content_hash(text::after_last(path, '/')),
        !is_asset_path(path),
        linguist_vendored(path) != Some(true),
        detection::detected(path, None) is Some,
        !is_non_code_language(detection::detected(path, None)->0.name@),
    ensures
        is_source(path),
{
}

/// A name without such a piece carries no hash.
pub proof fn short_or_plain_pieces_are_no_hash(name: Seq<char>)
    ensures
        ({
            let parts = text::split_on(name, '.');
            &&& parts.len() < 3 ==> !has_content_hash(name)
            &&& parts.len() >= 3 && parts[parts.len() - 2].len() < 8 ==> !has_content_hash(name)
            &&& parts.len() >= 3 && (exists|i: int|
                0 <= i < parts[parts.len() - 2].len() && !is_hex_digit(
                    #[trigger] parts[parts.len() - 2][i],
                )) ==> !has_content_hash(name)
        }),
{
}

} // verus!
