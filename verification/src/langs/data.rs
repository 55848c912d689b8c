//! The languages the library knows: how their files are named and how their
//! comments are written.

use vstd::prelude::*;

use super::further;

verus! {

/// What is known of one language.
#[derive(Debug, Clone, Copy)]
pub struct Language {
    pub name: &'static str,
    /// File names, or `*` and what a file name ends in.
    pub patterns: &'static [&'static str],
    pub line_comments: &'static [&'static str],
    pub block_comments: &'static [(&'static str, &'static str)],
    /// Whether block comments nest.
    pub nested_blocks: bool,
    pub keywords: &'static [&'static str],
    pub shebangs: &'static [&'static str],
}

/// The languages that are known best.
#[verifier::opaque]
pub open spec fn common_languages() -> Seq<Language> {
    seq![
        Language {
            name: "Apache Config",
            patterns: &["*.htaccess", "httpd.conf"],
            line_comments: &["#"],
            block_comments: &[],
            nested_blocks: false,
            keywords: &[],
            shebangs: &[],
        },
        Language {
            name: "AsciiDoc",
            patterns: &["*.adoc", "*.asciidoc"],
            line_comments: &["//"],
            block_comments: &[("////", "////")],
            nested_blocks: false,
            keywords: &[],
            shebangs: &[],
        },
        Language {
            name: "Bash",
            patterns: &["*.sh", "*.bash", ".bashrc", ".bash_profile"],
            line_comments: &["#"],
            block_comments: &[],
            nested_blocks: false,
            keywords: &["fi", "esac", "done", "echo"],
            shebangs: &["#!/usr/bin/env bash", "#!/bin/bash", "#!/usr/bin/bash", "#!/bin/sh", "#!/usr/bin/env sh"],
        },
        Language {
            name: "Batch",
            patterns: &["*.bat", "*.cmd"],
            line_comments: &["REM", "::"],
            block_comments: &[],
            nested_blocks: false,
            keywords: &[],
            shebangs: &[],
        },
        Language {
            name: "BibTeX",
            patterns: &["*.bib"],
            line_comments: &["%"],
            block_comments: &[],
            nested_blocks: false,
            keywords: &[],
            shebangs: &[],
        },
        Language {
            name: "C",
            patterns: &["*.c", "*.h"],
            line_comments: &["//"],
            block_comments: &[("/*", "*/")],
            nested_blocks: false,
            keywords: &["#include", "#define", "typedef", "struct"],
            shebangs: &[],
        },
        Language {
            name: "C#",
            patterns: &["*.cs"],
            line_comments: &["//"],
            block_comments: &[("/*", "*/")],
            nested_blocks: false,
            keywords: &["namespace", "using", "class"],
            shebangs: &[],
        },
        Language {
            name: "C++",
            patterns: &["*.cpp", "*.cc", "*.cxx", "*.hpp", "*.hh", "*.hxx"],
            line_comments: &["//"],
            block_comments: &[("/*", "*/")],
            nested_blocks: false,
            keywords: &["#include", "template", "namespace", "std::"],
            shebangs: &[],
        },
        Language {
            name: "CMake",
            patterns: &["CMakeLists.txt", "*.cmake"],
            line_comments: &["#"],
            block_comments: &[("#[[", "]]")],
            nested_blocks: false,
            keywords: &[],
            shebangs: &[],
        },
        Language {
            name: "CSS",
            patterns: &["*.css"],
            line_comments: &[],
            block_comments: &[("/*", "*/")],
            nested_blocks: false,
            keywords: &[],
            shebangs: &[],
        },
        Language {
            name: "CSV",
            patterns: &["*.csv"],
            line_comments: &[],
            block_comments: &[],
            nested_blocks: false,
            keywords: &[],
            shebangs: &[],
        },
        Language {
            name: "Clojure",
            patterns: &["*.clj", "*.cljs", "*.cljc"],
            line_comments: &[";"],
            block_comments: &[],
            nested_blocks: false,
            keywords: &[],
            shebangs: &[],
        },
        Language {
            name: "CoffeeScript",
            patterns: &["*.coffee"],
            line_comments: &["#"],
            block_comments: &[("###", "###")],
            nested_blocks: false,
            keywords: &[],
            shebangs: &["#!/usr/bin/env coffee"],
        },
        Language {
            name: "Dart",
            patterns: &["*.dart"],
            line_comments: &["//"],
            block_comments: &[("/*", "*/")],
            nested_blocks: true,
            keywords: &["library", "import", "class"],
            shebangs: &[],
        },
        Language {
            name: "Dockerfile",
            patterns: &["Dockerfile", "*.dockerfile"],
            line_comments: &["#"],
            block_comments: &[],
            nested_blocks: false,
            keywords: &[],
            shebangs: &[],
        },
        Language {
            name: "Dotenv",
            patterns: &[".env", "*.env"],
            line_comments: &["#"],
            block_comments: &[],
            nested_blocks: false,
            keywords: &[],
            shebangs: &[],
        },
        Language {
            name: "EditorConfig",
            patterns: &[".editorconfig"],
            line_comments: &["#", ";"],
            block_comments: &[],
            nested_blocks: false,
            keywords: &[],
            shebangs: &[],
        },
        Language {
            name: "Elixir",
            patterns: &["*.ex", "*.exs"],
            line_comments: &["#"],
            block_comments: &[],
            nested_blocks: false,
            keywords: &["defmodule", "def", "do"],
            shebangs: &["#!/usr/bin/env elixir"],
        },
        Language {
            name: "Elm",
            patterns: &["*.elm"],
            line_comments: &["--"],
            block_comments: &[("{-", "-}")],
            nested_blocks: true,
            keywords: &[],
            shebangs: &[],
        },
        Language {
            name: "Erlang",
            patterns: &["*.erl", "*.hrl"],
            line_comments: &["%"],
            block_comments: &[],
            nested_blocks: false,
            keywords: &[],
            shebangs: &[],
        },
        Language {
            name: "F#",
            patterns: &["*.fs", "*.fsi", "*.fsx"],
            line_comments: &["//"],
            block_comments: &[("(*", "*)")],
            nested_blocks: true,
            keywords: &[],
            shebangs: &[],
        },
        Language {
            name: "Go",
            patterns: &["*.go"],
            line_comments: &["//"],
            block_comments: &[("/*", "*/")],
            nested_blocks: false,
            keywords: &["package", "func", "import"],
            shebangs: &[],
        },
        Language {
            name: "GraphQL",
            patterns: &["*.graphql", "*.gql"],
            line_comments: &["#"],
            block_comments: &[],
            nested_blocks: false,
            keywords: &[],
            shebangs: &[],
        },
        Language {
            name: "Groovy",
            patterns: &["*.groovy", "*.gradle"],
            line_comments: &["//"],
            block_comments: &[("/*", "*/")],
            nested_blocks: false,
            keywords: &[],
            shebangs: &["#!/usr/bin/env groovy"],
        },
        Language {
            name: "HTML",
            patterns: &["*.html", "*.htm"],
            line_comments: &[],
            block_comments: &[("<!--", "-->")],
            nested_blocks: false,
            keywords: &[],
            shebangs: &[],
        },
        Language {
            name: "Haskell",
            patterns: &["*.hs"],
            line_comments: &["--"],
            block_comments: &[("{-", "-}")],
            nested_blocks: true,
            keywords: &[],
            shebangs: &[],
        },
        Language {
            name: "INI",
            patterns: &["*.ini", "*.cfg"],
            line_comments: &[";", "#"],
            block_comments: &[],
            nested_blocks: false,
            keywords: &[],
            shebangs: &[],
        },
        Language {
            name: "JSON",
            patterns: &["*.json"],
            line_comments: &[],
            block_comments: &[],
            nested_blocks: false,
            keywords: &[],
            shebangs: &[],
        },
        Language {
            name: "JSON5",
            patterns: &["*.json5"],
            line_comments: &["//"],
            block_comments: &[("/*", "*/")],
            nested_blocks: false,
            keywords: &[],
            shebangs: &[],
        },
        Language {
            name: "Java",
            patterns: &["*.java"],
            line_comments: &["//"],
            block_comments: &[("/*", "*/")],
            nested_blocks: false,
            keywords: &["package", "import", "class"],
            shebangs: &[],
        },
        Language {
            name: "JavaScript",
            patterns: &["*.js", "*.jsx", "*.mjs", "*.cjs"],
            line_comments: &["//"],
            block_comments: &[("/*", "*/")],
            nested_blocks: false,
            keywords: &["function", "const", "require"],
            shebangs: &["#!/usr/bin/env node"],
        },
        Language {
            name: "Julia",
            patterns: &["*.jl"],
            line_comments: &["#"],
            block_comments: &[("#=", "=#")],
            nested_blocks: true,
            keywords: &[],
            shebangs: &["#!/usr/bin/env julia"],
        },
        Language {
            name: "Kotlin",
            patterns: &["*.kt", "*.kts"],
            line_comments: &["//"],
            block_comments: &[("/*", "*/")],
            nested_blocks: true,
            keywords: &["fun", "val", "package"],
            shebangs: &[],
        },
        Language {
            name: "Less",
            patterns: &["*.less"],
            line_comments: &["//"],
            block_comments: &[("/*", "*/")],
            nested_blocks: false,
            keywords: &[],
            shebangs: &[],
        },
        Language {
            name: "Lua",
            patterns: &["*.lua"],
            line_comments: &["--"],
            block_comments: &[("--[[", "]]")],
            nested_blocks: false,
            keywords: &["local", "function", "end"],
            shebangs: &["#!/usr/bin/env lua"],
        },
        Language {
            name: "MATLAB",
            patterns: &["*.m"],
            line_comments: &["%"],
            block_comments: &[("%{", "%}")],
            nested_blocks: false,
            keywords: &["function", "end", "endfunction", "zeros"],
            shebangs: &[],
        },
        Language {
            name: "Makefile",
            patterns: &["Makefile", "GNUmakefile", "*.mk"],
            line_comments: &["#"],
            block_comments: &[],
            nested_blocks: false,
            keywords: &[],
            shebangs: &[],
        },
        Language {
            name: "Markdown",
            patterns: &["*.md", "*.markdown"],
            line_comments: &[],
            block_comments: &[("<!--", "-->")],
            nested_blocks: false,
            keywords: &[],
            shebangs: &[],
        },
        Language {
            name: "Nginx Config",
            patterns: &["nginx.conf"],
            line_comments: &["#"],
            block_comments: &[],
            nested_blocks: false,
            keywords: &[],
            shebangs: &[],
        },
        Language {
            name: "Nim",
            patterns: &["*.nim"],
            line_comments: &["#"],
            block_comments: &[("#[", "]#")],
            nested_blocks: true,
            keywords: &[],
            shebangs: &[],
        },
        Language {
            name: "Nix",
            patterns: &["*.nix"],
            line_comments: &["#"],
            block_comments: &[("/*", "*/")],
            nested_blocks: false,
            keywords: &[],
            shebangs: &[],
        },
        Language {
            name: "OCaml",
            patterns: &["*.ml", "*.mli"],
            line_comments: &[],
            block_comments: &[("(*", "*)")],
            nested_blocks: true,
            keywords: &[],
            shebangs: &[],
        },
        Language {
            name: "Objective-C",
            patterns: &["*.m", "*.mm"],
            line_comments: &["//"],
            block_comments: &[("/*", "*/")],
            nested_blocks: false,
            keywords: &["@interface", "@implementation", "@property", "@end", "#import"],
            shebangs: &[],
        },
        Language {
            name: "Org",
            patterns: &["*.org"],
            line_comments: &["# "],
            block_comments: &[],
            nested_blocks: false,
            keywords: &[],
            shebangs: &[],
        },
        Language {
            name: "PHP",
            patterns: &["*.php"],
            line_comments: &["//", "#"],
            block_comments: &[("/*", "*/")],
            nested_blocks: false,
            keywords: &["<?php", "function"],
            shebangs: &["#!/usr/bin/env php"],
        },
        Language {
            name: "Perl",
            patterns: &["*.pl", "*.pm"],
            line_comments: &["#"],
            block_comments: &[("=pod", "=cut")],
            nested_blocks: false,
            keywords: &["my", "sub", "use"],
            shebangs: &["#!/usr/bin/env perl", "#!/usr/bin/perl"],
        },
        Language {
            name: "PowerShell",
            patterns: &["*.ps1", "*.psm1"],
            line_comments: &["#"],
            block_comments: &[("<#", "#>")],
            nested_blocks: false,
            keywords: &[],
            shebangs: &[],
        },
        Language {
            name: "Protocol Buffers",
            patterns: &["*.proto"],
            line_comments: &["//"],
            block_comments: &[("/*", "*/")],
            nested_blocks: false,
            keywords: &[],
            shebangs: &[],
        },
        Language {
            name: "Python",
            patterns: &["*.py", "*.pyi", "*.pyw"],
            line_comments: &["#"],
            block_comments: &[("\"\"\"", "\"\"\""), ("'''", "'''")],
            nested_blocks: false,
            keywords: &["def", "import", "class"],
            shebangs: &["#!/usr/bin/env python", "#!/usr/bin/python", "#!/usr/local/bin/python"],
        },
        Language {
            name: "R",
            patterns: &["*.r"],
            line_comments: &["#"],
            block_comments: &[],
            nested_blocks: false,
            keywords: &[],
            shebangs: &["#!/usr/bin/env Rscript"],
        },
        Language {
            name: "Roff",
            patterns: &["*.man", "*.1"],
            line_comments: &[".\\\""],
            block_comments: &[],
            nested_blocks: false,
            keywords: &[],
            shebangs: &[],
        },
        Language {
            name: "Ruby",
            patterns: &["*.rb", "Rakefile", "*.rake", "*.gemspec"],
            line_comments: &["#"],
            block_comments: &[("=begin", "=end")],
            nested_blocks: false,
            keywords: &["def", "end", "require"],
            shebangs: &["#!/usr/bin/env ruby", "#!/usr/bin/ruby"],
        },
        Language {
            name: "Rust",
            patterns: &["*.rs"],
            line_comments: &["//"],
            block_comments: &[("/*", "*/")],
            nested_blocks: true,
            keywords: &["fn", "let", "impl"],
            shebangs: &[],
        },
        Language {
            name: "SCSS",
            patterns: &["*.scss"],
            line_comments: &["//"],
            block_comments: &[("/*", "*/")],
            nested_blocks: false,
            keywords: &[],
            shebangs: &[],
        },
        Language {
            name: "SQL",
            patterns: &["*.sql"],
            line_comments: &["--"],
            block_comments: &[("/*", "*/")],
            nested_blocks: false,
            keywords: &["select", "from", "where"],
            shebangs: &[],
        },
        Language {
            name: "SVG",
            patterns: &["*.svg"],
            line_comments: &[],
            block_comments: &[("<!--", "-->")],
            nested_blocks: false,
            keywords: &[],
            shebangs: &[],
        },
        Language {
            name: "Sass",
            patterns: &["*.sass"],
            line_comments: &["//"],
            block_comments: &[("/*", "*/")],
            nested_blocks: false,
            keywords: &[],
            shebangs: &[],
        },
        Language {
            name: "Scala",
            patterns: &["*.scala", "*.sc"],
            line_comments: &["//"],
            block_comments: &[("/*", "*/")],
            nested_blocks: true,
            keywords: &["object", "def", "val"],
            shebangs: &[],
        },
        Language {
            name: "Solidity",
            patterns: &["*.sol"],
            line_comments: &["//"],
            block_comments: &[("/*", "*/")],
            nested_blocks: false,
            keywords: &[],
            shebangs: &[],
        },
        Language {
            name: "Svelte",
            patterns: &["*.svelte"],
            line_comments: &["//"],
            block_comments: &[("<!--", "-->"), ("/*", "*/")],
            nested_blocks: false,
            keywords: &[],
            shebangs: &[],
        },
        Language {
            name: "Swift",
            patterns: &["*.swift"],
            line_comments: &["//"],
            block_comments: &[("/*", "*/")],
            nested_blocks: true,
            keywords: &["func", "import", "let"],
            shebangs: &["#!/usr/bin/env swift"],
        },
        Language {
            name: "TOML",
            patterns: &["*.toml"],
            line_comments: &["#"],
            block_comments: &[],
            nested_blocks: false,
            keywords: &[],
            shebangs: &[],
        },
        Language {
            name: "Terraform",
            patterns: &["*.tf", "*.tfvars"],
            line_comments: &["#", "//"],
            block_comments: &[("/*", "*/")],
            nested_blocks: false,
            keywords: &[],
            shebangs: &[],
        },
        Language {
            name: "Textile",
            patterns: &["*.textile"],
            line_comments: &[],
            block_comments: &[],
            nested_blocks: false,
            keywords: &[],
            shebangs: &[],
        },
        Language {
            name: "TypeScript",
            patterns: &["*.ts", "*.tsx", "*.mts", "*.cts"],
            line_comments: &["//"],
            block_comments: &[("/*", "*/")],
            nested_blocks: false,
            keywords: &["interface", "export", "const"],
            shebangs: &[],
        },
        Language {
            name: "Vim Script",
            patterns: &["*.vim", ".vimrc"],
            line_comments: &["\""],
            block_comments: &[],
            nested_blocks: false,
            keywords: &[],
            shebangs: &[],
        },
        Language {
            name: "Vue",
            patterns: &["*.vue"],
            line_comments: &["//"],
            block_comments: &[("<!--", "-->"), ("/*", "*/")],
            nested_blocks: false,
            keywords: &[],
            shebangs: &[],
        },
        Language {
            name: "WiX",
            patterns: &["*.wxs", "*.wxi"],
            line_comments: &[],
            block_comments: &[("<!--", "-->")],
            nested_blocks: false,
            keywords: &[],
            shebangs: &[],
        },
        Language {
            name: "XML",
            patterns: &["*.xml", "*.xsd", "*.xsl"],
            line_comments: &[],
            block_comments: &[("<!--", "-->")],
            nested_blocks: false,
            keywords: &[],
            shebangs: &[],
        },
        Language {
            name: "YAML",
            patterns: &["*.yaml", "*.yml"],
            line_comments: &["#"],
            block_comments: &[],
            nested_blocks: false,
            keywords: &[],
            shebangs: &[],
        },
        Language {
            name: "Zig",
            patterns: &["*.zig"],
            line_comments: &["//"],
            block_comments: &[],
            nested_blocks: false,
            keywords: &[],
            shebangs: &[],
        },
        Language {
            name: "reStructuredText",
            patterns: &["*.rst"],
            line_comments: &[".. "],
            block_comments: &[],
            nested_blocks: false,
            keywords: &[],
            shebangs: &[],
        },
    ]
}

fn common_list() -> (r: Vec<Language>)
    ensures
        r@ == common_languages(),
{
    let r: Vec<Language> = vec![
        Language {
            name: "Apache Config",
            patterns: &["*.htaccess", "httpd.conf"],
            line_comments: &["#"],
            block_comments: &[],
            nested_blocks: false,
            keywords: &[],
            shebangs: &[],
        },
        Language {
            name: "AsciiDoc",
            patterns: &["*.adoc", "*.asciidoc"],
            line_comments: &["//"],
            block_comments: &[("////", "////")],
            nested_blocks: false,
            keywords: &[],
            shebangs: &[],
        },
        Language {
            name: "Bash",
            patterns: &["*.sh", "*.bash", ".bashrc", ".bash_profile"],
            line_comments: &["#"],
            block_comments: &[],
            nested_blocks: false,
            keywords: &["fi", "esac", "done", "echo"],
            shebangs: &["#!/usr/bin/env bash", "#!/bin/bash", "#!/usr/bin/bash", "#!/bin/sh", "#!/usr/bin/env sh"],
        },
        Language {
            name: "Batch",
            patterns: &["*.bat", "*.cmd"],
            line_comments: &["REM", "::"],
            block_comments: &[],
            nested_blocks: false,
            keywords: &[],
            shebangs: &[],
        },
        Language {
            name: "BibTeX",
            patterns: &["*.bib"],
            line_comments: &["%"],
            block_comments: &[],
            nested_blocks: false,
            keywords: &[],
            shebangs: &[],
        },
        Language {
            name: "C",
            patterns: &["*.c", "*.h"],
            line_comments: &["//"],
            block_comments: &[("/*", "*/")],
            nested_blocks: false,
            keywords: &["#include", "#define", "typedef", "struct"],
            shebangs: &[],
        },
        Language {
            name: "C#",
            patterns: &["*.cs"],
            line_comments: &["//"],
            block_comments: &[("/*", "*/")],
            nested_blocks: false,
            keywords: &["namespace", "using", "class"],
            shebangs: &[],
        },
        Language {
            name: "C++",
            patterns: &["*.cpp", "*.cc", "*.cxx", "*.hpp", "*.hh", "*.hxx"],
            line_comments: &["//"],
            block_comments: &[("/*", "*/")],
            nested_blocks: false,
            keywords: &["#include", "template", "namespace", "std::"],
            shebangs: &[],
        },
        Language {
            name: "CMake",
            patterns: &["CMakeLists.txt", "*.cmake"],
            line_comments: &["#"],
            block_comments: &[("#[[", "]]")],
            nested_blocks: false,
            keywords: &[],
            shebangs: &[],
        },
        Language {
            name: "CSS",
            patterns: &["*.css"],
            line_comments: &[],
            block_comments: &[("/*", "*/")],
            nested_blocks: false,
            keywords: &[],
            shebangs: &[],
        },
        Language {
            name: "CSV",
            patterns: &["*.csv"],
            line_comments: &[],
            block_comments: &[],
            nested_blocks: false,
            keywords: &[],
            shebangs: &[],
        },
        Language {
            name: "Clojure",
            patterns: &["*.clj", "*.cljs", "*.cljc"],
            line_comments: &[";"],
            block_comments: &[],
            nested_blocks: false,
            keywords: &[],
            shebangs: &[],
        },
        Language {
            name: "CoffeeScript",
            patterns: &["*.coffee"],
            line_comments: &["#"],
            block_comments: &[("###", "###")],
            nested_blocks: false,
            keywords: &[],
            shebangs: &["#!/usr/bin/env coffee"],
        },
        Language {
            name: "Dart",
            patterns: &["*.dart"],
            line_comments: &["//"],
            block_comments: &[("/*", "*/")],
            nested_blocks: true,
            keywords: &["library", "import", "class"],
            shebangs: &[],
        },
        Language {
            name: "Dockerfile",
            patterns: &["Dockerfile", "*.dockerfile"],
            line_comments: &["#"],
            block_comments: &[],
            nested_blocks: false,
            keywords: &[],
            shebangs: &[],
        },
        Language {
            name: "Dotenv",
            patterns: &[".env", "*.env"],
            line_comments: &["#"],
            block_comments: &[],
            nested_blocks: false,
            keywords: &[],
            shebangs: &[],
        },
        Language {
            name: "EditorConfig",
            patterns: &[".editorconfig"],
            line_comments: &["#", ";"],
            block_comments: &[],
            nested_blocks: false,
            keywords: &[],
            shebangs: &[],
        },
        Language {
            name: "Elixir",
            patterns: &["*.ex", "*.exs"],
            line_comments: &["#"],
            block_comments: &[],
            nested_blocks: false,
            keywords: &["defmodule", "def", "do"],
            shebangs: &["#!/usr/bin/env elixir"],
        },
        Language {
            name: "Elm",
            patterns: &["*.elm"],
            line_comments: &["--"],
            block_comments: &[("{-", "-}")],
            nested_blocks: true,
            keywords: &[],
            shebangs: &[],
        },
        Language {
            name: "Erlang",
            patterns: &["*.erl", "*.hrl"],
            line_comments: &["%"],
            block_comments: &[],
            nested_blocks: false,
            keywords: &[],
            shebangs: &[],
        },
        Language {
            name: "F#",
            patterns: &["*.fs", "*.fsi", "*.fsx"],
            line_comments: &["//"],
            block_comments: &[("(*", "*)")],
            nested_blocks: true,
            keywords: &[],
            shebangs: &[],
        },
        Language {
            name: "Go",
            patterns: &["*.go"],
            line_comments: &["//"],
            block_comments: &[("/*", "*/")],
            nested_blocks: false,
            keywords: &["package", "func", "import"],
            shebangs: &[],
        },
        Language {
            name: "GraphQL",
            patterns: &["*.graphql", "*.gql"],
            line_comments: &["#"],
            block_comments: &[],
            nested_blocks: false,
            keywords: &[],
            shebangs: &[],
        },
        Language {
            name: "Groovy",
            patterns: &["*.groovy", "*.gradle"],
            line_comments: &["//"],
            block_comments: &[("/*", "*/")],
            nested_blocks: false,
            keywords: &[],
            shebangs: &["#!/usr/bin/env groovy"],
        },
        Language {
            name: "HTML",
            patterns: &["*.html", "*.htm"],
            line_comments: &[],
            block_comments: &[("<!--", "-->")],
            nested_blocks: false,
            keywords: &[],
            shebangs: &[],
        },
        Language {
            name: "Haskell",
            patterns: &["*.hs"],
            line_comments: &["--"],
            block_comments: &[("{-", "-}")],
            nested_blocks: true,
            keywords: &[],
            shebangs: &[],
        },
        Language {
            name: "INI",
            patterns: &["*.ini", "*.cfg"],
            line_comments: &[";", "#"],
            block_comments: &[],
            nested_blocks: false,
            keywords: &[],
            shebangs: &[],
        },
        Language {
            name: "JSON",
            patterns: &["*.json"],
            line_comments: &[],
            block_comments: &[],
            nested_blocks: false,
            keywords: &[],
            shebangs: &[],
        },
        Language {
            name: "JSON5",
            patterns: &["*.json5"],
            line_comments: &["//"],
            block_comments: &[("/*", "*/")],
            nested_blocks: false,
            keywords: &[],
            shebangs: &[],
        },
        Language {
            name: "Java",
            patterns: &["*.java"],
            line_comments: &["//"],
            block_comments: &[("/*", "*/")],
            nested_blocks: false,
            keywords: &["package", "import", "class"],
            shebangs: &[],
        },
        Language {
            name: "JavaScript",
            patterns: &["*.js", "*.jsx", "*.mjs", "*.cjs"],
            line_comments: &["//"],
            block_comments: &[("/*", "*/")],
            nested_blocks: false,
            keywords: &["function", "const", "require"],
            shebangs: &["#!/usr/bin/env node"],
        },
        Language {
            name: "Julia",
            patterns: &["*.jl"],
            line_comments: &["#"],
            block_comments: &[("#=", "=#")],
            nested_blocks: true,
            keywords: &[],
            shebangs: &["#!/usr/bin/env julia"],
        },
        Language {
            name: "Kotlin",
            patterns: &["*.kt", "*.kts"],
            line_comments: &["//"],
            block_comments: &[("/*", "*/")],
            nested_blocks: true,
            keywords: &["fun", "val", "package"],
            shebangs: &[],
        },
        Language {
            name: "Less",
            patterns: &["*.less"],
            line_comments: &["//"],
            block_comments: &[("/*", "*/")],
            nested_blocks: false,
            keywords: &[],
            shebangs: &[],
        },
        Language {
            name: "Lua",
            patterns: &["*.lua"],
            line_comments: &["--"],
            block_comments: &[("--[[", "]]")],
            nested_blocks: false,
            keywords: &["local", "function", "end"],
            shebangs: &["#!/usr/bin/env lua"],
        },
        Language {
            name: "MATLAB",
            patterns: &["*.m"],
            line_comments: &["%"],
            block_comments: &[("%{", "%}")],
            nested_blocks: false,
            keywords: &["function", "end", "endfunction", "zeros"],
            shebangs: &[],
        },
        Language {
            name: "Makefile",
            patterns: &["Makefile", "GNUmakefile", "*.mk"],
            line_comments: &["#"],
            block_comments: &[],
            nested_blocks: false,
            keywords: &[],
            shebangs: &[],
        },
        Language {
            name: "Markdown",
            patterns: &["*.md", "*.markdown"],
            line_comments: &[],
            block_comments: &[("<!--", "-->")],
            nested_blocks: false,
            keywords: &[],
            shebangs: &[],
        },
        Language {
            name: "Nginx Config",
            patterns: &["nginx.conf"],
            line_comments: &["#"],
            block_comments: &[],
            nested_blocks: false,
            keywords: &[],
            shebangs: &[],
        },
        Language {
            name: "Nim",
            patterns: &["*.nim"],
            line_comments: &["#"],
            block_comments: &[("#[", "]#")],
            nested_blocks: true,
            keywords: &[],
            shebangs: &[],
        },
        Language {
            name: "Nix",
            patterns: &["*.nix"],
            line_comments: &["#"],
            block_comments: &[("/*", "*/")],
            nested_blocks: false,
            keywords: &[],
            shebangs: &[],
        },
        Language {
            name: "OCaml",
            patterns: &["*.ml", "*.mli"],
            line_comments: &[],
            block_comments: &[("(*", "*)")],
            nested_blocks: true,
            keywords: &[],
            shebangs: &[],
        },
        Language {
            name: "Objective-C",
            patterns: &["*.m", "*.mm"],
            line_comments: &["//"],
            block_comments: &[("/*", "*/")],
            nested_blocks: false,
            keywords: &["@interface", "@implementation", "@property", "@end", "#import"],
            shebangs: &[],
        },
        Language {
            name: "Org",
            patterns: &["*.org"],
            line_comments: &["# "],
            block_comments: &[],
            nested_blocks: false,
            keywords: &[],
            shebangs: &[],
        },
        Language {
            name: "PHP",
            patterns: &["*.php"],
            line_comments: &["//", "#"],
            block_comments: &[("/*", "*/")],
            nested_blocks: false,
            keywords: &["<?php", "function"],
            shebangs: &["#!/usr/bin/env php"],
        },
        Language {
            name: "Perl",
            patterns: &["*.pl", "*.pm"],
            line_comments: &["#"],
            block_comments: &[("=pod", "=cut")],
            nested_blocks: false,
            keywords: &["my", "sub", "use"],
            shebangs: &["#!/usr/bin/env perl", "#!/usr/bin/perl"],
        },
        Language {
            name: "PowerShell",
            patterns: &["*.ps1", "*.psm1"],
            line_comments: &["#"],
            block_comments: &[("<#", "#>")],
            nested_blocks: false,
            keywords: &[],
            shebangs: &[],
        },
        Language {
            name: "Protocol Buffers",
            patterns: &["*.proto"],
            line_comments: &["//"],
            block_comments: &[("/*", "*/")],
            nested_blocks: false,
            keywords: &[],
            shebangs: &[],
        },
        Language {
            name: "Python",
            patterns: &["*.py", "*.pyi", "*.pyw"],
            line_comments: &["#"],
            block_comments: &[("\"\"\"", "\"\"\""), ("'''", "'''")],
            nested_blocks: false,
            keywords: &["def", "import", "class"],
            shebangs: &["#!/usr/bin/env python", "#!/usr/bin/python", "#!/usr/local/bin/python"],
        },
        Language {
            name: "R",
            patterns: &["*.r"],
            line_comments: &["#"],
            block_comments: &[],
            nested_blocks: false,
            keywords: &[],
            shebangs: &["#!/usr/bin/env Rscript"],
        },
        Language {
            name: "Roff",
            patterns: &["*.man", "*.1"],
            line_comments: &[".\\\""],
            block_comments: &[],
            nested_blocks: false,
            keywords: &[],
            shebangs: &[],
        },
        Language {
            name: "Ruby",
            patterns: &["*.rb", "Rakefile", "*.rake", "*.gemspec"],
            line_comments: &["#"],
            block_comments: &[("=begin", "=end")],
            nested_blocks: false,
            keywords: &["def", "end", "require"],
            shebangs: &["#!/usr/bin/env ruby", "#!/usr/bin/ruby"],
        },
        Language {
            name: "Rust",
            patterns: &["*.rs"],
            line_comments: &["//"],
            block_comments: &[("/*", "*/")],
            nested_blocks: true,
            keywords: &["fn", "let", "impl"],
            shebangs: &[],
        },
        Language {
            name: "SCSS",
            patterns: &["*.scss"],
            line_comments: &["//"],
            block_comments: &[("/*", "*/")],
            nested_blocks: false,
            keywords: &[],
            shebangs: &[],
        },
        Language {
            name: "SQL",
            patterns: &["*.sql"],
            line_comments: &["--"],
            block_comments: &[("/*", "*/")],
            nested_blocks: false,
            keywords: &["select", "from", "where"],
            shebangs: &[],
        },
        Language {
            name: "SVG",
            patterns: &["*.svg"],
            line_comments: &[],
            block_comments: &[("<!--", "-->")],
            nested_blocks: false,
            keywords: &[],
            shebangs: &[],
        },
        Language {
            name: "Sass",
            patterns: &["*.sass"],
            line_comments: &["//"],
            block_comments: &[("/*", "*/")],
            nested_blocks: false,
            keywords: &[],
            shebangs: &[],
        },
        Language {
            name: "Scala",
            patterns: &["*.scala", "*.sc"],
            line_comments: &["//"],
            block_comments: &[("/*", "*/")],
            nested_blocks: true,
            keywords: &["object", "def", "val"],
            shebangs: &[],
        },
        Language {
            name: "Solidity",
            patterns: &["*.sol"],
            line_comments: &["//"],
            block_comments: &[("/*", "*/")],
            nested_blocks: false,
            keywords: &[],
            shebangs: &[],
        },
        Language {
            name: "Svelte",
            patterns: &["*.svelte"],
            line_comments: &["//"],
            block_comments: &[("<!--", "-->"), ("/*", "*/")],
            nested_blocks: false,
            keywords: &[],
            shebangs: &[],
        },
        Language {
            name: "Swift",
            patterns: &["*.swift"],
            line_comments: &["//"],
            block_comments: &[("/*", "*/")],
            nested_blocks: true,
            keywords: &["func", "import", "let"],
            shebangs: &["#!/usr/bin/env swift"],
        },
        Language {
            name: "TOML",
            patterns: &["*.toml"],
            line_comments: &["#"],
            block_comments: &[],
            nested_blocks: false,
            keywords: &[],
            shebangs: &[],
        },
        Language {
            name: "Terraform",
            patterns: &["*.tf", "*.tfvars"],
            line_comments: &["#", "//"],
            block_comments: &[("/*", "*/")],
            nested_blocks: false,
            keywords: &[],
            shebangs: &[],
        },
        Language {
            name: "Textile",
            patterns: &["*.textile"],
            line_comments: &[],
            block_comments: &[],
            nested_blocks: false,
            keywords: &[],
            shebangs: &[],
        },
        Language {
            name: "TypeScript",
            patterns: &["*.ts", "*.tsx", "*.mts", "*.cts"],
            line_comments: &["//"],
            block_comments: &[("/*", "*/")],
            nested_blocks: false,
            keywords: &["interface", "export", "const"],
            shebangs: &[],
        },
        Language {
            name: "Vim Script",
            patterns: &["*.vim", ".vimrc"],
            line_comments: &["\""],
            block_comments: &[],
            nested_blocks: false,
            keywords: &[],
            shebangs: &[],
        },
        Language {
            name: "Vue",
            patterns: &["*.vue"],
            line_comments: &["//"],
            block_comments: &[("<!--", "-->"), ("/*", "*/")],
            nested_blocks: false,
            keywords: &[],
            shebangs: &[],
        },
        Language {
            name: "WiX",
            patterns: &["*.wxs", "*.wxi"],
            line_comments: &[],
            block_comments: &[("<!--", "-->")],
            nested_blocks: false,
            keywords: &[],
            shebangs: &[],
        },
        Language {
            name: "XML",
            patterns: &["*.xml", "*.xsd", "*.xsl"],
            line_comments: &[],
            block_comments: &[("<!--", "-->")],
            nested_blocks: false,
            keywords: &[],
            shebangs: &[],
        },
        Language {
            name: "YAML",
            patterns: &["*.yaml", "*.yml"],
            line_comments: &["#"],
            block_comments: &[],
            nested_blocks: false,
            keywords: &[],
            shebangs: &[],
        },
        Language {
            name: "Zig",
            patterns: &["*.zig"],
            line_comments: &["//"],
            block_comments: &[],
            nested_blocks: false,
            keywords: &[],
            shebangs: &[],
        },
        Language {
            name: "reStructuredText",
            patterns: &["*.rst"],
            line_comments: &[".. "],
            block_comments: &[],
            nested_blocks: false,
            keywords: &[],
            shebangs: &[],
        },
    ];
    proof {
        reveal(common_languages);
        assert(r@ =~= common_languages());
    }
    r
}

/// The known languages, in the order in which they are tried.
#[verifier::opaque]
pub open spec fn language_table() -> Seq<Language> {
    common_languages() + further::further_languages()
}

/// The known languages, in the order in which they are tried.
pub fn languages() -> (r: Vec<Language>)
    ensures
        r@ == language_table(),
{
    proof {
        reveal(language_table);
    }
    let mut r = common_list();
    further::push_further(&mut r);
    r
}

} // verus!
