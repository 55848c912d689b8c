//! How much of the public surface of each file is documented.

use vstd::prelude::*;

use crate::analysis::source_filter;
use crate::analysis::source_filter::is_source_file;
use crate::blob;
use crate::double;
use crate::double::Double;
use crate::messages;
use crate::order;
use crate::order::Ranked;
use crate::report;
use crate::report::Row;
use crate::syntax;
use crate::syntax::{
    is_kind, named_sibling_before, parent_of, parse, text_of_node, Grammar, NodeModel, SyntaxNode,
};
use crate::text;
use crate::types;
use crate::types::{EntryModel, LocalizedMessage, MessageModel, MetricEntry, MetricResult, MetricValue, ResultModel, Severity, ValueModel, Values};

verus! {

/// At most this many files are reported.
pub const MAX_FILES: usize = 200;

/// Files with fewer public items are left out.
pub const MIN_ITEMS: u64 = 3;

/// What makes an item public.
#[derive(Debug, Clone, Copy, PartialEq, Eq, Structural)]
pub enum VisibilityRule {
    /// A visibility modifier that starts with `pub`.
    RustPub,
    /// A name that does not start with an underscore.
    PythonNotUnderscore,
    /// An export around the item.
    JsExport,
    /// A name that starts with a capital letter.
    GoCapitalized,
    /// A modifier `public`.
    JavaPublicModifier,
    /// No modifier that says otherwise.
    KotlinDefaultPublic,
    /// A name that does not start with an underscore.
    DartNotUnderscore,
}

/// What documents an item.
#[derive(Debug, Clone, Copy, PartialEq, Eq, Structural)]
pub enum DocRule {
    /// A comment before it that starts with `///` or `/**`.
    TripleSlashOrBlockDoc,
    /// A text at the start of its body.
    PythonDocstring,
    /// A comment before it that starts with `/**`.
    BlockDoc,
    /// A comment before it that starts with `//`.
    GoLineComment,
}

/// What counts in a language.
#[derive(Debug, Clone, Copy)]
pub struct DocSpec {
    pub grammar: Grammar,
    pub item_kinds: &'static [&'static str],
    pub visibility: VisibilityRule,
    pub doc: DocRule,
}

#[verifier::opaque]
pub open spec fn doc_spec(g: Grammar) -> DocSpec {
    match g {
        Grammar::Rust => DocSpec {
            grammar: Grammar::Rust,
            item_kinds: &["function_item", "struct_item", "enum_item", "trait_item", "type_item", "mod_item"],
            visibility: VisibilityRule::RustPub,
            doc: DocRule::TripleSlashOrBlockDoc,
        },
        Grammar::Python => DocSpec {
            grammar: Grammar::Python,
            item_kinds: &["function_definition", "class_definition"],
            visibility: VisibilityRule::PythonNotUnderscore,
            doc: DocRule::PythonDocstring,
        },
        Grammar::TypeScript => DocSpec {
            grammar: Grammar::TypeScript,
            item_kinds: &["function_declaration", "class_declaration", "interface_declaration", "type_alias_declaration", "enum_declaration"],
            visibility: VisibilityRule::JsExport,
            doc: DocRule::BlockDoc,
        },
        Grammar::JavaScript => DocSpec {
            grammar: Grammar::JavaScript,
            item_kinds: &["function_declaration", "class_declaration", "generator_function_declaration"],
            visibility: VisibilityRule::JsExport,
            doc: DocRule::BlockDoc,
        },
        Grammar::Go => DocSpec {
            grammar: Grammar::Go,
            item_kinds: &["function_declaration", "method_declaration", "type_declaration"],
            visibility: VisibilityRule::GoCapitalized,
            doc: DocRule::GoLineComment,
        },
        Grammar::Java => DocSpec {
            grammar: Grammar::Java,
            item_kinds: &["method_declaration", "class_declaration", "interface_declaration", "enum_declaration"],
            visibility: VisibilityRule::JavaPublicModifier,
            doc: DocRule::BlockDoc,
        },
        Grammar::Kotlin => DocSpec {
            grammar: Grammar::Kotlin,
            item_kinds: &["function_declaration", "class_declaration", "object_declaration"],
            visibility: VisibilityRule::KotlinDefaultPublic,
            doc: DocRule::BlockDoc,
        },
        Grammar::Dart => DocSpec {
            grammar: Grammar::Dart,
            item_kinds: &["function_signature", "method_signature", "class_definition"],
            visibility: VisibilityRule::DartNotUnderscore,
            doc: DocRule::TripleSlashOrBlockDoc,
        },
        _ => DocSpec {
            grammar: g,
            item_kinds: &[],
            visibility: VisibilityRule::JsExport,
            doc: DocRule::BlockDoc,
        },
    }
}

/// What counts in a language: no item where documentation is not measured.
pub fn doc_spec_of(g: Grammar) -> (r: DocSpec)
    ensures
        r == doc_spec(g),
{
    proof {
        reveal(doc_spec);
    }
    match g {
        Grammar::Rust => DocSpec {
            grammar: Grammar::Rust,
            item_kinds: &["function_item", "struct_item", "enum_item", "trait_item", "type_item", "mod_item"],
            visibility: VisibilityRule::RustPub,
            doc: DocRule::TripleSlashOrBlockDoc,
        },
        Grammar::Python => DocSpec {
            grammar: Grammar::Python,
            item_kinds: &["function_definition", "class_definition"],
            visibility: VisibilityRule::PythonNotUnderscore,
            doc: DocRule::PythonDocstring,
        },
        Grammar::TypeScript => DocSpec {
            grammar: Grammar::TypeScript,
            item_kinds: &["function_declaration", "class_declaration", "interface_declaration", "type_alias_declaration", "enum_declaration"],
            visibility: VisibilityRule::JsExport,
            doc: DocRule::BlockDoc,
        },
        Grammar::JavaScript => DocSpec {
            grammar: Grammar::JavaScript,
            item_kinds: &["function_declaration", "class_declaration", "generator_function_declaration"],
            visibility: VisibilityRule::JsExport,
            doc: DocRule::BlockDoc,
        },
        Grammar::Go => DocSpec {
            grammar: Grammar::Go,
            item_kinds: &["function_declaration", "method_declaration", "type_declaration"],
            visibility: VisibilityRule::GoCapitalized,
            doc: DocRule::GoLineComment,
        },
        Grammar::Java => DocSpec {
            grammar: Grammar::Java,
            item_kinds: &["method_declaration", "class_declaration", "interface_declaration", "enum_declaration"],
            visibility: VisibilityRule::JavaPublicModifier,
            doc: DocRule::BlockDoc,
        },
        Grammar::Kotlin => DocSpec {
            grammar: Grammar::Kotlin,
            item_kinds: &["function_declaration", "class_declaration", "object_declaration"],
            visibility: VisibilityRule::KotlinDefaultPublic,
            doc: DocRule::BlockDoc,
        },
        Grammar::Dart => DocSpec {
            grammar: Grammar::Dart,
            item_kinds: &["function_signature", "method_signature", "class_definition"],
            visibility: VisibilityRule::DartNotUnderscore,
            doc: DocRule::TripleSlashOrBlockDoc,
        },
        _ => DocSpec {
            grammar: g,
            item_kinds: &[],
            visibility: VisibilityRule::JsExport,
            doc: DocRule::BlockDoc,
        },
    }
}

// ---------------------------------------------------------------------------
// Visibility
// ---------------------------------------------------------------------------

pub open spec fn is_export(kind: Seq<char>) -> bool {
    kind == "export_statement"@ || kind == "export_declaration"@
}

pub open spec fn is_top(kind: Seq<char>) -> bool {
    kind == "program"@ || kind == "source_file"@ || kind == "module"@
}

/// Whether an export stands among the next `left` nodes from `at` upwards,
/// before the top.
pub open spec fn exported_from(ns: Seq<NodeModel>, at: Option<int>, left: nat) -> bool
    decreases left,
{
    match at {
        Some(p) => left > 0 && (is_export(ns[p].kind) || (!is_top(ns[p].kind) && exported_from(
            ns,
            syntax::parent(ns, p),
            (left - 1) as nat,
        ))),
        None => false,
    }
}

/// A node of that kind whose text starts with the word, after white space, or
/// holds it.
pub open spec fn says(source: Seq<char>, kind: Seq<char>, word: Seq<char>, leading: bool) -> spec_fn(
    NodeModel,
) -> bool {
    |n: NodeModel|
        n.kind == kind && if leading {
            word.is_prefix_of(text::trim_start(syntax::node_text(source, n)))
        } else {
            text::contains(syntax::node_text(source, n), word)
        }
}

/// Whether the head of a declaration names that modifier.
pub open spec fn names_modifier(head: Seq<char>, word: Seq<char>) -> bool {
    text::contains(head, " "@ + word + " "@) || (word + " "@).is_prefix_of(head)
}

pub open spec fn name_text(ns: Seq<NodeModel>, source: Seq<char>, i: int) -> Option<Seq<char>> {
    match syntax::first_child(ns, syntax::has_field("name"@), i) {
        Some(c) => Some(syntax::node_text(source, ns[c])),
        None => None,
    }
}

/// Whether an item is public.
pub open spec fn public_item(
    ns: Seq<NodeModel>,
    source: Seq<char>,
    rule: VisibilityRule,
    i: int,
) -> bool {
    match rule {
        VisibilityRule::RustPub => syntax::first_child(
            ns,
            says(source, "visibility_modifier"@, "pub"@, true),
            i,
        ) is Some,
        VisibilityRule::PythonNotUnderscore | VisibilityRule::DartNotUnderscore => match name_text(
            ns,
            source,
            i,
        ) {
            Some(s) => !"_"@.is_prefix_of(s),
            None => false,
        },
        VisibilityRule::JsExport => exported_from(ns, syntax::parent(ns, i), 3) || "export "@.is_prefix_of(
            text::trim_start(syntax::node_text(source, ns[i])),
        ),
        VisibilityRule::GoCapitalized => match name_text(ns, source, i) {
            Some(s) => s.len() > 0 && text::is_upper_ascii(s[0]),
            None => false,
        },
        VisibilityRule::JavaPublicModifier => syntax::first_child(
            ns,
            says(source, "modifiers"@, "public"@, false),
            i,
        ) is Some,
        VisibilityRule::KotlinDefaultPublic => {
            let head = text::before_first(syntax::node_text(source, ns[i]), "{"@);
            !(names_modifier(head, "private"@) || names_modifier(head, "internal"@)
                || names_modifier(head, "protected"@))
        },
    }
}

fn is_exported(nodes: &[SyntaxNode], i: usize) -> (r: bool)
    requires
        i < nodes@.len(),
    ensures
        r == exported_from(
            syntax::node_models(nodes@),
            syntax::parent(syntax::node_models(nodes@), i as int),
            3,
        ),
{
    let ghost ns = syntax::node_models(nodes@);
    let ghost goal = exported_from(ns, syntax::parent(ns, i as int), 3);
    let mut at = i;
    let mut left: u64 = 3;
    while left > 0
        invariant
            ns == syntax::node_models(nodes@),
            at < nodes@.len(),
            left <= 3,
            goal == exported_from(ns, syntax::parent(ns, i as int), 3),
            goal == exported_from(ns, syntax::parent(ns, at as int), left as nat),
        decreases left,
    {
        match parent_of(nodes, at) {
            Some(p) => {
                let kind = nodes[p].kind.as_str();
                proof {
                    assert(ns[p as int] == nodes@[p as int]@);
                }
                if text::same(kind, "export_statement") || text::same(kind, "export_declaration") {
                    return true;
                }
                if text::same(kind, "program") || text::same(kind, "source_file") || text::same(
                    kind,
                    "module",
                ) {
                    return false;
                }
                at = p;
                left -= 1;
            },
            None => {
                return false;
            },
        }
    }
    false
}

fn has_child_saying(
    nodes: &[SyntaxNode],
    ends: &[usize],
    source: &str,
    i: usize,
    kind: &str,
    word: &str,
    leading: bool,
) -> (r: bool)
    requires
        syntax::are_ends(ends@, syntax::node_models(nodes@)),
        i < nodes@.len(),
    ensures
        r == (syntax::first_child(
            syntax::node_models(nodes@),
            says(source@, kind@, word@, leading),
            i as int,
        ) is Some),
{
    let ghost ns = syntax::node_models(nodes@);
    let ghost f = says(source@, kind@, word@, leading);
    let end: usize = ends[i];
    proof {
        syntax::lemma_end_of(ns, i as int);
    }
    let mut j: usize = i + 1;
    while j < end
        invariant
            ns == syntax::node_models(nodes@),
            i < nodes@.len(),
            end == syntax::end_of(ns, i as int),
            end <= nodes@.len(),
            i < j <= end,
            f == says(source@, kind@, word@, leading),
            syntax::first_child(ns, f, i as int) == syntax::child_from(ns, f, i as int, j as int),
        decreases end - j,
    {
        proof {
            assert(ns[j as int] == nodes@[j as int]@);
            assert(ns[i as int].depth == nodes@[i as int].depth);
        }
        if nodes[j].depth > nodes[i].depth && nodes[j].depth - nodes[i].depth == 1 && text::same(
            nodes[j].kind.as_str(),
            kind,
        ) {
            let s = text_of_node(source, &nodes[j]);
            let yes = if leading {
                let t = text::trimmed_start(s);
                text::starts_with(t.as_str(), word)
            } else {
                text::has(s, word)
            };
            if yes {
                return true;
            }
        }
        j += 1;
    }
    false
}

fn head_names(head: &str, word: &str) -> (r: bool)
    ensures
        r == names_modifier(head@, word@),
{
    let inner = text::cat3(" ", word, " ");
    let lead = text::cat(word, " ");
    text::has(head, inner.as_str()) || text::starts_with(head, lead.as_str())
}

/// Whether an item is public.
pub fn is_public(
    nodes: &[SyntaxNode],
    ends: &[usize],
    source: &str,
    rule: VisibilityRule,
    i: usize,
) -> (r: bool)
    requires
        syntax::are_ends(ends@, syntax::node_models(nodes@)),
        i < nodes@.len(),
    ensures
        r == public_item(syntax::node_models(nodes@), source@, rule, i as int),
{
    let ghost ns = syntax::node_models(nodes@);
    proof {
        assert(ns[i as int] == nodes@[i as int]@);
    }
    match rule {
        VisibilityRule::RustPub => has_child_saying(
            nodes,
            ends,
            source,
            i,
            "visibility_modifier",
            "pub",
            true,
        ),
        VisibilityRule::PythonNotUnderscore
        | VisibilityRule::DartNotUnderscore => match syntax::child_by_field(
            nodes,
            ends,
            i,
            "name",
        ) {
            Some(c) => {
                proof {
                    assert(ns[c as int] == nodes@[c as int]@);
                }
                !text::starts_with(text_of_node(source, &nodes[c]), "_")
            },
            None => false,
        },
        VisibilityRule::JsExport => {
            if is_exported(nodes, i) {
                true
            } else {
                let s = text::trimmed_start(text_of_node(source, &nodes[i]));
                text::starts_with(s.as_str(), "export ")
            }
        },
        VisibilityRule::GoCapitalized => match syntax::child_by_field(nodes, ends, i, "name") {
            Some(c) => {
                proof {
                    assert(ns[c as int] == nodes@[c as int]@);
                }
                let s = text::to_chars(text_of_node(source, &nodes[c]));
                s.len() > 0 && 'A' <= s[0] && s[0] <= 'Z'
            },
            None => false,
        },
        VisibilityRule::JavaPublicModifier => has_child_saying(
            nodes,
            ends,
            source,
            i,
            "modifiers",
            "public",
            false,
        ),
        VisibilityRule::KotlinDefaultPublic => {
            let head = text::head_before_first(text_of_node(source, &nodes[i]), "{");
            !(head_names(head.as_str(), "private") || head_names(head.as_str(), "internal")
                || head_names(head.as_str(), "protected"))
        },
    }
}

// ---------------------------------------------------------------------------
// Documentation
// ---------------------------------------------------------------------------

pub open spec fn is_wrapper(kind: Seq<char>) -> bool {
    is_export(kind) || kind == "decorated_definition"@
}

/// The outermost of the exports and decorators around an item, which is where
/// its documentation stands.
pub open spec fn wrapper(ns: Seq<NodeModel>, i: int) -> int
    decreases i,
{
    match syntax::parent(ns, i) {
        Some(p) => if 0 <= p < i && is_wrapper(ns[p].kind) {
            wrapper(ns, p)
        } else {
            i
        },
        None => i,
    }
}

fn outermost_wrapper(nodes: &[SyntaxNode], i: usize) -> (r: usize)
    requires
        i < nodes@.len(),
    ensures
        r == wrapper(syntax::node_models(nodes@), i as int),
        r < nodes@.len(),
{
    let ghost ns = syntax::node_models(nodes@);
    let mut at = i;
    loop
        invariant
            ns == syntax::node_models(nodes@),
            at < nodes@.len(),
            wrapper(ns, at as int) == wrapper(ns, i as int),
        decreases at,
    {
        match parent_of(nodes, at) {
            Some(p) => {
                let kind = nodes[p].kind.as_str();
                proof {
                    assert(ns[p as int] == nodes@[p as int]@);
                }
                if text::same(kind, "export_statement") || text::same(kind, "export_declaration")
                    || text::same(kind, "decorated_definition") {
                    at = p;
                } else {
                    return at;
                }
            },
            None => {
                return at;
            },
        }
    }
}

/// Whether a comment documents what follows it.
pub open spec fn documents(rule: DocRule, kind: Seq<char>, s: Seq<char>) -> bool {
    let t = text::trim_start(s);
    match rule {
        DocRule::TripleSlashOrBlockDoc => ((kind == "line_comment"@ || kind == "comment"@ || kind
            == "documentation_comment"@) && "///"@.is_prefix_of(t)) || ((kind == "block_comment"@
            || kind == "comment"@) && "/**"@.is_prefix_of(t)),
        DocRule::BlockDoc => (kind == "block_comment"@ || kind == "comment"@ || kind
            == "multiline_comment"@) && "/**"@.is_prefix_of(t),
        DocRule::GoLineComment => kind == "comment"@ && "//"@.is_prefix_of(t),
        DocRule::PythonDocstring => false,
    }
}

/// Whether the body of an item starts with a text.
pub open spec fn has_docstring(ns: Seq<NodeModel>, i: int) -> bool {
    match syntax::first_child(ns, syntax::has_field("body"@), i) {
        Some(b) => match syntax::first_child(ns, syntax::is_named_node(), b) {
            Some(f) => ns[f].kind == "expression_statement"@ && match syntax::first_child(
                ns,
                syntax::is_named_node(),
                f,
            ) {
                Some(t) => ns[t].kind == "string"@ || ns[t].kind == "concatenated_string"@,
                None => false,
            },
            None => false,
        },
        None => false,
    }
}

/// Whether node `i` is documented.
pub open spec fn documented_node(
    ns: Seq<NodeModel>,
    source: Seq<char>,
    rule: DocRule,
    i: int,
) -> bool {
    match rule {
        DocRule::PythonDocstring => has_docstring(ns, i),
        _ => match syntax::prev_named_sibling(ns, i) {
            Some(p) => documents(rule, ns[p].kind, syntax::node_text(source, ns[p])),
            None => false,
        },
    }
}

fn is_doc_comment(rule: DocRule, kind: &str, s: &str) -> (r: bool)
    ensures
        r == documents(rule, kind@, s@),
{
    let t = text::trimmed_start(s);
    match rule {
        DocRule::TripleSlashOrBlockDoc => ((text::same(kind, "line_comment") || text::same(
            kind,
            "comment",
        ) || text::same(kind, "documentation_comment")) && text::starts_with(t.as_str(), "///"))
            || ((text::same(kind, "block_comment") || text::same(kind, "comment"))
            && text::starts_with(t.as_str(), "/**")),
        DocRule::BlockDoc => (text::same(kind, "block_comment") || text::same(kind, "comment")
            || text::same(kind, "multiline_comment")) && text::starts_with(t.as_str(), "/**"),
        DocRule::GoLineComment => text::same(kind, "comment") && text::starts_with(
            t.as_str(),
            "//",
        ),
        DocRule::PythonDocstring => false,
    }
}

fn starts_with_text(nodes: &[SyntaxNode], ends: &[usize], i: usize) -> (r: bool)
    requires
        syntax::are_ends(ends@, syntax::node_models(nodes@)),
        i < nodes@.len(),
    ensures
        r == has_docstring(syntax::node_models(nodes@), i as int),
{
    let ghost ns = syntax::node_models(nodes@);
    let body = match syntax::child_by_field(nodes, ends, i, "body") {
        Some(b) => b,
        None => {
            return false;
        },
    };
    let first = match syntax::first_named_child(nodes, ends, body) {
        Some(f) => f,
        None => {
            return false;
        },
    };
    proof {
        assert(ns[first as int] == nodes@[first as int]@);
    }
    if !text::same(nodes[first].kind.as_str(), "expression_statement") {
        return false;
    }
    match syntax::first_named_child(nodes, ends, first) {
        Some(t) => {
            proof {
                assert(ns[t as int] == nodes@[t as int]@);
            }
            let kind = nodes[t].kind.as_str();
            text::same(kind, "string") || text::same(kind, "concatenated_string")
        },
        None => false,
    }
}

/// Whether a node is documented.
pub fn has_doc(
    nodes: &[SyntaxNode],
    ends: &[usize],
    source: &str,
    rule: DocRule,
    i: usize,
) -> (r: bool)
    requires
        syntax::are_ends(ends@, syntax::node_models(nodes@)),
        i < nodes@.len(),
    ensures
        r == documented_node(syntax::node_models(nodes@), source@, rule, i as int),
{
    let ghost ns = syntax::node_models(nodes@);
    if rule == DocRule::PythonDocstring {
        return starts_with_text(nodes, ends, i);
    }
    match named_sibling_before(nodes, i) {
        Some(p) => {
            proof {
                assert(ns[p as int] == nodes@[p as int]@);
            }
            is_doc_comment(rule, nodes[p].kind.as_str(), text_of_node(source, &nodes[p]))
        },
        None => false,
    }
}

// ---------------------------------------------------------------------------
// Files
// ---------------------------------------------------------------------------

pub open spec fn counts_item(spec: DocSpec, source: Seq<char>, ns: Seq<NodeModel>, i: int) -> bool {
    syntax::kinds_of(spec.item_kinds).contains(ns[i].kind) && public_item(
        ns,
        source,
        spec.visibility,
        i,
    )
}

/// How many of the first `n` nodes are public items.
pub open spec fn public_count(spec: DocSpec, source: Seq<char>, ns: Seq<NodeModel>, n: int) -> int
    decreases n,
{
    if n <= 0 {
        0
    } else {
        public_count(spec, source, ns, n - 1) + if counts_item(spec, source, ns, n - 1) {
            1int
        } else {
            0
        }
    }
}

/// How many of the first `n` nodes are public items with documentation.
pub open spec fn documented_count(
    spec: DocSpec,
    source: Seq<char>,
    ns: Seq<NodeModel>,
    n: int,
) -> int
    decreases n,
{
    if n <= 0 {
        0
    } else {
        documented_count(spec, source, ns, n - 1) + if counts_item(spec, source, ns, n - 1)
            && documented_node(ns, source, spec.doc, wrapper(ns, n - 1)) {
            1int
        } else {
            0
        }
    }
}

/// No more items are documented than there are.
pub proof fn documented_are_public(spec: DocSpec, source: Seq<char>, ns: Seq<NodeModel>, n: int)
    requires
        n >= 0,
    ensures
        0 <= documented_count(spec, source, ns, n) <= public_count(spec, source, ns, n) <= n,
    decreases n,
{
    if n > 0 {
        documented_are_public(spec, source, ns, n - 1);
    }
}

/// The public items of a file.
#[derive(Debug)]
pub struct FileRow {
    pub file: String,
    pub language: &'static str,
    pub public_items: u64,
    pub documented: u64,
}

pub struct FileRowModel {
    pub file: Seq<char>,
    pub language: Seq<char>,
    pub public_items: int,
    pub documented: int,
}

impl View for FileRow {
    type V = FileRowModel;

    open spec fn view(&self) -> FileRowModel {
        FileRowModel {
            file: self.file@,
            language: self.language@,
            public_items: self.public_items as int,
            documented: self.documented as int,
        }
    }
}

pub open spec fn row_of(spec: DocSpec, file: Seq<char>, source: Seq<char>, ns: Seq<NodeModel>) ->
    FileRowModel {
    FileRowModel {
        file,
        language: syntax::grammar_name(spec.grammar),
        public_items: public_count(spec, source, ns, ns.len() as int),
        documented: documented_count(spec, source, ns, ns.len() as int),
    }
}

/// Counts the public items of a source, given the nodes of its syntax tree.
pub fn count_items(spec: &DocSpec, file: &str, source: &str, nodes: &[SyntaxNode]) -> (r: FileRow)
    ensures
        r@ == row_of(*spec, file@, source@, syntax::node_models(nodes@)),
{
    let ghost ns = syntax::node_models(nodes@);
    let ends = syntax::subtree_ends(nodes);
    let n: usize = nodes.len();
    let mut public: u64 = 0;
    let mut documented: u64 = 0;
    let mut i: usize = 0;
    while i < n
        invariant
            n == nodes@.len(),
            ns == syntax::node_models(nodes@),
            syntax::are_ends(ends@, ns),
            i <= n,
            documented <= public <= i,
            public == public_count(*spec, source@, ns, i as int),
            documented == documented_count(*spec, source@, ns, i as int),
        decreases n - i,
    {
        proof {
            assert(ns[i as int] == nodes@[i as int]@);
        }
        if is_kind(&nodes[i], spec.item_kinds) && is_public(
            nodes,
            &ends,
            source,
            spec.visibility,
            i,
        ) {
            public += 1;
            let anchor = outermost_wrapper(nodes, i);
            if has_doc(nodes, &ends, source, spec.doc, anchor) {
                documented += 1;
            }
        }
        i += 1;
    }
    FileRow {
        file: text::copy_text(file),
        language: syntax::name_of_grammar(spec.grammar),
        public_items: public,
        documented,
    }
}

/// The row of a source; none where it cannot be parsed.
pub open spec fn analyzed(g: Grammar, file: Seq<char>, source: Seq<char>) -> Option<FileRowModel> {
    match syntax::parsed(g, source) {
        Some(ns) => Some(row_of(doc_spec(g), file, source, ns)),
        None => None,
    }
}

pub fn analyze_file(g: Grammar, file: &str, source: &str) -> (r: Option<FileRow>)
    ensures
        match r {
            Some(row) => analyzed(g, file@, source@) == Some(row@),
            None => analyzed(g, file@, source@) is None,
        },
{
    match parse(g, source) {
        Some(nodes) => Some(count_items(&doc_spec_of(g), file, source, &nodes)),
        None => None,
    }
}

/// The row of a file of the tree: none, unless it is source text in a language
/// that can be parsed.
pub open spec fn row_in(path: Seq<char>, data: Seq<u8>) -> Option<FileRowModel> {
    match (syntax::grammar_of(path), blob::text_of(data)) {
        (Some(g), Some(source)) => if source_filter::is_source(path) {
            analyzed(g, path, source)
        } else {
            None
        },
        _ => None,
    }
}

// ---------------------------------------------------------------------------
// The report
// ---------------------------------------------------------------------------

/// The documented share in per cent, as a number of double precision, to the
/// nearest whole number, halves up. Nothing is missing where nothing is public.
pub open spec fn coverage(public: int, documented: int) -> int {
    if public == 0 {
        100
    } else {
        let p = double::rounded(double::percentage(documented, public));
        if p < u32::MAX {
            p
        } else {
            u32::MAX as int
        }
    }
}

pub fn coverage_pct(r: &FileRow) -> (pct: u32)
    ensures
        pct == coverage(r@.public_items, r@.documented),
{
    if r.public_items == 0 {
        return 100;
    }
    let p: u64 = Double::percentage(r.documented, r.public_items).nearest_whole();
    if p < u32::MAX as u64 {
        p as u32
    } else {
        u32::MAX
    }
}

/// The share is one in per cent; it is whole where everything is documented,
/// and it does not fall when more is documented.
pub proof fn coverage_is_a_share(public: int, a: int, b: int)
    requires
        0 <= a <= b <= public,
    ensures
        0 <= coverage(public, a) <= coverage(public, b) <= 100,
        coverage(public, public) == 100,
        public > 0 ==> coverage(public, 0) == 0,
{
    if public > 0 {
        let whole = double::of(public);
        let hundred = double::of(100);
        double::lemma_nearest_normal(public, 1);
        double::lemma_nearest_normal(100, 1);
        double::one_is_neutral(whole);
        double::one_is_neutral(hundred);
        double::small_numbers_round_to_themselves(100);
        lemma_percentages(0, a, public);
        lemma_percentages(a, b, public);
        lemma_percentages(b, public, public);
        double::small_numbers_round_to_themselves(0);
    }
}

proof fn lemma_percentages(a: int, b: int, public: int)
    requires
        0 <= a <= b,
        public > 0,
    ensures
        0 <= double::rounded(double::percentage(a, public)) <= double::rounded(
            double::percentage(b, public),
        ),
{
    let whole = double::of(public);
    let hundred = double::of(100);
    double::lemma_nearest_normal(public, 1);
    double::lemma_nearest_normal(100, 1);
    if a > 0 {
        double::lemma_nearest_normal(a, 1);
        double::nearest_is_ordered(a, 1, b, 1);
    }
    if b > 0 {
        double::lemma_nearest_normal(b, 1);
    }
    double::quotients_are_ordered(double::of(a), double::of(b), whole);
    double::quotients_are_ordered(double::of(b), double::of(b), whole);
    let x = double::over(double::of(a), whole);
    let z = double::over(double::of(b), whole);
    double::products_are_ordered(x, z, hundred);
    double::products_are_ordered(z, z, hundred);
    double::roundings_are_ordered(double::times(x, hundred), double::times(z, hundred));
}

/// What to do about a file of that coverage.
pub open spec fn advice(pct: int) -> MessageModel {
    if pct <= 24 {
        MessageModel::of(messages::DOC_COVERAGE_RECOMMENDATION_POOR@).severe(
            Severity::Error,
        ).with_number("pct"@, pct)
    } else if pct <= 59 {
        MessageModel::of(messages::DOC_COVERAGE_RECOMMENDATION_LOW@).severe(
            Severity::Warning,
        ).with_number("pct"@, pct)
    } else if pct <= 84 {
        MessageModel::of(messages::DOC_COVERAGE_RECOMMENDATION_OK@)
    } else {
        MessageModel::of(messages::DOC_COVERAGE_RECOMMENDATION_GOOD@)
    }
}

pub fn classify(pct: u32) -> (r: LocalizedMessage)
    ensures
        r@ == advice(pct as int),
{
    if pct <= 24 {
        LocalizedMessage::code(messages::DOC_COVERAGE_RECOMMENDATION_POOR).with_severity(
            Severity::Error,
        ).with_param("pct", pct)
    } else if pct <= 59 {
        LocalizedMessage::code(messages::DOC_COVERAGE_RECOMMENDATION_LOW).with_severity(
            Severity::Warning,
        ).with_param("pct", pct)
    } else if pct <= 84 {
        LocalizedMessage::code(messages::DOC_COVERAGE_RECOMMENDATION_OK)
    } else {
        LocalizedMessage::code(messages::DOC_COVERAGE_RECOMMENDATION_GOOD)
    }
}

/// The least covered first, then those with more items, then by name.
impl Ranked for FileRow {
    open spec fn le(a: FileRowModel, b: FileRowModel) -> bool {
        let ca = coverage(a.public_items, a.documented);
        let cb = coverage(b.public_items, b.documented);
        if ca != cb {
            ca < cb
        } else if a.public_items != b.public_items {
            a.public_items > b.public_items
        } else {
            text::text_le(a.file, b.file)
        }
    }

    proof fn le_total(a: FileRowModel, b: FileRowModel) {
        text::text_le_total(a.file, b.file);
    }

    proof fn le_transitive(a: FileRowModel, b: FileRowModel, c: FileRowModel) {
        if text::text_le(a.file, b.file) && text::text_le(b.file, c.file) {
            text::text_le_transitive(a.file, b.file, c.file);
        }
    }

    fn not_after(&self, other: &FileRow) -> (r: bool) {
        let ca = coverage_pct(self);
        let cb = coverage_pct(other);
        if ca != cb {
            ca < cb
        } else if self.public_items != other.public_items {
            self.public_items > other.public_items
        } else {
            text::text_not_after(self.file.as_str(), other.file.as_str())
        }
    }
}

impl Row for FileRow {
    open spec fn entry(m: FileRowModel) -> EntryModel {
        let pct = coverage(m.public_items, m.documented);
        EntryModel {
            key: m.file,
            values: Map::empty().insert("public_items"@, ValueModel::Count(m.public_items)).insert(
                "documented"@,
                ValueModel::Count(m.documented),
            ).insert("coverage_pct"@, ValueModel::Count(pct)).insert(
                "language"@,
                ValueModel::Text(m.language),
            ).insert("recommendation"@, ValueModel::Message(advice(pct))),
        }
    }

    fn to_entry(self) -> (r: MetricEntry) {
        let pct = coverage_pct(&self);
        let mut values = Values::new();
        values.insert("public_items", MetricValue::Count(self.public_items));
        values.insert("documented", MetricValue::Count(self.documented));
        values.insert("coverage_pct", MetricValue::Count(pct as u64));
        values.insert("language", MetricValue::Text(text::copy_text(self.language)));
        values.insert("recommendation", MetricValue::Message(classify(pct)));
        MetricEntry { key: self.file, values }
    }
}

/// The files with enough public items.
pub open spec fn large_enough(s: Seq<FileRowModel>) -> Seq<FileRowModel>
    decreases s.len(),
{
    if s.len() == 0 {
        Seq::empty()
    } else if s.last().public_items >= MIN_ITEMS {
        large_enough(s.drop_last()).push(s.last())
    } else {
        large_enough(s.drop_last())
    }
}

fn keep_large(rows: Vec<FileRow>) -> (r: Vec<FileRow>)
    ensures
        order::models(r@) == large_enough(order::models(rows@)),
{
    let ghost all = order::models(rows@);
    let mut out: Vec<FileRow> = Vec::new();
    proof {
        assert(all.take(0).len() == 0);
        assert(order::models(out@) =~= Seq::empty());
    }
    for row in it: rows
        invariant
            it.seq() == rows@,
            all == order::models(rows@),
            order::models(out@) == large_enough(all.take(it.index() as int)),
    {
        let ghost i = it.index() as int;
        let ghost before = order::models(out@);
        let ghost m = row@;
        proof {
            assert(all.take(i + 1).drop_last() =~= all.take(i));
            assert(all.take(i + 1).last() == m);
        }
        if row.public_items >= MIN_ITEMS {
            out.push(row);
            proof {
                assert(order::models(out@) =~= before.push(m));
            }
        }
    }
    proof {
        assert(all.take(rows@.len() as int) =~= all);
    }
    out
}

pub open spec fn doc_columns() -> Seq<Seq<char>> {
    seq![
        "public_items"@,
        "documented"@,
        "coverage_pct"@,
        "language"@,
        "recommendation"@,
    ]
}

pub open spec fn doc_report(s: Seq<FileRowModel>) -> ResultModel {
    types::report_of(
        "doc_coverage"@,
        doc_columns(),
        report::entries_of::<FileRow>(
            report::top_ranked::<FileRow>(large_enough(s), MAX_FILES as int),
        ),
    )
}

#[derive(Debug)]
pub struct DocCoverageCollector {
    pub per_file: Vec<FileRow>,
}

impl Default for DocCoverageCollector {
    fn default() -> (r: Self)
        ensures
            r.per_file@.len() == 0,
    {
        DocCoverageCollector::new()
    }
}

impl DocCoverageCollector {
    pub fn new() -> (r: Self)
        ensures
            r.per_file@.len() == 0,
    {
        DocCoverageCollector { per_file: Vec::new() }
    }

    pub fn name(&self) -> (r: &str)
        ensures
            r@ == "doc_coverage"@,
    {
        "doc_coverage"
    }

    /// Adds the row of a file, if it has one.
    pub fn inspect_blob(&mut self, path: &str, data: &[u8])
        ensures
            order::models(final(self).per_file@) == match row_in(path@, data@) {
                Some(row) => order::models(old(self).per_file@).push(row),
                None => order::models(old(self).per_file@),
            },
    {
        let ghost held = order::models(self.per_file@);
        if let Some(g) = syntax::grammar_for_path(path) {
            if is_source_file(path) {
                if let Some(source) = blob::as_text(data) {
                    if let Some(row) = analyze_file(g, path, source) {
                        self.per_file.push(row);
                        proof {
                            assert(order::models(self.per_file@) =~= held.push(row@));
                        }
                    }
                }
            }
        }
    }

    /// Reports the files, and forgets them.
    pub fn finalize(&mut self) -> (r: MetricResult)
        ensures
            r@ == doc_report(order::models(old(self).per_file@)),
            final(self).per_file@.len() == 0,
    {
        let mut list: Vec<FileRow> = Vec::new();
        std::mem::swap(&mut list, &mut self.per_file);
        let entries = report::ranked_entries(keep_large(list), MAX_FILES);
        let columns = [
            "public_items",
            "documented",
            "coverage_pct",
            "language",
            "recommendation",
        ];
        proof {
            assert(types::str_views(columns@) =~= doc_columns());
        }
        MetricResult::report("doc_coverage", &columns, entries)
    }
}

/// What is counted in each language: the kinds of items, which of them are
/// public and what documents them.
pub proof fn items_are_these(kind: Seq<char>)
    ensures
        syntax::kinds_of(doc_spec(Grammar::Rust).item_kinds).contains(kind) <==> kind == "function_item"@ || kind == "struct_item"@ || kind == "enum_item"@ || kind == "trait_item"@ || kind == "type_item"@ || kind == "mod_item"@,
        doc_spec(Grammar::Rust).visibility == VisibilityRule::RustPub,
        doc_spec(Grammar::Rust).doc == DocRule::TripleSlashOrBlockDoc,
        syntax::kinds_of(doc_spec(Grammar::Python).item_kinds).contains(kind) <==> kind == "function_definition"@ || kind == "class_definition"@,
        doc_spec(Grammar::Python).visibility == VisibilityRule::PythonNotUnderscore,
        doc_spec(Grammar::Python).doc == DocRule::PythonDocstring,
        syntax::kinds_of(doc_spec(Grammar::TypeScript).item_kinds).contains(kind) <==> kind == "function_declaration"@ || kind == "class_declaration"@ || kind == "interface_declaration"@ || kind == "type_alias_declaration"@ || kind == "enum_declaration"@,
        doc_spec(Grammar::TypeScript).visibility == VisibilityRule::JsExport,
        doc_spec(Grammar::TypeScript).doc == DocRule::BlockDoc,
        syntax::kinds_of(doc_spec(Grammar::JavaScript).item_kinds).contains(kind) <==> kind == "function_declaration"@ || kind == "class_declaration"@ || kind == "generator_function_declaration"@,
        doc_spec(Grammar::JavaScript).visibility == VisibilityRule::JsExport,
        doc_spec(Grammar::JavaScript).doc == DocRule::BlockDoc,
        syntax::kinds_of(doc_spec(Grammar::Go).item_kinds).contains(kind) <==> kind == "function_declaration"@ || kind == "method_declaration"@ || kind == "type_declaration"@,
        doc_spec(Grammar::Go).visibility == VisibilityRule::GoCapitalized,
        doc_spec(Grammar::Go).doc == DocRule::GoLineComment,
        syntax::kinds_of(doc_spec(Grammar::Java).item_kinds).contains(kind) <==> kind == "method_declaration"@ || kind == "class_declaration"@ || kind == "interface_declaration"@ || kind == "enum_declaration"@,
        doc_spec(Grammar::Java).visibility == VisibilityRule::JavaPublicModifier,
        doc_spec(Grammar::Java).doc == DocRule::BlockDoc,
        syntax::kinds_of(doc_spec(Grammar::Kotlin).item_kinds).contains(kind) <==> kind == "function_declaration"@ || kind == "class_declaration"@ || kind == "object_declaration"@,
        doc_spec(Grammar::Kotlin).visibility == VisibilityRule::KotlinDefaultPublic,
        doc_spec(Grammar::Kotlin).doc == DocRule::BlockDoc,
        syntax::kinds_of(doc_spec(Grammar::Dart).item_kinds).contains(kind) <==> kind == "function_signature"@ || kind == "method_signature"@ || kind == "class_definition"@,
        doc_spec(Grammar::Dart).visibility == VisibilityRule::DartNotUnderscore,
        doc_spec(Grammar::Dart).doc == DocRule::TripleSlashOrBlockDoc,
{
    reveal(doc_spec);
    assert(syntax::kinds_of(doc_spec(Grammar::Rust).item_kinds)[0] == "function_item"@);
    assert(syntax::kinds_of(doc_spec(Grammar::Rust).item_kinds)[1] == "struct_item"@);
    assert(syntax::kinds_of(doc_spec(Grammar::Rust).item_kinds)[2] == "enum_item"@);
    assert(syntax::kinds_of(doc_spec(Grammar::Rust).item_kinds)[3] == "trait_item"@);
    assert(syntax::kinds_of(doc_spec(Grammar::Rust).item_kinds)[4] == "type_item"@);
    assert(syntax::kinds_of(doc_spec(Grammar::Rust).item_kinds)[5] == "mod_item"@);
    assert(syntax::kinds_of(doc_spec(Grammar::Python).item_kinds)[0] == "function_definition"@);
    assert(syntax::kinds_of(doc_spec(Grammar::Python).item_kinds)[1] == "class_definition"@);
    assert(syntax::kinds_of(doc_spec(Grammar::TypeScript).item_kinds)[0] == "function_declaration"@);
    assert(syntax::kinds_of(doc_spec(Grammar::TypeScript).item_kinds)[1] == "class_declaration"@);
    assert(syntax::kinds_of(doc_spec(Grammar::TypeScript).item_kinds)[2] == "interface_declaration"@);
    assert(syntax::kinds_of(doc_spec(Grammar::TypeScript).item_kinds)[3] == "type_alias_declaration"@);
    assert(syntax::kinds_of(doc_spec(Grammar::TypeScript).item_kinds)[4] == "enum_declaration"@);
    assert(syntax::kinds_of(doc_spec(Grammar::JavaScript).item_kinds)[0] == "function_declaration"@);
    assert(syntax::kinds_of(doc_spec(Grammar::JavaScript).item_kinds)[1] == "class_declaration"@);
    assert(syntax::kinds_of(doc_spec(Grammar::JavaScript).item_kinds)[2] == "generator_function_declaration"@);
    assert(syntax::kinds_of(doc_spec(Grammar::Go).item_kinds)[0] == "function_declaration"@);
    assert(syntax::kinds_of(doc_spec(Grammar::Go).item_kinds)[1] == "method_declaration"@);
    assert(syntax::kinds_of(doc_spec(Grammar::Go).item_kinds)[2] == "type_declaration"@);
    assert(syntax::kinds_of(doc_spec(Grammar::Java).item_kinds)[0] == "method_declaration"@);
    assert(syntax::kinds_of(doc_spec(Grammar::Java).item_kinds)[1] == "class_declaration"@);
    assert(syntax::kinds_of(doc_spec(Grammar::Java).item_kinds)[2] == "interface_declaration"@);
    assert(syntax::kinds_of(doc_spec(Grammar::Java).item_kinds)[3] == "enum_declaration"@);
    assert(syntax::kinds_of(doc_spec(Grammar::Kotlin).item_kinds)[0] == "function_declaration"@);
    assert(syntax::kinds_of(doc_spec(Grammar::Kotlin).item_kinds)[1] == "class_declaration"@);
    assert(syntax::kinds_of(doc_spec(Grammar::Kotlin).item_kinds)[2] == "object_declaration"@);
    assert(syntax::kinds_of(doc_spec(Grammar::Dart).item_kinds)[0] == "function_signature"@);
    assert(syntax::kinds_of(doc_spec(Grammar::Dart).item_kinds)[1] == "method_signature"@);
    assert(syntax::kinds_of(doc_spec(Grammar::Dart).item_kinds)[2] == "class_definition"@);
}

/// One more node counts where it is an item and public, and as documented where
/// its documentation is there besides; others count for nothing.
pub proof fn only_public_items_count(spec: DocSpec, source: Seq<char>, ns: Seq<NodeModel>, n: int)
    requires
        n >= 0,
    ensures
        ({
            let item = syntax::kinds_of(spec.item_kinds).contains(ns[n].kind);
            let public = public_item(ns, source, spec.visibility, n);
            let told = documented_node(ns, source, spec.doc, wrapper(ns, n));
            let more = public_count(spec, source, ns, n + 1) - public_count(spec, source, ns, n);
            let told_more = documented_count(spec, source, ns, n + 1) - documented_count(
                spec,
                source,
                ns,
                n,
            );
            &&& item && public ==> more == 1
            &&& !item || !public ==> more == 0 && told_more == 0
            &&& item && public && told ==> told_more == 1
            &&& !told ==> told_more == 0
        }),
        public_count(spec, source, ns, 0) == 0,
        documented_count(spec, source, ns, 0) == 0,
{
}

/// In Python and Dart a name is public unless it starts with an underscore, in Go
/// where it starts with a capital; without a name an item is not public.
pub proof fn names_tell_what_is_public(ns: Seq<NodeModel>, source: Seq<char>, i: int)
    ensures
        match name_text(ns, source, i) {
            Some(s) => {
                &&& public_item(ns, source, VisibilityRule::PythonNotUnderscore, i) == (s.len() == 0
                    || s[0] != '_')
                &&& public_item(ns, source, VisibilityRule::DartNotUnderscore, i) == (s.len() == 0
                    || s[0] != '_')
                &&& public_item(ns, source, VisibilityRule::GoCapitalized, i) == (s.len() > 0 && 'A'
                    <= s[0] <= 'Z')
            },
            None => {
                &&& !public_item(ns, source, VisibilityRule::PythonNotUnderscore, i)
                &&& !public_item(ns, source, VisibilityRule::DartNotUnderscore, i)
                &&& !public_item(ns, source, VisibilityRule::GoCapitalized, i)
            },
        },
{
    reveal_strlit("_");
    match name_text(ns, source, i) {
        Some(s) => {
            if s.len() > 0 && s[0] == '_' {
                assert("_"@ =~= s.take(1));
                assert("_"@.is_prefix_of(s));
            }
            if "_"@.is_prefix_of(s) {
                assert("_"@[0] == s[0]);
            }
        },
        None => {},
    }
}

/// In Rust an item is public where a modifier among its parts starts with `pub`,
/// in Java where its modifiers name `public`.
pub proof fn modifiers_tell_what_is_public(
    ns: Seq<NodeModel>,
    source: Seq<char>,
    i: int,
)
    requires
        0 <= i < ns.len(),
    ensures
        public_item(ns, source, VisibilityRule::RustPub, i) <==> exists|c: int|
            i < c < ns.len() && syntax::is_child(ns, i, c) && (#[trigger] ns[c]).kind
                == "visibility_modifier"@ && "pub"@.is_prefix_of(
                text::trim_start(syntax::node_text(source, ns[c])),
            ),
        public_item(ns, source, VisibilityRule::JavaPublicModifier, i) <==> exists|c: int|
            i < c < ns.len() && syntax::is_child(ns, i, c) && (#[trigger] ns[c]).kind
                == "modifiers"@ && text::contains(syntax::node_text(source, ns[c]), "public"@),
{
    syntax::a_child_is_found(ns, says(source, "visibility_modifier"@, "pub"@, true), i);
    syntax::a_child_is_found(ns, says(source, "modifiers"@, "public"@, false), i);
}

/// A comment documents by how it opens: three slashes or a slash and two stars,
/// or in Go any line comment.
pub proof fn comments_document_by_how_they_open(kind: Seq<char>, s: Seq<char>)
    ensures
        ({
            let t = text::trim_start(s);
            &&& kind == "comment"@ ==> documents(DocRule::TripleSlashOrBlockDoc, kind, s) == (
            "///"@.is_prefix_of(t) || "/**"@.is_prefix_of(t))
            &&& kind == "line_comment"@ && "///"@.is_prefix_of(t) ==> documents(
                DocRule::TripleSlashOrBlockDoc,
                kind,
                s,
            )
            &&& kind == "documentation_comment"@ && "///"@.is_prefix_of(t) ==> documents(
                DocRule::TripleSlashOrBlockDoc,
                kind,
                s,
            )
            &&& kind == "block_comment"@ && "/**"@.is_prefix_of(t) ==> documents(
                DocRule::TripleSlashOrBlockDoc,
                kind,
                s,
            )
            &&& documents(DocRule::BlockDoc, kind, s) ==> "/**"@.is_prefix_of(t)
            &&& (kind == "block_comment"@ || kind == "comment"@ || kind == "multiline_comment"@)
                && "/**"@.is_prefix_of(t) ==> documents(DocRule::BlockDoc, kind, s)
            &&& documents(DocRule::GoLineComment, kind, s) == (kind == "comment"@
                && "//"@.is_prefix_of(t))
            &&& documents(DocRule::TripleSlashOrBlockDoc, kind, s) ==> "///"@.is_prefix_of(t)
                || "/**"@.is_prefix_of(t)
        }),
{
}

/// The lower the coverage, the more urgent is what is said of it.
pub proof fn coverage_decides_the_advice(pct: int)
    ensures
        pct < 25 ==> advice(pct).code == messages::DOC_COVERAGE_RECOMMENDATION_POOR@ && advice(
            pct,
        ).severity == Some(Severity::Error),
        25 <= pct < 60 ==> advice(pct).code == messages::DOC_COVERAGE_RECOMMENDATION_LOW@ && advice(
            pct,
        ).severity == Some(Severity::Warning),
        60 <= pct < 85 ==> advice(pct).code == messages::DOC_COVERAGE_RECOMMENDATION_OK@ && advice(
            pct,
        ).severity is None,
        85 <= pct ==> advice(pct).code == messages::DOC_COVERAGE_RECOMMENDATION_GOOD@ && advice(
            pct,
        ).severity is None,
        pct < 60 ==> advice(pct).params == seq![("pct"@, types::ParamModel::Number(pct))],
{
    assert(pct < 60 ==> advice(pct).params =~= seq![("pct"@, types::ParamModel::Number(pct))]);
}

proof fn lemma_large_enough(rows: Seq<FileRowModel>, x: FileRowModel)
    ensures
        large_enough(rows).contains(x) <==> exists|k: int|
            0 <= k < rows.len() && (#[trigger] rows[k]).public_items >= 3 && x == rows[k],
        large_enough(rows).len() <= rows.len(),
    decreases rows.len(),
{
    if rows.len() > 0 {
        let front = rows.drop_last();
        let last = rows.last();
        let was = large_enough(front);
        let is = large_enough(rows);
        lemma_large_enough(front, x);
        assert(rows[rows.len() - 1] == last);
        assert(forall|k: int| 0 <= k < front.len() ==> front[k] == rows[k]);
        if is.contains(x) {
            let i = choose|i: int| 0 <= i < is.len() && is[i] == x;
            if i < was.len() {
                assert(was[i] == x);
                let k = choose|k: int|
                    0 <= k < front.len() && (#[trigger] front[k]).public_items >= 3 && x == front[k];
                assert(rows[k] == front[k]);
            }
        }
        if exists|k: int| 0 <= k < rows.len() && (#[trigger] rows[k]).public_items >= 3 && x == rows[k] {
            let k = choose|k: int|
                0 <= k < rows.len() && (#[trigger] rows[k]).public_items >= 3 && x == rows[k];
            if k < front.len() {
                assert(front[k] == rows[k]);
                let i = choose|i: int| 0 <= i < was.len() && was[i] == x;
                assert(is[i] == x);
            } else {
                assert(is[is.len() - 1] == x);
            }
        }
    }
}

/// Every file with three public items is shown with its coverage, unless there
/// are more files than the report holds.
pub proof fn every_file_with_items_is_shown(rows: Seq<FileRowModel>, k: int)
    requires
        0 <= k < rows.len(),
        rows[k].public_items >= 3,
        rows.len() <= 200,
    ensures
        exists|i: int|
            0 <= i < doc_report(rows).entries.len() && ({
                let e = #[trigger] doc_report(rows).entries[i];
                let r = rows[k];
                &&& e.key == r.file
                &&& e.values["public_items"@] == ValueModel::Count(r.public_items)
                &&& e.values["documented"@] == ValueModel::Count(r.documented)
                &&& e.values["coverage_pct"@] == ValueModel::Count(coverage(r.public_items, r.documented))
                &&& e.values["language"@] == ValueModel::Text(r.language)
                &&& e.values["recommendation"@] == ValueModel::Message(advice(coverage(r.public_items, r.documented)))
            }),
{
    let s = large_enough(rows);
    let x = rows[k];
    let ranked = report::top_ranked::<FileRow>(large_enough(rows), 200);
    lemma_large_enough(rows, x);
    report::top_ranked_members::<FileRow>(large_enough(rows), 200);
    report::top_ranked_len::<FileRow>(large_enough(rows), 200);
    assert(s.contains(x));
    assert(ranked.contains(x));
    let i = choose|i: int| 0 <= i < ranked.len() && ranked[i] == x;
    assert(doc_report(rows).entries[i] == FileRow::entry(x));
    reveal_strlit("public_items");
    reveal_strlit("documented");
    reveal_strlit("coverage_pct");
    reveal_strlit("language");
    reveal_strlit("recommendation");
    assert("public_items"@.len() != "documented"@.len());
    assert("public_items"@[0] != "coverage_pct"@[0]);
    assert("public_items"@.len() != "language"@.len());
    assert("public_items"@.len() != "recommendation"@.len());
    assert("documented"@.len() != "coverage_pct"@.len());
    assert("documented"@.len() != "language"@.len());
    assert("documented"@.len() != "recommendation"@.len());
    assert("coverage_pct"@.len() != "language"@.len());
    assert("coverage_pct"@.len() != "recommendation"@.len());
    assert("language"@.len() != "recommendation"@.len());
}

/// Whatever is shown has three public items, and there are at most two hundred.
pub proof fn only_files_with_items_are_shown(rows: Seq<FileRowModel>, i: int)
    requires
        0 <= i < doc_report(rows).entries.len(),
    ensures
        doc_report(rows).entries.len() <= 200,
        exists|k: int|
            0 <= k < rows.len() && ({
                let e = doc_report(rows).entries[i];
                let r = #[trigger] rows[k];
                &&& r.public_items >= 3
                &&& e.key == r.file
                &&& e.values["public_items"@] == ValueModel::Count(r.public_items)
                &&& e.values["documented"@] == ValueModel::Count(r.documented)
                &&& e.values["coverage_pct"@] == ValueModel::Count(coverage(r.public_items, r.documented))
                &&& e.values["language"@] == ValueModel::Text(r.language)
                &&& e.values["recommendation"@] == ValueModel::Message(advice(coverage(r.public_items, r.documented)))
            }),
{
    let s = large_enough(rows);
    let ranked = report::top_ranked::<FileRow>(large_enough(rows), 200);
    let x = ranked[i];
    report::top_ranked_members::<FileRow>(large_enough(rows), 200);
    report::top_ranked_len::<FileRow>(large_enough(rows), 200);
    assert(ranked.contains(x));
    assert(s.contains(x));
    lemma_large_enough(rows, x);
    assert(doc_report(rows).entries[i] == FileRow::entry(x));
    let k = choose|k: int| 0 <= k < rows.len() && (#[trigger] rows[k]).public_items >= 3 && x == rows[k];
    assert(rows[k] == rows[k]);
    reveal_strlit("public_items");
    reveal_strlit("documented");
    reveal_strlit("coverage_pct");
    reveal_strlit("language");
    reveal_strlit("recommendation");
    assert("public_items"@.len() != "documented"@.len());
    assert("public_items"@[0] != "coverage_pct"@[0]);
    assert("public_items"@.len() != "language"@.len());
    assert("public_items"@.len() != "recommendation"@.len());
    assert("documented"@.len() != "coverage_pct"@.len());
    assert("documented"@.len() != "language"@.len());
    assert("documented"@.len() != "recommendation"@.len());
    assert("coverage_pct"@.len() != "language"@.len());
    assert("coverage_pct"@.len() != "recommendation"@.len());
    assert("language"@.len() != "recommendation"@.len());
}

/// The files with the least coverage stand first, of those the ones with the most
/// items.
pub proof fn least_covered_first(rows: Seq<FileRowModel>, i: int, j: int)
    requires
        0 <= i < j < doc_report(rows).entries.len(),
    ensures
        ({
            let a = doc_report(rows).entries[i].values;
            let b = doc_report(rows).entries[j].values;
            ({
                ||| a["coverage_pct"@]->Count_0 < b["coverage_pct"@]->Count_0
                ||| a["coverage_pct"@] == b["coverage_pct"@] && a["public_items"@]->Count_0
                    >= b["public_items"@]->Count_0
            })
        }),
{
    let ranked = report::top_ranked::<FileRow>(large_enough(rows), 200);
    report::top_ranked_leads::<FileRow>(large_enough(rows), 200);
    assert(doc_report(rows).entries[i] == FileRow::entry(ranked[i]));
    assert(doc_report(rows).entries[j] == FileRow::entry(ranked[j]));
    assert(FileRow::le(ranked[i], ranked[j]));
    reveal_strlit("public_items");
    reveal_strlit("documented");
    reveal_strlit("coverage_pct");
    reveal_strlit("language");
    reveal_strlit("recommendation");
    assert("public_items"@.len() != "documented"@.len());
    assert("public_items"@[0] != "coverage_pct"@[0]);
    assert("public_items"@.len() != "language"@.len());
    assert("public_items"@.len() != "recommendation"@.len());
    assert("documented"@.len() != "coverage_pct"@.len());
    assert("documented"@.len() != "language"@.len());
    assert("documented"@.len() != "recommendation"@.len());
    assert("coverage_pct"@.len() != "language"@.len());
    assert("coverage_pct"@.len() != "recommendation"@.len());
    assert("language"@.len() != "recommendation"@.len());
}

/// The report has these columns, in this order.
pub proof fn the_columns_are_these(s: Seq<FileRowModel>)
    ensures
        doc_report(s).name == "doc_coverage"@,
        doc_report(s).columns.len() == 5,
        doc_report(s).columns[0].value == "public_items"@,
        doc_report(s).columns[1].value == "documented"@,
        doc_report(s).columns[2].value == "coverage_pct"@,
        doc_report(s).columns[3].value == "language"@,
        doc_report(s).columns[4].value == "recommendation"@,
{
}

/// The limits that hold here.
pub proof fn the_limits_are_these()
    ensures
        MAX_FILES == 200,
        MIN_ITEMS == 3,
{
}

/// An item is exported where one of the nearest three nodes around it exports it
/// and the top does not come first, or where its text starts so.
pub proof fn exports_are_public(ns: Seq<NodeModel>, source: Seq<char>, i: int)
    ensures
        "export "@.is_prefix_of(text::trim_start(syntax::node_text(source, ns[i]))) ==> public_item(
            ns,
            source,
            VisibilityRule::JsExport,
            i,
        ),
        syntax::parent(ns, i) matches Some(p) ==> ((ns[p].kind == "export_statement"@ || ns[p].kind
            == "export_declaration"@) ==> public_item(ns, source, VisibilityRule::JsExport, i)),
        !"export "@.is_prefix_of(text::trim_start(syntax::node_text(source, ns[i])))
            && syntax::parent(ns, i) is None ==> !public_item(
            ns,
            source,
            VisibilityRule::JsExport,
            i,
        ),
        !"export "@.is_prefix_of(text::trim_start(syntax::node_text(source, ns[i]))) && (
        syntax::parent(ns, i) matches Some(p) && (ns[p].kind == "program"@ || ns[p].kind
            == "source_file"@ || ns[p].kind == "module"@)) ==> !public_item(
            ns,
            source,
            VisibilityRule::JsExport,
            i,
        ),
{
    reveal_with_fuel(exported_from, 2);
    reveal_strlit("export_statement");
    reveal_strlit("export_declaration");
    reveal_strlit("program");
    reveal_strlit("source_file");
    reveal_strlit("module");
    assert("export_statement"@.len() != "export_declaration"@.len());
    assert("export_statement"@.len() != "program"@.len());
    assert("export_statement"@.len() != "source_file"@.len());
    assert("export_statement"@.len() != "module"@.len());
    assert("export_declaration"@.len() != "program"@.len());
    assert("export_declaration"@.len() != "source_file"@.len());
    assert("export_declaration"@.len() != "module"@.len());
    assert("program"@.len() != "source_file"@.len());
    assert("program"@.len() != "module"@.len());
    assert("source_file"@.len() != "module"@.len());
}

/// An export is looked for in one node more for each step that is left, upwards,
/// and never past the top.
pub proof fn exports_are_looked_for_upwards(ns: Seq<NodeModel>, p: int, left: nat)
    ensures
        !exported_from(ns, Some(p), 0),
        !exported_from(ns, None, left),
        is_export(ns[p].kind) ==> exported_from(ns, Some(p), left + 1),
        !is_export(ns[p].kind) && is_top(ns[p].kind) ==> !exported_from(ns, Some(p), left + 1),
        !is_export(ns[p].kind) && !is_top(ns[p].kind) ==> exported_from(ns, Some(p), left + 1)
            == exported_from(ns, syntax::parent(ns, p), left),
{
    reveal_with_fuel(exported_from, 2);
}

/// In Kotlin an item is public unless what stands before its body says that it is
/// private, internal or protected.
pub proof fn unmarked_items_are_public(ns: Seq<NodeModel>, source: Seq<char>, i: int)
    ensures
        ({
            let head = text::before_first(syntax::node_text(source, ns[i]), "{"@);
            public_item(ns, source, VisibilityRule::KotlinDefaultPublic, i) <==> {
                &&& !text::contains(head, " "@ + "private"@ + " "@)
                &&& !("private"@ + " "@).is_prefix_of(head)
                &&& !text::contains(head, " "@ + "internal"@ + " "@)
                &&& !("internal"@ + " "@).is_prefix_of(head)
                &&& !text::contains(head, " "@ + "protected"@ + " "@)
                &&& !("protected"@ + " "@).is_prefix_of(head)
            }
        }),
{
}

/// The documentation of an item stands before the outermost of the exports and
/// decorators around it.
pub proof fn wrappers_carry_the_documentation(ns: Seq<NodeModel>, i: int)
    requires
        0 <= i,
    ensures
        ({
            let p = syntax::parent(ns, i);
            &&& p is None ==> wrapper(ns, i) == i
            &&& p matches Some(q) ==> (0 <= q < i && (ns[q].kind == "export_statement"@ || ns[q].kind
                == "export_declaration"@ || ns[q].kind == "decorated_definition"@) ==> wrapper(ns, i)
                == wrapper(ns, q))
            &&& p matches Some(q) ==> (ns[q].kind != "export_statement"@ && ns[q].kind
                != "export_declaration"@ && ns[q].kind != "decorated_definition"@ ==> wrapper(ns, i)
                == i)
        }),
{
}

/// An item is documented by the comment right before it, in Python by the text
/// that its body starts with.
pub proof fn comments_or_texts_document(
    ns: Seq<NodeModel>,
    source: Seq<char>,
    rule: DocRule,
    i: int,
)
    ensures
        rule != DocRule::PythonDocstring ==> match syntax::prev_named_sibling(ns, i) {
            Some(p) => documented_node(ns, source, rule, i) == documents(
                rule,
                ns[p].kind,
                syntax::node_text(source, ns[p]),
            ),
            None => !documented_node(ns, source, rule, i),
        },
        documented_node(ns, source, DocRule::PythonDocstring, i) ==> {
            let b = syntax::first_child(ns, syntax::has_field("body"@), i);
            let f = syntax::first_child(ns, syntax::is_named_node(), b->0);
            let t = syntax::first_child(ns, syntax::is_named_node(), f->0);
            &&& b is Some && f is Some && t is Some
            &&& ns[f->0].kind == "expression_statement"@
            &&& ns[t->0].kind == "string"@ || ns[t->0].kind == "concatenated_string"@
        },
        ({
            let b = syntax::first_child(ns, syntax::has_field("body"@), i);
            let f = syntax::first_child(ns, syntax::is_named_node(), b->0);
            let t = syntax::first_child(ns, syntax::is_named_node(), f->0);
            b is Some && f is Some && t is Some && ns[f->0].kind == "expression_statement"@ && (
            ns[t->0].kind == "string"@ || ns[t->0].kind == "concatenated_string"@)
                ==> documented_node(ns, source, DocRule::PythonDocstring, i)
        }),
{
}

/// Only source files of parsed text have a row: the file, its language, how many
/// of its items are public and how many of those documented.
pub proof fn only_parsed_sources_have_a_row(path: Seq<char>, data: Seq<u8>)
    ensures
        ({
            let g = syntax::grammar_of(path);
            let text = blob::text_of(data);
            let ns = syntax::parsed(g->0, text->0);
            &&& row_in(path, data) is Some <==> g is Some && text is Some
                && source_filter::is_source(path) && ns is Some
            &&& row_in(path, data) matches Some(r) ==> {
                let n = ns->0.len() as int;
                &&& r.file == path
                &&& r.language == syntax::grammar_name(doc_spec(g->0).grammar)
                &&& r.public_items == public_count(doc_spec(g->0), text->0, ns->0, n)
                &&& r.documented == documented_count(doc_spec(g->0), text->0, ns->0, n)
            }
        }),
{
}

} // verus!
