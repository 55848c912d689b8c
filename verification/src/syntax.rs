//! Syntax trees, laid out as the list of their nodes.

use vstd::prelude::*;

use crate::text;

verus! {

/// The languages that can be parsed.
#[derive(Debug, Clone, Copy, PartialEq, Eq, Structural)]
pub enum Grammar {
    Rust,
    Python,
    TypeScript,
    JavaScript,
    Go,
    Java,
    Kotlin,
    Dart,
    Cpp,
    CSharp,
    Php,
    Ruby,
    Scala,
    Swift,
    Bash,
}

/// The name of a language.
pub open spec fn grammar_name(g: Grammar) -> Seq<char> {
    match g {
        Grammar::Rust => "Rust"@,
        Grammar::Python => "Python"@,
        Grammar::TypeScript => "TypeScript"@,
        Grammar::JavaScript => "JavaScript"@,
        Grammar::Go => "Go"@,
        Grammar::Java => "Java"@,
        Grammar::Kotlin => "Kotlin"@,
        Grammar::Dart => "Dart"@,
        Grammar::Cpp => "C++"@,
        Grammar::CSharp => "C#"@,
        Grammar::Php => "PHP"@,
        Grammar::Ruby => "Ruby"@,
        Grammar::Scala => "Scala"@,
        Grammar::Swift => "Swift"@,
        Grammar::Bash => "Bash"@,
    }
}

pub fn name_of_grammar(g: Grammar) -> (r: &'static str)
    ensures
        r@ == grammar_name(g),
{
    match g {
        Grammar::Rust => "Rust",
        Grammar::Python => "Python",
        Grammar::TypeScript => "TypeScript",
        Grammar::JavaScript => "JavaScript",
        Grammar::Go => "Go",
        Grammar::Java => "Java",
        Grammar::Kotlin => "Kotlin",
        Grammar::Dart => "Dart",
        Grammar::Cpp => "C++",
        Grammar::CSharp => "C#",
        Grammar::Php => "PHP",
        Grammar::Ruby => "Ruby",
        Grammar::Scala => "Scala",
        Grammar::Swift => "Swift",
        Grammar::Bash => "Bash",
    }
}

/// The language of an extension, among those whose functions are measured.
pub open spec fn measured_by_extension(ext: Seq<char>) -> Option<Grammar> {
    if ext == "rs"@ {
        Some(Grammar::Rust)
    } else if ext == "py"@ || ext == "pyi"@ {
        Some(Grammar::Python)
    } else if ext == "ts"@ || ext == "tsx"@ {
        Some(Grammar::TypeScript)
    } else if ext == "js"@ || ext == "jsx"@ || ext == "mjs"@ || ext == "cjs"@ {
        Some(Grammar::JavaScript)
    } else if ext == "go"@ {
        Some(Grammar::Go)
    } else if ext == "java"@ {
        Some(Grammar::Java)
    } else if ext == "kt"@ || ext == "kts"@ {
        Some(Grammar::Kotlin)
    } else if ext == "dart"@ {
        Some(Grammar::Dart)
    } else {
        None
    }
}

/// The language of an extension, among those that are only searched for
/// constructs.
pub open spec fn searched_by_extension(ext: Seq<char>) -> Option<Grammar> {
    if ext == "cpp"@ || ext == "cc"@ || ext == "cxx"@ || ext == "hpp"@ || ext == "h"@ {
        Some(Grammar::Cpp)
    } else if ext == "cs"@ {
        Some(Grammar::CSharp)
    } else if ext == "php"@ {
        Some(Grammar::Php)
    } else if ext == "rb"@ {
        Some(Grammar::Ruby)
    } else if ext == "scala"@ || ext == "sc"@ {
        Some(Grammar::Scala)
    } else if ext == "swift"@ {
        Some(Grammar::Swift)
    } else if ext == "sh"@ || ext == "bash"@ {
        Some(Grammar::Bash)
    } else {
        None
    }
}

/// The language of a file whose functions are measured, by what follows the
/// last point of its path, or by the whole path where there is none.
pub open spec fn grammar_of(path: Seq<char>) -> Option<Grammar> {
    measured_by_extension(text::after_last(path, '.'))
}

/// The language of a file that is searched for constructs, by what follows the
/// last point of its path: one whose functions are measured, or another. A path
/// without a point has none.
pub open spec fn construct_grammar_of(path: Seq<char>) -> Option<Grammar> {
    match text::extension(path) {
        Some(ext) => match measured_by_extension(ext) {
            Some(g) => Some(g),
            None => searched_by_extension(ext),
        },
        None => None,
    }
}

fn measured_for(ext: &str) -> (r: Option<Grammar>)
    ensures
        r == measured_by_extension(ext@),
{
    if text::same(ext, "rs") {
        Some(Grammar::Rust)
    } else if text::same(ext, "py") || text::same(ext, "pyi") {
        Some(Grammar::Python)
    } else if text::same(ext, "ts") || text::same(ext, "tsx") {
        Some(Grammar::TypeScript)
    } else if text::same(ext, "js") || text::same(ext, "jsx") || text::same(ext, "mjs") || text::same(ext, "cjs") {
        Some(Grammar::JavaScript)
    } else if text::same(ext, "go") {
        Some(Grammar::Go)
    } else if text::same(ext, "java") {
        Some(Grammar::Java)
    } else if text::same(ext, "kt") || text::same(ext, "kts") {
        Some(Grammar::Kotlin)
    } else if text::same(ext, "dart") {
        Some(Grammar::Dart)
    } else {
        None
    }
}

fn searched_for(ext: &str) -> (r: Option<Grammar>)
    ensures
        r == searched_by_extension(ext@),
{
    if text::same(ext, "cpp") || text::same(ext, "cc") || text::same(ext, "cxx") || text::same(ext, "hpp") || text::same(ext, "h") {
        Some(Grammar::Cpp)
    } else if text::same(ext, "cs") {
        Some(Grammar::CSharp)
    } else if text::same(ext, "php") {
        Some(Grammar::Php)
    } else if text::same(ext, "rb") {
        Some(Grammar::Ruby)
    } else if text::same(ext, "scala") || text::same(ext, "sc") {
        Some(Grammar::Scala)
    } else if text::same(ext, "swift") {
        Some(Grammar::Swift)
    } else if text::same(ext, "sh") || text::same(ext, "bash") {
        Some(Grammar::Bash)
    } else {
        None
    }
}

pub fn grammar_for_path(path: &str) -> (r: Option<Grammar>)
    ensures
        r == grammar_of(path@),
{
    measured_for(text::tail_after(path, '.').as_str())
}

pub fn construct_grammar_for_path(path: &str) -> (r: Option<Grammar>)
    ensures
        r == construct_grammar_of(path@),
{
    match text::extension_of(path) {
        Some(ext) => match measured_for(ext.as_str()) {
            Some(g) => Some(g),
            None => searched_for(ext.as_str()),
        },
        None => None,
    }
}

/// A file with an extension whose functions are measured is searched for
/// constructs in the same language.
pub proof fn measured_files_are_searched(path: Seq<char>)
    ensures
        path.contains('.') && grammar_of(path) is Some ==> construct_grammar_of(path)
            == grammar_of(path),
{
}

/// A node of a syntax tree: its kind, whether the grammar names it, the field
/// of its parent that it fills, its distance from the root, and where it stands
/// in the source, in bytes and in rows counted from 0.
#[derive(Debug)]
pub struct SyntaxNode {
    pub kind: String,
    pub named: bool,
    pub field: Option<String>,
    pub depth: usize,
    pub start_byte: usize,
    pub end_byte: usize,
    pub start_row: usize,
    pub end_row: usize,
}

pub struct NodeModel {
    pub kind: Seq<char>,
    pub named: bool,
    pub field: Option<Seq<char>>,
    pub depth: int,
    pub start_byte: int,
    pub end_byte: int,
    pub start_row: int,
    pub end_row: int,
}

impl View for SyntaxNode {
    type V = NodeModel;

    open spec fn view(&self) -> NodeModel {
        NodeModel {
            kind: self.kind@,
            named: self.named,
            field: match self.field {
                Some(f) => Some(f@),
                None => None,
            },
            depth: self.depth as int,
            start_byte: self.start_byte as int,
            end_byte: self.end_byte as int,
            start_row: self.start_row as int,
            end_row: self.end_row as int,
        }
    }
}

pub open spec fn node_models(s: Seq<SyntaxNode>) -> Seq<NodeModel> {
    Seq::new(s.len(), |i: int| s[i]@)
}

pub open spec fn opt_nodes(s: Option<Vec<SyntaxNode>>) -> Option<Seq<NodeModel>> {
    match s {
        Some(v) => Some(node_models(v@)),
        None => None,
    }
}

/// A syntax tree of the crate `tree_sitter`.
#[verifier::external_type_specification]
#[verifier::external_body]
pub struct ExTree(tree_sitter::Tree);

/// The nodes that a tree holds, each before its children.
pub uninterp spec fn tree_nodes(tree: tree_sitter::Tree) -> Seq<NodeModel>;

/// Whether the functions of a language are measured.
pub open spec fn is_measured(g: Grammar) -> bool {
    match g {
        Grammar::Cpp
        | Grammar::CSharp
        | Grammar::Php
        | Grammar::Ruby
        | Grammar::Scala
        | Grammar::Swift
        | Grammar::Bash => false,
        _ => true,
    }
}

/// The nodes of the tree that `Parser::parse` makes of the source in the
/// grammar; none if it makes no tree.
pub uninterp spec fn parsed(grammar: Grammar, source: Seq<char>) -> Option<Seq<NodeModel>>;

/// `Parser::parse` with a grammar set by `Parser::set_language`, which is that
/// of the crate named after the language: what it makes of a source depends on
/// the grammar and the source alone.
#[verifier::external_body]
fn parse_measured(grammar: Grammar, source: &str) -> (r: Option<tree_sitter::Tree>)
    requires
        is_measured(grammar),
    ensures
        match r {
            Some(t) => parsed(grammar, source@) == Some(tree_nodes(t)),
            None => parsed(grammar, source@) is None,
        },
{
    let mut parser = tree_sitter::Parser::new();
    parser.set_language(&match grammar {
        Grammar::Rust => tree_sitter_rust::LANGUAGE.into(),
        Grammar::Python => tree_sitter_python::LANGUAGE.into(),
        Grammar::TypeScript => tree_sitter_typescript::LANGUAGE_TYPESCRIPT.into(),
        Grammar::JavaScript => tree_sitter_javascript::LANGUAGE.into(),
        Grammar::Go => tree_sitter_go::LANGUAGE.into(),
        Grammar::Java => tree_sitter_java::LANGUAGE.into(),
        Grammar::Kotlin => tree_sitter_kotlin_ng::LANGUAGE.into(),
        _ => tree_sitter_dart::LANGUAGE.into(),
    }).ok()?;
    parser.parse(source, None)
}

/// `Parser::parse` with a grammar set by `Parser::set_language`, as
/// `parse_measured`, for the languages that are only searched for constructs.
#[verifier::external_body]
fn parse_searched(grammar: Grammar, source: &str) -> (r: Option<tree_sitter::Tree>)
    requires
        !is_measured(grammar),
    ensures
        match r {
            Some(t) => parsed(grammar, source@) == Some(tree_nodes(t)),
            None => parsed(grammar, source@) is None,
        },
{
    let mut parser = tree_sitter::Parser::new();
    parser.set_language(&match grammar {
        Grammar::Cpp => tree_sitter_cpp::LANGUAGE.into(),
        Grammar::CSharp => tree_sitter_c_sharp::LANGUAGE.into(),
        Grammar::Php => tree_sitter_php::LANGUAGE_PHP.into(),
        Grammar::Ruby => tree_sitter_ruby::LANGUAGE.into(),
        Grammar::Scala => tree_sitter_scala::LANGUAGE.into(),
        Grammar::Swift => tree_sitter_swift::LANGUAGE.into(),
        _ => tree_sitter_bash::LANGUAGE.into(),
    }).ok()?;
    parser.parse(source, None)
}

/// The tree of a source.
fn parse_tree(grammar: Grammar, source: &str) -> (r: Option<tree_sitter::Tree>)
    ensures
        match r {
            Some(t) => parsed(grammar, source@) == Some(tree_nodes(t)),
            None => parsed(grammar, source@) is None,
        },
{
    match grammar {
        Grammar::Cpp
        | Grammar::CSharp
        | Grammar::Php
        | Grammar::Ruby
        | Grammar::Scala
        | Grammar::Swift
        | Grammar::Bash => parse_searched(grammar, source),
        _ => parse_measured(grammar, source),
    }
}

/// `TreeCursor::goto_descendant`, for one node after another: the nodes of the
/// tree, each before its children, with what `Node` and `TreeCursor` say of
/// them.
#[verifier::external_body]
fn nodes_of(tree: &tree_sitter::Tree) -> (r: Vec<SyntaxNode>)
    ensures
        node_models(r@) == tree_nodes(*tree),
{
    let mut cursor = tree.walk();
    (0..tree.root_node().descendant_count()).map(|i| {
        cursor.goto_descendant(i);
        let (node, field) = (cursor.node(), cursor.field_name().map(str::to_string));
        let (start, end) = (node.start_position().row, node.end_position().row);
        let (kind, named, depth) = (node.kind().to_string(), node.is_named(), cursor.depth() as usize);
        let (start_byte, end_byte) = (node.start_byte(), node.end_byte());
        SyntaxNode { kind, named, field, depth, start_byte, end_byte, start_row: start, end_row: end }
    }).collect()
}

/// Parses a source: the nodes of its tree, each before its children.
pub fn parse(grammar: Grammar, source: &str) -> (r: Option<Vec<SyntaxNode>>)
    ensures
        opt_nodes(r) == parsed(grammar, source@),
{
    match parse_tree(grammar, source) {
        Some(t) => Some(nodes_of(&t)),
        None => None,
    }
}

/// The first place from `j` on that is not deeper than `depth`.
pub open spec fn end_from(ns: Seq<NodeModel>, depth: int, j: int) -> int
    decreases ns.len() - j,
{
    if j >= ns.len() {
        ns.len() as int
    } else if ns[j].depth <= depth {
        j
    } else {
        end_from(ns, depth, j + 1)
    }
}

/// The place after the last node below node `i`.
pub open spec fn end_of(ns: Seq<NodeModel>, i: int) -> int {
    end_from(ns, ns[i].depth, i + 1)
}

pub proof fn lemma_end_from(ns: Seq<NodeModel>, depth: int, j: int)
    requires
        0 <= j <= ns.len(),
    ensures
        j <= end_from(ns, depth, j) <= ns.len(),
        forall|k: int| j <= k < end_from(ns, depth, j) ==> (#[trigger] ns[k]).depth > depth,
        end_from(ns, depth, j) < ns.len() ==> ns[end_from(ns, depth, j)].depth <= depth,
    decreases ns.len() - j,
{
    if j < ns.len() && ns[j].depth > depth {
        lemma_end_from(ns, depth, j + 1);
    }
}

/// The nodes below a node stand right after it, and are all deeper.
pub proof fn lemma_end_of(ns: Seq<NodeModel>, i: int)
    requires
        0 <= i < ns.len(),
    ensures
        i < end_of(ns, i) <= ns.len(),
        forall|k: int| i < k < end_of(ns, i) ==> (#[trigger] ns[k]).depth > ns[i].depth,
{
    lemma_end_from(ns, ns[i].depth, i + 1);
}

/// The nodes below a node inside another one's lie inside that one's too.
pub proof fn lemma_ends_nest(ns: Seq<NodeModel>, i: int, k: int)
    requires
        0 <= i < k < end_of(ns, i),
        i < ns.len(),
        k < ns.len(),
    ensures
        end_of(ns, k) <= end_of(ns, i),
{
    lemma_end_of(ns, i);
    lemma_end_of(ns, k);
    let e = end_of(ns, i);
    lemma_end_from(ns, ns[i].depth, i + 1);
    if end_of(ns, k) > e {
        assert(ns[e].depth > ns[k].depth);
        assert(ns[k].depth > ns[i].depth);
    }
}

/// The place after the last node below each node.
pub fn subtree_ends(nodes: &[SyntaxNode]) -> (r: Vec<usize>)
    ensures
        r@.len() == nodes@.len(),
        forall|i: int| 0 <= i < r@.len() ==> #[trigger] r@[i] == end_of(node_models(nodes@), i),
{
    let ghost ns = node_models(nodes@);
    let n: usize = nodes.len();
    let mut out: Vec<usize> = Vec::new();
    let mut i: usize = 0;
    while i < n
        invariant
            n == nodes@.len(),
            ns == node_models(nodes@),
            i <= n,
            out@.len() == i,
            forall|k: int| 0 <= k < i ==> #[trigger] out@[k] == end_of(ns, k),
        decreases n - i,
    {
        let mut j: usize = i + 1;
        while j < n && nodes[j].depth > nodes[i].depth
            invariant
                n == nodes@.len(),
                ns == node_models(nodes@),
                i < j <= n,
                end_of(ns, i as int) == end_from(ns, ns[i as int].depth, j as int),
            decreases n - j,
        {
            proof {
                assert(ns[j as int].depth == nodes@[j as int].depth);
                assert(ns[i as int].depth == nodes@[i as int].depth);
            }
            j += 1;
        }
        proof {
            if j < n {
                assert(ns[j as int].depth == nodes@[j as int].depth);
                assert(ns[i as int].depth == nodes@[i as int].depth);
            }
        }
        out.push(j);
        i += 1;
    }
    out
}

/// The ends of all nodes.
pub open spec fn are_ends(ends: Seq<usize>, ns: Seq<NodeModel>) -> bool {
    &&& ends.len() == ns.len()
    &&& forall|i: int| 0 <= i < ends.len() ==> #[trigger] ends[i] == end_of(ns, i)
}

/// The nearest node before `i`, counted from `j` down, that is less deep than
/// node `i`.
pub open spec fn parent_from(ns: Seq<NodeModel>, i: int, j: int) -> Option<int>
    decreases j + 1,
{
    if j < 0 {
        None
    } else if ns[j].depth < ns[i].depth {
        Some(j)
    } else {
        parent_from(ns, i, j - 1)
    }
}

/// The parent of a node.
pub open spec fn parent(ns: Seq<NodeModel>, i: int) -> Option<int> {
    parent_from(ns, i, i - 1)
}

pub proof fn lemma_parent_from(ns: Seq<NodeModel>, i: int, j: int)
    requires
        j < i,
    ensures
        parent_from(ns, i, j) matches Some(p) ==> 0 <= p <= j && p < i,
    decreases j + 1,
{
    if j >= 0 {
        lemma_parent_from(ns, i, j - 1);
    }
}

pub fn parent_of(nodes: &[SyntaxNode], i: usize) -> (r: Option<usize>)
    requires
        i < nodes@.len(),
    ensures
        match r {
            Some(p) => parent(node_models(nodes@), i as int) == Some(p as int) && p < i,
            None => parent(node_models(nodes@), i as int) is None,
        },
{
    let ghost ns = node_models(nodes@);
    let mut j: usize = i;
    while j > 0
        invariant
            i < nodes@.len(),
            ns == node_models(nodes@),
            j <= i,
            parent(ns, i as int) == parent_from(ns, i as int, j - 1),
        decreases j,
    {
        proof {
            assert(ns[j - 1].depth == nodes@[j - 1].depth);
            assert(ns[i as int].depth == nodes@[i as int].depth);
        }
        if nodes[j - 1].depth < nodes[i].depth {
            return Some(j - 1);
        }
        j -= 1;
    }
    None
}

/// The nearest sibling before `i`, counted from `j` down, that the grammar
/// names.
pub open spec fn sibling_from(ns: Seq<NodeModel>, i: int, j: int) -> Option<int>
    decreases j + 1,
{
    if j < 0 || ns[j].depth < ns[i].depth {
        None
    } else if ns[j].depth == ns[i].depth && ns[j].named {
        Some(j)
    } else {
        sibling_from(ns, i, j - 1)
    }
}

/// The named sibling right before a node.
pub open spec fn prev_named_sibling(ns: Seq<NodeModel>, i: int) -> Option<int> {
    sibling_from(ns, i, i - 1)
}

pub fn named_sibling_before(nodes: &[SyntaxNode], i: usize) -> (r: Option<usize>)
    requires
        i < nodes@.len(),
    ensures
        match r {
            Some(p) => prev_named_sibling(node_models(nodes@), i as int) == Some(p as int) && p < i,
            None => prev_named_sibling(node_models(nodes@), i as int) is None,
        },
{
    let ghost ns = node_models(nodes@);
    let mut j: usize = i;
    while j > 0
        invariant
            i < nodes@.len(),
            ns == node_models(nodes@),
            j <= i,
            prev_named_sibling(ns, i as int) == sibling_from(ns, i as int, j - 1),
        decreases j,
    {
        proof {
            assert(ns[j - 1] == nodes@[j - 1]@);
            assert(ns[i as int].depth == nodes@[i as int].depth);
        }
        if nodes[j - 1].depth < nodes[i].depth {
            return None;
        }
        if nodes[j - 1].depth == nodes[i].depth && nodes[j - 1].named {
            return Some(j - 1);
        }
        j -= 1;
    }
    None
}

/// Node `j` is a child of node `i`.
pub open spec fn is_child(ns: Seq<NodeModel>, i: int, j: int) -> bool {
    i < j < end_of(ns, i) && ns[j].depth == ns[i].depth + 1
}

/// The first child of node `i`, from `j` on, with the property.
pub open spec fn child_from(
    ns: Seq<NodeModel>,
    f: spec_fn(NodeModel) -> bool,
    i: int,
    j: int,
) -> Option<int>
    decreases end_of(ns, i) - j,
{
    if j >= end_of(ns, i) {
        None
    } else if ns[j].depth == ns[i].depth + 1 && f(ns[j]) {
        Some(j)
    } else {
        child_from(ns, f, i, j + 1)
    }
}

/// The first child of a node with the property.
pub open spec fn first_child(ns: Seq<NodeModel>, f: spec_fn(NodeModel) -> bool, i: int) -> Option<
    int,
> {
    child_from(ns, f, i, i + 1)
}

/// What is found is a child, it has the property, and no child before it does;
/// nothing is found only where no child has it.
pub proof fn first_child_is_first(ns: Seq<NodeModel>, f: spec_fn(NodeModel) -> bool, i: int, j: int)
    requires
        0 <= i < ns.len(),
        i < j <= end_of(ns, i),
    ensures
        match child_from(ns, f, i, j) {
            Some(k) => j <= k && k < ns.len() && is_child(ns, i, k) && f(ns[k]) && forall|m: int|
                j <= m < k && #[trigger] is_child(ns, i, m) ==> !f(ns[m]),
            None => forall|m: int| j <= m && #[trigger] is_child(ns, i, m) ==> !f(ns[m]),
        },
    decreases end_of(ns, i) - j,
{
    lemma_end_of(ns, i);
    if j < end_of(ns, i) {
        first_child_is_first(ns, f, i, j + 1);
    }
}

pub open spec fn has_field(field: Seq<char>) -> spec_fn(NodeModel) -> bool {
    |n: NodeModel| n.field == Some(field)
}

pub open spec fn is_named_node() -> spec_fn(NodeModel) -> bool {
    |n: NodeModel| n.named
}

/// The first child that fills the field.
pub fn child_by_field(nodes: &[SyntaxNode], ends: &[usize], i: usize, field: &str) -> (r: Option<
    usize,
>)
    requires
        are_ends(ends@, node_models(nodes@)),
        i < nodes@.len(),
    ensures
        match r {
            Some(k) => first_child(node_models(nodes@), has_field(field@), i as int) == Some(
                k as int,
            ) && i < k < nodes@.len(),
            None => first_child(node_models(nodes@), has_field(field@), i as int) is None,
        },
{
    let ghost ns = node_models(nodes@);
    let end: usize = ends[i];
    proof {
        lemma_end_of(ns, i as int);
    }
    let mut j: usize = i + 1;
    while j < end
        invariant
            i < nodes@.len(),
            ns == node_models(nodes@),
            end == end_of(ns, i as int),
            end <= ns.len(),
            i < j <= end,
            first_child(ns, has_field(field@), i as int) == child_from(
                ns,
                has_field(field@),
                i as int,
                j as int,
            ),
        decreases end - j,
    {
        proof {
            assert(ns[j as int] == nodes@[j as int]@);
            assert(ns[i as int].depth == nodes@[i as int].depth);
        }
        if nodes[j].depth > nodes[i].depth && nodes[j].depth - nodes[i].depth == 1 {
            if let Some(f) = &nodes[j].field {
                if text::same(f.as_str(), field) {
                    return Some(j);
                }
            }
        }
        j += 1;
    }
    None
}

/// The first child that the grammar names.
pub fn first_named_child(nodes: &[SyntaxNode], ends: &[usize], i: usize) -> (r: Option<usize>)
    requires
        are_ends(ends@, node_models(nodes@)),
        i < nodes@.len(),
    ensures
        match r {
            Some(k) => first_child(node_models(nodes@), is_named_node(), i as int) == Some(
                k as int,
            ) && i < k < nodes@.len(),
            None => first_child(node_models(nodes@), is_named_node(), i as int) is None,
        },
{
    let ghost ns = node_models(nodes@);
    let end: usize = ends[i];
    proof {
        lemma_end_of(ns, i as int);
    }
    let mut j: usize = i + 1;
    while j < end
        invariant
            i < nodes@.len(),
            ns == node_models(nodes@),
            end == end_of(ns, i as int),
            end <= ns.len(),
            i < j <= end,
            first_child(ns, is_named_node(), i as int) == child_from(
                ns,
                is_named_node(),
                i as int,
                j as int,
            ),
        decreases end - j,
    {
        proof {
            assert(ns[j as int] == nodes@[j as int]@);
            assert(ns[i as int].depth == nodes@[i as int].depth);
        }
        if nodes[j].depth > nodes[i].depth && nodes[j].depth - nodes[i].depth == 1
            && nodes[j].named {
            return Some(j);
        }
        j += 1;
    }
    None
}

/// The bytes of a node, if it lies within the source.
pub open spec fn node_bytes(source: Seq<char>, n: NodeModel) -> Option<Seq<u8>> {
    let bytes = vstd::utf8::encode_utf8(source);
    if n.start_byte <= n.end_byte && n.end_byte <= bytes.len() {
        Some(bytes.subrange(n.start_byte, n.end_byte))
    } else {
        None
    }
}

/// The text of a node; nothing where it lies outside the source or cuts a
/// character.
pub open spec fn node_text(source: Seq<char>, n: NodeModel) -> Seq<char> {
    match node_bytes(source, n) {
        Some(bytes) => match crate::blob::text_of(bytes) {
            Some(s) => s,
            None => Seq::empty(),
        },
        None => Seq::empty(),
    }
}

pub fn text_of_node<'a>(source: &'a str, n: &SyntaxNode) -> (r: &'a str)
    ensures
        r@ == node_text(source@, n@),
{
    let bytes = source.as_bytes();
    if n.start_byte > n.end_byte || n.end_byte > bytes.len() {
        proof {
            reveal_strlit("");
            assert(""@ =~= Seq::<char>::empty());
        }
        return "";
    }
    let part = vstd::slice::slice_subrange(bytes, n.start_byte, n.end_byte);
    match crate::blob::as_text(part) {
        Some(s) => s,
        None => {
            proof {
                reveal_strlit("");
                assert(""@ =~= Seq::<char>::empty());
            }
            ""
        },
    }
}

/// What `String::from_utf8_lossy` makes of bytes.
pub uninterp spec fn utf8_lossy(bytes: Seq<u8>) -> Seq<char>;

/// `String::from_utf8_lossy`: valid UTF-8 is decoded; otherwise the result,
/// with replacement characters, depends on the bytes alone.
#[verifier::external_body]
fn lossy_text(bytes: &[u8]) -> (r: String)
    ensures
        r@ == utf8_lossy(bytes@),
        crate::blob::text_of(bytes@) matches Some(s) ==> r@ == s,
{
    String::from_utf8_lossy(bytes).into_owned()
}

/// The text of a node, whatever its bytes are, if it lies within the source.
pub open spec fn node_name(source: Seq<char>, n: NodeModel) -> Option<Seq<char>> {
    match node_bytes(source, n) {
        Some(bytes) => Some(utf8_lossy(bytes)),
        None => None,
    }
}

pub fn name_of_node(source: &str, n: &SyntaxNode) -> (r: Option<String>)
    ensures
        match r {
            Some(s) => node_name(source@, n@) == Some(s@),
            None => node_name(source@, n@) is None,
        },
{
    let bytes = source.as_bytes();
    if n.start_byte > n.end_byte || n.end_byte > bytes.len() {
        return None;
    }
    let part = vstd::slice::slice_subrange(bytes, n.start_byte, n.end_byte);
    Some(lossy_text(part))
}

/// The number of a row, counted from 1; beyond the largest number there is only
/// that number.
pub open spec fn line_of(row: int) -> int {
    if row < u32::MAX {
        row + 1
    } else {
        u32::MAX as int
    }
}

pub fn line_of_row(row: usize) -> (r: u32)
    ensures
        r == line_of(row as int),
{
    if row < u32::MAX as usize {
        row as u32 + 1
    } else {
        u32::MAX
    }
}

/// The texts of static slices.
pub open spec fn kinds_of(list: &'static [&'static str]) -> Seq<Seq<char>> {
    Seq::new(list@.len(), |i: int| list@[i]@)
}

/// Whether a node is of one of the listed kinds.
pub fn is_kind(n: &SyntaxNode, list: &'static [&'static str]) -> (r: bool)
    ensures
        r == kinds_of(list).contains(n@.kind),
{
    let m: usize = list.len();
    let mut i: usize = 0;
    while i < m
        invariant
            m == list@.len(),
            i <= m,
            forall|k: int| 0 <= k < i ==> #[trigger] kinds_of(list)[k] != n@.kind,
        decreases m - i,
    {
        if text::same(list[i], n.kind.as_str()) {
            proof {
                assert(kinds_of(list)[i as int] == n@.kind);
            }
            return true;
        }
        i += 1;
    }
    false
}

/// A child with some property is found where, and only where, there is one.
pub proof fn a_child_is_found(ns: Seq<NodeModel>, f: spec_fn(NodeModel) -> bool, i: int)
    requires
        0 <= i < ns.len(),
    ensures
        first_child(ns, f, i) is Some <==> exists|c: int|
            i < c < ns.len() && is_child(ns, i, c) && f(#[trigger] ns[c]),
{
    lemma_end_of(ns, i);
    first_child_is_first(ns, f, i, i + 1);
}

/// The language that is measured is told by the extension.
pub proof fn extensions_tell_measured_languages()
    ensures
        measured_by_extension("rs"@) == Some(Grammar::Rust),
        measured_by_extension("py"@) == Some(Grammar::Python),
        measured_by_extension("pyi"@) == Some(Grammar::Python),
        measured_by_extension("ts"@) == Some(Grammar::TypeScript),
        measured_by_extension("tsx"@) == Some(Grammar::TypeScript),
        measured_by_extension("js"@) == Some(Grammar::JavaScript),
        measured_by_extension("jsx"@) == Some(Grammar::JavaScript),
        measured_by_extension("mjs"@) == Some(Grammar::JavaScript),
        measured_by_extension("cjs"@) == Some(Grammar::JavaScript),
        measured_by_extension("go"@) == Some(Grammar::Go),
        measured_by_extension("java"@) == Some(Grammar::Java),
        measured_by_extension("kt"@) == Some(Grammar::Kotlin),
        measured_by_extension("kts"@) == Some(Grammar::Kotlin),
        measured_by_extension("dart"@) == Some(Grammar::Dart),
        measured_by_extension("cpp"@) is None,
        measured_by_extension("cc"@) is None,
        measured_by_extension("cxx"@) is None,
        measured_by_extension("hpp"@) is None,
        measured_by_extension("h"@) is None,
        measured_by_extension("cs"@) is None,
        measured_by_extension("php"@) is None,
        measured_by_extension("rb"@) is None,
        measured_by_extension("scala"@) is None,
        measured_by_extension("sc"@) is None,
        measured_by_extension("swift"@) is None,
        measured_by_extension("sh"@) is None,
        measured_by_extension("bash"@) is None,
{
    reveal_strlit("rs");
    reveal_strlit("py");
    reveal_strlit("pyi");
    reveal_strlit("ts");
    reveal_strlit("tsx");
    reveal_strlit("js");
    reveal_strlit("jsx");
    reveal_strlit("mjs");
    reveal_strlit("cjs");
    reveal_strlit("go");
    reveal_strlit("java");
    reveal_strlit("kt");
    reveal_strlit("kts");
    reveal_strlit("dart");
    reveal_strlit("cpp");
    reveal_strlit("cc");
    reveal_strlit("cxx");
    reveal_strlit("hpp");
    reveal_strlit("h");
    reveal_strlit("cs");
    reveal_strlit("php");
    reveal_strlit("rb");
    reveal_strlit("scala");
    reveal_strlit("sc");
    reveal_strlit("swift");
    reveal_strlit("sh");
    reveal_strlit("bash");
    assert("rs"@[0] != "py"@[0]);
    assert("rs"@.len() != "pyi"@.len());
    assert("rs"@[0] != "ts"@[0]);
    assert("rs"@.len() != "tsx"@.len());
    assert("rs"@[0] != "js"@[0]);
    assert("rs"@.len() != "jsx"@.len());
    assert("rs"@.len() != "mjs"@.len());
    assert("rs"@.len() != "cjs"@.len());
    assert("rs"@[0] != "go"@[0]);
    assert("rs"@.len() != "java"@.len());
    assert("rs"@[0] != "kt"@[0]);
    assert("rs"@.len() != "kts"@.len());
    assert("rs"@.len() != "dart"@.len());
    assert("rs"@.len() != "cpp"@.len());
    assert("rs"@[0] != "cc"@[0]);
    assert("rs"@.len() != "cxx"@.len());
    assert("rs"@.len() != "hpp"@.len());
    assert("rs"@.len() != "h"@.len());
    assert("rs"@[0] != "cs"@[0]);
    assert("rs"@.len() != "php"@.len());
    assert("rs"@[1] != "rb"@[1]);
    assert("rs"@.len() != "scala"@.len());
    assert("rs"@[0] != "sc"@[0]);
    assert("rs"@.len() != "swift"@.len());
    assert("rs"@[0] != "sh"@[0]);
    assert("rs"@.len() != "bash"@.len());
    assert("py"@.len() != "pyi"@.len());
    assert("py"@[0] != "ts"@[0]);
    assert("py"@.len() != "tsx"@.len());
    assert("py"@[0] != "js"@[0]);
    assert("py"@.len() != "jsx"@.len());
    assert("py"@.len() != "mjs"@.len());
    assert("py"@.len() != "cjs"@.len());
    assert("py"@[0] != "go"@[0]);
    assert("py"@.len() != "java"@.len());
    assert("py"@[0] != "kt"@[0]);
    assert("py"@.len() != "kts"@.len());
    assert("py"@.len() != "dart"@.len());
    assert("py"@.len() != "cpp"@.len());
    assert("py"@[0] != "cc"@[0]);
    assert("py"@.len() != "cxx"@.len());
    assert("py"@.len() != "hpp"@.len());
    assert("py"@.len() != "h"@.len());
    assert("py"@[0] != "cs"@[0]);
    assert("py"@.len() != "php"@.len());
    assert("py"@[0] != "rb"@[0]);
    assert("py"@.len() != "scala"@.len());
    assert("py"@[0] != "sc"@[0]);
    assert("py"@.len() != "swift"@.len());
    assert("py"@[0] != "sh"@[0]);
    assert("py"@.len() != "bash"@.len());
    assert("pyi"@.len() != "ts"@.len());
    assert("pyi"@[0] != "tsx"@[0]);
    assert("pyi"@.len() != "js"@.len());
    assert("pyi"@[0] != "jsx"@[0]);
    assert("pyi"@[0] != "mjs"@[0]);
    assert("pyi"@[0] != "cjs"@[0]);
    assert("pyi"@.len() != "go"@.len());
    assert("pyi"@.len() != "java"@.len());
    assert("pyi"@.len() != "kt"@.len());
    assert("pyi"@[0] != "kts"@[0]);
    assert("pyi"@.len() != "dart"@.len());
    assert("pyi"@[0] != "cpp"@[0]);
    assert("pyi"@.len() != "cc"@.len());
    assert("pyi"@[0] != "cxx"@[0]);
    assert("pyi"@[0] != "hpp"@[0]);
    assert("pyi"@.len() != "h"@.len());
    assert("pyi"@.len() != "cs"@.len());
    assert("pyi"@[1] != "php"@[1]);
    assert("pyi"@.len() != "rb"@.len());
    assert("pyi"@.len() != "scala"@.len());
    assert("pyi"@.len() != "sc"@.len());
    assert("pyi"@.len() != "swift"@.len());
    assert("pyi"@.len() != "sh"@.len());
    assert("pyi"@.len() != "bash"@.len());
    assert("ts"@.len() != "tsx"@.len());
    assert("ts"@[0] != "js"@[0]);
    assert("ts"@.len() != "jsx"@.len());
    assert("ts"@.len() != "mjs"@.len());
    assert("ts"@.len() != "cjs"@.len());
    assert("ts"@[0] != "go"@[0]);
    assert("ts"@.len() != "java"@.len());
    assert("ts"@[0] != "kt"@[0]);
    assert("ts"@.len() != "kts"@.len());
    assert("ts"@.len() != "dart"@.len());
    assert("ts"@.len() != "cpp"@.len());
    assert("ts"@[0] != "cc"@[0]);
    assert("ts"@.len() != "cxx"@.len());
    assert("ts"@.len() != "hpp"@.len());
    assert("ts"@.len() != "h"@.len());
    assert("ts"@[0] != "cs"@[0]);
    assert("ts"@.len() != "php"@.len());
    assert("ts"@[0] != "rb"@[0]);
    assert("ts"@.len() != "scala"@.len());
    assert("ts"@[0] != "sc"@[0]);
    assert("ts"@.len() != "swift"@.len());
    assert("ts"@[0] != "sh"@[0]);
    assert("ts"@.len() != "bash"@.len());
    assert("tsx"@.len() != "js"@.len());
    assert("tsx"@[0] != "jsx"@[0]);
    assert("tsx"@[0] != "mjs"@[0]);
    assert("tsx"@[0] != "cjs"@[0]);
    assert("tsx"@.len() != "go"@.len());
    assert("tsx"@.len() != "java"@.len());
    assert("tsx"@.len() != "kt"@.len());
    assert("tsx"@[0] != "kts"@[0]);
    assert("tsx"@.len() != "dart"@.len());
    assert("tsx"@[0] != "cpp"@[0]);
    assert("tsx"@.len() != "cc"@.len());
    assert("tsx"@[0] != "cxx"@[0]);
    assert("tsx"@[0] != "hpp"@[0]);
    assert("tsx"@.len() != "h"@.len());
    assert("tsx"@.len() != "cs"@.len());
    assert("tsx"@[0] != "php"@[0]);
    assert("tsx"@.len() != "rb"@.len());
    assert("tsx"@.len() != "scala"@.len());
    assert("tsx"@.len() != "sc"@.len());
    assert("tsx"@.len() != "swift"@.len());
    assert("tsx"@.len() != "sh"@.len());
    assert("tsx"@.len() != "bash"@.len());
    assert("js"@.len() != "jsx"@.len());
    assert("js"@.len() != "mjs"@.len());
    assert("js"@.len() != "cjs"@.len());
    assert("js"@[0] != "go"@[0]);
    assert("js"@.len() != "java"@.len());
    assert("js"@[0] != "kt"@[0]);
    assert("js"@.len() != "kts"@.len());
    assert("js"@.len() != "dart"@.len());
    assert("js"@.len() != "cpp"@.len());
    assert("js"@[0] != "cc"@[0]);
    assert("js"@.len() != "cxx"@.len());
    assert("js"@.len() != "hpp"@.len());
    assert("js"@.len() != "h"@.len());
    assert("js"@[0] != "cs"@[0]);
    assert("js"@.len() != "php"@.len());
    assert("js"@[0] != "rb"@[0]);
    assert("js"@.len() != "scala"@.len());
    assert("js"@[0] != "sc"@[0]);
    assert("js"@.len() != "swift"@.len());
    assert("js"@[0] != "sh"@[0]);
    assert("js"@.len() != "bash"@.len());
    assert("jsx"@[0] != "mjs"@[0]);
    assert("jsx"@[0] != "cjs"@[0]);
    assert("jsx"@.len() != "go"@.len());
    assert("jsx"@.len() != "java"@.len());
    assert("jsx"@.len() != "kt"@.len());
    assert("jsx"@[0] != "kts"@[0]);
    assert("jsx"@.len() != "dart"@.len());
    assert("jsx"@[0] != "cpp"@[0]);
    assert("jsx"@.len() != "cc"@.len());
    assert("jsx"@[0] != "cxx"@[0]);
    assert("jsx"@[0] != "hpp"@[0]);
    assert("jsx"@.len() != "h"@.len());
    assert("jsx"@.len() != "cs"@.len());
    assert("jsx"@[0] != "php"@[0]);
    assert("jsx"@.len() != "rb"@.len());
    assert("jsx"@.len() != "scala"@.len());
    assert("jsx"@.len() != "sc"@.len());
    assert("jsx"@.len() != "swift"@.len());
    assert("jsx"@.len() != "sh"@.len());
    assert("jsx"@.len() != "bash"@.len());
    assert("mjs"@[0] != "cjs"@[0]);
    assert("mjs"@.len() != "go"@.len());
    assert("mjs"@.len() != "java"@.len());
    assert("mjs"@.len() != "kt"@.len());
    assert("mjs"@[0] != "kts"@[0]);
    assert("mjs"@.len() != "dart"@.len());
    assert("mjs"@[0] != "cpp"@[0]);
    assert("mjs"@.len() != "cc"@.len());
    assert("mjs"@[0] != "cxx"@[0]);
    assert("mjs"@[0] != "hpp"@[0]);
    assert("mjs"@.len() != "h"@.len());
    assert("mjs"@.len() != "cs"@.len());
    assert("mjs"@[0] != "php"@[0]);
    assert("mjs"@.len() != "rb"@.len());
    assert("mjs"@.len() != "scala"@.len());
    assert("mjs"@.len() != "sc"@.len());
    assert("mjs"@.len() != "swift"@.len());
    assert("mjs"@.len() != "sh"@.len());
    assert("mjs"@.len() != "bash"@.len());
    assert("cjs"@.len() != "go"@.len());
    assert("cjs"@.len() != "java"@.len());
    assert("cjs"@.len() != "kt"@.len());
    assert("cjs"@[0] != "kts"@[0]);
    assert("cjs"@.len() != "dart"@.len());
    assert("cjs"@[1] != "cpp"@[1]);
    assert("cjs"@.len() != "cc"@.len());
    assert("cjs"@[1] != "cxx"@[1]);
    assert("cjs"@[0] != "hpp"@[0]);
    assert("cjs"@.len() != "h"@.len());
    assert("cjs"@.len() != "cs"@.len());
    assert("cjs"@[0] != "php"@[0]);
    assert("cjs"@.len() != "rb"@.len());
    assert("cjs"@.len() != "scala"@.len());
    assert("cjs"@.len() != "sc"@.len());
    assert("cjs"@.len() != "swift"@.len());
    assert("cjs"@.len() != "sh"@.len());
    assert("cjs"@.len() != "bash"@.len());
    assert("go"@.len() != "java"@.len());
    assert("go"@[0] != "kt"@[0]);
    assert("go"@.len() != "kts"@.len());
    assert("go"@.len() != "dart"@.len());
    assert("go"@.len() != "cpp"@.len());
    assert("go"@[0] != "cc"@[0]);
    assert("go"@.len() != "cxx"@.len());
    assert("go"@.len() != "hpp"@.len());
    assert("go"@.len() != "h"@.len());
    assert("go"@[0] != "cs"@[0]);
    assert("go"@.len() != "php"@.len());
    assert("go"@[0] != "rb"@[0]);
    assert("go"@.len() != "scala"@.len());
    assert("go"@[0] != "sc"@[0]);
    assert("go"@.len() != "swift"@.len());
    assert("go"@[0] != "sh"@[0]);
    assert("go"@.len() != "bash"@.len());
    assert("java"@.len() != "kt"@.len());
    assert("java"@.len() != "kts"@.len());
    assert("java"@[0] != "dart"@[0]);
    assert("java"@.len() != "cpp"@.len());
    assert("java"@.len() != "cc"@.len());
    assert("java"@.len() != "cxx"@.len());
    assert("java"@.len() != "hpp"@.len());
    assert("java"@.len() != "h"@.len());
    assert("java"@.len() != "cs"@.len());
    assert("java"@.len() != "php"@.len());
    assert("java"@.len() != "rb"@.len());
    assert("java"@.len() != "scala"@.len());
    assert("java"@.len() != "sc"@.len());
    assert("java"@.len() != "swift"@.len());
    assert("java"@.len() != "sh"@.len());
    assert("java"@[0] != "bash"@[0]);
    assert("kt"@.len() != "kts"@.len());
    assert("kt"@.len() != "dart"@.len());
    assert("kt"@.len() != "cpp"@.len());
    assert("kt"@[0] != "cc"@[0]);
    assert("kt"@.len() != "cxx"@.len());
    assert("kt"@.len() != "hpp"@.len());
    assert("kt"@.len() != "h"@.len());
    assert("kt"@[0] != "cs"@[0]);
    assert("kt"@.len() != "php"@.len());
    assert("kt"@[0] != "rb"@[0]);
    assert("kt"@.len() != "scala"@.len());
    assert("kt"@[0] != "sc"@[0]);
    assert("kt"@.len() != "swift"@.len());
    assert("kt"@[0] != "sh"@[0]);
    assert("kt"@.len() != "bash"@.len());
    assert("kts"@.len() != "dart"@.len());
    assert("kts"@[0] != "cpp"@[0]);
    assert("kts"@.len() != "cc"@.len());
    assert("kts"@[0] != "cxx"@[0]);
    assert("kts"@[0] != "hpp"@[0]);
    assert("kts"@.len() != "h"@.len());
    assert("kts"@.len() != "cs"@.len());
    assert("kts"@[0] != "php"@[0]);
    assert("kts"@.len() != "rb"@.len());
    assert("kts"@.len() != "scala"@.len());
    assert("kts"@.len() != "sc"@.len());
    assert("kts"@.len() != "swift"@.len());
    assert("kts"@.len() != "sh"@.len());
    assert("kts"@.len() != "bash"@.len());
    assert("dart"@.len() != "cpp"@.len());
    assert("dart"@.len() != "cc"@.len());
    assert("dart"@.len() != "cxx"@.len());
    assert("dart"@.len() != "hpp"@.len());
    assert("dart"@.len() != "h"@.len());
    assert("dart"@.len() != "cs"@.len());
    assert("dart"@.len() != "php"@.len());
    assert("dart"@.len() != "rb"@.len());
    assert("dart"@.len() != "scala"@.len());
    assert("dart"@.len() != "sc"@.len());
    assert("dart"@.len() != "swift"@.len());
    assert("dart"@.len() != "sh"@.len());
    assert("dart"@[0] != "bash"@[0]);
    assert("cpp"@.len() != "cc"@.len());
    assert("cpp"@[1] != "cxx"@[1]);
    assert("cpp"@[0] != "hpp"@[0]);
    assert("cpp"@.len() != "h"@.len());
    assert("cpp"@.len() != "cs"@.len());
    assert("cpp"@[0] != "php"@[0]);
    assert("cpp"@.len() != "rb"@.len());
    assert("cpp"@.len() != "scala"@.len());
    assert("cpp"@.len() != "sc"@.len());
    assert("cpp"@.len() != "swift"@.len());
    assert("cpp"@.len() != "sh"@.len());
    assert("cpp"@.len() != "bash"@.len());
    assert("cc"@.len() != "cxx"@.len());
    assert("cc"@.len() != "hpp"@.len());
    assert("cc"@.len() != "h"@.len());
    assert("cc"@[1] != "cs"@[1]);
    assert("cc"@.len() != "php"@.len());
    assert("cc"@[0] != "rb"@[0]);
    assert("cc"@.len() != "scala"@.len());
    assert("cc"@[0] != "sc"@[0]);
    assert("cc"@.len() != "swift"@.len());
    assert("cc"@[0] != "sh"@[0]);
    assert("cc"@.len() != "bash"@.len());
    assert("cxx"@[0] != "hpp"@[0]);
    assert("cxx"@.len() != "h"@.len());
    assert("cxx"@.len() != "cs"@.len());
    assert("cxx"@[0] != "php"@[0]);
    assert("cxx"@.len() != "rb"@.len());
    assert("cxx"@.len() != "scala"@.len());
    assert("cxx"@.len() != "sc"@.len());
    assert("cxx"@.len() != "swift"@.len());
    assert("cxx"@.len() != "sh"@.len());
    assert("cxx"@.len() != "bash"@.len());
    assert("hpp"@.len() != "h"@.len());
    assert("hpp"@.len() != "cs"@.len());
    assert("hpp"@[0] != "php"@[0]);
    assert("hpp"@.len() != "rb"@.len());
    assert("hpp"@.len() != "scala"@.len());
    assert("hpp"@.len() != "sc"@.len());
    assert("hpp"@.len() != "swift"@.len());
    assert("hpp"@.len() != "sh"@.len());
    assert("hpp"@.len() != "bash"@.len());
    assert("h"@.len() != "cs"@.len());
    assert("h"@.len() != "php"@.len());
    assert("h"@.len() != "rb"@.len());
    assert("h"@.len() != "scala"@.len());
    assert("h"@.len() != "sc"@.len());
    assert("h"@.len() != "swift"@.len());
    assert("h"@.len() != "sh"@.len());
    assert("h"@.len() != "bash"@.len());
    assert("cs"@.len() != "php"@.len());
    assert("cs"@[0] != "rb"@[0]);
    assert("cs"@.len() != "scala"@.len());
    assert("cs"@[0] != "sc"@[0]);
    assert("cs"@.len() != "swift"@.len());
    assert("cs"@[0] != "sh"@[0]);
    assert("cs"@.len() != "bash"@.len());
    assert("php"@.len() != "rb"@.len());
    assert("php"@.len() != "scala"@.len());
    assert("php"@.len() != "sc"@.len());
    assert("php"@.len() != "swift"@.len());
    assert("php"@.len() != "sh"@.len());
    assert("php"@.len() != "bash"@.len());
    assert("rb"@.len() != "scala"@.len());
    assert("rb"@[0] != "sc"@[0]);
    assert("rb"@.len() != "swift"@.len());
    assert("rb"@[0] != "sh"@[0]);
    assert("rb"@.len() != "bash"@.len());
    assert("scala"@.len() != "sc"@.len());
    assert("scala"@[1] != "swift"@[1]);
    assert("scala"@.len() != "sh"@.len());
    assert("scala"@.len() != "bash"@.len());
    assert("sc"@.len() != "swift"@.len());
    assert("sc"@[1] != "sh"@[1]);
    assert("sc"@.len() != "bash"@.len());
    assert("swift"@.len() != "sh"@.len());
    assert("swift"@.len() != "bash"@.len());
    assert("sh"@.len() != "bash"@.len());
}

/// The other languages that are searched are told by the extension.
pub proof fn extensions_tell_searched_languages()
    ensures
        searched_by_extension("cpp"@) == Some(Grammar::Cpp),
        searched_by_extension("cc"@) == Some(Grammar::Cpp),
        searched_by_extension("cxx"@) == Some(Grammar::Cpp),
        searched_by_extension("hpp"@) == Some(Grammar::Cpp),
        searched_by_extension("h"@) == Some(Grammar::Cpp),
        searched_by_extension("cs"@) == Some(Grammar::CSharp),
        searched_by_extension("php"@) == Some(Grammar::Php),
        searched_by_extension("rb"@) == Some(Grammar::Ruby),
        searched_by_extension("scala"@) == Some(Grammar::Scala),
        searched_by_extension("sc"@) == Some(Grammar::Scala),
        searched_by_extension("swift"@) == Some(Grammar::Swift),
        searched_by_extension("sh"@) == Some(Grammar::Bash),
        searched_by_extension("bash"@) == Some(Grammar::Bash),
        searched_by_extension("rs"@) is None,
        searched_by_extension("py"@) is None,
        searched_by_extension("pyi"@) is None,
        searched_by_extension("ts"@) is None,
        searched_by_extension("tsx"@) is None,
        searched_by_extension("js"@) is None,
        searched_by_extension("jsx"@) is None,
        searched_by_extension("mjs"@) is None,
        searched_by_extension("cjs"@) is None,
        searched_by_extension("go"@) is None,
        searched_by_extension("java"@) is None,
        searched_by_extension("kt"@) is None,
        searched_by_extension("kts"@) is None,
        searched_by_extension("dart"@) is None,
{
    reveal_strlit("rs");
    reveal_strlit("py");
    reveal_strlit("pyi");
    reveal_strlit("ts");
    reveal_strlit("tsx");
    reveal_strlit("js");
    reveal_strlit("jsx");
    reveal_strlit("mjs");
    reveal_strlit("cjs");
    reveal_strlit("go");
    reveal_strlit("java");
    reveal_strlit("kt");
    reveal_strlit("kts");
    reveal_strlit("dart");
    reveal_strlit("cpp");
    reveal_strlit("cc");
    reveal_strlit("cxx");
    reveal_strlit("hpp");
    reveal_strlit("h");
    reveal_strlit("cs");
    reveal_strlit("php");
    reveal_strlit("rb");
    reveal_strlit("scala");
    reveal_strlit("sc");
    reveal_strlit("swift");
    reveal_strlit("sh");
    reveal_strlit("bash");
    assert("rs"@[0] != "py"@[0]);
    assert("rs"@.len() != "pyi"@.len());
    assert("rs"@[0] != "ts"@[0]);
    assert("rs"@.len() != "tsx"@.len());
    assert("rs"@[0] != "js"@[0]);
    assert("rs"@.len() != "jsx"@.len());
    assert("rs"@.len() != "mjs"@.len());
    assert("rs"@.len() != "cjs"@.len());
    assert("rs"@[0] != "go"@[0]);
    assert("rs"@.len() != "java"@.len());
    assert("rs"@[0] != "kt"@[0]);
    assert("rs"@.len() != "kts"@.len());
    assert("rs"@.len() != "dart"@.len());
    assert("rs"@.len() != "cpp"@.len());
    assert("rs"@[0] != "cc"@[0]);
    assert("rs"@.len() != "cxx"@.len());
    assert("rs"@.len() != "hpp"@.len());
    assert("rs"@.len() != "h"@.len());
    assert("rs"@[0] != "cs"@[0]);
    assert("rs"@.len() != "php"@.len());
    assert("rs"@[1] != "rb"@[1]);
    assert("rs"@.len() != "scala"@.len());
    assert("rs"@[0] != "sc"@[0]);
    assert("rs"@.len() != "swift"@.len());
    assert("rs"@[0] != "sh"@[0]);
    assert("rs"@.len() != "bash"@.len());
    assert("py"@.len() != "pyi"@.len());
    assert("py"@[0] != "ts"@[0]);
    assert("py"@.len() != "tsx"@.len());
    assert("py"@[0] != "js"@[0]);
    assert("py"@.len() != "jsx"@.len());
    assert("py"@.len() != "mjs"@.len());
    assert("py"@.len() != "cjs"@.len());
    assert("py"@[0] != "go"@[0]);
    assert("py"@.len() != "java"@.len());
    assert("py"@[0] != "kt"@[0]);
    assert("py"@.len() != "kts"@.len());
    assert("py"@.len() != "dart"@.len());
    assert("py"@.len() != "cpp"@.len());
    assert("py"@[0] != "cc"@[0]);
    assert("py"@.len() != "cxx"@.len());
    assert("py"@.len() != "hpp"@.len());
    assert("py"@.len() != "h"@.len());
    assert("py"@[0] != "cs"@[0]);
    assert("py"@.len() != "php"@.len());
    assert("py"@[0] != "rb"@[0]);
    assert("py"@.len() != "scala"@.len());
    assert("py"@[0] != "sc"@[0]);
    assert("py"@.len() != "swift"@.len());
    assert("py"@[0] != "sh"@[0]);
    assert("py"@.len() != "bash"@.len());
    assert("pyi"@.len() != "ts"@.len());
    assert("pyi"@[0] != "tsx"@[0]);
    assert("pyi"@.len() != "js"@.len());
    assert("pyi"@[0] != "jsx"@[0]);
    assert("pyi"@[0] != "mjs"@[0]);
    assert("pyi"@[0] != "cjs"@[0]);
    assert("pyi"@.len() != "go"@.len());
    assert("pyi"@.len() != "java"@.len());
    assert("pyi"@.len() != "kt"@.len());
    assert("pyi"@[0] != "kts"@[0]);
    assert("pyi"@.len() != "dart"@.len());
    assert("pyi"@[0] != "cpp"@[0]);
    assert("pyi"@.len() != "cc"@.len());
    assert("pyi"@[0] != "cxx"@[0]);
    assert("pyi"@[0] != "hpp"@[0]);
    assert("pyi"@.len() != "h"@.len());
    assert("pyi"@.len() != "cs"@.len());
    assert("pyi"@[1] != "php"@[1]);
    assert("pyi"@.len() != "rb"@.len());
    assert("pyi"@.len() != "scala"@.len());
    assert("pyi"@.len() != "sc"@.len());
    assert("pyi"@.len() != "swift"@.len());
    assert("pyi"@.len() != "sh"@.len());
    assert("pyi"@.len() != "bash"@.len());
    assert("ts"@.len() != "tsx"@.len());
    assert("ts"@[0] != "js"@[0]);
    assert("ts"@.len() != "jsx"@.len());
    assert("ts"@.len() != "mjs"@.len());
    assert("ts"@.len() != "cjs"@.len());
    assert("ts"@[0] != "go"@[0]);
    assert("ts"@.len() != "java"@.len());
    assert("ts"@[0] != "kt"@[0]);
    assert("ts"@.len() != "kts"@.len());
    assert("ts"@.len() != "dart"@.len());
    assert("ts"@.len() != "cpp"@.len());
    assert("ts"@[0] != "cc"@[0]);
    assert("ts"@.len() != "cxx"@.len());
    assert("ts"@.len() != "hpp"@.len());
    assert("ts"@.len() != "h"@.len());
    assert("ts"@[0] != "cs"@[0]);
    assert("ts"@.len() != "php"@.len());
    assert("ts"@[0] != "rb"@[0]);
    assert("ts"@.len() != "scala"@.len());
    assert("ts"@[0] != "sc"@[0]);
    assert("ts"@.len() != "swift"@.len());
    assert("ts"@[0] != "sh"@[0]);
    assert("ts"@.len() != "bash"@.len());
    assert("tsx"@.len() != "js"@.len());
    assert("tsx"@[0] != "jsx"@[0]);
    assert("tsx"@[0] != "mjs"@[0]);
    assert("tsx"@[0] != "cjs"@[0]);
    assert("tsx"@.len() != "go"@.len());
    assert("tsx"@.len() != "java"@.len());
    assert("tsx"@.len() != "kt"@.len());
    assert("tsx"@[0] != "kts"@[0]);
    assert("tsx"@.len() != "dart"@.len());
    assert("tsx"@[0] != "cpp"@[0]);
    assert("tsx"@.len() != "cc"@.len());
    assert("tsx"@[0] != "cxx"@[0]);
    assert("tsx"@[0] != "hpp"@[0]);
    assert("tsx"@.len() != "h"@.len());
    assert("tsx"@.len() != "cs"@.len());
    assert("tsx"@[0] != "php"@[0]);
    assert("tsx"@.len() != "rb"@.len());
    assert("tsx"@.len() != "scala"@.len());
    assert("tsx"@.len() != "sc"@.len());
    assert("tsx"@.len() != "swift"@.len());
    assert("tsx"@.len() != "sh"@.len());
    assert("tsx"@.len() != "bash"@.len());
    assert("js"@.len() != "jsx"@.len());
    assert("js"@.len() != "mjs"@.len());
    assert("js"@.len() != "cjs"@.len());
    assert("js"@[0] != "go"@[0]);
    assert("js"@.len() != "java"@.len());
    assert("js"@[0] != "kt"@[0]);
    assert("js"@.len() != "kts"@.len());
    assert("js"@.len() != "dart"@.len());
    assert("js"@.len() != "cpp"@.len());
    assert("js"@[0] != "cc"@[0]);
    assert("js"@.len() != "cxx"@.len());
    assert("js"@.len() != "hpp"@.len());
    assert("js"@.len() != "h"@.len());
    assert("js"@[0] != "cs"@[0]);
    assert("js"@.len() != "php"@.len());
    assert("js"@[0] != "rb"@[0]);
    assert("js"@.len() != "scala"@.len());
    assert("js"@[0] != "sc"@[0]);
    assert("js"@.len() != "swift"@.len());
    assert("js"@[0] != "sh"@[0]);
    assert("js"@.len() != "bash"@.len());
    assert("jsx"@[0] != "mjs"@[0]);
    assert("jsx"@[0] != "cjs"@[0]);
    assert("jsx"@.len() != "go"@.len());
    assert("jsx"@.len() != "java"@.len());
    assert("jsx"@.len() != "kt"@.len());
    assert("jsx"@[0] != "kts"@[0]);
    assert("jsx"@.len() != "dart"@.len());
    assert("jsx"@[0] != "cpp"@[0]);
    assert("jsx"@.len() != "cc"@.len());
    assert("jsx"@[0] != "cxx"@[0]);
    assert("jsx"@[0] != "hpp"@[0]);
    assert("jsx"@.len() != "h"@.len());
    assert("jsx"@.len() != "cs"@.len());
    assert("jsx"@[0] != "php"@[0]);
    assert("jsx"@.len() != "rb"@.len());
    assert("jsx"@.len() != "scala"@.len());
    assert("jsx"@.len() != "sc"@.len());
    assert("jsx"@.len() != "swift"@.len());
    assert("jsx"@.len() != "sh"@.len());
    assert("jsx"@.len() != "bash"@.len());
    assert("mjs"@[0] != "cjs"@[0]);
    assert("mjs"@.len() != "go"@.len());
    assert("mjs"@.len() != "java"@.len());
    assert("mjs"@.len() != "kt"@.len());
    assert("mjs"@[0] != "kts"@[0]);
    assert("mjs"@.len() != "dart"@.len());
    assert("mjs"@[0] != "cpp"@[0]);
    assert("mjs"@.len() != "cc"@.len());
    assert("mjs"@[0] != "cxx"@[0]);
    assert("mjs"@[0] != "hpp"@[0]);
    assert("mjs"@.len() != "h"@.len());
    assert("mjs"@.len() != "cs"@.len());
    assert("mjs"@[0] != "php"@[0]);
    assert("mjs"@.len() != "rb"@.len());
    assert("mjs"@.len() != "scala"@.len());
    assert("mjs"@.len() != "sc"@.len());
    assert("mjs"@.len() != "swift"@.len());
    assert("mjs"@.len() != "sh"@.len());
    assert("mjs"@.len() != "bash"@.len());
    assert("cjs"@.len() != "go"@.len());
    assert("cjs"@.len() != "java"@.len());
    assert("cjs"@.len() != "kt"@.len());
    assert("cjs"@[0] != "kts"@[0]);
    assert("cjs"@.len() != "dart"@.len());
    assert("cjs"@[1] != "cpp"@[1]);
    assert("cjs"@.len() != "cc"@.len());
    assert("cjs"@[1] != "cxx"@[1]);
    assert("cjs"@[0] != "hpp"@[0]);
    assert("cjs"@.len() != "h"@.len());
    assert("cjs"@.len() != "cs"@.len());
    assert("cjs"@[0] != "php"@[0]);
    assert("cjs"@.len() != "rb"@.len());
    assert("cjs"@.len() != "scala"@.len());
    assert("cjs"@.len() != "sc"@.len());
    assert("cjs"@.len() != "swift"@.len());
    assert("cjs"@.len() != "sh"@.len());
    assert("cjs"@.len() != "bash"@.len());
    assert("go"@.len() != "java"@.len());
    assert("go"@[0] != "kt"@[0]);
    assert("go"@.len() != "kts"@.len());
    assert("go"@.len() != "dart"@.len());
    assert("go"@.len() != "cpp"@.len());
    assert("go"@[0] != "cc"@[0]);
    assert("go"@.len() != "cxx"@.len());
    assert("go"@.len() != "hpp"@.len());
    assert("go"@.len() != "h"@.len());
    assert("go"@[0] != "cs"@[0]);
    assert("go"@.len() != "php"@.len());
    assert("go"@[0] != "rb"@[0]);
    assert("go"@.len() != "scala"@.len());
    assert("go"@[0] != "sc"@[0]);
    assert("go"@.len() != "swift"@.len());
    assert("go"@[0] != "sh"@[0]);
    assert("go"@.len() != "bash"@.len());
    assert("java"@.len() != "kt"@.len());
    assert("java"@.len() != "kts"@.len());
    assert("java"@[0] != "dart"@[0]);
    assert("java"@.len() != "cpp"@.len());
    assert("java"@.len() != "cc"@.len());
    assert("java"@.len() != "cxx"@.len());
    assert("java"@.len() != "hpp"@.len());
    assert("java"@.len() != "h"@.len());
    assert("java"@.len() != "cs"@.len());
    assert("java"@.len() != "php"@.len());
    assert("java"@.len() != "rb"@.len());
    assert("java"@.len() != "scala"@.len());
    assert("java"@.len() != "sc"@.len());
    assert("java"@.len() != "swift"@.len());
    assert("java"@.len() != "sh"@.len());
    assert("java"@[0] != "bash"@[0]);
    assert("kt"@.len() != "kts"@.len());
    assert("kt"@.len() != "dart"@.len());
    assert("kt"@.len() != "cpp"@.len());
    assert("kt"@[0] != "cc"@[0]);
    assert("kt"@.len() != "cxx"@.len());
    assert("kt"@.len() != "hpp"@.len());
    assert("kt"@.len() != "h"@.len());
    assert("kt"@[0] != "cs"@[0]);
    assert("kt"@.len() != "php"@.len());
    assert("kt"@[0] != "rb"@[0]);
    assert("kt"@.len() != "scala"@.len());
    assert("kt"@[0] != "sc"@[0]);
    assert("kt"@.len() != "swift"@.len());
    assert("kt"@[0] != "sh"@[0]);
    assert("kt"@.len() != "bash"@.len());
    assert("kts"@.len() != "dart"@.len());
    assert("kts"@[0] != "cpp"@[0]);
    assert("kts"@.len() != "cc"@.len());
    assert("kts"@[0] != "cxx"@[0]);
    assert("kts"@[0] != "hpp"@[0]);
    assert("kts"@.len() != "h"@.len());
    assert("kts"@.len() != "cs"@.len());
    assert("kts"@[0] != "php"@[0]);
    assert("kts"@.len() != "rb"@.len());
    assert("kts"@.len() != "scala"@.len());
    assert("kts"@.len() != "sc"@.len());
    assert("kts"@.len() != "swift"@.len());
    assert("kts"@.len() != "sh"@.len());
    assert("kts"@.len() != "bash"@.len());
    assert("dart"@.len() != "cpp"@.len());
    assert("dart"@.len() != "cc"@.len());
    assert("dart"@.len() != "cxx"@.len());
    assert("dart"@.len() != "hpp"@.len());
    assert("dart"@.len() != "h"@.len());
    assert("dart"@.len() != "cs"@.len());
    assert("dart"@.len() != "php"@.len());
    assert("dart"@.len() != "rb"@.len());
    assert("dart"@.len() != "scala"@.len());
    assert("dart"@.len() != "sc"@.len());
    assert("dart"@.len() != "swift"@.len());
    assert("dart"@.len() != "sh"@.len());
    assert("dart"@[0] != "bash"@[0]);
    assert("cpp"@.len() != "cc"@.len());
    assert("cpp"@[1] != "cxx"@[1]);
    assert("cpp"@[0] != "hpp"@[0]);
    assert("cpp"@.len() != "h"@.len());
    assert("cpp"@.len() != "cs"@.len());
    assert("cpp"@[0] != "php"@[0]);
    assert("cpp"@.len() != "rb"@.len());
    assert("cpp"@.len() != "scala"@.len());
    assert("cpp"@.len() != "sc"@.len());
    assert("cpp"@.len() != "swift"@.len());
    assert("cpp"@.len() != "sh"@.len());
    assert("cpp"@.len() != "bash"@.len());
    assert("cc"@.len() != "cxx"@.len());
    assert("cc"@.len() != "hpp"@.len());
    assert("cc"@.len() != "h"@.len());
    assert("cc"@[1] != "cs"@[1]);
    assert("cc"@.len() != "php"@.len());
    assert("cc"@[0] != "rb"@[0]);
    assert("cc"@.len() != "scala"@.len());
    assert("cc"@[0] != "sc"@[0]);
    assert("cc"@.len() != "swift"@.len());
    assert("cc"@[0] != "sh"@[0]);
    assert("cc"@.len() != "bash"@.len());
    assert("cxx"@[0] != "hpp"@[0]);
    assert("cxx"@.len() != "h"@.len());
    assert("cxx"@.len() != "cs"@.len());
    assert("cxx"@[0] != "php"@[0]);
    assert("cxx"@.len() != "rb"@.len());
    assert("cxx"@.len() != "scala"@.len());
    assert("cxx"@.len() != "sc"@.len());
    assert("cxx"@.len() != "swift"@.len());
    assert("cxx"@.len() != "sh"@.len());
    assert("cxx"@.len() != "bash"@.len());
    assert("hpp"@.len() != "h"@.len());
    assert("hpp"@.len() != "cs"@.len());
    assert("hpp"@[0] != "php"@[0]);
    assert("hpp"@.len() != "rb"@.len());
    assert("hpp"@.len() != "scala"@.len());
    assert("hpp"@.len() != "sc"@.len());
    assert("hpp"@.len() != "swift"@.len());
    assert("hpp"@.len() != "sh"@.len());
    assert("hpp"@.len() != "bash"@.len());
    assert("h"@.len() != "cs"@.len());
    assert("h"@.len() != "php"@.len());
    assert("h"@.len() != "rb"@.len());
    assert("h"@.len() != "scala"@.len());
    assert("h"@.len() != "sc"@.len());
    assert("h"@.len() != "swift"@.len());
    assert("h"@.len() != "sh"@.len());
    assert("h"@.len() != "bash"@.len());
    assert("cs"@.len() != "php"@.len());
    assert("cs"@[0] != "rb"@[0]);
    assert("cs"@.len() != "scala"@.len());
    assert("cs"@[0] != "sc"@[0]);
    assert("cs"@.len() != "swift"@.len());
    assert("cs"@[0] != "sh"@[0]);
    assert("cs"@.len() != "bash"@.len());
    assert("php"@.len() != "rb"@.len());
    assert("php"@.len() != "scala"@.len());
    assert("php"@.len() != "sc"@.len());
    assert("php"@.len() != "swift"@.len());
    assert("php"@.len() != "sh"@.len());
    assert("php"@.len() != "bash"@.len());
    assert("rb"@.len() != "scala"@.len());
    assert("rb"@[0] != "sc"@[0]);
    assert("rb"@.len() != "swift"@.len());
    assert("rb"@[0] != "sh"@[0]);
    assert("rb"@.len() != "bash"@.len());
    assert("scala"@.len() != "sc"@.len());
    assert("scala"@[1] != "swift"@[1]);
    assert("scala"@.len() != "sh"@.len());
    assert("scala"@.len() != "bash"@.len());
    assert("sc"@.len() != "swift"@.len());
    assert("sc"@[1] != "sh"@[1]);
    assert("sc"@.len() != "bash"@.len());
    assert("swift"@.len() != "sh"@.len());
    assert("swift"@.len() != "bash"@.len());
    assert("sh"@.len() != "bash"@.len());
}

/// Only these extensions tell a language.
pub proof fn no_other_extension_tells_a_language(ext: Seq<char>)
    ensures
        measured_by_extension(ext) is Some ==> ext == "rs"@ || ext == "py"@ || ext == "pyi"@ || ext == "ts"@ || ext == "tsx"@ || ext == "js"@ || ext == "jsx"@ || ext == "mjs"@ || ext == "cjs"@ || ext == "go"@ || ext == "java"@ || ext == "kt"@ || ext == "kts"@ || ext == "dart"@,
        searched_by_extension(ext) is Some ==> ext == "cpp"@ || ext == "cc"@ || ext == "cxx"@ || ext == "hpp"@ || ext == "h"@ || ext == "cs"@ || ext == "php"@ || ext == "rb"@ || ext == "scala"@ || ext == "sc"@ || ext == "swift"@ || ext == "sh"@ || ext == "bash"@,
{
}

/// The parent of a node is less deep than it, and no node between them is.
pub proof fn the_parent_is_the_nearest_above(ns: Seq<NodeModel>, i: int, j: int)
    requires
        j < i,
    ensures
        match parent_from(ns, i, j) {
            Some(p) => 0 <= p <= j && ns[p].depth < ns[i].depth && forall|k: int|
                p < k <= j ==> (#[trigger] ns[k]).depth >= ns[i].depth,
            None => forall|k: int| 0 <= k <= j ==> (#[trigger] ns[k]).depth >= ns[i].depth,
        },
    decreases j + 1,
{
    if j >= 0 && ns[j].depth >= ns[i].depth {
        the_parent_is_the_nearest_above(ns, i, j - 1);
    }
}

/// The sibling before a node is named, stands as deep, and none between them is
/// both; nor does their parent end between them.
pub proof fn the_sibling_is_the_nearest_before(ns: Seq<NodeModel>, i: int, j: int)
    requires
        j < i,
    ensures
        match sibling_from(ns, i, j) {
            Some(p) => 0 <= p <= j && ns[p].depth == ns[i].depth && ns[p].named && forall|k: int|
                p < k <= j ==> (#[trigger] ns[k]).depth >= ns[i].depth && !(ns[k].depth
                    == ns[i].depth && ns[k].named),
            None => true,
        },
    decreases j + 1,
{
    if j >= 0 && ns[j].depth >= ns[i].depth && !(ns[j].depth == ns[i].depth && ns[j].named) {
        the_sibling_is_the_nearest_before(ns, i, j - 1);
    }
}

/// Lines are counted from one.
pub proof fn lines_are_counted_from_one(row: int)
    requires
        0 <= row < 0xffff_ffff,
    ensures
        line_of(row) == row + 1,
{
}

/// The text of a node is that of the bytes from where it starts to where it ends.
pub proof fn nodes_say_their_bytes(source: Seq<char>, n: NodeModel)
    requires
        0 <= n.start_byte <= n.end_byte,
        n.end_byte <= vstd::utf8::encode_utf8(source).len(),
        vstd::utf8::valid_utf8(
            vstd::utf8::encode_utf8(source).subrange(n.start_byte, n.end_byte),
        ),
    ensures
        node_text(source, n) == vstd::utf8::decode_utf8(
            vstd::utf8::encode_utf8(source).subrange(n.start_byte, n.end_byte),
        ),
{
}

} // verus!
