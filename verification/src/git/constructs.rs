//! Which constructs a change touches.

use vstd::prelude::*;

use crate::fold;
use crate::metrics::clones;
use crate::metrics::clones::signature_of;
use crate::order;
use crate::syntax;
use crate::syntax::{
    child_by_field, is_kind, line_of_row, name_of_node, parent_of, Grammar, NodeModel, SyntaxNode,
};
use crate::text;

use super::diff;
use super::diff::{lines_touched, Hunk};

verus! {

/// The kinds of nodes that are functions and methods with a name of their own.
#[verifier::opaque]
pub open spec fn routine_kinds(g: Grammar) -> &'static [&'static str] {
    match g {
        Grammar::Rust => &["function_item", "function_signature_item"],
        Grammar::Python => &["function_definition"],
        Grammar::TypeScript => &["function_declaration", "generator_function_declaration", "method_definition", "abstract_method_signature"],
        Grammar::JavaScript => &["function_declaration", "generator_function_declaration", "method_definition"],
        Grammar::Go => &["function_declaration", "method_declaration"],
        Grammar::Java => &["method_declaration", "constructor_declaration"],
        Grammar::Kotlin => &["function_declaration"],
        Grammar::Dart => &["function_declaration", "method_declaration", "local_function_declaration", "getter_declaration", "setter_declaration"],
        Grammar::Cpp => &["function_definition"],
        Grammar::CSharp => &["method_declaration", "constructor_declaration", "local_function_statement"],
        Grammar::Php => &["function_definition", "method_declaration"],
        Grammar::Ruby => &["method", "singleton_method"],
        Grammar::Scala => &["function_definition", "function_declaration"],
        Grammar::Swift => &["function_declaration", "init_declaration", "protocol_function_declaration"],
        Grammar::Bash => &["function_definition"],
    }
}

fn kinds_of_routines(g: Grammar) -> (r: &'static [&'static str])
    ensures
        r == routine_kinds(g),
{
    proof {
        reveal(routine_kinds);
    }
    match g {
        Grammar::Rust => &["function_item", "function_signature_item"],
        Grammar::Python => &["function_definition"],
        Grammar::TypeScript => &["function_declaration", "generator_function_declaration", "method_definition", "abstract_method_signature"],
        Grammar::JavaScript => &["function_declaration", "generator_function_declaration", "method_definition"],
        Grammar::Go => &["function_declaration", "method_declaration"],
        Grammar::Java => &["method_declaration", "constructor_declaration"],
        Grammar::Kotlin => &["function_declaration"],
        Grammar::Dart => &["function_declaration", "method_declaration", "local_function_declaration", "getter_declaration", "setter_declaration"],
        Grammar::Cpp => &["function_definition"],
        Grammar::CSharp => &["method_declaration", "constructor_declaration", "local_function_statement"],
        Grammar::Php => &["function_definition", "method_declaration"],
        Grammar::Ruby => &["method", "singleton_method"],
        Grammar::Scala => &["function_definition", "function_declaration"],
        Grammar::Swift => &["function_declaration", "init_declaration", "protocol_function_declaration"],
        Grammar::Bash => &["function_definition"],
    }
}

/// The kinds of nodes that are classes, or what a language has in their place.
#[verifier::opaque]
pub open spec fn class_kinds(g: Grammar) -> &'static [&'static str] {
    match g {
        Grammar::Rust => &["struct_item", "enum_item", "union_item", "trait_item"],
        Grammar::Python => &["class_definition"],
        Grammar::TypeScript => &["class_declaration", "abstract_class_declaration", "interface_declaration", "enum_declaration"],
        Grammar::JavaScript => &["class_declaration"],
        Grammar::Go => &["type_spec"],
        Grammar::Java => &["class_declaration", "interface_declaration", "enum_declaration", "record_declaration"],
        Grammar::Kotlin => &["class_declaration", "object_declaration"],
        Grammar::Dart => &["class_declaration", "mixin_declaration", "extension_declaration", "extension_type_declaration", "enum_declaration"],
        Grammar::Cpp => &["class_specifier", "struct_specifier", "union_specifier", "enum_specifier"],
        Grammar::CSharp => &["class_declaration", "interface_declaration", "struct_declaration", "record_declaration", "enum_declaration"],
        Grammar::Php => &["class_declaration", "interface_declaration", "trait_declaration", "enum_declaration"],
        Grammar::Ruby => &["class", "module"],
        Grammar::Scala => &["class_definition", "object_definition", "trait_definition", "enum_definition"],
        Grammar::Swift => &["class_declaration", "protocol_declaration"],
        Grammar::Bash => &[],
    }
}

fn kinds_of_classes(g: Grammar) -> (r: &'static [&'static str])
    ensures
        r == class_kinds(g),
{
    proof {
        reveal(class_kinds);
    }
    match g {
        Grammar::Rust => &["struct_item", "enum_item", "union_item", "trait_item"],
        Grammar::Python => &["class_definition"],
        Grammar::TypeScript => &["class_declaration", "abstract_class_declaration", "interface_declaration", "enum_declaration"],
        Grammar::JavaScript => &["class_declaration"],
        Grammar::Go => &["type_spec"],
        Grammar::Java => &["class_declaration", "interface_declaration", "enum_declaration", "record_declaration"],
        Grammar::Kotlin => &["class_declaration", "object_declaration"],
        Grammar::Dart => &["class_declaration", "mixin_declaration", "extension_declaration", "extension_type_declaration", "enum_declaration"],
        Grammar::Cpp => &["class_specifier", "struct_specifier", "union_specifier", "enum_specifier"],
        Grammar::CSharp => &["class_declaration", "interface_declaration", "struct_declaration", "record_declaration", "enum_declaration"],
        Grammar::Php => &["class_declaration", "interface_declaration", "trait_declaration", "enum_declaration"],
        Grammar::Ruby => &["class", "module"],
        Grammar::Scala => &["class_definition", "object_definition", "trait_definition", "enum_definition"],
        Grammar::Swift => &["class_declaration", "protocol_declaration"],
        Grammar::Bash => &[],
    }
}

/// The kinds of nodes that are no constructs, but that give the constructs in
/// them a name in front of their own.
#[verifier::opaque]
pub open spec fn space_kinds(g: Grammar) -> &'static [&'static str] {
    match g {
        Grammar::Rust => &["mod_item"],
        Grammar::TypeScript => &["internal_module", "module"],
        Grammar::Cpp => &["namespace_definition"],
        Grammar::CSharp => &["namespace_declaration"],
        _ => &[],
    }
}

fn kinds_of_spaces(g: Grammar) -> (r: &'static [&'static str])
    ensures
        r == space_kinds(g),
{
    proof {
        reveal(space_kinds);
    }
    match g {
        Grammar::Rust => &["mod_item"],
        Grammar::TypeScript => &["internal_module", "module"],
        Grammar::Cpp => &["namespace_definition"],
        Grammar::CSharp => &["namespace_declaration"],
        _ => &[],
    }
}

// ---------------------------------------------------------------------------
// What a node is
// ---------------------------------------------------------------------------

/// A function or a method.
pub open spec fn is_routine(g: Grammar, n: NodeModel) -> bool {
    n.named && syntax::kinds_of(routine_kinds(g)).contains(n.kind)
}

/// A class. In C++ a type is also named where it is used, with the same kind of
/// node; only where it is declared does it have a body.
pub open spec fn is_class(g: Grammar, ns: Seq<NodeModel>, i: int) -> bool {
    ns[i].named && syntax::kinds_of(class_kinds(g)).contains(ns[i].kind) && (g == Grammar::Cpp
        ==> syntax::first_child(ns, syntax::has_field("body"@), i) is Some)
}

/// The block of a type's methods, apart from the type.
pub open spec fn is_impl(g: Grammar, n: NodeModel) -> bool {
    g == Grammar::Rust && n.named && n.kind == "impl_item"@
}

/// What gives the constructs in it a name in front of their own.
pub open spec fn is_scope(g: Grammar, ns: Seq<NodeModel>, i: int) -> bool {
    is_routine(g, ns[i]) || is_class(g, ns, i) || is_impl(g, ns[i]) || (ns[i].named
        && syntax::kinds_of(space_kinds(g)).contains(ns[i].kind))
}

fn routine_at(g: Grammar, n: &SyntaxNode) -> (r: bool)
    ensures
        r == is_routine(g, n@),
{
    n.named && is_kind(n, kinds_of_routines(g))
}

fn class_at(g: Grammar, nodes: &[SyntaxNode], ends: &[usize], i: usize) -> (r: bool)
    requires
        syntax::are_ends(ends@, syntax::node_models(nodes@)),
        i < nodes@.len(),
    ensures
        r == is_class(g, syntax::node_models(nodes@), i as int),
{
    proof {
        assert(syntax::node_models(nodes@)[i as int] == nodes@[i as int]@);
    }
    if !nodes[i].named || !is_kind(&nodes[i], kinds_of_classes(g)) {
        return false;
    }
    g != Grammar::Cpp || child_by_field(nodes, ends, i, "body").is_some()
}

fn impl_at(g: Grammar, n: &SyntaxNode) -> (r: bool)
    ensures
        r == is_impl(g, n@),
{
    g == Grammar::Rust && n.named && text::same(n.kind.as_str(), "impl_item")
}

fn scope_at(g: Grammar, nodes: &[SyntaxNode], ends: &[usize], i: usize) -> (r: bool)
    requires
        syntax::are_ends(ends@, syntax::node_models(nodes@)),
        i < nodes@.len(),
    ensures
        r == is_scope(g, syntax::node_models(nodes@), i as int),
{
    proof {
        assert(syntax::node_models(nodes@)[i as int] == nodes@[i as int]@);
    }
    routine_at(g, &nodes[i]) || class_at(g, nodes, ends, i) || impl_at(g, &nodes[i]) || (
    nodes[i].named && is_kind(&nodes[i], kinds_of_spaces(g)))
}

// ---------------------------------------------------------------------------
// Names
// ---------------------------------------------------------------------------

pub open spec fn is_declarator() -> spec_fn(NodeModel) -> bool {
    |n: NodeModel| n.field == Some("declarator"@) || "_declarator"@.is_suffix_of(n.kind)
}

/// The innermost of the declarators that stand in each other, from `d` inwards.
pub open spec fn innermost(ns: Seq<NodeModel>, d: int) -> int
    decreases ns.len() - d,
{
    match syntax::first_child(ns, is_declarator(), d) {
        Some(e) => if d < e < ns.len() {
            innermost(ns, e)
        } else {
            d
        },
        None => d,
    }
}

/// The node that names node `i`: the child in the field `name`; or else the
/// innermost declarator; or else what names the first child that is a
/// signature; or else the child in the field `type`.
pub open spec fn naming_node(ns: Seq<NodeModel>, i: int) -> Option<int>
    decreases ns.len() - i,
{
    match syntax::first_child(ns, syntax::has_field("name"@), i) {
        Some(c) => Some(c),
        None => match syntax::first_child(ns, is_declarator(), i) {
            Some(d) => Some(innermost(ns, d)),
            None => match syntax::first_child(ns, clones::is_signature_node(), i) {
                Some(s) => if i < s < ns.len() {
                    naming_node(ns, s)
                } else {
                    None
                },
                None => syntax::first_child(ns, syntax::has_field("type"@), i),
            },
        },
    }
}

/// The name of node `i`, without those of the nodes around it.
pub open spec fn own_name(ns: Seq<NodeModel>, source: Seq<char>, i: int) -> Option<Seq<char>> {
    match naming_node(ns, i) {
        Some(c) => syntax::node_name(source, ns[c]),
        None => None,
    }
}

fn declarator_of(nodes: &[SyntaxNode], ends: &[usize], i: usize) -> (r: Option<usize>)
    requires
        syntax::are_ends(ends@, syntax::node_models(nodes@)),
        i < nodes@.len(),
    ensures
        match r {
            Some(k) => syntax::first_child(syntax::node_models(nodes@), is_declarator(), i as int)
                == Some(k as int) && i < k < nodes@.len(),
            None => syntax::first_child(
                syntax::node_models(nodes@),
                is_declarator(),
                i as int,
            ) is None,
        },
{
    let ghost ns = syntax::node_models(nodes@);
    let end: usize = ends[i];
    proof {
        syntax::lemma_end_of(ns, i as int);
    }
    let mut j: usize = i + 1;
    while j < end
        invariant
            ns == syntax::node_models(nodes@),
            i < nodes@.len(),
            end == syntax::end_of(ns, i as int),
            end <= nodes@.len(),
            i < j <= end,
            syntax::first_child(ns, is_declarator(), i as int) == syntax::child_from(
                ns,
                is_declarator(),
                i as int,
                j as int,
            ),
        decreases end - j,
    {
        proof {
            assert(ns[j as int] == nodes@[j as int]@);
            assert(ns[i as int].depth == nodes@[i as int].depth);
        }
        if nodes[j].depth > nodes[i].depth && nodes[j].depth - nodes[i].depth == 1 {
            let in_field = match &nodes[j].field {
                Some(f) => text::same(f.as_str(), "declarator"),
                None => false,
            };
            if in_field || text::ends_with(nodes[j].kind.as_str(), "_declarator") {
                return Some(j);
            }
        }
        j += 1;
    }
    None
}

fn innermost_of(nodes: &[SyntaxNode], ends: &[usize], d: usize) -> (r: usize)
    requires
        syntax::are_ends(ends@, syntax::node_models(nodes@)),
        d < nodes@.len(),
    ensures
        r == innermost(syntax::node_models(nodes@), d as int),
        r < nodes@.len(),
    decreases nodes@.len() - d,
{
    match declarator_of(nodes, ends, d) {
        Some(e) => innermost_of(nodes, ends, e),
        None => d,
    }
}

fn naming_of(nodes: &[SyntaxNode], ends: &[usize], i: usize) -> (r: Option<usize>)
    requires
        syntax::are_ends(ends@, syntax::node_models(nodes@)),
        i < nodes@.len(),
    ensures
        match r {
            Some(c) => naming_node(syntax::node_models(nodes@), i as int) == Some(c as int) && c
                < nodes@.len(),
            None => naming_node(syntax::node_models(nodes@), i as int) is None,
        },
    decreases nodes@.len() - i,
{
    if let Some(c) = child_by_field(nodes, ends, i, "name") {
        return Some(c);
    }
    if let Some(d) = declarator_of(nodes, ends, i) {
        return Some(innermost_of(nodes, ends, d));
    }
    match signature_of(nodes, ends, i) {
        Some(s) => naming_of(nodes, ends, s),
        None => child_by_field(nodes, ends, i, "type"),
    }
}

fn name_at(nodes: &[SyntaxNode], ends: &[usize], source: &str, i: usize) -> (r: Option<String>)
    requires
        syntax::are_ends(ends@, syntax::node_models(nodes@)),
        i < nodes@.len(),
    ensures
        match r {
            Some(s) => own_name(syntax::node_models(nodes@), source@, i as int) == Some(s@),
            None => own_name(syntax::node_models(nodes@), source@, i as int) is None,
        },
{
    match naming_of(nodes, ends, i) {
        Some(c) => {
            proof {
                assert(syntax::node_models(nodes@)[c as int] == nodes@[c as int]@);
            }
            name_of_node(source, &nodes[c])
        },
        None => None,
    }
}

/// The nearest node around node `i` that gives the constructs in it a name in
/// front of their own, and has a name.
pub open spec fn scope_of(g: Grammar, ns: Seq<NodeModel>, source: Seq<char>, i: int) -> Option<int>
    decreases i,
{
    match syntax::parent(ns, i) {
        Some(p) => if !(0 <= p < i) {
            None
        } else if is_scope(g, ns, p) && own_name(ns, source, p) is Some {
            Some(p)
        } else {
            scope_of(g, ns, source, p)
        },
        None => None,
    }
}

pub proof fn lemma_scope_of(g: Grammar, ns: Seq<NodeModel>, source: Seq<char>, i: int)
    ensures
        scope_of(g, ns, source, i) matches Some(p) ==> 0 <= p < i && is_scope(g, ns, p) && own_name(
            ns,
            source,
            p,
        ) is Some,
    decreases i,
{
    if let Some(p) = syntax::parent(ns, i) {
        if 0 <= p < i {
            lemma_scope_of(g, ns, source, p);
        }
    }
}

/// The first node from `j` on, among those below node `i`, that names a type.
pub open spec fn type_from(ns: Seq<NodeModel>, i: int, j: int) -> Option<int>
    decreases syntax::end_of(ns, i) - j,
{
    if j >= syntax::end_of(ns, i) {
        None
    } else if ns[j].kind == "type_identifier"@ {
        Some(j)
    } else {
        type_from(ns, i, j + 1)
    }
}

/// The type of the receiver that a method declares in front of its name.
pub open spec fn receiver(ns: Seq<NodeModel>, source: Seq<char>, i: int) -> Option<Seq<char>> {
    match syntax::first_child(ns, syntax::has_field("receiver"@), i) {
        Some(c) => match type_from(ns, c, c + 1) {
            Some(t) => syntax::node_name(source, ns[t]),
            None => None,
        },
        None => None,
    }
}

/// The name of node `i` with those of the scopes around it, outermost first,
/// each followed by `::`; of a method outside its type, the type's name in
/// front.
pub open spec fn qualified(g: Grammar, ns: Seq<NodeModel>, source: Seq<char>, i: int) -> Seq<char>
    decreases i,
{
    let own = match own_name(ns, source, i) {
        Some(s) => s,
        None => Seq::empty(),
    };
    match scope_of(g, ns, source, i) {
        Some(p) => if 0 <= p < i {
            qualified(g, ns, source, p) + "::"@ + own
        } else {
            own
        },
        None => match receiver(ns, source, i) {
            Some(t) => t + "::"@ + own,
            None => own,
        },
    }
}

/// What a construct is called: a class, a method, which stands right in a class
/// or declares its receiver, or a function.
pub open spec fn label(g: Grammar, ns: Seq<NodeModel>, source: Seq<char>, i: int) -> Seq<char> {
    if is_class(g, ns, i) {
        "class"@
    } else {
        match scope_of(g, ns, source, i) {
            Some(p) => if is_class(g, ns, p) || is_impl(g, ns[p]) {
                "method"@
            } else {
                "function"@
            },
            None => if receiver(ns, source, i) is Some {
                "method"@
            } else {
                "function"@
            },
        }
    }
}

fn find_scope(g: Grammar, nodes: &[SyntaxNode], ends: &[usize], source: &str, i: usize) -> (r:
    Option<usize>)
    requires
        syntax::are_ends(ends@, syntax::node_models(nodes@)),
        i < nodes@.len(),
    ensures
        match r {
            Some(p) => scope_of(g, syntax::node_models(nodes@), source@, i as int) == Some(
                p as int,
            ) && p < i,
            None => scope_of(g, syntax::node_models(nodes@), source@, i as int) is None,
        },
    decreases i,
{
    match parent_of(nodes, i) {
        Some(p) => {
            if scope_at(g, nodes, ends, p) && name_at(nodes, ends, source, p).is_some() {
                Some(p)
            } else {
                find_scope(g, nodes, ends, source, p)
            }
        },
        None => None,
    }
}

fn receiver_of(nodes: &[SyntaxNode], ends: &[usize], source: &str, i: usize) -> (r: Option<String>)
    requires
        syntax::are_ends(ends@, syntax::node_models(nodes@)),
        i < nodes@.len(),
    ensures
        match r {
            Some(s) => receiver(syntax::node_models(nodes@), source@, i as int) == Some(s@),
            None => receiver(syntax::node_models(nodes@), source@, i as int) is None,
        },
{
    let ghost ns = syntax::node_models(nodes@);
    let c: usize = match child_by_field(nodes, ends, i, "receiver") {
        Some(c) => c,
        None => return None,
    };
    let end: usize = ends[c];
    proof {
        syntax::lemma_end_of(ns, c as int);
    }
    let mut j: usize = c + 1;
    while j < end
        invariant
            ns == syntax::node_models(nodes@),
            c < nodes@.len(),
            end == syntax::end_of(ns, c as int),
            end <= nodes@.len(),
            c < j <= end,
            syntax::first_child(ns, syntax::has_field("receiver"@), i as int) == Some(c as int),
            type_from(ns, c as int, c + 1) == type_from(ns, c as int, j as int),
        decreases end - j,
    {
        proof {
            assert(ns[j as int] == nodes@[j as int]@);
        }
        if text::same(nodes[j].kind.as_str(), "type_identifier") {
            return name_of_node(source, &nodes[j]);
        }
        j += 1;
    }
    None
}

fn qualified_name(g: Grammar, nodes: &[SyntaxNode], ends: &[usize], source: &str, i: usize) -> (r:
    String)
    requires
        syntax::are_ends(ends@, syntax::node_models(nodes@)),
        i < nodes@.len(),
    ensures
        r@ == qualified(g, syntax::node_models(nodes@), source@, i as int),
    decreases i,
{
    let own = match name_at(nodes, ends, source, i) {
        Some(s) => s,
        None => {
            proof {
                reveal_strlit("");
                assert(""@ =~= Seq::<char>::empty());
            }
            text::copy_text("")
        },
    };
    match find_scope(g, nodes, ends, source, i) {
        Some(p) => {
            let front = qualified_name(g, nodes, ends, source, p);
            text::cat3(front.as_str(), "::", own.as_str())
        },
        None => match receiver_of(nodes, ends, source, i) {
            Some(t) => text::cat3(t.as_str(), "::", own.as_str()),
            None => own,
        },
    }
}

fn label_of(g: Grammar, nodes: &[SyntaxNode], ends: &[usize], source: &str, i: usize) -> (r:
    &'static str)
    requires
        syntax::are_ends(ends@, syntax::node_models(nodes@)),
        i < nodes@.len(),
    ensures
        r@ == label(g, syntax::node_models(nodes@), source@, i as int),
{
    if class_at(g, nodes, ends, i) {
        return "class";
    }
    match find_scope(g, nodes, ends, source, i) {
        Some(p) => {
            proof {
                assert(syntax::node_models(nodes@)[p as int] == nodes@[p as int]@);
            }
            if class_at(g, nodes, ends, p) || impl_at(g, &nodes[p]) {
                "method"
            } else {
                "function"
            }
        },
        None => if receiver_of(nodes, ends, source, i).is_some() {
            "method"
        } else {
            "function"
        },
    }
}

// ---------------------------------------------------------------------------
// What a change touches
// ---------------------------------------------------------------------------

/// A construct and how many of its lines a change touches.
#[derive(Debug)]
pub struct Touch {
    pub qualified_name: String,
    pub kind: String,
    pub lines: u64,
}

pub struct TouchModel {
    pub qualified_name: Seq<char>,
    pub kind: Seq<char>,
    pub lines: u64,
}

impl View for Touch {
    type V = TouchModel;

    open spec fn view(&self) -> TouchModel {
        TouchModel {
            qualified_name: self.qualified_name@,
            kind: self.kind@,
            lines: self.lines,
        }
    }
}

/// How many lines of a node the hunks touch.
pub open spec fn touched_in(hunks: Seq<Hunk>, n: NodeModel) -> u64 {
    diff::capped(
        fold::total(
            hunks,
            diff::touched_between(
                syntax::line_of(n.start_row as int),
                syntax::line_of(n.end_row as int),
            ),
        ) as int,
    )
}

/// A construct: a function, a method or a class that has a name.
pub open spec fn is_construct(g: Grammar, ns: Seq<NodeModel>, source: Seq<char>, i: int) -> bool {
    (is_routine(g, ns[i]) || is_class(g, ns, i)) && own_name(ns, source, i) is Some
}

/// The constructs among the first `n` nodes that the hunks touch.
pub open spec fn touches(
    g: Grammar,
    source: Seq<char>,
    ns: Seq<NodeModel>,
    hunks: Seq<Hunk>,
    n: int,
) -> Seq<TouchModel>
    decreases n,
{
    if n <= 0 {
        Seq::empty()
    } else {
        let head = touches(g, source, ns, hunks, n - 1);
        let lines = touched_in(hunks, ns[n - 1]);
        if is_construct(g, ns, source, n - 1) && lines > 0 {
            head.push(
                TouchModel {
                    qualified_name: qualified(g, ns, source, n - 1),
                    kind: label(g, ns, source, n - 1),
                    lines,
                },
            )
        } else {
            head
        }
    }
}

/// The constructs of a source that the hunks touch; none of a file in a
/// language without a grammar.
pub open spec fn touched(path: Seq<char>, source: Seq<char>, hunks: Seq<Hunk>) -> Seq<TouchModel> {
    match syntax::construct_grammar_of(path) {
        None => Seq::empty(),
        Some(g) => match syntax::parsed(g, source) {
            None => Seq::empty(),
            Some(ns) => touches(g, source, ns, hunks, ns.len() as int),
        },
    }
}

/// Finds the constructs among the nodes of a source that the hunks touch.
pub fn find_touches(g: Grammar, source: &str, nodes: &[SyntaxNode], hunks: &[Hunk]) -> (r: Vec<
    Touch,
>)
    ensures
        order::models(r@) == touches(
            g,
            source@,
            syntax::node_models(nodes@),
            hunks@,
            nodes@.len() as int,
        ),
{
    let ghost ns = syntax::node_models(nodes@);
    let ends = syntax::subtree_ends(nodes);
    let n: usize = nodes.len();
    let mut found: Vec<Touch> = Vec::new();
    let mut i: usize = 0;
    proof {
        assert(order::models(found@) =~= Seq::empty());
    }
    while i < n
        invariant
            n == nodes@.len(),
            ns == syntax::node_models(nodes@),
            syntax::are_ends(ends@, ns),
            i <= n,
            order::models(found@) == touches(g, source@, ns, hunks@, i as int),
        decreases n - i,
    {
        let ghost before = order::models(found@);
        proof {
            assert(ns[i as int] == nodes@[i as int]@);
        }
        if (routine_at(g, &nodes[i]) || class_at(g, nodes, ends.as_slice(), i)) && name_at(
            nodes,
            ends.as_slice(),
            source,
            i,
        ).is_some() {
            let first = line_of_row(nodes[i].start_row);
            let last = line_of_row(nodes[i].end_row);
            let lines = lines_touched(hunks, first, last);
            if lines > 0 {
                let t = Touch {
                    qualified_name: qualified_name(g, nodes, ends.as_slice(), source, i),
                    kind: text::copy_text(label_of(g, nodes, ends.as_slice(), source, i)),
                    lines,
                };
                found.push(t);
                proof {
                    assert(order::models(found@) =~= before.push(t@));
                }
            }
        }
        i += 1;
    }
    found
}

/// Finds the constructs of a source that the hunks touch.
pub fn touched_constructs(path: &str, source: &str, hunks: &[Hunk]) -> (r: Vec<Touch>)
    ensures
        order::models(r@) == touched(path@, source@, hunks@),
{
    if let Some(g) = syntax::construct_grammar_for_path(path) {
        if let Some(nodes) = syntax::parse(g, source) {
            return find_touches(g, source, nodes.as_slice(), hunks);
        }
    }
    let none: Vec<Touch> = Vec::new();
    proof {
        assert(order::models(none@) =~= Seq::empty());
    }
    none
}

/// Whatever is touched is a construct with a touched line, under its qualified
/// name.
pub proof fn touched_are_constructs(
    g: Grammar,
    source: Seq<char>,
    ns: Seq<NodeModel>,
    hunks: Seq<Hunk>,
    n: int,
    i: int,
)
    requires
        0 <= i < touches(g, source, ns, hunks, n).len(),
        n <= ns.len(),
    ensures
        touches(g, source, ns, hunks, n)[i].lines > 0,
        exists|k: int|
            0 <= k < n && #[trigger] is_construct(g, ns, source, k) && touches(
                g,
                source,
                ns,
                hunks,
                n,
            )[i].qualified_name == qualified(g, ns, source, k),
    decreases n,
{
    if n > 0 {
        if i < touches(g, source, ns, hunks, n - 1).len() {
            touched_are_constructs(g, source, ns, hunks, n - 1, i);
        } else {
            assert(is_construct(g, ns, source, n - 1));
        }
    }
}

/// A construct that a hunk touches is reported.
pub proof fn touched_constructs_are_reported(
    g: Grammar,
    source: Seq<char>,
    ns: Seq<NodeModel>,
    hunks: Seq<Hunk>,
    n: int,
    k: int,
)
    requires
        0 <= k < n <= ns.len(),
        is_construct(g, ns, source, k),
        touched_in(hunks, ns[k]) > 0,
    ensures
        touches(g, source, ns, hunks, n).contains(
            (TouchModel {
                qualified_name: qualified(g, ns, source, k),
                kind: label(g, ns, source, k),
                lines: touched_in(hunks, ns[k]),
            }),
        ),
    decreases n,
{
    let t = TouchModel {
        qualified_name: qualified(g, ns, source, k),
        kind: label(g, ns, source, k),
        lines: touched_in(hunks, ns[k]),
    };
    let all = touches(g, source, ns, hunks, n);
    if k == n - 1 {
        assert(all.last() == t);
    } else {
        touched_constructs_are_reported(g, source, ns, hunks, n - 1, k);
        let head = touches(g, source, ns, hunks, n - 1);
        let j = choose|j: int| 0 <= j < head.len() && head[j] == t;
        assert(all[j] == t);
    }
}

/// A construct inside a scope has the scope's name in front of its own.
pub proof fn names_start_with_their_scope(
    g: Grammar,
    source: Seq<char>,
    ns: Seq<NodeModel>,
    i: int,
    p: int,
)
    requires
        scope_of(g, ns, source, i) == Some(p),
    ensures
        (qualified(g, ns, source, p) + "::"@).is_prefix_of(qualified(g, ns, source, i)),
{
    lemma_scope_of(g, ns, source, i);
    let front = qualified(g, ns, source, p) + "::"@;
    assert(qualified(g, ns, source, i).subrange(0, front.len() as int) =~= front);
}

/// The kinds of nodes that are functions and methods in each language.
pub proof fn functions_and_methods_are_these(kind: Seq<char>)
    ensures
        syntax::kinds_of(routine_kinds(Grammar::Rust)).contains(kind) <==> kind == "function_item"@ || kind == "function_signature_item"@,
        syntax::kinds_of(routine_kinds(Grammar::Python)).contains(kind) <==> kind == "function_definition"@,
        syntax::kinds_of(routine_kinds(Grammar::TypeScript)).contains(kind) <==> kind == "function_declaration"@ || kind == "generator_function_declaration"@ || kind == "method_definition"@ || kind == "abstract_method_signature"@,
        syntax::kinds_of(routine_kinds(Grammar::JavaScript)).contains(kind) <==> kind == "function_declaration"@ || kind == "generator_function_declaration"@ || kind == "method_definition"@,
        syntax::kinds_of(routine_kinds(Grammar::Go)).contains(kind) <==> kind == "function_declaration"@ || kind == "method_declaration"@,
        syntax::kinds_of(routine_kinds(Grammar::Java)).contains(kind) <==> kind == "method_declaration"@ || kind == "constructor_declaration"@,
        syntax::kinds_of(routine_kinds(Grammar::Kotlin)).contains(kind) <==> kind == "function_declaration"@,
        syntax::kinds_of(routine_kinds(Grammar::Dart)).contains(kind) <==> kind == "function_declaration"@ || kind == "method_declaration"@ || kind == "local_function_declaration"@ || kind == "getter_declaration"@ || kind == "setter_declaration"@,
        syntax::kinds_of(routine_kinds(Grammar::Cpp)).contains(kind) <==> kind == "function_definition"@,
        syntax::kinds_of(routine_kinds(Grammar::CSharp)).contains(kind) <==> kind == "method_declaration"@ || kind == "constructor_declaration"@ || kind == "local_function_statement"@,
        syntax::kinds_of(routine_kinds(Grammar::Php)).contains(kind) <==> kind == "function_definition"@ || kind == "method_declaration"@,
        syntax::kinds_of(routine_kinds(Grammar::Ruby)).contains(kind) <==> kind == "method"@ || kind == "singleton_method"@,
        syntax::kinds_of(routine_kinds(Grammar::Scala)).contains(kind) <==> kind == "function_definition"@ || kind == "function_declaration"@,
        syntax::kinds_of(routine_kinds(Grammar::Swift)).contains(kind) <==> kind == "function_declaration"@ || kind == "init_declaration"@ || kind == "protocol_function_declaration"@,
        syntax::kinds_of(routine_kinds(Grammar::Bash)).contains(kind) <==> kind == "function_definition"@,
{
    reveal(routine_kinds);
    assert(syntax::kinds_of(routine_kinds(Grammar::Rust))[0] == "function_item"@);
    assert(syntax::kinds_of(routine_kinds(Grammar::Rust))[1] == "function_signature_item"@);
    assert(syntax::kinds_of(routine_kinds(Grammar::Python))[0] == "function_definition"@);
    assert(syntax::kinds_of(routine_kinds(Grammar::TypeScript))[0] == "function_declaration"@);
    assert(syntax::kinds_of(routine_kinds(Grammar::TypeScript))[1] == "generator_function_declaration"@);
    assert(syntax::kinds_of(routine_kinds(Grammar::TypeScript))[2] == "method_definition"@);
    assert(syntax::kinds_of(routine_kinds(Grammar::TypeScript))[3] == "abstract_method_signature"@);
    assert(syntax::kinds_of(routine_kinds(Grammar::JavaScript))[0] == "function_declaration"@);
    assert(syntax::kinds_of(routine_kinds(Grammar::JavaScript))[1] == "generator_function_declaration"@);
    assert(syntax::kinds_of(routine_kinds(Grammar::JavaScript))[2] == "method_definition"@);
    assert(syntax::kinds_of(routine_kinds(Grammar::Go))[0] == "function_declaration"@);
    assert(syntax::kinds_of(routine_kinds(Grammar::Go))[1] == "method_declaration"@);
    assert(syntax::kinds_of(routine_kinds(Grammar::Java))[0] == "method_declaration"@);
    assert(syntax::kinds_of(routine_kinds(Grammar::Java))[1] == "constructor_declaration"@);
    assert(syntax::kinds_of(routine_kinds(Grammar::Kotlin))[0] == "function_declaration"@);
    assert(syntax::kinds_of(routine_kinds(Grammar::Dart))[0] == "function_declaration"@);
    assert(syntax::kinds_of(routine_kinds(Grammar::Dart))[1] == "method_declaration"@);
    assert(syntax::kinds_of(routine_kinds(Grammar::Dart))[2] == "local_function_declaration"@);
    assert(syntax::kinds_of(routine_kinds(Grammar::Dart))[3] == "getter_declaration"@);
    assert(syntax::kinds_of(routine_kinds(Grammar::Dart))[4] == "setter_declaration"@);
    assert(syntax::kinds_of(routine_kinds(Grammar::Cpp))[0] == "function_definition"@);
    assert(syntax::kinds_of(routine_kinds(Grammar::CSharp))[0] == "method_declaration"@);
    assert(syntax::kinds_of(routine_kinds(Grammar::CSharp))[1] == "constructor_declaration"@);
    assert(syntax::kinds_of(routine_kinds(Grammar::CSharp))[2] == "local_function_statement"@);
    assert(syntax::kinds_of(routine_kinds(Grammar::Php))[0] == "function_definition"@);
    assert(syntax::kinds_of(routine_kinds(Grammar::Php))[1] == "method_declaration"@);
    assert(syntax::kinds_of(routine_kinds(Grammar::Ruby))[0] == "method"@);
    assert(syntax::kinds_of(routine_kinds(Grammar::Ruby))[1] == "singleton_method"@);
    assert(syntax::kinds_of(routine_kinds(Grammar::Scala))[0] == "function_definition"@);
    assert(syntax::kinds_of(routine_kinds(Grammar::Scala))[1] == "function_declaration"@);
    assert(syntax::kinds_of(routine_kinds(Grammar::Swift))[0] == "function_declaration"@);
    assert(syntax::kinds_of(routine_kinds(Grammar::Swift))[1] == "init_declaration"@);
    assert(syntax::kinds_of(routine_kinds(Grammar::Swift))[2] == "protocol_function_declaration"@);
    assert(syntax::kinds_of(routine_kinds(Grammar::Bash))[0] == "function_definition"@);
}

/// The kinds of nodes that are classes in each language.
pub proof fn classes_are_these(kind: Seq<char>)
    ensures
        syntax::kinds_of(class_kinds(Grammar::Rust)).contains(kind) <==> kind == "struct_item"@ || kind == "enum_item"@ || kind == "union_item"@ || kind == "trait_item"@,
        syntax::kinds_of(class_kinds(Grammar::Python)).contains(kind) <==> kind == "class_definition"@,
        syntax::kinds_of(class_kinds(Grammar::TypeScript)).contains(kind) <==> kind == "class_declaration"@ || kind == "abstract_class_declaration"@ || kind == "interface_declaration"@ || kind == "enum_declaration"@,
        syntax::kinds_of(class_kinds(Grammar::JavaScript)).contains(kind) <==> kind == "class_declaration"@,
        syntax::kinds_of(class_kinds(Grammar::Go)).contains(kind) <==> kind == "type_spec"@,
        syntax::kinds_of(class_kinds(Grammar::Java)).contains(kind) <==> kind == "class_declaration"@ || kind == "interface_declaration"@ || kind == "enum_declaration"@ || kind == "record_declaration"@,
        syntax::kinds_of(class_kinds(Grammar::Kotlin)).contains(kind) <==> kind == "class_declaration"@ || kind == "object_declaration"@,
        syntax::kinds_of(class_kinds(Grammar::Dart)).contains(kind) <==> kind == "class_declaration"@ || kind == "mixin_declaration"@ || kind == "extension_declaration"@ || kind == "extension_type_declaration"@ || kind == "enum_declaration"@,
        syntax::kinds_of(class_kinds(Grammar::Cpp)).contains(kind) <==> kind == "class_specifier"@ || kind == "struct_specifier"@ || kind == "union_specifier"@ || kind == "enum_specifier"@,
        syntax::kinds_of(class_kinds(Grammar::CSharp)).contains(kind) <==> kind == "class_declaration"@ || kind == "interface_declaration"@ || kind == "struct_declaration"@ || kind == "record_declaration"@ || kind == "enum_declaration"@,
        syntax::kinds_of(class_kinds(Grammar::Php)).contains(kind) <==> kind == "class_declaration"@ || kind == "interface_declaration"@ || kind == "trait_declaration"@ || kind == "enum_declaration"@,
        syntax::kinds_of(class_kinds(Grammar::Ruby)).contains(kind) <==> kind == "class"@ || kind == "module"@,
        syntax::kinds_of(class_kinds(Grammar::Scala)).contains(kind) <==> kind == "class_definition"@ || kind == "object_definition"@ || kind == "trait_definition"@ || kind == "enum_definition"@,
        syntax::kinds_of(class_kinds(Grammar::Swift)).contains(kind) <==> kind == "class_declaration"@ || kind == "protocol_declaration"@,
        syntax::kinds_of(class_kinds(Grammar::Bash)).contains(kind) <==> false,
{
    reveal(class_kinds);
    assert(syntax::kinds_of(class_kinds(Grammar::Rust))[0] == "struct_item"@);
    assert(syntax::kinds_of(class_kinds(Grammar::Rust))[1] == "enum_item"@);
    assert(syntax::kinds_of(class_kinds(Grammar::Rust))[2] == "union_item"@);
    assert(syntax::kinds_of(class_kinds(Grammar::Rust))[3] == "trait_item"@);
    assert(syntax::kinds_of(class_kinds(Grammar::Python))[0] == "class_definition"@);
    assert(syntax::kinds_of(class_kinds(Grammar::TypeScript))[0] == "class_declaration"@);
    assert(syntax::kinds_of(class_kinds(Grammar::TypeScript))[1] == "abstract_class_declaration"@);
    assert(syntax::kinds_of(class_kinds(Grammar::TypeScript))[2] == "interface_declaration"@);
    assert(syntax::kinds_of(class_kinds(Grammar::TypeScript))[3] == "enum_declaration"@);
    assert(syntax::kinds_of(class_kinds(Grammar::JavaScript))[0] == "class_declaration"@);
    assert(syntax::kinds_of(class_kinds(Grammar::Go))[0] == "type_spec"@);
    assert(syntax::kinds_of(class_kinds(Grammar::Java))[0] == "class_declaration"@);
    assert(syntax::kinds_of(class_kinds(Grammar::Java))[1] == "interface_declaration"@);
    assert(syntax::kinds_of(class_kinds(Grammar::Java))[2] == "enum_declaration"@);
    assert(syntax::kinds_of(class_kinds(Grammar::Java))[3] == "record_declaration"@);
    assert(syntax::kinds_of(class_kinds(Grammar::Kotlin))[0] == "class_declaration"@);
    assert(syntax::kinds_of(class_kinds(Grammar::Kotlin))[1] == "object_declaration"@);
    assert(syntax::kinds_of(class_kinds(Grammar::Dart))[0] == "class_declaration"@);
    assert(syntax::kinds_of(class_kinds(Grammar::Dart))[1] == "mixin_declaration"@);
    assert(syntax::kinds_of(class_kinds(Grammar::Dart))[2] == "extension_declaration"@);
    assert(syntax::kinds_of(class_kinds(Grammar::Dart))[3] == "extension_type_declaration"@);
    assert(syntax::kinds_of(class_kinds(Grammar::Dart))[4] == "enum_declaration"@);
    assert(syntax::kinds_of(class_kinds(Grammar::Cpp))[0] == "class_specifier"@);
    assert(syntax::kinds_of(class_kinds(Grammar::Cpp))[1] == "struct_specifier"@);
    assert(syntax::kinds_of(class_kinds(Grammar::Cpp))[2] == "union_specifier"@);
    assert(syntax::kinds_of(class_kinds(Grammar::Cpp))[3] == "enum_specifier"@);
    assert(syntax::kinds_of(class_kinds(Grammar::CSharp))[0] == "class_declaration"@);
    assert(syntax::kinds_of(class_kinds(Grammar::CSharp))[1] == "interface_declaration"@);
    assert(syntax::kinds_of(class_kinds(Grammar::CSharp))[2] == "struct_declaration"@);
    assert(syntax::kinds_of(class_kinds(Grammar::CSharp))[3] == "record_declaration"@);
    assert(syntax::kinds_of(class_kinds(Grammar::CSharp))[4] == "enum_declaration"@);
    assert(syntax::kinds_of(class_kinds(Grammar::Php))[0] == "class_declaration"@);
    assert(syntax::kinds_of(class_kinds(Grammar::Php))[1] == "interface_declaration"@);
    assert(syntax::kinds_of(class_kinds(Grammar::Php))[2] == "trait_declaration"@);
    assert(syntax::kinds_of(class_kinds(Grammar::Php))[3] == "enum_declaration"@);
    assert(syntax::kinds_of(class_kinds(Grammar::Ruby))[0] == "class"@);
    assert(syntax::kinds_of(class_kinds(Grammar::Ruby))[1] == "module"@);
    assert(syntax::kinds_of(class_kinds(Grammar::Scala))[0] == "class_definition"@);
    assert(syntax::kinds_of(class_kinds(Grammar::Scala))[1] == "object_definition"@);
    assert(syntax::kinds_of(class_kinds(Grammar::Scala))[2] == "trait_definition"@);
    assert(syntax::kinds_of(class_kinds(Grammar::Scala))[3] == "enum_definition"@);
    assert(syntax::kinds_of(class_kinds(Grammar::Swift))[0] == "class_declaration"@);
    assert(syntax::kinds_of(class_kinds(Grammar::Swift))[1] == "protocol_declaration"@);
}

/// The kinds of nodes that only give a name to what is in them.
pub proof fn name_spaces_are_these(kind: Seq<char>)
    ensures
        syntax::kinds_of(space_kinds(Grammar::Rust)).contains(kind) <==> kind == "mod_item"@,
        syntax::kinds_of(space_kinds(Grammar::TypeScript)).contains(kind) <==> kind == "internal_module"@ || kind == "module"@,
        syntax::kinds_of(space_kinds(Grammar::Cpp)).contains(kind) <==> kind == "namespace_definition"@,
        syntax::kinds_of(space_kinds(Grammar::CSharp)).contains(kind) <==> kind == "namespace_declaration"@,
{
    reveal(space_kinds);
    assert(syntax::kinds_of(space_kinds(Grammar::Rust))[0] == "mod_item"@);
    assert(syntax::kinds_of(space_kinds(Grammar::TypeScript))[0] == "internal_module"@);
    assert(syntax::kinds_of(space_kinds(Grammar::TypeScript))[1] == "module"@);
    assert(syntax::kinds_of(space_kinds(Grammar::Cpp))[0] == "namespace_definition"@);
    assert(syntax::kinds_of(space_kinds(Grammar::CSharp))[0] == "namespace_declaration"@);
}

/// A construct is touched where a hunk holds one of its lines, and only there.
pub proof fn touched_lines_touch_constructs(hunks: Seq<Hunk>, n: NodeModel)
    ensures
        touched_in(hunks, n) > 0 <==> exists|k: int, line: int|
            0 <= k < hunks.len() && syntax::line_of(n.start_row) <= line <= syntax::line_of(n.end_row)
                && #[trigger] hunks[k].holds(line),
{
    let f = diff::touched_between(syntax::line_of(n.start_row), syntax::line_of(n.end_row));
    lemma_touched_somewhere(hunks, syntax::line_of(n.start_row), syntax::line_of(n.end_row));
    if touched_in(hunks, n) > 0 {
        let k = choose|k: int| 0 <= k < hunks.len() && f(#[trigger] hunks[k]) > 0;
        diff::touching_is_holding(
            hunks[k],
            syntax::line_of(n.start_row),
            syntax::line_of(n.end_row),
        );
        let line = choose|line: int|
            syntax::line_of(n.start_row) <= line <= syntax::line_of(n.end_row)
                && #[trigger] hunks[k].holds(line);
        assert(hunks[k].holds(line));
    }
    if exists|k: int, line: int|
        0 <= k < hunks.len() && syntax::line_of(n.start_row) <= line <= syntax::line_of(n.end_row)
            && #[trigger] hunks[k].holds(line) {
        let (k, line) = choose|k: int, line: int|
            0 <= k < hunks.len() && syntax::line_of(n.start_row) <= line <= syntax::line_of(n.end_row)
                && #[trigger] hunks[k].holds(line);
        diff::touching_is_holding(
            hunks[k],
            syntax::line_of(n.start_row),
            syntax::line_of(n.end_row),
        );
        assert(f(hunks[k]) > 0);
    }
}

proof fn lemma_touched_somewhere(hunks: Seq<Hunk>, first: int, last: int)
    ensures
        fold::total(hunks, diff::touched_between(first, last)) > 0 <==> exists|k: int|
            0 <= k < hunks.len() && diff::touched_between(first, last)(#[trigger] hunks[k]) > 0,
    decreases hunks.len(),
{
    let f = diff::touched_between(first, last);
    if hunks.len() > 0 {
        let front = hunks.drop_last();
        lemma_touched_somewhere(front, first, last);
        assert(hunks[hunks.len() - 1] == hunks.last());
        assert(forall|k: int| 0 <= k < front.len() ==> front[k] == hunks[k]);
        if fold::total(front, f) > 0 {
            let k = choose|k: int| 0 <= k < front.len() && f(#[trigger] front[k]) > 0;
            assert(f(hunks[k]) > 0);
        }
        if exists|k: int| 0 <= k < hunks.len() && f(#[trigger] hunks[k]) > 0 {
            let k = choose|k: int| 0 <= k < hunks.len() && f(#[trigger] hunks[k]) > 0;
            if k < front.len() {
                assert(f(front[k]) > 0);
            }
        }
    }
}

/// What stands right in a class or in the block of a type's methods, or declares
/// its receiver, is a method; another routine is a function, and a class is one.
pub proof fn methods_belong_to_types(g: Grammar, ns: Seq<NodeModel>, source: Seq<char>, i: int)
    ensures
        is_class(g, ns, i) ==> label(g, ns, source, i) == "class"@,
        !is_class(g, ns, i) && scope_of(g, ns, source, i) is Some && (is_class(
            g,
            ns,
            scope_of(g, ns, source, i)->0,
        ) || is_impl(g, ns[scope_of(g, ns, source, i)->0])) ==> label(g, ns, source, i)
            == "method"@,
        !is_class(g, ns, i) && scope_of(g, ns, source, i) is Some && !is_class(
            g,
            ns,
            scope_of(g, ns, source, i)->0,
        ) && !is_impl(g, ns[scope_of(g, ns, source, i)->0]) ==> label(g, ns, source, i)
            == "function"@,
        !is_class(g, ns, i) && scope_of(g, ns, source, i) is None && receiver(ns, source, i)
            is Some ==> label(g, ns, source, i) == "method"@,
        !is_class(g, ns, i) && scope_of(g, ns, source, i) is None && receiver(ns, source, i)
            is None ==> label(g, ns, source, i) == "function"@,
{
}

/// A construct on its own is called by its own name, one with a receiver by that
/// of the type and its own, one in a scope by that of the scope and its own.
pub proof fn names_are_qualified(
    g: Grammar,
    ns: Seq<NodeModel>,
    source: Seq<char>,
    i: int,
)
    requires
        own_name(ns, source, i) is Some,
    ensures
        scope_of(g, ns, source, i) is None && receiver(ns, source, i) is None ==> qualified(
            g,
            ns,
            source,
            i,
        ) == own_name(ns, source, i)->0,
        scope_of(g, ns, source, i) is None && receiver(ns, source, i) is Some ==> qualified(
            g,
            ns,
            source,
            i,
        ) == receiver(ns, source, i)->0 + "::"@ + own_name(ns, source, i)->0,
        scope_of(g, ns, source, i) matches Some(p) ==> qualified(g, ns, source, i) == qualified(
            g,
            ns,
            source,
            p,
        ) + "::"@ + own_name(ns, source, i)->0,
{
    lemma_scope_of(g, ns, source, i);
}

/// A node is named by the child in the field for names; or else by its innermost
/// declarator; or else by what names a signature in it; or else by its type.
pub proof fn names_come_from_these(ns: Seq<NodeModel>, i: int)
    ensures
        ({
            let own = syntax::first_child(ns, syntax::has_field("name"@), i);
            let declared = syntax::first_child(ns, is_declarator(), i);
            let signed = syntax::first_child(ns, clones::is_signature_node(), i);
            &&& own is Some ==> naming_node(ns, i) == own
            &&& own is None && declared is Some ==> naming_node(ns, i) == Some(
                innermost(ns, declared->0),
            )
            &&& own is None && declared is None && signed is None ==> naming_node(ns, i)
                == syntax::first_child(ns, syntax::has_field("type"@), i)
            &&& own is None && declared is None && signed is Some && i < signed->0 < ns.len()
                ==> naming_node(ns, i) == naming_node(ns, signed->0)
        }),
        forall|n: NodeModel| #[trigger]
            is_declarator()(n) <==> n.field == Some("declarator"@) || "_declarator"@.is_suffix_of(
                n.kind,
            ),
{
}

/// The innermost declarator holds no other.
pub proof fn the_innermost_holds_no_other(ns: Seq<NodeModel>, d: int)
    requires
        0 <= d < ns.len(),
    ensures
        d <= innermost(ns, d) < ns.len(),
        syntax::first_child(ns, is_declarator(), innermost(ns, d)) is None,
    decreases ns.len() - d,
{
    syntax::lemma_end_of(ns, d);
    syntax::first_child_is_first(ns, is_declarator(), d, d + 1);
    match syntax::first_child(ns, is_declarator(), d) {
        Some(e) => the_innermost_holds_no_other(ns, e),
        None => {},
    }
}

/// The receiver of a method is the first type that is named in it.
pub proof fn receivers_name_their_type(ns: Seq<NodeModel>, i: int, j: int)
    ensures
        match type_from(ns, i, j) {
            Some(t) => j <= t < syntax::end_of(ns, i) && ns[t].kind == "type_identifier"@ && forall|
                k: int,
            |
                j <= k < t ==> (#[trigger] ns[k]).kind != "type_identifier"@,
            None => forall|k: int|
                j <= k < syntax::end_of(ns, i) ==> (#[trigger] ns[k]).kind != "type_identifier"@,
        },
    decreases syntax::end_of(ns, i) - j,
{
    if j < syntax::end_of(ns, i) && ns[j].kind != "type_identifier"@ {
        receivers_name_their_type(ns, i, j + 1);
    }
}

/// A construct is a named function, method or class; a scope may also be the
/// block of a type's methods or a space of names. In C++ a class has a body.
pub proof fn constructs_have_a_name(g: Grammar, ns: Seq<NodeModel>, source: Seq<char>, i: int)
    ensures
        is_construct(g, ns, source, i) ==> own_name(ns, source, i) is Some && ns[i].named && (
        syntax::kinds_of(routine_kinds(g)).contains(ns[i].kind) || syntax::kinds_of(
            class_kinds(g),
        ).contains(ns[i].kind)),
        own_name(ns, source, i) is Some && ns[i].named && syntax::kinds_of(
            routine_kinds(g),
        ).contains(ns[i].kind) ==> is_construct(g, ns, source, i),
        g != Grammar::Cpp && own_name(ns, source, i) is Some && ns[i].named && syntax::kinds_of(
            class_kinds(g),
        ).contains(ns[i].kind) ==> is_construct(g, ns, source, i),
        g == Grammar::Cpp && syntax::first_child(ns, syntax::has_field("body"@), i) is None
            ==> !is_class(g, ns, i),
        is_impl(g, ns[i]) <==> g == Grammar::Rust && ns[i].named && ns[i].kind == "impl_item"@,
        ns[i].named && syntax::kinds_of(space_kinds(g)).contains(ns[i].kind) ==> is_scope(g, ns, i),
        is_impl(g, ns[i]) ==> is_scope(g, ns, i),
        is_class(g, ns, i) ==> is_scope(g, ns, i),
        is_routine(g, ns[i]) ==> is_scope(g, ns, i),
{
}

/// The constructs of a file are those of its parsed text; a file in a language
/// without a grammar has none.
pub proof fn only_parsed_text_has_constructs(
    path: Seq<char>,
    source: Seq<char>,
    hunks: Seq<Hunk>,
)
    ensures
        syntax::construct_grammar_of(path) is None ==> touched(path, source, hunks).len() == 0,
        syntax::construct_grammar_of(path) matches Some(g) ==> match syntax::parsed(g, source) {
            Some(ns) => touched(path, source, hunks) == touches(
                g,
                source,
                ns,
                hunks,
                ns.len() as int,
            ),
            None => touched(path, source, hunks).len() == 0,
        },
{
}

} // verus!
