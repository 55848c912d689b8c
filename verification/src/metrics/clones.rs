//! Functions of the same shape, whatever their names and literals.

use vstd::prelude::*;

use std::collections::hash_map::DefaultHasher;
use std::collections::HashMap;
use std::hash::Hasher;

use vstd::std_specs::hash::DefaultHasherAdditionalSpecFns;

use crate::blob;
use crate::metrics::complexity;
use crate::metrics::complexity::is_comment_kind;
use crate::order;
use crate::order::Ranked;
use crate::syntax;
use crate::syntax::{is_kind, line_of_row, name_of_node, parse, Grammar, NodeModel, SyntaxNode};
use crate::text;
use crate::types;
use crate::types::{EntryModel, MetricEntry, MetricResult, MetricValue, ResultModel, ValueModel, Values};

verus! {

/// Functions of fewer lines are not compared.
pub const MIN_CLONE_LINES: u32 = 10;

/// At most this many groups are reported.
pub const MAX_GROUPS: usize = 100;

/// The kinds of nodes that are functions; none where functions are not
/// measured.
#[verifier::opaque]
pub open spec fn fn_kinds(g: Grammar) -> &'static [&'static str] {
    match g {
        Grammar::Rust => &["function_item", "closure_expression"],
        Grammar::Python => &["function_definition", "lambda"],
        Grammar::TypeScript => &["function_declaration", "method_definition", "arrow_function", "function_expression", "generator_function_declaration"],
        Grammar::Java => &["method_declaration", "constructor_declaration", "lambda_expression"],
        Grammar::Go => &["function_declaration", "method_declaration", "func_literal"],
        Grammar::JavaScript => &["function_declaration", "generator_function_declaration", "method_definition", "arrow_function", "function_expression"],
        Grammar::Kotlin => &["function_declaration", "anonymous_function", "lambda_literal"],
        Grammar::Dart => &["function_declaration", "method_declaration", "local_function_declaration", "function_expression", "lambda_expression"],
        _ => &[],
    }
}

/// The kinds of nodes that are functions in a language.
pub fn function_kinds(g: Grammar) -> (r: &'static [&'static str])
    ensures
        r == fn_kinds(g),
{
    proof {
        reveal(fn_kinds);
    }
    match g {
        Grammar::Rust => &["function_item", "closure_expression"],
        Grammar::Python => &["function_definition", "lambda"],
        Grammar::TypeScript => &["function_declaration", "method_definition", "arrow_function", "function_expression", "generator_function_declaration"],
        Grammar::Java => &["method_declaration", "constructor_declaration", "lambda_expression"],
        Grammar::Go => &["function_declaration", "method_declaration", "func_literal"],
        Grammar::JavaScript => &["function_declaration", "generator_function_declaration", "method_definition", "arrow_function", "function_expression"],
        Grammar::Kotlin => &["function_declaration", "anonymous_function", "lambda_literal"],
        Grammar::Dart => &["function_declaration", "method_declaration", "local_function_declaration", "function_expression", "lambda_expression"],
        _ => &[],
    }
}

/// Names and literals: they do not belong to the shape.
#[verifier::opaque]
pub open spec fn leaf_kinds() -> &'static [&'static str] {
    &[
        "identifier", "property_identifier", "field_identifier", "shorthand_property_identifier",
        "type_identifier", "scoped_identifier", "integer_literal", "integer", "string_literal",
        "string", "interpolated_string_literal", "float_literal", "float", "number",
        "boolean_literal", "true", "false", "char_literal", "character_literal", "none", "null",
        "nil",
    ]
}

fn normalized_kinds() -> (r: &'static [&'static str])
    ensures
        r == leaf_kinds(),
{
    proof {
        reveal(leaf_kinds);
    }
    &[
        "identifier", "property_identifier", "field_identifier", "shorthand_property_identifier",
        "type_identifier", "scoped_identifier", "integer_literal", "integer", "string_literal",
        "string", "interpolated_string_literal", "float_literal", "float", "number",
        "boolean_literal", "true", "false", "char_literal", "character_literal", "none", "null",
        "nil",
    ]
}

pub open spec fn is_fn(g: Grammar, n: NodeModel) -> bool {
    syntax::kinds_of(fn_kinds(g)).contains(n.kind)
}

pub open spec fn is_leaf(n: NodeModel) -> bool {
    syntax::kinds_of(leaf_kinds()).contains(n.kind)
}

/// What stands for the nodes from `j` to `end`: the kind of each node; one sign
/// for a name or a literal, and one for a function inside; nothing for a
/// comment.
pub open spec fn shape_from(g: Grammar, ns: Seq<NodeModel>, j: int, end: int) -> Seq<Seq<char>>
    decreases ns.len() - j,
{
    if j < 0 || j >= end || j >= ns.len() {
        Seq::empty()
    } else {
        proof {
            syntax::lemma_end_of(ns, j);
        }
        if is_fn(g, ns[j]) {
            seq!["<nested_fn>"@] + shape_from(g, ns, syntax::end_of(ns, j), end)
        } else if complexity::is_comment()(ns[j]) {
            shape_from(g, ns, syntax::end_of(ns, j), end)
        } else if is_leaf(ns[j]) {
            seq!["_"@] + shape_from(g, ns, syntax::end_of(ns, j), end)
        } else {
            seq![ns[j].kind] + shape_from(g, ns, j + 1, end)
        }
    }
}

/// The shape of node `i`.
pub open spec fn shape(g: Grammar, ns: Seq<NodeModel>, i: int) -> Seq<Seq<char>> {
    if complexity::is_comment()(ns[i]) {
        Seq::empty()
    } else if is_leaf(ns[i]) {
        seq!["_"@]
    } else {
        seq![ns[i].kind] + shape_from(g, ns, i + 1, syntax::end_of(ns, i))
    }
}

fn shape_of(g: Grammar, nodes: &[SyntaxNode], ends: &[usize], i: usize) -> (r: Vec<String>)
    requires
        syntax::are_ends(ends@, syntax::node_models(nodes@)),
        i < nodes@.len(),
    ensures
        text::views(r@) == shape(g, syntax::node_models(nodes@), i as int),
{
    let ghost ns = syntax::node_models(nodes@);
    let fns = function_kinds(g);
    let leaves = normalized_kinds();
    let mut out: Vec<String> = Vec::new();
    proof {
        assert(ns[i as int] == nodes@[i as int]@);
        syntax::lemma_end_of(ns, i as int);
        assert(text::views(out@) =~= Seq::empty());
    }
    if is_comment_kind(nodes[i].kind.as_str()) {
        return out;
    }
    if is_kind(&nodes[i], leaves) {
        out.push(text::copy_text("_"));
        proof {
            assert(text::views(out@) =~= seq!["_"@]);
        }
        return out;
    }
    out.push(text::copy_text(nodes[i].kind.as_str()));
    let end: usize = ends[i];
    let ghost goal = shape(g, ns, i as int);
    let mut j: usize = i + 1;
    proof {
        assert(text::views(out@) =~= seq![ns[i as int].kind]);
    }
    while j < end
        invariant
            ns == syntax::node_models(nodes@),
            syntax::are_ends(ends@, ns),
            end <= nodes@.len(),
            j <= nodes@.len(),
            fns == fn_kinds(g),
            leaves == leaf_kinds(),
            text::views(out@) + shape_from(g, ns, j as int, end as int) == goal,
        decreases nodes@.len() - j,
    {
        let ghost before = text::views(out@);
        let ghost at = j as int;
        proof {
            assert(ns[j as int] == nodes@[j as int]@);
            syntax::lemma_end_of(ns, j as int);
        }
        if is_kind(&nodes[j], fns) {
            out.push(text::copy_text("<nested_fn>"));
            j = ends[j];
            proof {
                assert(text::views(out@) =~= before + seq!["<nested_fn>"@]);
            }
        } else if is_comment_kind(nodes[j].kind.as_str()) {
            j = ends[j];
        } else if is_kind(&nodes[j], leaves) {
            out.push(text::copy_text("_"));
            j = ends[j];
            proof {
                assert(text::views(out@) =~= before + seq!["_"@]);
            }
        } else {
            out.push(text::copy_text(nodes[j].kind.as_str()));
            proof {
                assert(text::views(out@) =~= before + seq![ns[j as int].kind]);
            }
            j += 1;
        }
        proof {
            assert(text::views(out@) + shape_from(g, ns, j as int, end as int) =~= before
                + shape_from(g, ns, at, end as int));
        }
    }
    proof {
        assert(text::views(out@) + shape_from(g, ns, j as int, end as int) =~= text::views(out@));
    }
    out
}

/// What goes into the hash: the bytes of each text, and a byte after each that
/// no text holds.
pub open spec fn written(texts: Seq<Seq<char>>) -> Seq<Seq<u8>>
    decreases texts.len(),
{
    if texts.len() == 0 {
        Seq::empty()
    } else {
        written(texts.drop_last()).push(vstd::utf8::encode_utf8(texts.last())).push(seq![0xffu8])
    }
}

/// The hash of the texts.
pub open spec fn texts_hash(texts: Seq<Seq<char>>) -> u64 {
    DefaultHasher::spec_finish(written(texts))
}

fn hash_texts(texts: &[String]) -> (r: u64)
    ensures
        r == texts_hash(text::views(texts@)),
{
    let ghost all = text::views(texts@);
    let mut hasher = DefaultHasher::new();
    let mark: [u8; 1] = [0xff];
    let n: usize = texts.len();
    let mut i: usize = 0;
    proof {
        assert(all.take(0).len() == 0);
    }
    while i < n
        invariant
            n == texts@.len(),
            all == text::views(texts@),
            mark@ == seq![0xffu8],
            i <= n,
            hasher@ == written(all.take(i as int)),
        decreases n - i,
    {
        proof {
            assert(all.take(i + 1).drop_last() =~= all.take(i as int));
            assert(all.take(i + 1).last() == texts@[i as int]@);
        }
        hasher.write(texts[i].as_str().as_bytes());
        hasher.write(mark.as_slice());
        i += 1;
    }
    proof {
        assert(all.take(n as int) =~= all);
    }
    hasher.finish()
}

/// The hash of a function's shape.
pub fn ast_hash(g: Grammar, nodes: &[SyntaxNode], ends: &[usize], i: usize) -> (r: u64)
    requires
        syntax::are_ends(ends@, syntax::node_models(nodes@)),
        i < nodes@.len(),
    ensures
        r == texts_hash(shape(g, syntax::node_models(nodes@), i as int)),
{
    let tokens = shape_of(g, nodes, ends, i);
    hash_texts(&tokens)
}

proof fn lemma_same_ends(a: Seq<NodeModel>, b: Seq<NodeModel>, depth: int, j: int)
    requires
        alike(a, b),
        0 <= j,
    ensures
        syntax::end_from(a, depth, j) == syntax::end_from(b, depth, j),
    decreases a.len() - j,
{
    if j < a.len() {
        assert(a[j].depth == b[j].depth);
        lemma_same_ends(a, b, depth, j + 1);
    }
}

/// Two trees that differ only in what their nodes say.
pub open spec fn alike(a: Seq<NodeModel>, b: Seq<NodeModel>) -> bool {
    &&& a.len() == b.len()
    &&& forall|i: int|
        0 <= i < a.len() ==> (#[trigger] a[i]).kind == b[i].kind && a[i].depth == b[i].depth
}

proof fn lemma_same_shape_from(g: Grammar, a: Seq<NodeModel>, b: Seq<NodeModel>, j: int, end: int)
    requires
        alike(a, b),
    ensures
        shape_from(g, a, j, end) == shape_from(g, b, j, end),
    decreases a.len() - j,
{
    if 0 <= j && j < end && j < a.len() {
        assert(a[j].kind == b[j].kind);
        lemma_same_ends(a, b, a[j].depth, j + 1);
        syntax::lemma_end_of(a, j);
        lemma_same_shape_from(g, a, b, syntax::end_of(a, j), end);
        lemma_same_shape_from(g, a, b, j + 1, end);
    }
}

/// Functions that differ only in their names, literals and layout have the
/// same shape, and so the same hash.
pub proof fn renaming_keeps_hash(g: Grammar, a: Seq<NodeModel>, b: Seq<NodeModel>, i: int)
    requires
        alike(a, b),
        0 <= i < a.len(),
    ensures
        shape(g, a, i) == shape(g, b, i),
        texts_hash(shape(g, a, i)) == texts_hash(shape(g, b, i)),
{
    assert(a[i].kind == b[i].kind);
    lemma_same_ends(a, b, a[i].depth, i + 1);
    lemma_same_shape_from(g, a, b, i + 1, syntax::end_of(a, i));
}

// ---------------------------------------------------------------------------
// Functions of a file
// ---------------------------------------------------------------------------

/// A function and the hash of its shape.
#[derive(Debug)]
pub struct FunctionRecord {
    pub hash: u64,
    pub file: String,
    pub name: String,
    pub start_line: u32,
    pub size_lines: u32,
}

pub struct FunctionRecordModel {
    pub hash: u64,
    pub file: Seq<char>,
    pub name: Seq<char>,
    pub start_line: int,
    pub size_lines: int,
}

impl View for FunctionRecord {
    type V = FunctionRecordModel;

    open spec fn view(&self) -> FunctionRecordModel {
        FunctionRecordModel {
            hash: self.hash,
            file: self.file@,
            name: self.name@,
            start_line: self.start_line as int,
            size_lines: self.size_lines as int,
        }
    }
}

/// By file, then by line.
impl Ranked for FunctionRecord {
    open spec fn le(a: FunctionRecordModel, b: FunctionRecordModel) -> bool {
        if a.file == b.file {
            a.start_line <= b.start_line
        } else {
            text::text_le(a.file, b.file)
        }
    }

    proof fn le_total(a: FunctionRecordModel, b: FunctionRecordModel) {
        text::text_le_total(a.file, b.file);
    }

    proof fn le_transitive(
        a: FunctionRecordModel,
        b: FunctionRecordModel,
        c: FunctionRecordModel,
    ) {
        if a.file != b.file && b.file != c.file {
            text::text_le_transitive(a.file, b.file, c.file);
            if a.file == c.file {
                text::text_le_antisymmetric(a.file, b.file);
            }
        }
    }

    fn not_after(&self, other: &FunctionRecord) -> (r: bool) {
        if text::same(self.file.as_str(), other.file.as_str()) {
            self.start_line <= other.start_line
        } else {
            text::text_not_after(self.file.as_str(), other.file.as_str())
        }
    }
}

pub open spec fn is_signature_node() -> spec_fn(NodeModel) -> bool {
    |n: NodeModel| "_signature"@.is_suffix_of(n.kind)
}

/// The node that names function `i`: the child in the field `name`, or else
/// that of the first child that is a signature.
pub open spec fn name_node(ns: Seq<NodeModel>, i: int) -> Option<int> {
    match syntax::first_child(ns, syntax::has_field("name"@), i) {
        Some(c) => Some(c),
        None => match syntax::first_child(ns, is_signature_node(), i) {
            Some(s) => syntax::first_child(ns, syntax::has_field("name"@), s),
            None => None,
        },
    }
}

pub open spec fn name_of_fn(ns: Seq<NodeModel>, source: Seq<char>, i: int) -> Option<Seq<char>> {
    match name_node(ns, i) {
        Some(c) => syntax::node_name(source, ns[c]),
        None => None,
    }
}

/// The first child that is a signature.
pub fn signature_of(nodes: &[SyntaxNode], ends: &[usize], i: usize) -> (r: Option<usize>)
    requires
        syntax::are_ends(ends@, syntax::node_models(nodes@)),
        i < nodes@.len(),
    ensures
        match r {
            Some(k) => syntax::first_child(
                syntax::node_models(nodes@),
                is_signature_node(),
                i as int,
            ) == Some(k as int) && i < k < nodes@.len(),
            None => syntax::first_child(
                syntax::node_models(nodes@),
                is_signature_node(),
                i as int,
            ) is None,
        },
{
    let ghost ns = syntax::node_models(nodes@);
    let end: usize = ends[i];
    proof {
        syntax::lemma_end_of(ns, i as int);
    }
    let mut j: usize = i + 1;
    while j < end
        invariant
            ns == syntax::node_models(nodes@),
            i < nodes@.len(),
            end == syntax::end_of(ns, i as int),
            end <= nodes@.len(),
            i < j <= end,
            syntax::first_child(ns, is_signature_node(), i as int) == syntax::child_from(
                ns,
                is_signature_node(),
                i as int,
                j as int,
            ),
        decreases end - j,
    {
        proof {
            assert(ns[j as int] == nodes@[j as int]@);
            assert(ns[i as int].depth == nodes@[i as int].depth);
        }
        if nodes[j].depth > nodes[i].depth && nodes[j].depth - nodes[i].depth == 1
            && text::ends_with(nodes[j].kind.as_str(), "_signature") {
            return Some(j);
        }
        j += 1;
    }
    None
}

/// The name of function `i`, if it has one.
pub fn function_name(nodes: &[SyntaxNode], ends: &[usize], source: &str, i: usize) -> (r: Option<
    String,
>)
    requires
        syntax::are_ends(ends@, syntax::node_models(nodes@)),
        i < nodes@.len(),
    ensures
        match r {
            Some(s) => name_of_fn(syntax::node_models(nodes@), source@, i as int) == Some(s@),
            None => name_of_fn(syntax::node_models(nodes@), source@, i as int) is None,
        },
{
    let ghost ns = syntax::node_models(nodes@);
    let direct = syntax::child_by_field(nodes, ends, i, "name");
    let found = match direct {
        Some(c) => Some(c),
        None => match signature_of(nodes, ends, i) {
            Some(s) => syntax::child_by_field(nodes, ends, s, "name"),
            None => None,
        },
    };
    match found {
        Some(c) => {
            proof {
                assert(ns[c as int] == nodes@[c as int]@);
            }
            name_of_node(source, &nodes[c])
        },
        None => None,
    }
}

/// The number of lines from the row where a node starts to the one where it
/// ends.
pub open spec fn lines_of_node(n: NodeModel) -> int {
    let start = syntax::line_of(n.start_row);
    let end = syntax::line_of(n.end_row);
    if end <= start {
        1
    } else if end - start < u32::MAX {
        end - start + 1
    } else {
        u32::MAX as int
    }
}

pub open spec fn record_at(
    g: Grammar,
    file: Seq<char>,
    source: Seq<char>,
    ns: Seq<NodeModel>,
    i: int,
) -> FunctionRecordModel {
    FunctionRecordModel {
        hash: texts_hash(shape(g, ns, i)),
        file,
        name: match name_of_fn(ns, source, i) {
            Some(n) => n,
            None => "<anonymous>"@,
        },
        start_line: syntax::line_of(ns[i].start_row),
        size_lines: lines_of_node(ns[i]),
    }
}

/// The records of the functions among the first `n` nodes that are long enough.
pub open spec fn records_of(
    g: Grammar,
    file: Seq<char>,
    source: Seq<char>,
    ns: Seq<NodeModel>,
    n: int,
) -> Seq<FunctionRecordModel>
    decreases n,
{
    if n <= 0 {
        Seq::empty()
    } else if is_fn(g, ns[n - 1]) && lines_of_node(ns[n - 1]) >= MIN_CLONE_LINES {
        records_of(g, file, source, ns, n - 1).push(record_at(g, file, source, ns, n - 1))
    } else {
        records_of(g, file, source, ns, n - 1)
    }
}

/// What a file of the tree adds.
pub open spec fn records_in(path: Seq<char>, data: Seq<u8>) -> Seq<FunctionRecordModel> {
    match (syntax::grammar_of(path), blob::text_of(data)) {
        (Some(g), Some(source)) => match syntax::parsed(g, source) {
            Some(ns) => records_of(g, path, source, ns, ns.len() as int),
            None => Seq::empty(),
        },
        _ => Seq::empty(),
    }
}

// ---------------------------------------------------------------------------
// Groups
// ---------------------------------------------------------------------------

/// The hashes that occur, in the order in which they come first.
pub open spec fn hashes(s: Seq<FunctionRecordModel>) -> Seq<u64>
    decreases s.len(),
{
    if s.len() == 0 {
        Seq::empty()
    } else {
        let before = hashes(s.drop_last());
        if before.contains(s.last().hash) {
            before
        } else {
            before.push(s.last().hash)
        }
    }
}

/// The functions with that hash.
pub open spec fn of_hash(s: Seq<FunctionRecordModel>, h: u64) -> Seq<FunctionRecordModel>
    decreases s.len(),
{
    if s.len() == 0 {
        Seq::empty()
    } else if s.last().hash == h {
        of_hash(s.drop_last(), h).push(s.last())
    } else {
        of_hash(s.drop_last(), h)
    }
}

/// The functions, grouped by hash.
pub open spec fn groups_of(s: Seq<FunctionRecordModel>) -> Seq<Seq<FunctionRecordModel>> {
    Seq::new(hashes(s).len(), |k: int| of_hash(s, hashes(s)[k]))
}

/// Whether a group is reported: it holds two functions at least, and they are
/// long enough.
pub open spec fn is_clone_group(g: Seq<FunctionRecordModel>) -> bool {
    g.len() >= 2 && g[0].size_lines >= MIN_CLONE_LINES
}

pub open spec fn clone_groups(s: Seq<Seq<FunctionRecordModel>>) -> Seq<Seq<FunctionRecordModel>>
    decreases s.len(),
{
    if s.len() == 0 {
        Seq::empty()
    } else if is_clone_group(s.last()) {
        clone_groups(s.drop_last()).push(s.last())
    } else {
        clone_groups(s.drop_last())
    }
}

/// The lines that go when the functions of a group become one.
pub open spec fn payoff(g: Seq<FunctionRecordModel>) -> int {
    if g.len() == 0 {
        0
    } else {
        g[0].size_lines * (g.len() - 1)
    }
}

/// Functions of one shape.
#[derive(Debug)]
pub struct Group {
    pub records: Vec<FunctionRecord>,
}

impl View for Group {
    type V = Seq<FunctionRecordModel>;

    open spec fn view(&self) -> Seq<FunctionRecordModel> {
        order::models(self.records@)
    }
}

impl Group {
    fn saves(&self) -> (r: u128)
        ensures
            r == payoff(self@),
    {
        let n: usize = self.records.len();
        if n == 0 {
            return 0;
        }
        let size = self.records[0].size_lines;
        proof {
            assert(self@[0] == self.records@[0]@);
            assert(size as u128 * (n - 1) as u128 <= 0xffff_ffff * 0xffff_ffff_ffff_ffff)
                by (nonlinear_arith)
                requires
                    n >= 1,
                    size <= 0xffff_ffff,
                    n <= 0xffff_ffff_ffff_ffff,
            ;
        }
        size as u128 * (n - 1) as u128
    }
}

/// Those that save the most come first.
impl Ranked for Group {
    open spec fn le(a: Seq<FunctionRecordModel>, b: Seq<FunctionRecordModel>) -> bool {
        payoff(a) >= payoff(b)
    }

    proof fn le_total(a: Seq<FunctionRecordModel>, b: Seq<FunctionRecordModel>) {
    }

    proof fn le_transitive(
        a: Seq<FunctionRecordModel>,
        b: Seq<FunctionRecordModel>,
        c: Seq<FunctionRecordModel>,
    ) {
    }

    fn not_after(&self, other: &Group) -> (r: bool) {
        self.saves() >= other.saves()
    }
}

/// Every function is in the group of its hash, and only there.
pub proof fn grouping_loses_nothing(s: Seq<FunctionRecordModel>, i: int)
    requires
        0 <= i < s.len(),
    ensures
        hashes(s).contains(s[i].hash),
        of_hash(s, s[i].hash).contains(s[i]),
        hashes(s).no_duplicates(),
        forall|h: u64, k: int|
            0 <= k < of_hash(s, h).len() ==> (#[trigger] of_hash(s, h)[k]).hash == h,
    decreases s.len(),
{
    lemma_hashes_differ(s);
    assert forall|h: u64, k: int| 0 <= k < of_hash(s, h).len() implies (#[trigger] of_hash(
        s,
        h,
    )[k]).hash == h by {
        lemma_of_hash(s, h);
    }
    let init = s.drop_last();
    let h = s[i].hash;
    if i < init.len() {
        grouping_loses_nothing(init, i);
        assert(init[i] == s[i]);
        let k = choose|k: int| 0 <= k < hashes(init).len() && hashes(init)[k] == h;
        assert(hashes(s)[k] == h);
        let m = choose|m: int| 0 <= m < of_hash(init, h).len() && of_hash(init, h)[m] == s[i];
        assert(of_hash(s, h)[m] == s[i]);
    } else {
        assert(of_hash(s, h).last() == s[i]);
        if !hashes(init).contains(h) {
            assert(hashes(s).last() == h);
        }
    }
}

proof fn lemma_of_hash(s: Seq<FunctionRecordModel>, h: u64)
    ensures
        of_hash(s, h).len() <= s.len(),
        forall|k: int| 0 <= k < of_hash(s, h).len() ==> (#[trigger] of_hash(s, h)[k]).hash == h,
    decreases s.len(),
{
    if s.len() > 0 {
        lemma_of_hash(s.drop_last(), h);
    }
}

proof fn lemma_hashes_differ(s: Seq<FunctionRecordModel>)
    ensures
        hashes(s).no_duplicates(),
        hashes(s).len() <= s.len(),
    decreases s.len(),
{
    if s.len() > 0 {
        lemma_hashes_differ(s.drop_last());
    }
}

/// No other function has a hash that never came.
proof fn lemma_of_new_hash(s: Seq<FunctionRecordModel>, h: u64)
    requires
        !hashes(s).contains(h),
    ensures
        of_hash(s, h).len() == 0,
    decreases s.len(),
{
    if s.len() > 0 {
        let init = s.drop_last();
        if hashes(init).contains(h) {
            let k = choose|k: int| 0 <= k < hashes(init).len() && hashes(init)[k] == h;
            assert(hashes(s)[k] == h);
        }
        if s.last().hash == h && !hashes(init).contains(h) {
            assert(hashes(s).last() == h);
        }
        lemma_of_new_hash(init, h);
    }
}

/// Groups the functions by hash.
pub fn group_by_hash(records: Vec<FunctionRecord>) -> (r: Vec<Group>)
    ensures
        order::models(r@) == groups_of(order::models(records@)),
{
    broadcast use vstd::std_specs::hash::group_hash_axioms;

    let ghost all = order::models(records@);
    let mut groups: Vec<Group> = Vec::new();
    let mut index: HashMap<u64, usize> = HashMap::new();
    proof {
        assert(all.take(0).len() == 0);
    }
    for record in it: records
        invariant
            it.seq() == records@,
            all == order::models(records@),
            groups@.len() == hashes(all.take(it.index() as int)).len(),
            forall|k: int|
                0 <= k < groups@.len() ==> (#[trigger] groups@[k])@ == of_hash(
                    all.take(it.index() as int),
                    hashes(all.take(it.index() as int))[k],
                ),
            forall|h: u64| #[trigger]
                index@.dom().contains(h) <==> hashes(all.take(it.index() as int)).contains(h),
            forall|h: u64| #[trigger]
                index@.dom().contains(h) ==> index@[h] < groups@.len() && hashes(
                    all.take(it.index() as int),
                )[index@[h] as int] == h,
    {
        let ghost i = it.index() as int;
        let ghost done = all.take(i);
        let ghost next = all.take(i + 1);
        let ghost m = record@;
        let ghost before = groups@;
        let ghost known = index@;
        let hash = record.hash;
        proof {
            assert(next.drop_last() =~= done);
            assert(next.last() == m);
            lemma_hashes_differ(done);
        }
        let found = match index.get(&hash) {
            Some(k) => Some(*k),
            None => None,
        };
        match found {
            Some(k) => {
                groups[k].records.push(record);
                proof {
                    assert(groups@[k as int]@ =~= before[k as int]@.push(m));
                    assert forall|q: int| 0 <= q < groups@.len() implies (#[trigger] groups@[q])@
                        == of_hash(next, hashes(next)[q]) by {
                        if q != k {
                            assert(groups@[q] == before[q]);
                        }
                    }
                }
            },
            None => {
                proof {
                    lemma_of_new_hash(done, hash);
                }
                let n: usize = groups.len();
                index.insert(hash, n);
                let mut fresh: Vec<FunctionRecord> = Vec::new();
                fresh.push(record);
                groups.push(Group { records: fresh });
                proof {
                    assert(groups@[n as int]@ =~= of_hash(next, hash));
                    assert forall|q: int| 0 <= q < groups@.len() implies (#[trigger] groups@[q])@
                        == of_hash(next, hashes(next)[q]) by {
                        if q < n {
                            assert(groups@[q] == before[q]);
                            assert(hashes(done).contains(hashes(done)[q]));
                        }
                    }
                    assert forall|h: u64| #[trigger] index@.dom().contains(h) <==> hashes(
                        next,
                    ).contains(h) by {
                        assert(hashes(next)[n as int] == hash);
                        if hashes(done).contains(h) {
                            let q = choose|q: int|
                                0 <= q < hashes(done).len() && hashes(done)[q] == h;
                            assert(hashes(next)[q] == h);
                        }
                    }
                }
            },
        }
    }
    proof {
        assert(all.take(records@.len() as int) =~= all);
        assert(order::models(groups@) =~= groups_of(all));
    }
    groups
}

fn keep_clones(groups: Vec<Group>) -> (r: Vec<Group>)
    ensures
        order::models(r@) == clone_groups(order::models(groups@)),
{
    let ghost all = order::models(groups@);
    let mut out: Vec<Group> = Vec::new();
    proof {
        assert(all.take(0).len() == 0);
        assert(order::models(out@) =~= Seq::empty());
    }
    for group in it: groups
        invariant
            it.seq() == groups@,
            all == order::models(groups@),
            order::models(out@) == clone_groups(all.take(it.index() as int)),
    {
        let ghost i = it.index() as int;
        let ghost before = order::models(out@);
        proof {
            assert(all.take(i + 1).drop_last() =~= all.take(i));
            assert(all.take(i + 1).last() == group@);
        }
        if group.records.len() >= 2 {
            proof {
                assert(group@[0] == group.records@[0]@);
            }
            if group.records[0].size_lines >= MIN_CLONE_LINES {
                let ghost g = group@;
                out.push(group);
                proof {
                    assert(order::models(out@) =~= before.push(g));
                }
            }
        }
    }
    proof {
        assert(all.take(groups@.len() as int) =~= all);
    }
    out
}

// ---------------------------------------------------------------------------
// The report
// ---------------------------------------------------------------------------

/// Where a function stands.
pub open spec fn place(m: FunctionRecordModel) -> Seq<char> {
    m.file + "::"@ + m.name + ":"@ + text::decimal(m.start_line as nat)
}

fn place_text(m: &FunctionRecord) -> (r: String)
    ensures
        r@ == place(m@),
{
    let head = text::cat3(m.file.as_str(), "::", m.name.as_str());
    let number = text::decimal_text(m.start_line as u64);
    text::cat3(head.as_str(), ":", number.as_str())
}

pub open spec fn places(s: Seq<FunctionRecordModel>) -> Seq<Seq<char>> {
    Seq::new(s.len(), |i: int| place(s[i]))
}

/// The row of the group at place `k`.
pub open spec fn group_entry(g: Seq<FunctionRecordModel>, k: int) -> EntryModel {
    let sorted = order::sort_ranked::<FunctionRecord>(g);
    EntryModel {
        key: "#"@ + text::decimal((k + 1) as nat) + ": "@ + place(sorted[0]),
        values: Map::empty().insert("occurrences"@, ValueModel::Count(g.len() as int)).insert(
            "size_lines"@,
            ValueModel::Count(sorted[0].size_lines),
        ).insert(
            "other_locations"@,
            ValueModel::Text(
                if g.len() == 1 {
                    "(none)"@
                } else {
                    text::join(places(sorted.skip(1)), " | "@)
                },
            ),
        ),
    }
}

fn to_group_entry(group: Group, k: usize) -> (r: MetricEntry)
    requires
        group@.len() > 0,
        k < u64::MAX,
    ensures
        r@ == group_entry(group@, k as int),
{
    let ghost g = group@;
    let count: usize = group.records.len();
    let sorted = order::sort_rows(group.records);
    let ghost s = order::sort_ranked::<FunctionRecord>(g);
    proof {
        assert(order::models(sorted@) == s);
        assert(s[0] == sorted@[0]@);
    }
    let first = place_text(&sorted[0]);
    let number = text::decimal_text(k as u64 + 1);
    let head = text::cat3("#", number.as_str(), ": ");
    let key = text::cat(head.as_str(), first.as_str());
    let mut others: Vec<String> = Vec::new();
    let n: usize = sorted.len();
    let mut i: usize = 1;
    while i < n
        invariant
            n == sorted@.len(),
            1 <= i <= n,
            s == order::models(sorted@),
            others@.len() == i - 1,
            forall|q: int| 0 <= q < i - 1 ==> (#[trigger] others@[q])@ == place(s[q + 1]),
        decreases n - i,
    {
        others.push(place_text(&sorted[i]));
        i += 1;
    }
    proof {
        assert(text::views(others@) =~= places(s.skip(1)));
    }
    let listed = if others.len() == 0 {
        text::copy_text("(none)")
    } else {
        text::join_texts(&others, " | ")
    };
    let mut values = Values::new();
    values.insert("occurrences", MetricValue::Count(count as u64));
    values.insert("size_lines", MetricValue::Count(sorted[0].size_lines as u64));
    values.insert("other_locations", MetricValue::Text(listed));
    MetricEntry { key, values }
}

pub open spec fn group_entries(s: Seq<Seq<FunctionRecordModel>>) -> Seq<EntryModel> {
    Seq::new(s.len(), |k: int| group_entry(s[k], k))
}

/// The groups that are reported, the most rewarding first.
pub open spec fn ranked_groups(s: Seq<FunctionRecordModel>) -> Seq<Seq<FunctionRecordModel>> {
    order::first_n(order::sort_ranked::<Group>(clone_groups(groups_of(s))), MAX_GROUPS as int)
}

pub open spec fn clone_columns() -> Seq<Seq<char>> {
    seq![
        "occurrences"@,
        "size_lines"@,
        "other_locations"@,
    ]
}

pub open spec fn clones_report(s: Seq<FunctionRecordModel>) -> ResultModel {
    types::report_of("clones"@, clone_columns(), group_entries(ranked_groups(s)))
}

proof fn lemma_clone_groups(s: Seq<Seq<FunctionRecordModel>>)
    ensures
        forall|k: int|
            0 <= k < clone_groups(s).len() ==> is_clone_group(#[trigger] clone_groups(s)[k]),
    decreases s.len(),
{
    if s.len() > 0 {
        let before = clone_groups(s.drop_last());
        lemma_clone_groups(s.drop_last());
        assert forall|k: int| 0 <= k < clone_groups(s).len() implies is_clone_group(
            #[trigger] clone_groups(s)[k],
        ) by {
            if k < before.len() {
                assert(clone_groups(s)[k] == before[k]);
            }
        }
    }
}

/// What is reported are groups of two functions at least that are long enough.
pub proof fn reported_are_clones(s: Seq<FunctionRecordModel>, k: int)
    requires
        0 <= k < ranked_groups(s).len(),
    ensures
        is_clone_group(ranked_groups(s)[k]),
        ranked_groups(s).len() <= MAX_GROUPS,
{
    let kept = clone_groups(groups_of(s));
    lemma_clone_groups(groups_of(s));
    order::sort_same_members::<Group>(kept);
    let sorted = order::sort_ranked::<Group>(kept);
    assert(sorted[k] == ranked_groups(s)[k]);
    assert(sorted.contains(sorted[k]));
    assert(kept.contains(sorted[k]));
}

proof fn lemma_clone_groups_complete(s: Seq<Seq<FunctionRecordModel>>, g: Seq<FunctionRecordModel>)
    requires
        s.contains(g),
        g.len() >= 2,
        g[0].size_lines >= 10,
    ensures
        clone_groups(s).contains(g),
        clone_groups(s).len() <= s.len(),
    decreases s.len(),
{
    let init = s.drop_last();
    if init.contains(g) {
        lemma_clone_groups_complete(init, g);
        let k = choose|k: int| 0 <= k < clone_groups(init).len() && clone_groups(init)[k] == g;
        assert(clone_groups(s)[k] == g);
    } else {
        let k = choose|k: int| 0 <= k < s.len() && s[k] == g;
        if k < init.len() {
            assert(init[k] == g);
        }
        assert(clone_groups(s).last() == g);
        lemma_clone_groups_len(init);
    }
}

proof fn lemma_clone_groups_len(s: Seq<Seq<FunctionRecordModel>>)
    ensures
        clone_groups(s).len() <= s.len(),
    decreases s.len(),
{
    if s.len() > 0 {
        lemma_clone_groups_len(s.drop_last());
    }
}

proof fn lemma_of_hash_holds(s: Seq<FunctionRecordModel>, i: int)
    requires
        0 <= i < s.len(),
    ensures
        of_hash(s, s[i].hash).contains(s[i]),
    decreases s.len(),
{
    grouping_loses_nothing(s, i);
}

proof fn lemma_of_hash_first(s: Seq<FunctionRecordModel>, i: int)
    requires
        0 <= i < s.len(),
        forall|k: int| 0 <= k < i ==> (#[trigger] s[k]).hash != s[i].hash,
    ensures
        of_hash(s, s[i].hash).len() >= 1,
        of_hash(s, s[i].hash)[0] == s[i],
    decreases s.len(),
{
    let init = s.drop_last();
    if i < init.len() {
        assert(init[i] == s[i]);
        assert forall|k: int| 0 <= k < i implies (#[trigger] init[k]).hash != init[i].hash by {
            assert(init[k] == s[k]);
        }
        lemma_of_hash_first(init, i);
    } else {
        lemma_of_hash_none(init, s[i].hash);
    }
}

proof fn lemma_of_hash_none(s: Seq<FunctionRecordModel>, h: u64)
    requires
        forall|k: int| 0 <= k < s.len() ==> (#[trigger] s[k]).hash != h,
    ensures
        of_hash(s, h).len() == 0,
    decreases s.len(),
{
    if s.len() > 0 {
        let init = s.drop_last();
        assert forall|k: int| 0 <= k < init.len() implies (#[trigger] init[k]).hash != h by {
            assert(init[k] == s[k]);
        }
        assert(s.last() == s[s.len() - 1]);
        lemma_of_hash_none(init, h);
    }
}

proof fn lemma_of_hash_two(s: Seq<FunctionRecordModel>, i: int, j: int)
    requires
        0 <= i < j < s.len(),
        s[i].hash == s[j].hash,
    ensures
        of_hash(s, s[i].hash).len() >= 2,
    decreases s.len(),
{
    let init = s.drop_last();
    if j < init.len() {
        assert(init[i] == s[i] && init[j] == s[j]);
        lemma_of_hash_two(init, i, j);
    } else {
        assert(init[i] == s[i]);
        grouping_loses_nothing(init, i);
    }
}

/// Every clone is found: where two functions have one shape, and the first of
/// that shape has ten lines or more, there is a group that holds all functions
/// of the shape and none of another. Unless there are more than a hundred
/// shapes, it is in the report, however many functions it holds.
pub proof fn every_clone_is_found(s: Seq<FunctionRecordModel>, i: int, j: int)
    requires
        0 <= i < j < s.len(),
        s[i].hash == s[j].hash,
        forall|k: int| 0 <= k < i ==> (#[trigger] s[k]).hash != s[i].hash,
        s[i].size_lines >= 10,
    ensures
        exists|g: Seq<FunctionRecordModel>| #[trigger]
            clone_groups(groups_of(s)).contains(g) && (forall|x: FunctionRecordModel| #[trigger]
                g.contains(x) <==> s.contains(x) && x.hash == s[i].hash) && (hashes(s).len() <= 100
                ==> ranked_groups(s).contains(g)),
{
    let h = s[i].hash;
    let g = of_hash(s, h);
    lemma_of_hash_first(s, i);
    lemma_of_hash_two(s, i, j);
    grouping_loses_nothing(s, i);
    let all = groups_of(s);
    let k = choose|k: int| 0 <= k < hashes(s).len() && hashes(s)[k] == h;
    assert(all[k] == g);
    lemma_clone_groups_complete(all, g);
    assert forall|x: FunctionRecordModel| #[trigger] g.contains(x) <==> s.contains(x) && x.hash
        == h by {
        lemma_of_hash_members(s, h, x);
    }
    let kept = clone_groups(all);
    order::sort_same_members::<Group>(kept);
    order::sort_keeps_elements::<Group>(kept);
    let sorted = order::sort_ranked::<Group>(kept);
    assert(sorted.contains(g));
    if hashes(s).len() <= 100 {
        let m = choose|m: int| 0 <= m < sorted.len() && sorted[m] == g;
        assert(ranked_groups(s)[m] == g);
    }
}

proof fn lemma_of_hash_members(s: Seq<FunctionRecordModel>, h: u64, x: FunctionRecordModel)
    ensures
        of_hash(s, h).contains(x) <==> s.contains(x) && x.hash == h,
    decreases s.len(),
{
    if s.len() > 0 {
        let init = s.drop_last();
        lemma_of_hash_members(init, h, x);
        assert(s =~= init.push(s.last()));
        vstd::seq_lib::lemma_seq_contains_after_push(init, s.last(), x);
        if s.last().hash == h {
            vstd::seq_lib::lemma_seq_contains_after_push(of_hash(init, h), s.last(), x);
        }
    }
}

/// The groups that are reported hold two functions of one shape or more, the
/// first of ten lines or more; there are at most a hundred of them, and the one
/// that saves more lines stands before the other: its first function's lines
/// times the number of the others.
pub proof fn reported_groups_pay_off(s: Seq<FunctionRecordModel>, a: int, b: int)
    requires
        0 <= a < b < ranked_groups(s).len(),
    ensures
        ranked_groups(s).len() <= 100,
        ({
            let g = ranked_groups(s)[a];
            let h = ranked_groups(s)[b];
            &&& g.len() >= 2 && h.len() >= 2
            &&& g[0].size_lines >= 10 && h[0].size_lines >= 10
            &&& g[0].size_lines * (g.len() - 1) >= h[0].size_lines * (h.len() - 1)
        }),
{
    reported_are_clones(s, a);
    reported_are_clones(s, b);
    let kept = clone_groups(groups_of(s));
    order::sort_orders::<Group>(kept);
    let sorted = order::sort_ranked::<Group>(kept);
    assert(sorted[a] == ranked_groups(s)[a]);
    assert(sorted[b] == ranked_groups(s)[b]);
    assert(Group::le(sorted[a], sorted[b]));
}

/// The row of a group counts its functions, and shows the lines of the one that
/// comes first by file and line.
pub proof fn group_rows_count_functions(g: Seq<FunctionRecordModel>, k: int)
    requires
        g.len() > 0,
    ensures
        group_entry(g, k).values["occurrences"@] == ValueModel::Count(g.len() as int),
        exists|m: int|
            0 <= m < g.len() && group_entry(g, k).values["size_lines"@] == ValueModel::Count(
                (#[trigger] g[m]).size_lines,
            ) && forall|q: int| 0 <= q < g.len() ==> FunctionRecord::le(g[m], #[trigger] g[q]),
{
    reveal_strlit("occurrences");
    reveal_strlit("size_lines");
    reveal_strlit("other_locations");
    assert("occurrences"@.len() != "size_lines"@.len());
    assert("occurrences"@.len() != "other_locations"@.len());
    assert("size_lines"@.len() != "other_locations"@.len());
    let sorted = order::sort_ranked::<FunctionRecord>(g);
    order::sort_keeps_elements::<FunctionRecord>(g);
    order::sort_same_members::<FunctionRecord>(g);
    order::sort_orders::<FunctionRecord>(g);
    assert(sorted.contains(sorted[0]));
    let m = choose|m: int| 0 <= m < g.len() && g[m] == sorted[0];
    assert forall|q: int| 0 <= q < g.len() implies FunctionRecord::le(g[m], #[trigger] g[q]) by {
        assert(g.contains(g[q]));
        assert(sorted.contains(g[q]));
        let r = choose|r: int| 0 <= r < sorted.len() && sorted[r] == g[q];
        if r > 0 {
            assert(FunctionRecord::le(sorted[0], sorted[r]));
        } else {
            FunctionRecord::le_total(g[m], g[m]);
        }
    }
    assert(group_entry(g, k).values["size_lines"@] == ValueModel::Count(g[m].size_lines));
}

/// A function spans the lines from the row where it starts to the one where it
/// ends, both included.
pub proof fn functions_span_their_rows(n: NodeModel)
    requires
        0 <= n.start_row <= n.end_row < 0xffff_ffff,
    ensures
        lines_of_node(n) == n.end_row - n.start_row + 1,
{
}

proof fn lemma_records_step(
    g: Grammar,
    file: Seq<char>,
    source: Seq<char>,
    ns: Seq<NodeModel>,
    n: int,
    i: int,
)
    requires
        0 <= i < n <= ns.len(),
        syntax::kinds_of(fn_kinds(g)).contains(ns[i].kind),
        lines_of_node(ns[i]) >= 10,
    ensures
        exists|k: int|
            0 <= k < records_of(g, file, source, ns, n).len() && (#[trigger] records_of(
                g,
                file,
                source,
                ns,
                n,
            )[k]) == record_at(g, file, source, ns, i),
    decreases n,
{
    if i == n - 1 {
        assert(records_of(g, file, source, ns, n).last() == record_at(g, file, source, ns, i));
    } else {
        lemma_records_step(g, file, source, ns, n - 1, i);
        let before = records_of(g, file, source, ns, n - 1);
        let k = choose|k: int|
            0 <= k < before.len() && #[trigger] before[k] == record_at(g, file, source, ns, i);
        assert(records_of(g, file, source, ns, n)[k] == before[k]);
    }
}

/// Every function of ten lines or more is compared, where it stands and with as
/// many lines as it spans.
pub proof fn long_functions_are_compared(
    g: Grammar,
    file: Seq<char>,
    source: Seq<char>,
    ns: Seq<NodeModel>,
    i: int,
)
    requires
        0 <= i < ns.len(),
        syntax::kinds_of(fn_kinds(g)).contains(ns[i].kind),
        0 <= ns[i].start_row <= ns[i].end_row < 0xffff_ffff,
        ns[i].end_row - ns[i].start_row >= 9,
    ensures
        exists|k: int|
            0 <= k < records_of(g, file, source, ns, ns.len() as int).len() && {
                let r = #[trigger] records_of(g, file, source, ns, ns.len() as int)[k];
                &&& r.file == file
                &&& r.start_line == ns[i].start_row + 1
                &&& r.size_lines == ns[i].end_row - ns[i].start_row + 1
                &&& r.hash == texts_hash(shape(g, ns, i))
            },
{
    lemma_records_step(g, file, source, ns, ns.len() as int, i);
}

#[derive(Debug)]
pub struct ClonesCollector {
    pub records: Vec<FunctionRecord>,
}

impl Default for ClonesCollector {
    fn default() -> (r: Self)
        ensures
            r.records@.len() == 0,
    {
        ClonesCollector::new()
    }
}

impl ClonesCollector {
    pub fn new() -> (r: Self)
        ensures
            r.records@.len() == 0,
    {
        ClonesCollector { records: Vec::new() }
    }

    pub fn name(&self) -> (r: &str)
        ensures
            r@ == "clones"@,
    {
        "clones"
    }

    /// Records the functions of a source, given the nodes of its syntax tree.
    pub fn scan_file(&mut self, g: Grammar, path: &str, source: &str, nodes: &[SyntaxNode])
        ensures
            order::models(final(self).records@) == order::models(old(self).records@) + records_of(
                g,
                path@,
                source@,
                syntax::node_models(nodes@),
                nodes@.len() as int,
            ),
    {
        let ghost ns = syntax::node_models(nodes@);
        let ghost held = order::models(self.records@);
        let ends = syntax::subtree_ends(nodes);
        let fns = function_kinds(g);
        let n: usize = nodes.len();
        let mut i: usize = 0;
        proof {
            assert(held + records_of(g, path@, source@, ns, 0) =~= held);
        }
        while i < n
            invariant
                n == nodes@.len(),
                ns == syntax::node_models(nodes@),
                syntax::are_ends(ends@, ns),
                fns == fn_kinds(g),
                i <= n,
                order::models(self.records@) == held + records_of(
                    g,
                    path@,
                    source@,
                    ns,
                    i as int,
                ),
            decreases n - i,
        {
            let ghost before = order::models(self.records@);
            proof {
                assert(ns[i as int] == nodes@[i as int]@);
            }
            if is_kind(&nodes[i], fns) {
                let start = line_of_row(nodes[i].start_row);
                let end = line_of_row(nodes[i].end_row);
                let size_lines: u32 = if end <= start {
                    1
                } else if end - start < u32::MAX {
                    end - start + 1
                } else {
                    u32::MAX
                };
                if size_lines >= MIN_CLONE_LINES {
                    let name = match function_name(nodes, &ends, source, i) {
                        Some(s) => s,
                        None => text::copy_text("<anonymous>"),
                    };
                    let hash = ast_hash(g, nodes, &ends, i);
                    let record = FunctionRecord {
                        hash,
                        file: text::copy_text(path),
                        name,
                        start_line: start,
                        size_lines,
                    };
                    self.records.push(record);
                    proof {
                        assert(record@ == record_at(g, path@, source@, ns, i as int));
                        assert(order::models(self.records@) =~= before.push(record@));
                        assert(before.push(record@) =~= held + records_of(
                            g,
                            path@,
                            source@,
                            ns,
                            i + 1,
                        ));
                    }
                }
            }
            i += 1;
        }
    }

    /// Records the functions of a file, if it is text in a language that can be
    /// parsed.
    pub fn inspect_blob(&mut self, path: &str, data: &[u8])
        ensures
            order::models(final(self).records@) == order::models(old(self).records@) + records_in(
                path@,
                data@,
            ),
    {
        let ghost held = order::models(self.records@);
        proof {
            assert(held + Seq::empty() =~= held);
        }
        if let Some(g) = syntax::grammar_for_path(path) {
            if let Some(source) = blob::as_text(data) {
                if let Some(nodes) = parse(g, source) {
                    proof {
                        assert(syntax::node_models(nodes@).len() == nodes@.len());
                    }
                    self.scan_file(g, path, source, &nodes);
                }
            }
        }
    }

    /// Reports the groups of functions of one shape, and forgets the functions.
    pub fn finalize(&mut self) -> (r: MetricResult)
        ensures
            r@ == clones_report(order::models(old(self).records@)),
            final(self).records@.len() == 0,
    {
        let ghost all = order::models(self.records@);
        let mut list: Vec<FunctionRecord> = Vec::new();
        std::mem::swap(&mut list, &mut self.records);
        let sorted = order::sort_rows(keep_clones(group_by_hash(list)));
        let ghost ranked = order::sort_ranked::<Group>(clone_groups(groups_of(all)));
        proof {
            order::models_of_first_n(sorted@, MAX_GROUPS as int);
        }
        let top = order::keep_first(sorted, MAX_GROUPS);
        let ghost shown = ranked_groups(all);
        proof {
            assert(order::models(top@) == shown);
        }
        let mut entries: Vec<MetricEntry> = Vec::new();
        let mut k: usize = 0;
        for group in it: top
            invariant
                it.seq() == top@,
                order::models(top@) == shown,
                shown == ranked_groups(all),
                top@.len() <= MAX_GROUPS,
                k == it.index(),
                entries@.len() == k,
                forall|q: int|
                    0 <= q < k ==> (#[trigger] entries@[q])@ == group_entry(shown[q], q),
        {
            proof {
                assert(shown[k as int] == group@);
                reported_are_clones(all, k as int);
            }
            entries.push(to_group_entry(group, k));
            k += 1;
        }
        proof {
            assert(types::entry_models(entries@) =~= group_entries(shown));
        }
        let columns = [
            "occurrences",
            "size_lines",
            "other_locations",
        ];
        proof {
            assert(types::str_views(columns@) =~= clone_columns());
        }
        MetricResult::report("clones", &columns, entries)
    }
}

/// The functions that are compared in each language.
pub proof fn functions_are_these(n: NodeModel)
    ensures
        is_fn(Grammar::Rust, n) <==> n.kind == "function_item"@ || n.kind == "closure_expression"@,
        is_fn(Grammar::Python, n) <==> n.kind == "function_definition"@ || n.kind == "lambda"@,
        is_fn(Grammar::TypeScript, n) <==> n.kind == "function_declaration"@ || n.kind == "method_definition"@ || n.kind == "arrow_function"@ || n.kind == "function_expression"@ || n.kind == "generator_function_declaration"@,
        is_fn(Grammar::Java, n) <==> n.kind == "method_declaration"@ || n.kind == "constructor_declaration"@ || n.kind == "lambda_expression"@,
        is_fn(Grammar::Go, n) <==> n.kind == "function_declaration"@ || n.kind == "method_declaration"@ || n.kind == "func_literal"@,
        is_fn(Grammar::JavaScript, n) <==> n.kind == "function_declaration"@ || n.kind == "generator_function_declaration"@ || n.kind == "method_definition"@ || n.kind == "arrow_function"@ || n.kind == "function_expression"@,
        is_fn(Grammar::Kotlin, n) <==> n.kind == "function_declaration"@ || n.kind == "anonymous_function"@ || n.kind == "lambda_literal"@,
        is_fn(Grammar::Dart, n) <==> n.kind == "function_declaration"@ || n.kind == "method_declaration"@ || n.kind == "local_function_declaration"@ || n.kind == "function_expression"@ || n.kind == "lambda_expression"@,
{
    reveal(fn_kinds);
    assert(syntax::kinds_of(fn_kinds(Grammar::Rust))[0] == "function_item"@);
    assert(syntax::kinds_of(fn_kinds(Grammar::Rust))[1] == "closure_expression"@);
    assert(syntax::kinds_of(fn_kinds(Grammar::Python))[0] == "function_definition"@);
    assert(syntax::kinds_of(fn_kinds(Grammar::Python))[1] == "lambda"@);
    assert(syntax::kinds_of(fn_kinds(Grammar::TypeScript))[0] == "function_declaration"@);
    assert(syntax::kinds_of(fn_kinds(Grammar::TypeScript))[1] == "method_definition"@);
    assert(syntax::kinds_of(fn_kinds(Grammar::TypeScript))[2] == "arrow_function"@);
    assert(syntax::kinds_of(fn_kinds(Grammar::TypeScript))[3] == "function_expression"@);
    assert(syntax::kinds_of(fn_kinds(Grammar::TypeScript))[4] == "generator_function_declaration"@);
    assert(syntax::kinds_of(fn_kinds(Grammar::Java))[0] == "method_declaration"@);
    assert(syntax::kinds_of(fn_kinds(Grammar::Java))[1] == "constructor_declaration"@);
    assert(syntax::kinds_of(fn_kinds(Grammar::Java))[2] == "lambda_expression"@);
    assert(syntax::kinds_of(fn_kinds(Grammar::Go))[0] == "function_declaration"@);
    assert(syntax::kinds_of(fn_kinds(Grammar::Go))[1] == "method_declaration"@);
    assert(syntax::kinds_of(fn_kinds(Grammar::Go))[2] == "func_literal"@);
    assert(syntax::kinds_of(fn_kinds(Grammar::JavaScript))[0] == "function_declaration"@);
    assert(syntax::kinds_of(fn_kinds(Grammar::JavaScript))[1] == "generator_function_declaration"@);
    assert(syntax::kinds_of(fn_kinds(Grammar::JavaScript))[2] == "method_definition"@);
    assert(syntax::kinds_of(fn_kinds(Grammar::JavaScript))[3] == "arrow_function"@);
    assert(syntax::kinds_of(fn_kinds(Grammar::JavaScript))[4] == "function_expression"@);
    assert(syntax::kinds_of(fn_kinds(Grammar::Kotlin))[0] == "function_declaration"@);
    assert(syntax::kinds_of(fn_kinds(Grammar::Kotlin))[1] == "anonymous_function"@);
    assert(syntax::kinds_of(fn_kinds(Grammar::Kotlin))[2] == "lambda_literal"@);
    assert(syntax::kinds_of(fn_kinds(Grammar::Dart))[0] == "function_declaration"@);
    assert(syntax::kinds_of(fn_kinds(Grammar::Dart))[1] == "method_declaration"@);
    assert(syntax::kinds_of(fn_kinds(Grammar::Dart))[2] == "local_function_declaration"@);
    assert(syntax::kinds_of(fn_kinds(Grammar::Dart))[3] == "function_expression"@);
    assert(syntax::kinds_of(fn_kinds(Grammar::Dart))[4] == "lambda_expression"@);
}

/// Names and literals, which do not belong to a shape.
pub proof fn names_and_literals_are_these(n: NodeModel)
    ensures
        is_leaf(n) <==> n.kind == "identifier"@
            || n.kind == "property_identifier"@
            || n.kind == "field_identifier"@
            || n.kind == "shorthand_property_identifier"@
            || n.kind == "type_identifier"@
            || n.kind == "scoped_identifier"@
            || n.kind == "integer_literal"@
            || n.kind == "integer"@
            || n.kind == "string_literal"@
            || n.kind == "string"@
            || n.kind == "interpolated_string_literal"@
            || n.kind == "float_literal"@
            || n.kind == "float"@
            || n.kind == "number"@
            || n.kind == "boolean_literal"@
            || n.kind == "true"@
            || n.kind == "false"@
            || n.kind == "char_literal"@
            || n.kind == "character_literal"@
            || n.kind == "none"@
            || n.kind == "null"@
            || n.kind == "nil"@,
{
    reveal(leaf_kinds);
    assert(syntax::kinds_of(leaf_kinds())[0] == "identifier"@);
    assert(syntax::kinds_of(leaf_kinds())[1] == "property_identifier"@);
    assert(syntax::kinds_of(leaf_kinds())[2] == "field_identifier"@);
    assert(syntax::kinds_of(leaf_kinds())[3] == "shorthand_property_identifier"@);
    assert(syntax::kinds_of(leaf_kinds())[4] == "type_identifier"@);
    assert(syntax::kinds_of(leaf_kinds())[5] == "scoped_identifier"@);
    assert(syntax::kinds_of(leaf_kinds())[6] == "integer_literal"@);
    assert(syntax::kinds_of(leaf_kinds())[7] == "integer"@);
    assert(syntax::kinds_of(leaf_kinds())[8] == "string_literal"@);
    assert(syntax::kinds_of(leaf_kinds())[9] == "string"@);
    assert(syntax::kinds_of(leaf_kinds())[10] == "interpolated_string_literal"@);
    assert(syntax::kinds_of(leaf_kinds())[11] == "float_literal"@);
    assert(syntax::kinds_of(leaf_kinds())[12] == "float"@);
    assert(syntax::kinds_of(leaf_kinds())[13] == "number"@);
    assert(syntax::kinds_of(leaf_kinds())[14] == "boolean_literal"@);
    assert(syntax::kinds_of(leaf_kinds())[15] == "true"@);
    assert(syntax::kinds_of(leaf_kinds())[16] == "false"@);
    assert(syntax::kinds_of(leaf_kinds())[17] == "char_literal"@);
    assert(syntax::kinds_of(leaf_kinds())[18] == "character_literal"@);
    assert(syntax::kinds_of(leaf_kinds())[19] == "none"@);
    assert(syntax::kinds_of(leaf_kinds())[20] == "null"@);
    assert(syntax::kinds_of(leaf_kinds())[21] == "nil"@);
}

/// A shape starts with the kind of its node, then tells each part by its kind;
/// names and literals are one sign, functions inside another, comments nothing,
/// and none of these is looked into.
pub proof fn shapes_tell_kinds(g: Grammar, ns: Seq<NodeModel>, j: int, end: int)
    requires
        0 <= j < end <= ns.len(),
    ensures
        ({
            let rest = shape_from(g, ns, syntax::end_of(ns, j), end);
            let n = ns[j];
            &&& is_fn(g, n) ==> shape_from(g, ns, j, end) == seq!["<nested_fn>"@] + rest
            &&& !is_fn(g, n) && complexity::is_comment()(n) ==> shape_from(g, ns, j, end) == rest
            &&& !is_fn(g, n) && !complexity::is_comment()(n) && is_leaf(n) ==> shape_from(
                g,
                ns,
                j,
                end,
            ) == seq!["_"@] + rest
            &&& !is_fn(g, n) && !complexity::is_comment()(n) && !is_leaf(n) ==> shape_from(
                g,
                ns,
                j,
                end,
            ) == seq![n.kind] + shape_from(g, ns, j + 1, end)
        }),
        !complexity::is_comment()(ns[j]) && !is_leaf(ns[j]) ==> shape(g, ns, j) == seq![ns[j].kind]
            + shape_from(g, ns, j + 1, syntax::end_of(ns, j)),
{
}

/// A row is numbered from one and names the function that comes first by file and
/// line; the others are told in that order.
pub proof fn group_rows_name_functions(g: Seq<FunctionRecordModel>, k: int)
    requires
        g.len() >= 2,
    ensures
        ({
            let sorted = order::sort_ranked::<FunctionRecord>(g);
            let others = Seq::new(
                (sorted.len() - 1) as nat,
                |i: int|
                    sorted[i + 1].file + "::"@ + sorted[i + 1].name + ":"@ + text::decimal(
                        sorted[i + 1].start_line as nat,
                    ),
            );
            &&& group_entry(g, k).key == "#"@ + text::decimal((k + 1) as nat) + ": "@ + (
            sorted[0].file + "::"@ + sorted[0].name + ":"@ + text::decimal(
                sorted[0].start_line as nat,
            ))
            &&& group_entry(g, k).values["other_locations"@] == ValueModel::Text(
                text::join(others, " | "@),
            )
        }),
{
    let sorted = order::sort_ranked::<FunctionRecord>(g);
    order::sort_keeps_elements::<FunctionRecord>(g);
    let others = Seq::new(
        (sorted.len() - 1) as nat,
        |i: int|
            sorted[i + 1].file + "::"@ + sorted[i + 1].name + ":"@ + text::decimal(
                sorted[i + 1].start_line as nat,
            ),
    );
    assert(places(sorted.skip(1)) =~= others);
    reveal_strlit("occurrences");
    reveal_strlit("size_lines");
    reveal_strlit("other_locations");
    assert("occurrences"@.len() != "size_lines"@.len());
    assert("occurrences"@.len() != "other_locations"@.len());
    assert("size_lines"@.len() != "other_locations"@.len());
}

/// The report has these columns, in this order.
pub proof fn the_columns_are_these(s: Seq<FunctionRecordModel>)
    ensures
        clones_report(s).name == "clones"@,
        clones_report(s).columns.len() == 3,
        clones_report(s).columns[0].value == "occurrences"@,
        clones_report(s).columns[1].value == "size_lines"@,
        clones_report(s).columns[2].value == "other_locations"@,
{
}

/// The limits that hold here.
pub proof fn the_limits_are_these()
    ensures
        MIN_CLONE_LINES == 10,
        MAX_GROUPS == 100,
{
}

/// A function is named by the child in the field for names, or else by that of a
/// signature among its children.
pub proof fn functions_are_named(ns: Seq<NodeModel>, source: Seq<char>, i: int)
    ensures
        ({
            let own = syntax::first_child(ns, syntax::has_field("name"@), i);
            let signature = syntax::first_child(ns, is_signature_node(), i);
            &&& own matches Some(c) ==> name_of_fn(ns, source, i) == syntax::node_name(source, ns[c])
            &&& own is None && signature is Some ==> (syntax::first_child(
                ns,
                syntax::has_field("name"@),
                signature->0,
            ) matches Some(c) ==> name_of_fn(ns, source, i) == syntax::node_name(source, ns[c]))
            &&& own is None && signature is None ==> name_of_fn(ns, source, i) is None
        }),
        forall|n: NodeModel| #[trigger]
            is_signature_node()(n) <==> "_signature"@.is_suffix_of(n.kind),
        forall|n: NodeModel| #[trigger] syntax::has_field("name"@)(n) <==> n.field == Some("name"@),
{
}

/// The functions of a file are those of its parsed text; other files have none.
pub proof fn only_parsed_text_is_compared(path: Seq<char>, data: Seq<u8>)
    ensures
        syntax::grammar_of(path) is None ==> records_in(path, data).len() == 0,
        blob::text_of(data) is None ==> records_in(path, data).len() == 0,
        syntax::grammar_of(path) is Some && blob::text_of(data) is Some ==> match syntax::parsed(
            syntax::grammar_of(path)->0,
            blob::text_of(data)->0,
        ) {
            Some(ns) => records_in(path, data) == records_of(
                syntax::grammar_of(path)->0,
                path,
                blob::text_of(data)->0,
                ns,
                ns.len() as int,
            ),
            None => records_in(path, data).len() == 0,
        },
{
}

} // verus!
