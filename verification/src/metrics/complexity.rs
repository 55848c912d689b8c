//! How complex each function is.

use vstd::prelude::*;

use crate::analysis::line_classifier;
use crate::analysis::line_classifier::{classify_line, classify_with, CommentState, LineType};
use crate::blob;
use crate::fold;
use crate::langs::data;
use crate::langs::data::Language;
use crate::langs::facts;
use crate::langs::scoring;
use crate::langs::scoring::language_matchers;
use crate::messages;
use crate::order;
use crate::order::Ranked;
use crate::report;
use crate::report::Row;
use crate::syntax;
use crate::syntax::{
    is_kind, line_of_row, name_of_node, parent_of, parse, Grammar, NodeModel, SyntaxNode,
};
use crate::table;
use crate::table::TextMap;
use crate::tally;
use crate::text;
use crate::types;
use crate::types::{EntryModel, LocalizedMessage, MessageModel, MetricEntry, MetricResult, MetricValue, ResultModel, Severity, ValueModel, Values};

verus! {

/// The kinds of nodes that count in a language.
#[derive(Debug, Clone, Copy)]
pub struct LangSpec {
    pub grammar: Grammar,
    pub function_kinds: &'static [&'static str],
    /// What adds a path through a function.
    pub decision_kinds: &'static [&'static str],
    /// What leaves a function.
    pub exit_kinds: &'static [&'static str],
}

/// The kinds that count in each language; none where functions are not
/// measured.
#[verifier::opaque]
pub open spec fn lang_spec(g: Grammar) -> LangSpec {
    match g {
        Grammar::Rust => LangSpec {
            grammar: Grammar::Rust,
            function_kinds: &["function_item", "closure_expression"],
            decision_kinds: &["if_expression", "match_arm", "while_expression", "loop_expression", "for_expression", "try_expression"],
            exit_kinds: &["return_expression"],
        },
        Grammar::Python => LangSpec {
            grammar: Grammar::Python,
            function_kinds: &["function_definition", "lambda"],
            decision_kinds: &["if_statement", "elif_clause", "while_statement", "for_statement", "except_clause", "case_clause", "conditional_expression"],
            exit_kinds: &["return_statement"],
        },
        Grammar::TypeScript => LangSpec {
            grammar: Grammar::TypeScript,
            function_kinds: &["function_declaration", "method_definition", "arrow_function", "function_expression", "generator_function_declaration"],
            decision_kinds: &["if_statement", "while_statement", "do_statement", "for_statement", "for_in_statement", "switch_case", "catch_clause", "ternary_expression"],
            exit_kinds: &["return_statement"],
        },
        Grammar::Java => LangSpec {
            grammar: Grammar::Java,
            function_kinds: &["method_declaration", "constructor_declaration", "lambda_expression"],
            decision_kinds: &["if_statement", "while_statement", "do_statement", "for_statement", "enhanced_for_statement", "switch_label", "catch_clause", "ternary_expression"],
            exit_kinds: &["return_statement"],
        },
        Grammar::Go => LangSpec {
            grammar: Grammar::Go,
            function_kinds: &["function_declaration", "method_declaration", "func_literal"],
            decision_kinds: &["if_statement", "for_statement", "expression_case", "default_case", "type_case", "communication_case"],
            exit_kinds: &["return_statement"],
        },
        Grammar::JavaScript => LangSpec {
            grammar: Grammar::JavaScript,
            function_kinds: &["function_declaration", "generator_function_declaration", "method_definition", "arrow_function", "function_expression"],
            decision_kinds: &["if_statement", "while_statement", "do_statement", "for_statement", "for_in_statement", "switch_case", "catch_clause", "ternary_expression"],
            exit_kinds: &["return_statement"],
        },
        Grammar::Kotlin => LangSpec {
            grammar: Grammar::Kotlin,
            function_kinds: &["function_declaration", "anonymous_function", "lambda_literal"],
            decision_kinds: &["if_expression", "when_entry", "while_statement", "do_while_statement", "for_statement", "catch_block"],
            exit_kinds: &["jump_expression"],
        },
        Grammar::Dart => LangSpec {
            grammar: Grammar::Dart,
            function_kinds: &["function_signature", "method_signature", "function_expression", "lambda_expression"],
            decision_kinds: &["if_statement", "while_statement", "do_statement", "for_statement", "switch_statement_case", "switch_expression_case", "catch_clause", "conditional_expression"],
            exit_kinds: &["return_statement"],
        },
        _ => LangSpec { grammar: g, function_kinds: &[], decision_kinds: &[], exit_kinds: &[] },
    }
}

/// The kinds that count in a language.
pub fn spec_of(g: Grammar) -> (r: LangSpec)
    ensures
        r == lang_spec(g),
{
    proof {
        reveal(lang_spec);
    }
    match g {
        Grammar::Rust => LangSpec {
            grammar: Grammar::Rust,
            function_kinds: &["function_item", "closure_expression"],
            decision_kinds: &["if_expression", "match_arm", "while_expression", "loop_expression", "for_expression", "try_expression"],
            exit_kinds: &["return_expression"],
        },
        Grammar::Python => LangSpec {
            grammar: Grammar::Python,
            function_kinds: &["function_definition", "lambda"],
            decision_kinds: &["if_statement", "elif_clause", "while_statement", "for_statement", "except_clause", "case_clause", "conditional_expression"],
            exit_kinds: &["return_statement"],
        },
        Grammar::TypeScript => LangSpec {
            grammar: Grammar::TypeScript,
            function_kinds: &["function_declaration", "method_definition", "arrow_function", "function_expression", "generator_function_declaration"],
            decision_kinds: &["if_statement", "while_statement", "do_statement", "for_statement", "for_in_statement", "switch_case", "catch_clause", "ternary_expression"],
            exit_kinds: &["return_statement"],
        },
        Grammar::Java => LangSpec {
            grammar: Grammar::Java,
            function_kinds: &["method_declaration", "constructor_declaration", "lambda_expression"],
            decision_kinds: &["if_statement", "while_statement", "do_statement", "for_statement", "enhanced_for_statement", "switch_label", "catch_clause", "ternary_expression"],
            exit_kinds: &["return_statement"],
        },
        Grammar::Go => LangSpec {
            grammar: Grammar::Go,
            function_kinds: &["function_declaration", "method_declaration", "func_literal"],
            decision_kinds: &["if_statement", "for_statement", "expression_case", "default_case", "type_case", "communication_case"],
            exit_kinds: &["return_statement"],
        },
        Grammar::JavaScript => LangSpec {
            grammar: Grammar::JavaScript,
            function_kinds: &["function_declaration", "generator_function_declaration", "method_definition", "arrow_function", "function_expression"],
            decision_kinds: &["if_statement", "while_statement", "do_statement", "for_statement", "for_in_statement", "switch_case", "catch_clause", "ternary_expression"],
            exit_kinds: &["return_statement"],
        },
        Grammar::Kotlin => LangSpec {
            grammar: Grammar::Kotlin,
            function_kinds: &["function_declaration", "anonymous_function", "lambda_literal"],
            decision_kinds: &["if_expression", "when_entry", "while_statement", "do_while_statement", "for_statement", "catch_block"],
            exit_kinds: &["jump_expression"],
        },
        Grammar::Dart => LangSpec {
            grammar: Grammar::Dart,
            function_kinds: &["function_signature", "method_signature", "function_expression", "lambda_expression"],
            decision_kinds: &["if_statement", "while_statement", "do_statement", "for_statement", "switch_statement_case", "switch_expression_case", "catch_clause", "conditional_expression"],
            exit_kinds: &["return_statement"],
        },
        _ => LangSpec { grammar: g, function_kinds: &[], decision_kinds: &[], exit_kinds: &[] },
    }
}

/// The kinds that count in a file.
pub fn spec_for_path(path: &str) -> (r: Option<LangSpec>)
    ensures
        match r {
            Some(s) => syntax::grammar_of(path@) matches Some(g) && s == lang_spec(g),
            None => syntax::grammar_of(path@) is None,
        },
{
    match syntax::grammar_for_path(path) {
        Some(g) => Some(spec_of(g)),
        None => None,
    }
}

impl LangSpec {
    pub open spec fn is_function(self) -> spec_fn(NodeModel) -> bool {
        |n: NodeModel| syntax::kinds_of(self.function_kinds).contains(n.kind)
    }

    pub open spec fn is_decision(self) -> spec_fn(NodeModel) -> bool {
        |n: NodeModel| syntax::kinds_of(self.decision_kinds).contains(n.kind)
    }

    pub open spec fn is_exit(self) -> spec_fn(NodeModel) -> bool {
        |n: NodeModel| syntax::kinds_of(self.exit_kinds).contains(n.kind)
    }
}

// ---------------------------------------------------------------------------
// What counts inside a function
// ---------------------------------------------------------------------------

/// How many nodes from `j` to `end` have the property, where nodes that are to
/// be skipped are passed over with all below them.
pub open spec fn count_own(
    ns: Seq<NodeModel>,
    skip: spec_fn(NodeModel) -> bool,
    want: spec_fn(NodeModel) -> bool,
    j: int,
    end: int,
) -> nat
    decreases ns.len() - j,
{
    if j < 0 || j >= end || j >= ns.len() {
        0
    } else if skip(ns[j]) {
        proof {
            syntax::lemma_end_of(ns, j);
        }
        count_own(ns, skip, want, syntax::end_of(ns, j), end)
    } else {
        (if want(ns[j]) {
            1nat
        } else {
            0nat
        }) + count_own(ns, skip, want, j + 1, end)
    }
}

proof fn lemma_count_own_bound(
    ns: Seq<NodeModel>,
    skip: spec_fn(NodeModel) -> bool,
    want: spec_fn(NodeModel) -> bool,
    j: int,
    end: int,
)
    ensures
        j <= end ==> count_own(ns, skip, want, j, end) <= end - j,
        j > end ==> count_own(ns, skip, want, j, end) == 0,
    decreases ns.len() - j,
{
    if !(j < 0 || j >= end || j >= ns.len()) {
        syntax::lemma_end_of(ns, j);
        if skip(ns[j]) {
            lemma_count_own_bound(ns, skip, want, syntax::end_of(ns, j), end);
        } else {
            lemma_count_own_bound(ns, skip, want, j + 1, end);
        }
    }
}

/// The weight of the decisions from `j` to `end`, where `depth` decisions
/// enclose them all: each weighs one more than the number of decisions around
/// it. Nested functions are passed over.
pub open spec fn weigh_own(
    ns: Seq<NodeModel>,
    skip: spec_fn(NodeModel) -> bool,
    decision: spec_fn(NodeModel) -> bool,
    j: int,
    end: int,
    depth: int,
) -> int
    decreases ns.len() - j,
{
    if j < 0 || j >= end || j >= ns.len() {
        0
    } else {
        proof {
            syntax::lemma_end_of(ns, j);
        }
        let below = syntax::end_of(ns, j);
        if skip(ns[j]) {
            weigh_own(ns, skip, decision, below, end, depth)
        } else if decision(ns[j]) {
            1 + depth + weigh_own(ns, skip, decision, j + 1, below, depth + 1) + weigh_own(
                ns,
                skip,
                decision,
                below,
                end,
                depth,
            )
        } else {
            weigh_own(ns, skip, decision, j + 1, end, depth)
        }
    }
}

/// The nodes below node `i`, nested functions apart.
pub open spec fn own_count(
    ns: Seq<NodeModel>,
    spec: LangSpec,
    want: spec_fn(NodeModel) -> bool,
    i: int,
) -> nat {
    count_own(ns, spec.is_function(), want, i + 1, syntax::end_of(ns, i))
}

/// One for the function and one for each decision in it.
pub open spec fn cyclomatic(ns: Seq<NodeModel>, spec: LangSpec, i: int) -> int {
    1 + own_count(ns, spec, spec.is_decision(), i) as int
}

pub open spec fn capped(n: int) -> int {
    if n > u32::MAX {
        u32::MAX as int
    } else {
        n
    }
}

/// The decisions weighed by how deep they nest, but at most the largest 32-bit
/// number.
pub open spec fn cognitive(ns: Seq<NodeModel>, spec: LangSpec, i: int) -> int {
    capped(
        weigh_own(
            ns,
            spec.is_function(),
            spec.is_decision(),
            i + 1,
            syntax::end_of(ns, i),
            0,
        ),
    )
}

proof fn lemma_weight_covers_count(
    ns: Seq<NodeModel>,
    skip: spec_fn(NodeModel) -> bool,
    decision: spec_fn(NodeModel) -> bool,
    j: int,
    end: int,
    depth: int,
)
    requires
        depth >= 0,
        end <= ns.len(),
        forall|k: int| j <= k < end && 0 <= k ==> #[trigger] syntax::end_of(ns, k) <= end,
    ensures
        weigh_own(ns, skip, decision, j, end, depth) >= count_own(ns, skip, decision, j, end),
    decreases ns.len() - j,
{
    if !(j < 0 || j >= end || j >= ns.len()) {
        syntax::lemma_end_of(ns, j);
        let below = syntax::end_of(ns, j);
        assert(below <= end);
        if skip(ns[j]) {
            lemma_weight_covers_count(ns, skip, decision, below, end, depth);
        } else if decision(ns[j]) {
            assert forall|k: int| j + 1 <= k < below && 0 <= k implies #[trigger] syntax::end_of(
                ns,
                k,
            ) <= below by {
                syntax::lemma_ends_nest(ns, j, k);
            }
            lemma_weight_covers_count(ns, skip, decision, j + 1, below, depth + 1);
            lemma_weight_covers_count(ns, skip, decision, below, end, depth);
            lemma_count_splits(ns, skip, decision, j + 1, below, end);
        } else {
            lemma_weight_covers_count(ns, skip, decision, j + 1, end, depth);
        }
    }
}

proof fn lemma_count_splits(
    ns: Seq<NodeModel>,
    skip: spec_fn(NodeModel) -> bool,
    want: spec_fn(NodeModel) -> bool,
    j: int,
    mid: int,
    end: int,
)
    requires
        0 <= j <= mid <= end <= ns.len(),
        forall|k: int| j <= k < mid ==> #[trigger] syntax::end_of(ns, k) <= mid,
    ensures
        count_own(ns, skip, want, j, end) == count_own(ns, skip, want, j, mid) + count_own(
            ns,
            skip,
            want,
            mid,
            end,
        ),
    decreases mid - j,
{
    if j < mid {
        syntax::lemma_end_of(ns, j);
        let below = syntax::end_of(ns, j);
        assert(below <= mid);
        if skip(ns[j]) {
            lemma_count_splits(ns, skip, want, below, mid, end);
        } else {
            lemma_count_splits(ns, skip, want, j + 1, mid, end);
        }
    }
}

fn count_kinds(
    nodes: &[SyntaxNode],
    ends: &[usize],
    spec: &LangSpec,
    kinds: &'static [&'static str],
    i: usize,
) -> (r: u64)
    requires
        syntax::are_ends(ends@, syntax::node_models(nodes@)),
        i < nodes@.len(),
    ensures
        r == own_count(
            syntax::node_models(nodes@),
            *spec,
            |n: NodeModel| syntax::kinds_of(kinds).contains(n.kind),
            i as int,
        ),
        r < nodes@.len(),
{
    let ghost ns = syntax::node_models(nodes@);
    let ghost skip = spec.is_function();
    let ghost want = |n: NodeModel| syntax::kinds_of(kinds).contains(n.kind);
    let end: usize = ends[i];
    let mut count: u64 = 0;
    let mut j: usize = i + 1;
    proof {
        syntax::lemma_end_of(ns, i as int);
    }
    while j < end
        invariant
            ns == syntax::node_models(nodes@),
            syntax::are_ends(ends@, ns),
            skip == spec.is_function(),
            want == (|n: NodeModel| syntax::kinds_of(kinds).contains(n.kind)),
            i < j,
            i < nodes@.len(),
            end == syntax::end_of(ns, i as int),
            end <= nodes@.len(),
            j <= nodes@.len(),
            count < j,
            count + count_own(ns, skip, want, j as int, end as int) == own_count(
                ns,
                *spec,
                want,
                i as int,
            ),
        decreases nodes@.len() - j,
    {
        proof {
            assert(ns[j as int] == nodes@[j as int]@);
            syntax::lemma_end_of(ns, j as int);
        }
        if is_kind(&nodes[j], spec.function_kinds) {
            j = ends[j];
        } else {
            if is_kind(&nodes[j], kinds) {
                count += 1;
            }
            j += 1;
        }
    }
    proof {
        assert(count_own(ns, skip, want, j as int, end as int) == 0);
        lemma_count_own_bound(ns, skip, want, i + 1, end as int);
    }
    count
}

/// What is left to weigh when the decisions that end at `open` are around place
/// `j`, the outermost first.
spec fn weight_left(
    ns: Seq<NodeModel>,
    skip: spec_fn(NodeModel) -> bool,
    decision: spec_fn(NodeModel) -> bool,
    j: int,
    open: Seq<usize>,
    end: int,
) -> int
    decreases open.len(),
{
    if open.len() == 0 {
        weigh_own(ns, skip, decision, j, end, 0)
    } else {
        weigh_own(ns, skip, decision, j, open.last() as int, open.len() as int) + weight_left(
            ns,
            skip,
            decision,
            open.last() as int,
            open.drop_last(),
            end,
        )
    }
}

/// The ends of the enclosing decisions grow outward.
spec fn is_nested(open: Seq<usize>, end: int) -> bool {
    &&& forall|a: int, b: int| 0 <= a < b < open.len() ==> #[trigger] open[a] >= #[trigger] open[b]
    &&& forall|a: int| 0 <= a < open.len() ==> #[trigger] open[a] <= end
}

proof fn lemma_weigh_past(
    ns: Seq<NodeModel>,
    skip: spec_fn(NodeModel) -> bool,
    decision: spec_fn(NodeModel) -> bool,
    j: int,
    end: int,
    depth: int,
)
    requires
        j >= end,
    ensures
        weigh_own(ns, skip, decision, j, end, depth) == 0,
{
}

proof fn lemma_weigh_nonnegative(
    ns: Seq<NodeModel>,
    skip: spec_fn(NodeModel) -> bool,
    decision: spec_fn(NodeModel) -> bool,
    j: int,
    end: int,
    depth: int,
)
    requires
        depth >= 0,
    ensures
        weigh_own(ns, skip, decision, j, end, depth) >= 0,
    decreases ns.len() - j,
{
    if !(j < 0 || j >= end || j >= ns.len()) {
        syntax::lemma_end_of(ns, j);
        let below = syntax::end_of(ns, j);
        if skip(ns[j]) {
            lemma_weigh_nonnegative(ns, skip, decision, below, end, depth);
        } else if decision(ns[j]) {
            lemma_weigh_nonnegative(ns, skip, decision, j + 1, below, depth + 1);
            lemma_weigh_nonnegative(ns, skip, decision, below, end, depth);
        } else {
            lemma_weigh_nonnegative(ns, skip, decision, j + 1, end, depth);
        }
    }
}

proof fn lemma_weight_left_nonnegative(
    ns: Seq<NodeModel>,
    skip: spec_fn(NodeModel) -> bool,
    decision: spec_fn(NodeModel) -> bool,
    j: int,
    open: Seq<usize>,
    end: int,
)
    ensures
        weight_left(ns, skip, decision, j, open, end) >= 0,
    decreases open.len(),
{
    if open.len() == 0 {
        lemma_weigh_nonnegative(ns, skip, decision, j, end, 0);
    } else {
        lemma_weigh_nonnegative(ns, skip, decision, j, open.last() as int, open.len() as int);
        lemma_weight_left_nonnegative(
            ns,
            skip,
            decision,
            open.last() as int,
            open.drop_last(),
            end,
        );
    }
}

/// No node from `j` on reaches beyond the end of a decision around it.
spec fn is_closed(ns: Seq<NodeModel>, open: Seq<usize>, j: int) -> bool {
    forall|a: int, k: int|
        0 <= a < open.len() && j <= k < open[a] ==> #[trigger] syntax::end_of(ns, k)
            <= #[trigger] open[a]
}

/// The decisions of a function, weighed by how deep they nest.
fn weigh_decisions(nodes: &[SyntaxNode], ends: &[usize], spec: &LangSpec, i: usize) -> (r: u64)
    requires
        syntax::are_ends(ends@, syntax::node_models(nodes@)),
        i < nodes@.len(),
    ensures
        r == cognitive(syntax::node_models(nodes@), *spec, i as int),
{
    let ghost ns = syntax::node_models(nodes@);
    let ghost skip = spec.is_function();
    let ghost decision = spec.is_decision();
    let size: usize = nodes.len();
    let end: usize = ends[i];
    let mut total: u64 = 0;
    let mut open: Vec<usize> = Vec::new();
    let mut j: usize = i + 1;
    let ghost whole = weigh_own(ns, skip, decision, i + 1, end as int, 0);
    let ghost mut exact: int = 0;
    proof {
        syntax::lemma_end_of(ns, i as int);
    }
    while j < end || open.len() > 0
        invariant
            ns == syntax::node_models(nodes@),
            syntax::are_ends(ends@, ns),
            skip == spec.is_function(),
            decision == spec.is_decision(),
            i < j,
            size == nodes@.len(),
            i < nodes@.len(),
            end == syntax::end_of(ns, i as int),
            end <= nodes@.len(),
            j <= end,
            is_nested(open@, end as int),
            is_closed(ns, open@, j as int),
            open@.len() > 0 ==> j <= open@.last(),
            open@.len() < j,
            total == capped(exact),
            exact >= 0,
            exact + weight_left(ns, skip, decision, j as int, open@, end as int) == whole,
        decreases nodes@.len() - j, open@.len(),
    {
        let depth: usize = open.len();
        if depth > 0 && open[depth - 1] == j {
            proof {
                lemma_weigh_past(ns, skip, decision, j as int, open@.last() as int, depth as int);
                lemma_popped(ns, open@, j as int, end as int);
            }
            let _ = open.pop();
        } else {
            proof {
                assert(ns[j as int] == nodes@[j as int]@);
                syntax::lemma_end_of(ns, j as int);
                syntax::lemma_ends_nest(ns, i as int, j as int);
                if depth > 0 {
                    assert(open@[depth - 1] <= end);
                    assert(syntax::end_of(ns, j as int) <= open@[depth - 1]);
                }
                lemma_left_step(ns, skip, decision, j as int, open@, end as int);
            }
            let below: usize = ends[j];
            if is_kind(&nodes[j], spec.function_kinds) {
                j = below;
            } else if is_kind(&nodes[j], spec.decision_kinds) {
                let more: u64 = 1 + depth as u64;
                proof {
                    lemma_weight_left_nonnegative(
                        ns,
                        skip,
                        decision,
                        j + 1,
                        open@.push(below),
                        end as int,
                    );
                    lemma_pushed(ns, open@, j as int, end as int);
                    exact = exact + more;
                }
                total = if total as u128 + more as u128 > u32::MAX as u128 {
                    u32::MAX as u64
                } else {
                    total + more
                };
                open.push(below);
                j += 1;
            } else {
                j += 1;
            }
        }
    }
    total
}

/// How what is left to weigh changes from place `j` to the next.
proof fn lemma_left_step(
    ns: Seq<NodeModel>,
    skip: spec_fn(NodeModel) -> bool,
    decision: spec_fn(NodeModel) -> bool,
    j: int,
    open: Seq<usize>,
    end: int,
)
    requires
        0 <= j < ns.len() <= usize::MAX,
        j < end,
        open.len() > 0 ==> j < open.last(),
    ensures
        ({
            let below = syntax::end_of(ns, j);
            let left = weight_left(ns, skip, decision, j, open, end);
            &&& skip(ns[j]) ==> left == weight_left(ns, skip, decision, below, open, end)
            &&& !skip(ns[j]) && decision(ns[j]) ==> left == 1 + open.len() + weight_left(
                ns,
                skip,
                decision,
                j + 1,
                open.push(below as usize),
                end,
            )
            &&& !skip(ns[j]) && !decision(ns[j]) ==> left == weight_left(
                ns,
                skip,
                decision,
                j + 1,
                open,
                end,
            )
        }),
{
    syntax::lemma_end_of(ns, j);
    let below = syntax::end_of(ns, j);
    let wider = open.push(below as usize);
    assert(wider.drop_last() =~= open);
    assert(weight_left(ns, skip, decision, j + 1, wider, end) == weigh_own(
        ns,
        skip,
        decision,
        j + 1,
        below,
        open.len() as int + 1,
    ) + weight_left(ns, skip, decision, below, open, end));
}

proof fn lemma_popped(ns: Seq<NodeModel>, open: Seq<usize>, j: int, end: int)
    requires
        open.len() > 0,
        is_nested(open, end),
        is_closed(ns, open, j),
        j == open.last(),
    ensures
        is_nested(open.drop_last(), end),
        is_closed(ns, open.drop_last(), j),
        open.len() > 1 ==> j <= open.drop_last().last(),
        j <= end,
{
    let outer = open.drop_last();
    assert forall|a: int, b: int| 0 <= a < b < outer.len() implies #[trigger] outer[a]
        >= #[trigger] outer[b] by {
        assert(open[a] >= open[b]);
    }
    assert forall|a: int| 0 <= a < outer.len() implies #[trigger] outer[a] <= end by {
        assert(open[a] <= end);
    }
    assert forall|a: int, k: int| 0 <= a < outer.len() && j <= k < outer[a] implies
        #[trigger] syntax::end_of(ns, k) <= #[trigger] outer[a] by {
        assert(syntax::end_of(ns, k) <= open[a]);
    }
    assert(open[open.len() - 1] <= end);
    if open.len() > 1 {
        assert(open[open.len() - 2] >= open[open.len() - 1]);
    }
}

proof fn lemma_pushed(ns: Seq<NodeModel>, open: Seq<usize>, j: int, end: int)
    requires
        0 <= j < ns.len(),
        ns.len() <= usize::MAX,
        is_nested(open, end),
        is_closed(ns, open, j),
        open.len() > 0 ==> syntax::end_of(ns, j) <= open.last(),
        syntax::end_of(ns, j) <= end,
    ensures
        is_nested(open.push(syntax::end_of(ns, j) as usize), end),
        is_closed(ns, open.push(syntax::end_of(ns, j) as usize), j + 1),
        j + 1 <= syntax::end_of(ns, j),
{
    syntax::lemma_end_of(ns, j);
    let below = syntax::end_of(ns, j) as usize;
    let wider = open.push(below);
    assert forall|a: int, b: int| 0 <= a < b < wider.len() implies #[trigger] wider[a]
        >= #[trigger] wider[b] by {
        if b < open.len() {
            assert(open[a] >= open[b]);
        } else if a < open.len() - 1 {
            assert(open[a] >= open[open.len() - 1]);
        }
    }
    assert forall|a: int| 0 <= a < wider.len() implies #[trigger] wider[a] <= end by {
        if a < open.len() {
            assert(open[a] <= end);
        }
    }
    assert forall|a: int, k: int| 0 <= a < wider.len() && j + 1 <= k < wider[a] implies
        #[trigger] syntax::end_of(ns, k) <= #[trigger] wider[a] by {
        if a < open.len() {
            assert(syntax::end_of(ns, k) <= open[a]);
        } else {
            syntax::lemma_ends_nest(ns, j, k);
        }
    }
}

/// The decisions of a function weigh at least as much as they are many.
pub proof fn cognitive_covers_decisions(ns: Seq<NodeModel>, spec: LangSpec, i: int)
    requires
        0 <= i < ns.len(),
    ensures
        cognitive(ns, spec, i) >= capped(cyclomatic(ns, spec, i) - 1),
{
    let end = syntax::end_of(ns, i);
    syntax::lemma_end_of(ns, i);
    assert forall|k: int| i + 1 <= k < end && 0 <= k implies #[trigger] syntax::end_of(ns, k)
        <= end by {
        syntax::lemma_ends_nest(ns, i, k);
    }
    lemma_weight_covers_count(ns, spec.is_function(), spec.is_decision(), i + 1, end, 0);
}

// ---------------------------------------------------------------------------
// What the counts are counts of
// ---------------------------------------------------------------------------

/// The sum of `f` over the places from `a` up to `b`.
pub open spec fn sum_over(f: spec_fn(int) -> int, a: int, b: int) -> int
    decreases b - a,
{
    if a >= b {
        0
    } else {
        f(a) + sum_over(f, a + 1, b)
    }
}

/// Node `j`, below node `i`, is a nested function or stands in one.
pub open spec fn is_in_nested_function(
    ns: Seq<NodeModel>,
    spec: LangSpec,
    i: int,
    j: int,
) -> bool {
    exists|k: int|
        i < k <= j && j < syntax::end_of(ns, k) && spec.is_function()(#[trigger] ns[k])
}

/// One for each node below node `i` with the property, nested functions apart.
pub open spec fn own_marks(
    ns: Seq<NodeModel>,
    spec: LangSpec,
    want: spec_fn(NodeModel) -> bool,
    i: int,
) -> spec_fn(int) -> int {
    |j: int|
        if want(ns[j]) && !is_in_nested_function(ns, spec, i, j) {
            1int
        } else {
            0
        }
}

/// One for each decision from `from` on that node `j` stands in.
pub open spec fn around_marks(ns: Seq<NodeModel>, spec: LangSpec, j: int) -> spec_fn(int) -> int {
    |k: int|
        if spec.is_decision()(ns[k]) && j < syntax::end_of(ns, k) {
            1int
        } else {
            0
        }
}

/// For each decision below node `i`, nested functions apart: one, and one more
/// for each decision from `from` on that it stands in, and `depth`.
pub open spec fn own_weights(
    ns: Seq<NodeModel>,
    spec: LangSpec,
    i: int,
    from: int,
    depth: int,
) -> spec_fn(int) -> int {
    |j: int|
        if spec.is_decision()(ns[j]) && !is_in_nested_function(ns, spec, i, j) {
            1 + depth + sum_over(around_marks(ns, spec, j), from, j)
        } else {
            0
        }
}

proof fn lemma_sum_same(f: spec_fn(int) -> int, g: spec_fn(int) -> int, a: int, b: int)
    requires
        forall|j: int| a <= j < b ==> #[trigger] f(j) == g(j),
    ensures
        sum_over(f, a, b) == sum_over(g, a, b),
    decreases b - a,
{
    if a < b {
        lemma_sum_same(f, g, a + 1, b);
    }
}

proof fn lemma_sum_nothing(f: spec_fn(int) -> int, a: int, b: int)
    requires
        forall|j: int| a <= j < b ==> #[trigger] f(j) == 0,
    ensures
        sum_over(f, a, b) == 0,
    decreases b - a,
{
    if a < b {
        lemma_sum_nothing(f, a + 1, b);
    }
}

proof fn lemma_sum_split(f: spec_fn(int) -> int, a: int, m: int, b: int)
    requires
        a <= m <= b,
    ensures
        sum_over(f, a, b) == sum_over(f, a, m) + sum_over(f, m, b),
    decreases m - a,
{
    if a < m {
        lemma_sum_split(f, a + 1, m, b);
    }
}

/// No nested function is open at place `j`.
spec fn is_outside(ns: Seq<NodeModel>, spec: LangSpec, i: int, j: int) -> bool {
    forall|k: int|
        i < k < j && spec.is_function()(#[trigger] ns[k]) ==> syntax::end_of(ns, k) <= j
}

proof fn lemma_outside_after(ns: Seq<NodeModel>, spec: LangSpec, i: int, j: int)
    requires
        0 <= i < j < ns.len(),
        is_outside(ns, spec, i, j),
    ensures
        is_outside(ns, spec, i, syntax::end_of(ns, j)),
        j < syntax::end_of(ns, j) <= ns.len(),
        spec.is_function()(ns[j]) ==> forall|m: int|
            j <= m < syntax::end_of(ns, j) ==> is_in_nested_function(ns, spec, i, m),
        !spec.is_function()(ns[j]) ==> is_outside(ns, spec, i, j + 1) && !is_in_nested_function(
            ns,
            spec,
            i,
            j,
        ),
{
    syntax::lemma_end_of(ns, j);
    let below = syntax::end_of(ns, j);
    assert forall|k: int| i < k < below && spec.is_function()(#[trigger] ns[k]) implies syntax::end_of(
        ns,
        k,
    ) <= below by {
        if k > j {
            syntax::lemma_ends_nest(ns, j, k);
        }
    }
    if spec.is_function()(ns[j]) {
        assert forall|m: int| j <= m < below implies is_in_nested_function(ns, spec, i, m) by {
            assert(i < j <= m && m < syntax::end_of(ns, j) && spec.is_function()(ns[j]));
        }
    }
}

proof fn lemma_count_is_sum(
    ns: Seq<NodeModel>,
    spec: LangSpec,
    want: spec_fn(NodeModel) -> bool,
    i: int,
    j: int,
    end: int,
)
    requires
        0 <= i < j,
        end <= ns.len(),
        is_outside(ns, spec, i, j),
        forall|k: int| j <= k < end ==> #[trigger] syntax::end_of(ns, k) <= end,
    ensures
        count_own(ns, spec.is_function(), want, j, end) == sum_over(
            own_marks(ns, spec, want, i),
            j,
            end,
        ),
    decreases ns.len() - j,
{
    let f = own_marks(ns, spec, want, i);
    if j < end {
        lemma_outside_after(ns, spec, i, j);
        let below = syntax::end_of(ns, j);
        if spec.is_function()(ns[j]) {
            lemma_sum_nothing(f, j, below);
            lemma_sum_split(f, j, below, end);
            lemma_count_is_sum(ns, spec, want, i, below, end);
        } else {
            lemma_count_is_sum(ns, spec, want, i, j + 1, end);
        }
    }
}

proof fn lemma_closed_below(ns: Seq<NodeModel>, i: int)
    requires
        0 <= i < ns.len(),
    ensures
        i < syntax::end_of(ns, i) <= ns.len(),
        forall|k: int|
            i < k < syntax::end_of(ns, i) ==> #[trigger] syntax::end_of(ns, k) <= syntax::end_of(
                ns,
                i,
            ),
{
    syntax::lemma_end_of(ns, i);
    assert forall|k: int| i < k < syntax::end_of(ns, i) implies #[trigger] syntax::end_of(ns, k)
        <= syntax::end_of(ns, i) by {
        syntax::lemma_ends_nest(ns, i, k);
    }
}

/// The cyclomatic complexity of a function is one more than the number of
/// decisions below it, those in nested functions apart.
pub proof fn cyclomatic_counts_decisions(ns: Seq<NodeModel>, spec: LangSpec, i: int)
    requires
        0 <= i < ns.len(),
    ensures
        cyclomatic(ns, spec, i) == 1 + sum_over(
            own_marks(ns, spec, spec.is_decision(), i),
            i + 1,
            syntax::end_of(ns, i),
        ),
{
    lemma_closed_below(ns, i);
    lemma_count_is_sum(ns, spec, spec.is_decision(), i, i + 1, syntax::end_of(ns, i));
}

/// The exits of a function are the nodes below it that leave it, those in
/// nested functions apart.
pub proof fn exits_are_counted(ns: Seq<NodeModel>, spec: LangSpec, i: int)
    requires
        0 <= i < ns.len(),
    ensures
        own_count(ns, spec, spec.is_exit(), i) == sum_over(
            own_marks(ns, spec, spec.is_exit(), i),
            i + 1,
            syntax::end_of(ns, i),
        ),
{
    lemma_closed_below(ns, i);
    lemma_count_is_sum(ns, spec, spec.is_exit(), i, i + 1, syntax::end_of(ns, i));
}

proof fn lemma_weight_is_sum(
    ns: Seq<NodeModel>,
    spec: LangSpec,
    i: int,
    j: int,
    end: int,
    depth: int,
)
    requires
        0 <= i < j,
        end <= ns.len(),
        is_outside(ns, spec, i, j),
        forall|k: int| j <= k < end ==> #[trigger] syntax::end_of(ns, k) <= end,
    ensures
        weigh_own(ns, spec.is_function(), spec.is_decision(), j, end, depth) == sum_over(
            own_weights(ns, spec, i, j, depth),
            j,
            end,
        ),
    decreases ns.len() - j,
{
    let f = own_weights(ns, spec, i, j, depth);
    if j < end {
        lemma_outside_after(ns, spec, i, j);
        lemma_closed_below(ns, j);
        let below = syntax::end_of(ns, j);
        lemma_sum_split(f, j, below, end);
        lemma_sum_split(f, j, j + 1, below);
        let after = own_weights(ns, spec, i, below, depth);
        assert forall|m: int| below <= m < end implies #[trigger] f(m) == after(m) by {
            let marks = around_marks(ns, spec, m);
            lemma_sum_split(marks, j, below, m);
            assert forall|k: int| j <= k < below implies #[trigger] marks(k) == 0 by {
                assert(syntax::end_of(ns, k) <= below);
            }
            lemma_sum_nothing(marks, j, below);
        }
        lemma_sum_same(f, after, below, end);
        lemma_weight_is_sum(ns, spec, i, below, end, depth);
        if spec.is_function()(ns[j]) {
            assert forall|m: int| j <= m < below implies #[trigger] f(m) == 0 by {
                assert(is_in_nested_function(ns, spec, i, m));
            }
            lemma_sum_nothing(f, j, below);
        } else if spec.is_decision()(ns[j]) {
            let inner = own_weights(ns, spec, i, j + 1, depth + 1);
            assert forall|m: int| j + 1 <= m < below implies #[trigger] f(m) == inner(m) by {
                let marks = around_marks(ns, spec, m);
                assert(marks(j) == 1);
                assert(sum_over(marks, j, m) == 1 + sum_over(marks, j + 1, m));
            }
            lemma_sum_same(f, inner, j + 1, below);
            lemma_weight_is_sum(ns, spec, i, j + 1, below, depth + 1);
            assert(sum_over(around_marks(ns, spec, j), j, j) == 0);
            assert(sum_over(f, j + 1, j + 1) == 0);
            assert(sum_over(f, j, j + 1) == f(j));
            assert(f(j) == 1 + depth);
        } else {
            let next = own_weights(ns, spec, i, j + 1, depth);
            assert forall|m: int| j + 1 <= m < end implies #[trigger] f(m) == next(m) by {
                let marks = around_marks(ns, spec, m);
                assert(marks(j) == 0);
                assert(sum_over(marks, j, m) == marks(j) + sum_over(marks, j + 1, m));
            }
            lemma_sum_same(f, next, j + 1, end);
            lemma_weight_is_sum(ns, spec, i, j + 1, end, depth);
            assert(f(j) == 0);
            assert(sum_over(f, j, end) == f(j) + sum_over(f, j + 1, end));
        }
    }
}

/// The cognitive complexity of a function weighs each decision below it, those
/// in nested functions apart, by one more than the number of decisions that it
/// stands in.
pub proof fn cognitive_weighs_by_nesting(ns: Seq<NodeModel>, spec: LangSpec, i: int)
    requires
        0 <= i < ns.len(),
    ensures
        ({
            let weight = sum_over(
                own_weights(ns, spec, i, i + 1, 0),
                i + 1,
                syntax::end_of(ns, i),
            );
            cognitive(ns, spec, i) == if weight <= 0xffff_ffff {
                weight
            } else {
                0xffff_ffff
            }
        }),
{
    lemma_closed_below(ns, i);
    lemma_weight_is_sum(ns, spec, i, i + 1, syntax::end_of(ns, i), 0);
}

/// In each measured language every kind of loop is a decision.
pub proof fn loops_are_decisions()
    ensures
        forall|n: NodeModel| n.kind == "while_expression"@ || n.kind == "loop_expression"@ || n.kind == "for_expression"@ ==> #[trigger] lang_spec(Grammar::Rust).is_decision()(n),
        forall|n: NodeModel| n.kind == "while_statement"@ || n.kind == "for_statement"@ ==> #[trigger] lang_spec(Grammar::Python).is_decision()(n),
        forall|n: NodeModel| n.kind == "while_statement"@ || n.kind == "do_statement"@ || n.kind == "for_statement"@ || n.kind == "for_in_statement"@ ==> #[trigger] lang_spec(Grammar::TypeScript).is_decision()(n),
        forall|n: NodeModel| n.kind == "while_statement"@ || n.kind == "do_statement"@ || n.kind == "for_statement"@ || n.kind == "enhanced_for_statement"@ ==> #[trigger] lang_spec(Grammar::Java).is_decision()(n),
        forall|n: NodeModel| n.kind == "for_statement"@ ==> #[trigger] lang_spec(Grammar::Go).is_decision()(n),
        forall|n: NodeModel| n.kind == "while_statement"@ || n.kind == "do_statement"@ || n.kind == "for_statement"@ || n.kind == "for_in_statement"@ ==> #[trigger] lang_spec(Grammar::JavaScript).is_decision()(n),
        forall|n: NodeModel| n.kind == "while_statement"@ || n.kind == "do_while_statement"@ || n.kind == "for_statement"@ ==> #[trigger] lang_spec(Grammar::Kotlin).is_decision()(n),
        forall|n: NodeModel| n.kind == "while_statement"@ || n.kind == "do_statement"@ || n.kind == "for_statement"@ ==> #[trigger] lang_spec(Grammar::Dart).is_decision()(n),
{
    reveal(lang_spec);
    assert(syntax::kinds_of(lang_spec(Grammar::Rust).decision_kinds)[2] == "while_expression"@);
    assert(syntax::kinds_of(lang_spec(Grammar::Rust).decision_kinds)[3] == "loop_expression"@);
    assert(syntax::kinds_of(lang_spec(Grammar::Rust).decision_kinds)[4] == "for_expression"@);
    assert(syntax::kinds_of(lang_spec(Grammar::Python).decision_kinds)[2] == "while_statement"@);
    assert(syntax::kinds_of(lang_spec(Grammar::Python).decision_kinds)[3] == "for_statement"@);
    assert(syntax::kinds_of(lang_spec(Grammar::TypeScript).decision_kinds)[1] == "while_statement"@);
    assert(syntax::kinds_of(lang_spec(Grammar::TypeScript).decision_kinds)[2] == "do_statement"@);
    assert(syntax::kinds_of(lang_spec(Grammar::TypeScript).decision_kinds)[3] == "for_statement"@);
    assert(syntax::kinds_of(lang_spec(Grammar::TypeScript).decision_kinds)[4] == "for_in_statement"@);
    assert(syntax::kinds_of(lang_spec(Grammar::Java).decision_kinds)[1] == "while_statement"@);
    assert(syntax::kinds_of(lang_spec(Grammar::Java).decision_kinds)[2] == "do_statement"@);
    assert(syntax::kinds_of(lang_spec(Grammar::Java).decision_kinds)[3] == "for_statement"@);
    assert(syntax::kinds_of(lang_spec(Grammar::Java).decision_kinds)[4] == "enhanced_for_statement"@);
    assert(syntax::kinds_of(lang_spec(Grammar::Go).decision_kinds)[1] == "for_statement"@);
    assert(syntax::kinds_of(lang_spec(Grammar::JavaScript).decision_kinds)[1] == "while_statement"@);
    assert(syntax::kinds_of(lang_spec(Grammar::JavaScript).decision_kinds)[2] == "do_statement"@);
    assert(syntax::kinds_of(lang_spec(Grammar::JavaScript).decision_kinds)[3] == "for_statement"@);
    assert(syntax::kinds_of(lang_spec(Grammar::JavaScript).decision_kinds)[4] == "for_in_statement"@);
    assert(syntax::kinds_of(lang_spec(Grammar::Kotlin).decision_kinds)[2] == "while_statement"@);
    assert(syntax::kinds_of(lang_spec(Grammar::Kotlin).decision_kinds)[3] == "do_while_statement"@);
    assert(syntax::kinds_of(lang_spec(Grammar::Kotlin).decision_kinds)[4] == "for_statement"@);
    assert(syntax::kinds_of(lang_spec(Grammar::Dart).decision_kinds)[1] == "while_statement"@);
    assert(syntax::kinds_of(lang_spec(Grammar::Dart).decision_kinds)[2] == "do_statement"@);
    assert(syntax::kinds_of(lang_spec(Grammar::Dart).decision_kinds)[3] == "for_statement"@);
}

/// In each measured language every kind of branch is a decision: statements,
/// expressions and the shorthands of the language.
pub proof fn branches_are_decisions()
    ensures
        forall|n: NodeModel| n.kind == "if_expression"@ || n.kind == "try_expression"@ ==> #[trigger] lang_spec(Grammar::Rust).is_decision()(n),
        forall|n: NodeModel| n.kind == "if_statement"@ || n.kind == "elif_clause"@ || n.kind == "conditional_expression"@ ==> #[trigger] lang_spec(Grammar::Python).is_decision()(n),
        forall|n: NodeModel| n.kind == "if_statement"@ || n.kind == "ternary_expression"@ ==> #[trigger] lang_spec(Grammar::TypeScript).is_decision()(n),
        forall|n: NodeModel| n.kind == "if_statement"@ || n.kind == "ternary_expression"@ ==> #[trigger] lang_spec(Grammar::Java).is_decision()(n),
        forall|n: NodeModel| n.kind == "if_statement"@ ==> #[trigger] lang_spec(Grammar::Go).is_decision()(n),
        forall|n: NodeModel| n.kind == "if_statement"@ || n.kind == "ternary_expression"@ ==> #[trigger] lang_spec(Grammar::JavaScript).is_decision()(n),
        forall|n: NodeModel| n.kind == "if_expression"@ ==> #[trigger] lang_spec(Grammar::Kotlin).is_decision()(n),
        forall|n: NodeModel| n.kind == "if_statement"@ || n.kind == "conditional_expression"@ ==> #[trigger] lang_spec(Grammar::Dart).is_decision()(n),
{
    reveal(lang_spec);
    assert(syntax::kinds_of(lang_spec(Grammar::Rust).decision_kinds)[0] == "if_expression"@);
    assert(syntax::kinds_of(lang_spec(Grammar::Rust).decision_kinds)[5] == "try_expression"@);
    assert(syntax::kinds_of(lang_spec(Grammar::Python).decision_kinds)[0] == "if_statement"@);
    assert(syntax::kinds_of(lang_spec(Grammar::Python).decision_kinds)[1] == "elif_clause"@);
    assert(syntax::kinds_of(lang_spec(Grammar::Python).decision_kinds)[6] == "conditional_expression"@);
    assert(syntax::kinds_of(lang_spec(Grammar::TypeScript).decision_kinds)[0] == "if_statement"@);
    assert(syntax::kinds_of(lang_spec(Grammar::TypeScript).decision_kinds)[7] == "ternary_expression"@);
    assert(syntax::kinds_of(lang_spec(Grammar::Java).decision_kinds)[0] == "if_statement"@);
    assert(syntax::kinds_of(lang_spec(Grammar::Java).decision_kinds)[7] == "ternary_expression"@);
    assert(syntax::kinds_of(lang_spec(Grammar::Go).decision_kinds)[0] == "if_statement"@);
    assert(syntax::kinds_of(lang_spec(Grammar::JavaScript).decision_kinds)[0] == "if_statement"@);
    assert(syntax::kinds_of(lang_spec(Grammar::JavaScript).decision_kinds)[7] == "ternary_expression"@);
    assert(syntax::kinds_of(lang_spec(Grammar::Kotlin).decision_kinds)[0] == "if_expression"@);
    assert(syntax::kinds_of(lang_spec(Grammar::Dart).decision_kinds)[0] == "if_statement"@);
    assert(syntax::kinds_of(lang_spec(Grammar::Dart).decision_kinds)[7] == "conditional_expression"@);
}

/// In each measured language that has them, what catches an error is a
/// decision.
pub proof fn handlers_are_decisions()
    ensures
        forall|n: NodeModel| n.kind == "except_clause"@ ==> #[trigger] lang_spec(Grammar::Python).is_decision()(n),
        forall|n: NodeModel| n.kind == "catch_clause"@ ==> #[trigger] lang_spec(Grammar::TypeScript).is_decision()(n),
        forall|n: NodeModel| n.kind == "catch_clause"@ ==> #[trigger] lang_spec(Grammar::Java).is_decision()(n),
        forall|n: NodeModel| n.kind == "catch_clause"@ ==> #[trigger] lang_spec(Grammar::JavaScript).is_decision()(n),
        forall|n: NodeModel| n.kind == "catch_block"@ ==> #[trigger] lang_spec(Grammar::Kotlin).is_decision()(n),
        forall|n: NodeModel| n.kind == "catch_clause"@ ==> #[trigger] lang_spec(Grammar::Dart).is_decision()(n),
{
    reveal(lang_spec);
    assert(syntax::kinds_of(lang_spec(Grammar::Python).decision_kinds)[4] == "except_clause"@);
    assert(syntax::kinds_of(lang_spec(Grammar::TypeScript).decision_kinds)[6] == "catch_clause"@);
    assert(syntax::kinds_of(lang_spec(Grammar::Java).decision_kinds)[6] == "catch_clause"@);
    assert(syntax::kinds_of(lang_spec(Grammar::JavaScript).decision_kinds)[6] == "catch_clause"@);
    assert(syntax::kinds_of(lang_spec(Grammar::Kotlin).decision_kinds)[5] == "catch_block"@);
    assert(syntax::kinds_of(lang_spec(Grammar::Dart).decision_kinds)[6] == "catch_clause"@);
}

/// In each measured language every case of a choice among several is a
/// decision.
pub proof fn cases_are_decisions()
    ensures
        forall|n: NodeModel| n.kind == "match_arm"@ ==> #[trigger] lang_spec(Grammar::Rust).is_decision()(n),
        forall|n: NodeModel| n.kind == "case_clause"@ ==> #[trigger] lang_spec(Grammar::Python).is_decision()(n),
        forall|n: NodeModel| n.kind == "switch_case"@ ==> #[trigger] lang_spec(Grammar::TypeScript).is_decision()(n),
        forall|n: NodeModel| n.kind == "switch_label"@ ==> #[trigger] lang_spec(Grammar::Java).is_decision()(n),
        forall|n: NodeModel| n.kind == "expression_case"@ || n.kind == "default_case"@ || n.kind == "type_case"@ || n.kind == "communication_case"@ ==> #[trigger] lang_spec(Grammar::Go).is_decision()(n),
        forall|n: NodeModel| n.kind == "switch_case"@ ==> #[trigger] lang_spec(Grammar::JavaScript).is_decision()(n),
        forall|n: NodeModel| n.kind == "when_entry"@ ==> #[trigger] lang_spec(Grammar::Kotlin).is_decision()(n),
        forall|n: NodeModel| n.kind == "switch_statement_case"@ || n.kind == "switch_expression_case"@ ==> #[trigger] lang_spec(Grammar::Dart).is_decision()(n),
{
    reveal(lang_spec);
    assert(syntax::kinds_of(lang_spec(Grammar::Rust).decision_kinds)[1] == "match_arm"@);
    assert(syntax::kinds_of(lang_spec(Grammar::Python).decision_kinds)[5] == "case_clause"@);
    assert(syntax::kinds_of(lang_spec(Grammar::TypeScript).decision_kinds)[5] == "switch_case"@);
    assert(syntax::kinds_of(lang_spec(Grammar::Java).decision_kinds)[5] == "switch_label"@);
    assert(syntax::kinds_of(lang_spec(Grammar::Go).decision_kinds)[2] == "expression_case"@);
    assert(syntax::kinds_of(lang_spec(Grammar::Go).decision_kinds)[3] == "default_case"@);
    assert(syntax::kinds_of(lang_spec(Grammar::Go).decision_kinds)[4] == "type_case"@);
    assert(syntax::kinds_of(lang_spec(Grammar::Go).decision_kinds)[5] == "communication_case"@);
    assert(syntax::kinds_of(lang_spec(Grammar::JavaScript).decision_kinds)[5] == "switch_case"@);
    assert(syntax::kinds_of(lang_spec(Grammar::Kotlin).decision_kinds)[1] == "when_entry"@);
    assert(syntax::kinds_of(lang_spec(Grammar::Dart).decision_kinds)[4] == "switch_statement_case"@);
    assert(syntax::kinds_of(lang_spec(Grammar::Dart).decision_kinds)[5] == "switch_expression_case"@);
}

/// What is a function, and what leaves one, in each measured language: nothing
/// else is, and nothing does.
pub proof fn functions_and_exits_are_these()
    ensures
        forall|n: NodeModel| #[trigger] lang_spec(Grammar::Rust).is_function()(n) == (n.kind == "function_item"@ || n.kind == "closure_expression"@),
        forall|n: NodeModel| #[trigger] lang_spec(Grammar::Rust).is_exit()(n) == (n.kind == "return_expression"@),
        forall|n: NodeModel| #[trigger] lang_spec(Grammar::Python).is_function()(n) == (n.kind == "function_definition"@ || n.kind == "lambda"@),
        forall|n: NodeModel| #[trigger] lang_spec(Grammar::Python).is_exit()(n) == (n.kind == "return_statement"@),
        forall|n: NodeModel| #[trigger] lang_spec(Grammar::TypeScript).is_function()(n) == (n.kind == "function_declaration"@ || n.kind == "method_definition"@ || n.kind == "arrow_function"@ || n.kind == "function_expression"@ || n.kind == "generator_function_declaration"@),
        forall|n: NodeModel| #[trigger] lang_spec(Grammar::TypeScript).is_exit()(n) == (n.kind == "return_statement"@),
        forall|n: NodeModel| #[trigger] lang_spec(Grammar::Java).is_function()(n) == (n.kind == "method_declaration"@ || n.kind == "constructor_declaration"@ || n.kind == "lambda_expression"@),
        forall|n: NodeModel| #[trigger] lang_spec(Grammar::Java).is_exit()(n) == (n.kind == "return_statement"@),
        forall|n: NodeModel| #[trigger] lang_spec(Grammar::Go).is_function()(n) == (n.kind == "function_declaration"@ || n.kind == "method_declaration"@ || n.kind == "func_literal"@),
        forall|n: NodeModel| #[trigger] lang_spec(Grammar::Go).is_exit()(n) == (n.kind == "return_statement"@),
        forall|n: NodeModel| #[trigger] lang_spec(Grammar::JavaScript).is_function()(n) == (n.kind == "function_declaration"@ || n.kind == "generator_function_declaration"@ || n.kind == "method_definition"@ || n.kind == "arrow_function"@ || n.kind == "function_expression"@),
        forall|n: NodeModel| #[trigger] lang_spec(Grammar::JavaScript).is_exit()(n) == (n.kind == "return_statement"@),
        forall|n: NodeModel| #[trigger] lang_spec(Grammar::Kotlin).is_function()(n) == (n.kind == "function_declaration"@ || n.kind == "anonymous_function"@ || n.kind == "lambda_literal"@),
        forall|n: NodeModel| #[trigger] lang_spec(Grammar::Kotlin).is_exit()(n) == (n.kind == "jump_expression"@),
        forall|n: NodeModel| #[trigger] lang_spec(Grammar::Dart).is_function()(n) == (n.kind == "function_signature"@ || n.kind == "method_signature"@ || n.kind == "function_expression"@ || n.kind == "lambda_expression"@),
        forall|n: NodeModel| #[trigger] lang_spec(Grammar::Dart).is_exit()(n) == (n.kind == "return_statement"@),
{
    reveal(lang_spec);
    assert(syntax::kinds_of(lang_spec(Grammar::Rust).function_kinds)[0] == "function_item"@);
    assert(syntax::kinds_of(lang_spec(Grammar::Rust).function_kinds)[1] == "closure_expression"@);
    assert(syntax::kinds_of(lang_spec(Grammar::Rust).exit_kinds)[0] == "return_expression"@);
    assert(syntax::kinds_of(lang_spec(Grammar::Python).function_kinds)[0] == "function_definition"@);
    assert(syntax::kinds_of(lang_spec(Grammar::Python).function_kinds)[1] == "lambda"@);
    assert(syntax::kinds_of(lang_spec(Grammar::Python).exit_kinds)[0] == "return_statement"@);
    assert(syntax::kinds_of(lang_spec(Grammar::TypeScript).function_kinds)[0] == "function_declaration"@);
    assert(syntax::kinds_of(lang_spec(Grammar::TypeScript).function_kinds)[1] == "method_definition"@);
    assert(syntax::kinds_of(lang_spec(Grammar::TypeScript).function_kinds)[2] == "arrow_function"@);
    assert(syntax::kinds_of(lang_spec(Grammar::TypeScript).function_kinds)[3] == "function_expression"@);
    assert(syntax::kinds_of(lang_spec(Grammar::TypeScript).function_kinds)[4] == "generator_function_declaration"@);
    assert(syntax::kinds_of(lang_spec(Grammar::TypeScript).exit_kinds)[0] == "return_statement"@);
    assert(syntax::kinds_of(lang_spec(Grammar::Java).function_kinds)[0] == "method_declaration"@);
    assert(syntax::kinds_of(lang_spec(Grammar::Java).function_kinds)[1] == "constructor_declaration"@);
    assert(syntax::kinds_of(lang_spec(Grammar::Java).function_kinds)[2] == "lambda_expression"@);
    assert(syntax::kinds_of(lang_spec(Grammar::Java).exit_kinds)[0] == "return_statement"@);
    assert(syntax::kinds_of(lang_spec(Grammar::Go).function_kinds)[0] == "function_declaration"@);
    assert(syntax::kinds_of(lang_spec(Grammar::Go).function_kinds)[1] == "method_declaration"@);
    assert(syntax::kinds_of(lang_spec(Grammar::Go).function_kinds)[2] == "func_literal"@);
    assert(syntax::kinds_of(lang_spec(Grammar::Go).exit_kinds)[0] == "return_statement"@);
    assert(syntax::kinds_of(lang_spec(Grammar::JavaScript).function_kinds)[0] == "function_declaration"@);
    assert(syntax::kinds_of(lang_spec(Grammar::JavaScript).function_kinds)[1] == "generator_function_declaration"@);
    assert(syntax::kinds_of(lang_spec(Grammar::JavaScript).function_kinds)[2] == "method_definition"@);
    assert(syntax::kinds_of(lang_spec(Grammar::JavaScript).function_kinds)[3] == "arrow_function"@);
    assert(syntax::kinds_of(lang_spec(Grammar::JavaScript).function_kinds)[4] == "function_expression"@);
    assert(syntax::kinds_of(lang_spec(Grammar::JavaScript).exit_kinds)[0] == "return_statement"@);
    assert(syntax::kinds_of(lang_spec(Grammar::Kotlin).function_kinds)[0] == "function_declaration"@);
    assert(syntax::kinds_of(lang_spec(Grammar::Kotlin).function_kinds)[1] == "anonymous_function"@);
    assert(syntax::kinds_of(lang_spec(Grammar::Kotlin).function_kinds)[2] == "lambda_literal"@);
    assert(syntax::kinds_of(lang_spec(Grammar::Kotlin).exit_kinds)[0] == "jump_expression"@);
    assert(syntax::kinds_of(lang_spec(Grammar::Dart).function_kinds)[0] == "function_signature"@);
    assert(syntax::kinds_of(lang_spec(Grammar::Dart).function_kinds)[1] == "method_signature"@);
    assert(syntax::kinds_of(lang_spec(Grammar::Dart).function_kinds)[2] == "function_expression"@);
    assert(syntax::kinds_of(lang_spec(Grammar::Dart).function_kinds)[3] == "lambda_expression"@);
    assert(syntax::kinds_of(lang_spec(Grammar::Dart).exit_kinds)[0] == "return_statement"@);
}

/// Only loops, branches, handlers and cases are decisions.
pub proof fn nothing_else_is_a_decision()
    ensures
        syntax::kinds_of(lang_spec(Grammar::Rust).decision_kinds).len() == 6,
        forall|n: NodeModel| #[trigger] lang_spec(Grammar::Rust).is_decision()(n) ==> (n.kind == "if_expression"@ || n.kind == "match_arm"@ || n.kind == "while_expression"@ || n.kind == "loop_expression"@ || n.kind == "for_expression"@ || n.kind == "try_expression"@),
        syntax::kinds_of(lang_spec(Grammar::Python).decision_kinds).len() == 7,
        forall|n: NodeModel| #[trigger] lang_spec(Grammar::Python).is_decision()(n) ==> (n.kind == "if_statement"@ || n.kind == "elif_clause"@ || n.kind == "while_statement"@ || n.kind == "for_statement"@ || n.kind == "except_clause"@ || n.kind == "case_clause"@ || n.kind == "conditional_expression"@),
        syntax::kinds_of(lang_spec(Grammar::TypeScript).decision_kinds).len() == 8,
        forall|n: NodeModel| #[trigger] lang_spec(Grammar::TypeScript).is_decision()(n) ==> (n.kind == "if_statement"@ || n.kind == "while_statement"@ || n.kind == "do_statement"@ || n.kind == "for_statement"@ || n.kind == "for_in_statement"@ || n.kind == "switch_case"@ || n.kind == "catch_clause"@ || n.kind == "ternary_expression"@),
        syntax::kinds_of(lang_spec(Grammar::Java).decision_kinds).len() == 8,
        forall|n: NodeModel| #[trigger] lang_spec(Grammar::Java).is_decision()(n) ==> (n.kind == "if_statement"@ || n.kind == "while_statement"@ || n.kind == "do_statement"@ || n.kind == "for_statement"@ || n.kind == "enhanced_for_statement"@ || n.kind == "switch_label"@ || n.kind == "catch_clause"@ || n.kind == "ternary_expression"@),
        syntax::kinds_of(lang_spec(Grammar::Go).decision_kinds).len() == 6,
        forall|n: NodeModel| #[trigger] lang_spec(Grammar::Go).is_decision()(n) ==> (n.kind == "if_statement"@ || n.kind == "for_statement"@ || n.kind == "expression_case"@ || n.kind == "default_case"@ || n.kind == "type_case"@ || n.kind == "communication_case"@),
        syntax::kinds_of(lang_spec(Grammar::JavaScript).decision_kinds).len() == 8,
        forall|n: NodeModel| #[trigger] lang_spec(Grammar::JavaScript).is_decision()(n) ==> (n.kind == "if_statement"@ || n.kind == "while_statement"@ || n.kind == "do_statement"@ || n.kind == "for_statement"@ || n.kind == "for_in_statement"@ || n.kind == "switch_case"@ || n.kind == "catch_clause"@ || n.kind == "ternary_expression"@),
        syntax::kinds_of(lang_spec(Grammar::Kotlin).decision_kinds).len() == 6,
        forall|n: NodeModel| #[trigger] lang_spec(Grammar::Kotlin).is_decision()(n) ==> (n.kind == "if_expression"@ || n.kind == "when_entry"@ || n.kind == "while_statement"@ || n.kind == "do_while_statement"@ || n.kind == "for_statement"@ || n.kind == "catch_block"@),
        syntax::kinds_of(lang_spec(Grammar::Dart).decision_kinds).len() == 8,
        forall|n: NodeModel| #[trigger] lang_spec(Grammar::Dart).is_decision()(n) ==> (n.kind == "if_statement"@ || n.kind == "while_statement"@ || n.kind == "do_statement"@ || n.kind == "for_statement"@ || n.kind == "switch_statement_case"@ || n.kind == "switch_expression_case"@ || n.kind == "catch_clause"@ || n.kind == "conditional_expression"@),
{
    reveal(lang_spec);
}

/// How many children of node `i`, from `j` on, the grammar names.
pub open spec fn named_from(ns: Seq<NodeModel>, i: int, j: int) -> nat
    decreases syntax::end_of(ns, i) - j,
{
    if j >= syntax::end_of(ns, i) {
        0
    } else {
        (if ns[j].depth == ns[i].depth + 1 && ns[j].named {
            1nat
        } else {
            0nat
        }) + named_from(ns, i, j + 1)
    }
}

pub open spec fn is_parameter_list() -> spec_fn(NodeModel) -> bool {
    |n: NodeModel| text::contains(n.kind, "parameter"@)
}

/// The first node from `j` on, among those below node `i` and outside its body,
/// whose kind speaks of parameters.
pub open spec fn list_from(ns: Seq<NodeModel>, i: int, j: int) -> Option<int>
    decreases ns.len() - j,
{
    if j >= syntax::end_of(ns, i) || j < 0 || j >= ns.len() {
        None
    } else if is_body(ns, i, j) {
        proof {
            syntax::lemma_end_of(ns, j);
        }
        list_from(ns, i, syntax::end_of(ns, j))
    } else if is_parameter_list()(ns[j]) {
        Some(j)
    } else {
        list_from(ns, i, j + 1)
    }
}

/// Node `j` is the body of function `i`.
pub open spec fn is_body(ns: Seq<NodeModel>, i: int, j: int) -> bool {
    ns[j].depth == ns[i].depth + 1 && ns[j].field == Some("body"@)
}

/// The number of parameters: the named children of the first node below the
/// function, outside its body, whose kind speaks of parameters.
pub open spec fn params(ns: Seq<NodeModel>, i: int) -> nat {
    match list_from(ns, i, i + 1) {
        Some(c) => named_from(ns, c, c + 1),
        None => 0,
    }
}

fn body_at(nodes: &[SyntaxNode], i: usize, j: usize) -> (r: bool)
    requires
        i < nodes@.len(),
        j < nodes@.len(),
    ensures
        r == is_body(syntax::node_models(nodes@), i as int, j as int),
{
    proof {
        assert(syntax::node_models(nodes@)[j as int] == nodes@[j as int]@);
        assert(syntax::node_models(nodes@)[i as int] == nodes@[i as int]@);
    }
    if nodes[j].depth > nodes[i].depth && nodes[j].depth - nodes[i].depth == 1 {
        match &nodes[j].field {
            Some(f) => text::same(f.as_str(), "body"),
            None => false,
        }
    } else {
        false
    }
}

fn count_params(nodes: &[SyntaxNode], ends: &[usize], i: usize) -> (r: u64)
    requires
        syntax::are_ends(ends@, syntax::node_models(nodes@)),
        i < nodes@.len(),
    ensures
        r == params(syntax::node_models(nodes@), i as int),
{
    let ghost ns = syntax::node_models(nodes@);
    let end: usize = ends[i];
    proof {
        syntax::lemma_end_of(ns, i as int);
    }
    let mut j: usize = i + 1;
    while j < end
        invariant
            ns == syntax::node_models(nodes@),
            syntax::are_ends(ends@, ns),
            i < nodes@.len(),
            end == syntax::end_of(ns, i as int),
            end <= nodes@.len(),
            i < j <= end,
            list_from(ns, i as int, i + 1) == list_from(ns, i as int, j as int),
        decreases end - j,
    {
        proof {
            assert(ns[j as int] == nodes@[j as int]@);
            syntax::lemma_end_of(ns, j as int);
            syntax::lemma_ends_nest(ns, i as int, j as int);
        }
        if body_at(nodes, i, j) {
            j = ends[j];
        } else if text::has(nodes[j].kind.as_str(), "parameter") {
            return count_named(nodes, ends, j);
        } else {
            j += 1;
        }
    }
    0
}

/// The node that lists a function's parameters stands below the function, and
/// is not its body.
pub proof fn parameters_stand_outside_the_body(ns: Seq<NodeModel>, i: int, j: int)
    requires
        0 <= i < ns.len(),
        i < j <= syntax::end_of(ns, i),
    ensures
        list_from(ns, i, j) matches Some(c) ==> j <= c < syntax::end_of(ns, i) && is_parameter_list()(
            ns[c],
        ) && !is_body(ns, i, c),
    decreases syntax::end_of(ns, i) - j,
{
    syntax::lemma_end_of(ns, i);
    if j < syntax::end_of(ns, i) {
        syntax::lemma_end_of(ns, j);
        syntax::lemma_ends_nest(ns, i, j);
        if is_body(ns, i, j) {
            parameters_stand_outside_the_body(ns, i, syntax::end_of(ns, j));
        } else if !is_parameter_list()(ns[j]) {
            parameters_stand_outside_the_body(ns, i, j + 1);
        }
    }
}

fn count_named(nodes: &[SyntaxNode], ends: &[usize], i: usize) -> (r: u64)
    requires
        syntax::are_ends(ends@, syntax::node_models(nodes@)),
        i < nodes@.len(),
    ensures
        r == named_from(syntax::node_models(nodes@), i as int, i + 1),
{
    let ghost ns = syntax::node_models(nodes@);
    let end: usize = ends[i];
    proof {
        syntax::lemma_end_of(ns, i as int);
    }
    let mut count: u64 = 0;
    let mut j: usize = i + 1;
    while j < end
        invariant
            ns == syntax::node_models(nodes@),
            i < nodes@.len(),
            end == syntax::end_of(ns, i as int),
            end <= nodes@.len(),
            i < j <= end,
            count < j,
            count + named_from(ns, i as int, j as int) == named_from(ns, i as int, i + 1),
        decreases end - j,
    {
        proof {
            assert(ns[j as int] == nodes@[j as int]@);
            assert(ns[i as int].depth == nodes@[i as int].depth);
        }
        if nodes[j].depth > nodes[i].depth && nodes[j].depth - nodes[i].depth == 1
            && nodes[j].named {
            count += 1;
        }
        j += 1;
    }
    count
}

// ---------------------------------------------------------------------------
// Tokens
// ---------------------------------------------------------------------------

pub open spec fn is_comment() -> spec_fn(NodeModel) -> bool {
    |n: NodeModel|
        n.kind == "comment"@ || n.kind == "line_comment"@ || n.kind == "block_comment"@ || n.kind
            == "documentation_comment"@ || n.kind == "doc_comment"@
}

pub fn is_comment_kind(kind: &str) -> (r: bool)
    ensures
        r == (kind@ == "comment"@ || kind@ == "line_comment"@ || kind@ == "block_comment"@ || kind@
            == "documentation_comment"@ || kind@ == "doc_comment"@),
{
    text::same(kind, "comment") || text::same(kind, "line_comment") || text::same(
        kind,
        "block_comment",
    ) || text::same(kind, "documentation_comment") || text::same(kind, "doc_comment")
}

pub open spec fn is_blank(s: Seq<char>) -> bool {
    forall|i: int| 0 <= i < s.len() ==> text::is_white(#[trigger] s[i])
}

fn is_blank_text(s: &str) -> (r: bool)
    ensures
        r == is_blank(s@),
{
    let v = text::to_chars(s);
    let n: usize = v.len();
    let mut i: usize = 0;
    while i < n
        invariant
            n == v@.len(),
            v@ == s@,
            i <= n,
            forall|k: int| 0 <= k < i ==> text::is_white(#[trigger] s@[k]),
        decreases n - i,
    {
        if !text::is_white_char(v[i]) {
            return false;
        }
        i += 1;
    }
    true
}

/// The token that a node is: its text, if it has no children and is not blank.
pub open spec fn token(ns: Seq<NodeModel>, source: Seq<char>, j: int) -> Option<Seq<char>> {
    if syntax::end_of(ns, j) == j + 1 {
        match syntax::node_name(source, ns[j]) {
            Some(s) => if is_blank(s) {
                None
            } else {
                Some(s)
            },
            None => None,
        }
    } else {
        None
    }
}

/// How often each operator and each operand occurs.
pub struct Tokens {
    pub operators: Seq<(Seq<char>, u64)>,
    pub operands: Seq<(Seq<char>, u64)>,
}

impl Tokens {
    pub open spec fn none() -> Tokens {
        Tokens { operators: Seq::empty(), operands: Seq::empty() }
    }

    /// Tokens that the grammar names are operands, the others operators.
    pub open spec fn with(self, named: bool, s: Seq<char>) -> Tokens {
        if named {
            Tokens { operators: self.operators, operands: tally::credited(self.operands, s, 1) }
        } else {
            Tokens { operators: tally::credited(self.operators, s, 1), operands: self.operands }
        }
    }
}

pub open spec fn is_apart(spec: LangSpec) -> spec_fn(NodeModel) -> bool {
    |n: NodeModel| spec.is_function()(n) || is_comment()(n)
}

/// The tokens from `j` to `end`, on top of `t`, without nested functions and
/// comments.
pub open spec fn tokens_from(
    ns: Seq<NodeModel>,
    source: Seq<char>,
    apart: spec_fn(NodeModel) -> bool,
    t: Tokens,
    j: int,
    end: int,
) -> Tokens
    decreases ns.len() - j,
{
    if j < 0 || j >= end || j >= ns.len() {
        t
    } else if apart(ns[j]) {
        proof {
            syntax::lemma_end_of(ns, j);
        }
        tokens_from(ns, source, apart, t, syntax::end_of(ns, j), end)
    } else {
        match token(ns, source, j) {
            Some(s) => tokens_from(ns, source, apart, t.with(ns[j].named, s), j + 1, end),
            None => tokens_from(ns, source, apart, t, j + 1, end),
        }
    }
}

/// How many operators and operands a function has, in all and different ones.
#[derive(Debug, Clone, Copy)]
pub struct Halstead {
    pub operators: u64,
    pub operands: u64,
    pub distinct_operators: u64,
    pub distinct_operands: u64,
}

pub struct HalsteadModel {
    pub operators: int,
    pub operands: int,
    pub distinct_operators: int,
    pub distinct_operands: int,
}

impl View for Halstead {
    type V = HalsteadModel;

    open spec fn view(&self) -> HalsteadModel {
        HalsteadModel {
            operators: self.operators as int,
            operands: self.operands as int,
            distinct_operators: self.distinct_operators as int,
            distinct_operands: self.distinct_operands as int,
        }
    }
}

impl HalsteadModel {
    /// The number of all tokens.
    pub open spec fn length(self) -> int {
        self.operators + self.operands
    }

    /// The number of different tokens.
    pub open spec fn vocabulary(self) -> int {
        self.distinct_operators + self.distinct_operands
    }
}

pub open spec fn halstead_of(t: Tokens) -> HalsteadModel {
    HalsteadModel {
        operators: tally::sum(t.operators) as int,
        operands: tally::sum(t.operands) as int,
        distinct_operators: t.operators.len() as int,
        distinct_operands: t.operands.len() as int,
    }
}

/// The token counts of a function.
pub open spec fn halstead(ns: Seq<NodeModel>, source: Seq<char>, spec: LangSpec, i: int) ->
    HalsteadModel {
    halstead_of(
        tokens_from(ns, source, is_apart(spec), Tokens::none(), i + 1, syntax::end_of(ns, i)),
    )
}

fn count_tokens(
    nodes: &[SyntaxNode],
    ends: &[usize],
    source: &str,
    spec: &LangSpec,
    i: usize,
) -> (r: Halstead)
    requires
        syntax::are_ends(ends@, syntax::node_models(nodes@)),
        i < nodes@.len(),
    ensures
        r@ == halstead(syntax::node_models(nodes@), source@, *spec, i as int),
{
    let ghost ns = syntax::node_models(nodes@);
    let ghost apart = is_apart(*spec);
    let end: usize = ends[i];
    let mut operators: TextMap<u64> = TextMap::new();
    let mut operands: TextMap<u64> = TextMap::new();
    let ghost goal = tokens_from(ns, source@, apart, Tokens::none(), i + 1, end as int);
    let mut j: usize = i + 1;
    proof {
        syntax::lemma_end_of(ns, i as int);
        assert(tally::sum(operators@) == 0);
    }
    while j < end
        invariant
            ns == syntax::node_models(nodes@),
            syntax::are_ends(ends@, ns),
            apart == is_apart(*spec),
            i < j,
            i < nodes@.len(),
            end == syntax::end_of(ns, i as int),
            end <= nodes@.len(),
            j <= nodes@.len(),
            table::ascending(operators@),
            table::ascending(operands@),
            tally::sum(operators@) <= j,
            tally::sum(operands@) <= j,
            tokens_from(
                ns,
                source@,
                apart,
                Tokens { operators: operators@, operands: operands@ },
                j as int,
                end as int,
            ) == goal,
        decreases nodes@.len() - j,
    {
        proof {
            assert(ns[j as int] == nodes@[j as int]@);
            syntax::lemma_end_of(ns, j as int);
        }
        if is_kind(&nodes[j], spec.function_kinds) || is_comment_kind(nodes[j].kind.as_str()) {
            j = ends[j];
        } else {
            if ends[j] == j + 1 {
                if let Some(s) = name_of_node(source, &nodes[j]) {
                    if !is_blank_text(s.as_str()) {
                        if nodes[j].named {
                            proof {
                                tally::amount_within_sum(operands@, s@);
                                tally::sum_of_credited(operands@, s@, 1);
                            }
                            tally::credit(&mut operands, s.as_str(), 1);
                        } else {
                            proof {
                                tally::amount_within_sum(operators@, s@);
                                tally::sum_of_credited(operators@, s@, 1);
                            }
                            tally::credit(&mut operators, s.as_str(), 1);
                        }
                    }
                }
            }
            j += 1;
        }
    }
    Halstead {
        operators: tally::sum_of(&operators),
        operands: tally::sum_of(&operands),
        distinct_operators: operators.len() as u64,
        distinct_operands: operands.len() as u64,
    }
}

// ---------------------------------------------------------------------------
// Lines
// ---------------------------------------------------------------------------

/// The first known language of that name, from `i` on.
pub open spec fn language_from(name: Seq<char>, i: int) -> Option<Language>
    decreases data::language_table().len() - i,
{
    if i >= data::language_table().len() {
        None
    } else if data::language_table()[i].name@ == name {
        Some(data::language_table()[i])
    } else {
        language_from(name, i + 1)
    }
}

fn language_named(name: &str) -> (r: Option<Language>)
    ensures
        r == language_from(name@, 0),
        r matches Some(l) ==> scoring::well_marked(l),
{
    proof {
        facts::table_is_well_marked();
    }
    let all = data::languages();
    let n: usize = all.len();
    let mut i: usize = 0;
    while i < n
        invariant
            all@ == data::language_table(),
            n == all@.len(),
            i <= n,
            forall|k: int|
                0 <= k < data::language_table().len() ==> scoring::well_marked(
                    #[trigger] data::language_table()[k],
                ),
            language_from(name@, 0) == language_from(name@, i as int),
        decreases n - i,
    {
        if text::same(all[i].name, name) {
            return Some(all[i]);
        }
        i += 1;
    }
    None
}

/// The kind of every line of a source in that grammar.
pub open spec fn source_lines(source: Seq<char>, g: Grammar) -> Seq<LineType> {
    line_classifier::line_kinds(source, language_from(syntax::grammar_name(g), 0))
}

fn classify_file_lines(source: &str, g: Grammar) -> (r: Vec<LineType>)
    ensures
        r@ == source_lines(source@, g),
{
    let found = language_named(syntax::name_of_grammar(g));
    let ghost lang = found;
    let lines = text::lines(source);
    let ghost all = text::views(lines@);
    let n: usize = lines.len();
    let mut state = CommentState::new();
    let mut out: Vec<LineType> = Vec::new();
    let mut i: usize = 0;
    proof {
        assert(all.take(0).len() == 0);
        assert(out@ =~= line_classifier::classified_lines(all.take(0), lang).0);
    }
    let matchers = match &found {
        Some(l) => Some(language_matchers(l)),
        None => None,
    };
    while i < n
        invariant
            n == lines@.len(),
            all == text::views(lines@),
            found == lang,
            lang matches Some(l) ==> scoring::well_marked(l),
            match (found, matchers) {
                (Some(l), Some(m)) => scoring::matchers_of(m, l),
                (None, None) => true,
                _ => false,
            },
            i <= n,
            out@ == line_classifier::classified_lines(all.take(i as int), lang).0,
            state@ == line_classifier::classified_lines(all.take(i as int), lang).1,
        decreases n - i,
    {
        let line = lines[i].as_str();
        let ghost before = out@;
        proof {
            assert(all.take(i + 1).drop_last() =~= all.take(i as int));
            assert(all.take(i + 1).last() == line@);
        }
        let kind = match (&found, &matchers) {
            (Some(l), Some(m)) => classify_with(line, l, m, &mut state, i == 0),
            _ => classify_line(line, None, &mut state, i == 0),
        };
        out.push(kind);
        i += 1;
        proof {
            assert(out@ =~= line_classifier::classified_lines(all.take(i as int), lang).0);
        }
    }
    proof {
        assert(all.take(n as int) =~= all);
    }
    out
}

/// How many of the lines from `start` to `end`, both counted from 1, are code.
pub open spec fn code_lines(kinds: Seq<LineType>, start: int, end: int) -> int {
    let s = if start > 0 {
        start - 1
    } else {
        0
    };
    let e = if end < kinds.len() {
        end
    } else {
        kinds.len() as int
    };
    if s >= e {
        0
    } else {
        fold::count(kinds.subrange(s, e), line_classifier::is_kind(LineType::Code)) as int
    }
}

pub fn count_code_lines(line_types: &[LineType], start: u32, end: u32) -> (r: u64)
    ensures
        r == code_lines(line_types@, start as int, end as int),
{
    let s: usize = if start > 0 {
        (start - 1) as usize
    } else {
        0
    };
    let n: usize = line_types.len();
    let e: usize = if (end as usize) < n {
        end as usize
    } else {
        n
    };
    if s >= e {
        return 0;
    }
    let ghost part = line_types@.subrange(s as int, e as int);
    let ghost code = line_classifier::is_kind(LineType::Code);
    let mut count: u64 = 0;
    let mut i: usize = s;
    proof {
        assert(part.take(0).len() == 0);
    }
    while i < e
        invariant
            n == line_types@.len(),
            s <= i <= e,
            e <= n,
            part == line_types@.subrange(s as int, e as int),
            code == line_classifier::is_kind(LineType::Code),
            count == fold::count(part.take(i - s), code),
            count <= i - s,
        decreases e - i,
    {
        proof {
            fold::lemma_count_step(part, code, i - s);
        }
        if line_types[i] == LineType::Code {
            count += 1;
        }
        i += 1;
    }
    proof {
        assert(part.take(e - s) =~= part);
    }
    count
}

// ---------------------------------------------------------------------------
// Functions
// ---------------------------------------------------------------------------

/// What is measured of a function.
#[derive(Debug)]
pub struct FunctionShape {
    pub file: String,
    pub name: String,
    pub start_line: u32,
    pub line_count: u64,
    pub cyclomatic: u64,
    pub cognitive: u64,
    pub nargs: u64,
    pub nexits: u64,
    pub halstead: Halstead,
    pub language: &'static str,
}

pub struct FunctionShapeModel {
    pub file: Seq<char>,
    pub name: Seq<char>,
    pub start_line: int,
    pub line_count: int,
    pub cyclomatic: int,
    pub cognitive: int,
    pub nargs: int,
    pub nexits: int,
    pub halstead: HalsteadModel,
    pub language: Seq<char>,
}

impl View for FunctionShape {
    type V = FunctionShapeModel;

    open spec fn view(&self) -> FunctionShapeModel {
        FunctionShapeModel {
            file: self.file@,
            name: self.name@,
            start_line: self.start_line as int,
            line_count: self.line_count as int,
            cyclomatic: self.cyclomatic as int,
            cognitive: self.cognitive as int,
            nargs: self.nargs as int,
            nexits: self.nexits as int,
            halstead: self.halstead@,
            language: self.language@,
        }
    }
}

pub open spec fn is_signature(kind: Seq<char>) -> bool {
    kind == "function_signature"@ || kind == "method_signature"@ || kind == "getter_signature"@
        || kind == "setter_signature"@
}

/// The node whose lines and decisions are those of function `i`. In Dart the
/// body stands beside the signature, so it is the parent.
pub open spec fn scope(ns: Seq<NodeModel>, g: Grammar, i: int) -> int {
    if g == Grammar::Dart && is_signature(ns[i].kind) {
        match syntax::parent(ns, i) {
            Some(p) => p,
            None => i,
        }
    } else {
        i
    }
}

/// The text of the first child that fills the field `name`.
pub open spec fn function_name(ns: Seq<NodeModel>, source: Seq<char>, i: int) -> Option<Seq<char>> {
    match syntax::first_child(ns, syntax::has_field("name"@), i) {
        Some(c) => syntax::node_name(source, ns[c]),
        None => None,
    }
}

pub open spec fn shape_at(
    spec: LangSpec,
    file: Seq<char>,
    source: Seq<char>,
    ns: Seq<NodeModel>,
    i: int,
) -> FunctionShapeModel {
    let s = scope(ns, spec.grammar, i);
    let start = syntax::line_of(ns[s].start_row);
    FunctionShapeModel {
        file,
        name: match function_name(ns, source, i) {
            Some(n) => n,
            None => "<anonymous>"@,
        },
        start_line: start,
        line_count: code_lines(
            source_lines(source, spec.grammar),
            start,
            syntax::line_of(ns[s].end_row),
        ),
        cyclomatic: cyclomatic(ns, spec, s),
        cognitive: cognitive(ns, spec, s),
        nargs: params(ns, i) as int,
        nexits: own_count(ns, spec, spec.is_exit(), s) as int,
        halstead: halstead(ns, source, spec, s),
        language: syntax::grammar_name(spec.grammar),
    }
}

/// The functions among the first `n` nodes.
pub open spec fn shapes(
    spec: LangSpec,
    file: Seq<char>,
    source: Seq<char>,
    ns: Seq<NodeModel>,
    n: int,
) -> Seq<FunctionShapeModel>
    decreases n,
{
    if n <= 0 {
        Seq::empty()
    } else if spec.is_function()(ns[n - 1]) {
        shapes(spec, file, source, ns, n - 1).push(shape_at(spec, file, source, ns, n - 1))
    } else {
        shapes(spec, file, source, ns, n - 1)
    }
}

fn find_scope(nodes: &[SyntaxNode], g: Grammar, i: usize) -> (r: usize)
    requires
        i < nodes@.len(),
    ensures
        r == scope(syntax::node_models(nodes@), g, i as int),
        r < nodes@.len(),
{
    let kind = nodes[i].kind.as_str();
    proof {
        assert(syntax::node_models(nodes@)[i as int] == nodes@[i as int]@);
    }
    if g == Grammar::Dart && (text::same(kind, "function_signature") || text::same(
        kind,
        "method_signature",
    ) || text::same(kind, "getter_signature") || text::same(kind, "setter_signature")) {
        match parent_of(nodes, i) {
            Some(p) => p,
            None => i,
        }
    } else {
        i
    }
}

fn measure(
    nodes: &[SyntaxNode],
    ends: &[usize],
    kinds: &[LineType],
    spec: &LangSpec,
    file: &str,
    source: &str,
    i: usize,
) -> (r: FunctionShape)
    requires
        syntax::are_ends(ends@, syntax::node_models(nodes@)),
        kinds@ == source_lines(source@, spec.grammar),
        i < nodes@.len(),
    ensures
        r@ == shape_at(*spec, file@, source@, syntax::node_models(nodes@), i as int),
{
    let ghost ns = syntax::node_models(nodes@);
    let s = find_scope(nodes, spec.grammar, i);
    proof {
        assert(ns[s as int] == nodes@[s as int]@);
        assert(spec.is_decision() =~= (|n: NodeModel|
            syntax::kinds_of(spec.decision_kinds).contains(n.kind)));
        assert(spec.is_exit() =~= (|n: NodeModel|
            syntax::kinds_of(spec.exit_kinds).contains(n.kind)));
    }
    let named = match syntax::child_by_field(nodes, ends, i, "name") {
        Some(c) => {
            proof {
                assert(ns[c as int] == nodes@[c as int]@);
            }
            name_of_node(source, &nodes[c])
        },
        None => None,
    };
    let start = line_of_row(nodes[s].start_row);
    let end = line_of_row(nodes[s].end_row);
    let decisions = count_kinds(nodes, ends, spec, spec.decision_kinds, s);
    FunctionShape {
        file: text::copy_text(file),
        name: match named {
            Some(n) => n,
            None => text::copy_text("<anonymous>"),
        },
        start_line: start,
        line_count: count_code_lines(kinds, start, end),
        cyclomatic: 1 + decisions,
        cognitive: weigh_decisions(nodes, ends, spec, s),
        nargs: count_params(nodes, ends, i),
        nexits: count_kinds(nodes, ends, spec, spec.exit_kinds, s),
        halstead: count_tokens(nodes, ends, source, spec, s),
        language: syntax::name_of_grammar(spec.grammar),
    }
}

/// Measures the functions of a source, given the nodes of its syntax tree.
pub fn measure_functions(spec: &LangSpec, file: &str, source: &str, nodes: &[SyntaxNode]) -> (r: Vec<
    FunctionShape,
>)
    ensures
        order::models(r@) == shapes(
            *spec,
            file@,
            source@,
            syntax::node_models(nodes@),
            nodes@.len() as int,
        ),
{
    let ghost ns = syntax::node_models(nodes@);
    let ends = syntax::subtree_ends(nodes);
    let kinds = classify_file_lines(source, spec.grammar);
    let n: usize = nodes.len();
    let mut out: Vec<FunctionShape> = Vec::new();
    let mut i: usize = 0;
    proof {
        assert(order::models(out@) =~= Seq::empty());
    }
    while i < n
        invariant
            n == nodes@.len(),
            ns == syntax::node_models(nodes@),
            syntax::are_ends(ends@, ns),
            kinds@ == source_lines(source@, spec.grammar),
            i <= n,
            order::models(out@) == shapes(*spec, file@, source@, ns, i as int),
        decreases n - i,
    {
        let ghost before = order::models(out@);
        proof {
            assert(ns[i as int] == nodes@[i as int]@);
        }
        if is_kind(&nodes[i], spec.function_kinds) {
            let f = measure(nodes, &ends, &kinds, spec, file, source, i);
            out.push(f);
            proof {
                assert(order::models(out@) =~= before.push(f@));
            }
        }
        i += 1;
    }
    out
}

/// The functions of a source; none where it cannot be parsed.
pub open spec fn analyzed(g: Grammar, file: Seq<char>, source: Seq<char>) -> Seq<
    FunctionShapeModel,
> {
    match syntax::parsed(g, source) {
        Some(ns) => shapes(lang_spec(g), file, source, ns, ns.len() as int),
        None => Seq::empty(),
    }
}

/// Parses a source and measures its functions.
pub fn analyze_source(g: Grammar, file: &str, source: &str) -> (r: Vec<FunctionShape>)
    ensures
        order::models(r@) == analyzed(g, file@, source@),
{
    match parse(g, source) {
        Some(nodes) => {
            proof {
                assert(syntax::node_models(nodes@).len() == nodes@.len());
            }
            measure_functions(&spec_of(g), file, source, &nodes)
        },
        None => {
            let none: Vec<FunctionShape> = Vec::new();
            proof {
                assert(order::models(none@) =~= Seq::empty());
            }
            none
        },
    }
}

/// The functions of a file of the tree: none, unless it is text in a language
/// that can be parsed.
pub open spec fn functions_of(path: Seq<char>, data: Seq<u8>) -> Seq<FunctionShapeModel> {
    match (syntax::grammar_of(path), blob::text_of(data)) {
        (Some(g), Some(source)) => analyzed(g, path, source),
        _ => Seq::empty(),
    }
}

pub fn inspect_blob(path: &str, data: &[u8]) -> (r: Vec<FunctionShape>)
    ensures
        order::models(r@) == functions_of(path@, data@),
{
    if let Some(g) = syntax::grammar_for_path(path) {
        if let Some(source) = blob::as_text(data) {
            return analyze_source(g, path, source);
        }
    }
    let none: Vec<FunctionShape> = Vec::new();
    proof {
        assert(order::models(none@) =~= Seq::empty());
    }
    none
}

// ---------------------------------------------------------------------------
// The report
// ---------------------------------------------------------------------------

/// At most this many functions are kept.
pub const MAX_METRICS: usize = 200;

/// A measured function with its maintainability index.
#[derive(Debug)]
pub struct FunctionMetric {
    pub shape: FunctionShape,
    pub mi: u32,
}

pub struct FunctionMetricModel {
    pub shape: FunctionShapeModel,
    pub mi: int,
}

impl View for FunctionMetric {
    type V = FunctionMetricModel;

    open spec fn view(&self) -> FunctionMetricModel {
        FunctionMetricModel { shape: self.shape@, mi: self.mi as int }
    }
}

/// The most complex first.
impl Ranked for FunctionMetric {
    open spec fn le(a: FunctionMetricModel, b: FunctionMetricModel) -> bool {
        a.shape.cyclomatic >= b.shape.cyclomatic
    }

    proof fn le_total(a: FunctionMetricModel, b: FunctionMetricModel) {
    }

    proof fn le_transitive(
        a: FunctionMetricModel,
        b: FunctionMetricModel,
        c: FunctionMetricModel,
    ) {
    }

    fn not_after(&self, other: &FunctionMetric) -> (r: bool) {
        self.shape.cyclomatic >= other.shape.cyclomatic
    }
}

/// What to do about a function of that complexity.
pub open spec fn advice(cc: int) -> MessageModel {
    if cc <= 5 {
        MessageModel::of(messages::COMPLEXITY_RECOMMENDATION_SIMPLE@)
    } else if cc <= 10 {
        MessageModel::of(messages::COMPLEXITY_RECOMMENDATION_OK@)
    } else if cc <= 20 {
        MessageModel::of(messages::COMPLEXITY_RECOMMENDATION_HIGH@).severe(
            Severity::Warning,
        ).with_number("cyclomatic"@, cc)
    } else {
        MessageModel::of(messages::COMPLEXITY_RECOMMENDATION_VERY_HIGH@).severe(
            Severity::Error,
        ).with_number("cyclomatic"@, cc)
    }
}

pub fn classify(cc: u64) -> (r: LocalizedMessage)
    ensures
        r@ == advice(cc as int),
{
    if cc <= 5 {
        LocalizedMessage::code(messages::COMPLEXITY_RECOMMENDATION_SIMPLE)
    } else if cc <= 10 {
        LocalizedMessage::code(messages::COMPLEXITY_RECOMMENDATION_OK)
    } else if cc <= 20 {
        LocalizedMessage::code(messages::COMPLEXITY_RECOMMENDATION_HIGH).with_severity(
            Severity::Warning,
        ).with_param("cyclomatic", cc)
    } else {
        LocalizedMessage::code(messages::COMPLEXITY_RECOMMENDATION_VERY_HIGH).with_severity(
            Severity::Error,
        ).with_param("cyclomatic", cc)
    }
}

impl Row for FunctionMetric {
    open spec fn entry(m: FunctionMetricModel) -> EntryModel {
        EntryModel {
            key: m.shape.file + "::"@ + m.shape.name + ":"@ + text::decimal(
                m.shape.start_line as nat,
            ),
            values: Map::empty().insert("cyclomatic"@, ValueModel::Count(m.shape.cyclomatic)).insert(
                "cognitive"@,
                ValueModel::Count(m.shape.cognitive),
            ).insert("mi"@, ValueModel::Count(m.mi)).insert(
                "lines"@,
                ValueModel::Count(m.shape.line_count),
            ).insert("args"@, ValueModel::Count(m.shape.nargs)).insert(
                "exits"@,
                ValueModel::Count(m.shape.nexits),
            ).insert("language"@, ValueModel::Text(m.shape.language)).insert(
                "recommendation"@,
                ValueModel::Message(advice(m.shape.cyclomatic)),
            ),
        }
    }

    fn to_entry(self) -> (r: MetricEntry) {
        let s = self.shape;
        let place = text::cat3(s.file.as_str(), "::", s.name.as_str());
        let number = text::decimal_text(s.start_line as u64);
        let key = text::cat3(place.as_str(), ":", number.as_str());
        let mut values = Values::new();
        values.insert("cyclomatic", MetricValue::Count(s.cyclomatic));
        values.insert("cognitive", MetricValue::Count(s.cognitive));
        values.insert("mi", MetricValue::Count(self.mi as u64));
        values.insert("lines", MetricValue::Count(s.line_count));
        values.insert("args", MetricValue::Count(s.nargs));
        values.insert("exits", MetricValue::Count(s.nexits));
        values.insert("language", MetricValue::Text(text::copy_text(s.language)));
        values.insert("recommendation", MetricValue::Message(classify(s.cyclomatic)));
        MetricEntry { key, values }
    }
}

/// The place of the first of the least complex functions.
pub open spec fn weakest(s: Seq<FunctionMetricModel>) -> int
    decreases s.len(),
{
    if s.len() <= 1 {
        0
    } else {
        let w = weakest(s.drop_last());
        if s.last().shape.cyclomatic < s[w].shape.cyclomatic {
            s.len() - 1
        } else {
            w
        }
    }
}

/// The kept functions when one more comes: it is kept if there is room, or if
/// it is more complex than the weakest, which then goes.
pub open spec fn kept_with(s: Seq<FunctionMetricModel>, m: FunctionMetricModel) -> Seq<
    FunctionMetricModel,
> {
    if s.len() < MAX_METRICS {
        s.push(m)
    } else if m.shape.cyclomatic > s[weakest(s)].shape.cyclomatic {
        s.remove(weakest(s)).push(m)
    } else {
        s
    }
}

/// What is kept of all functions that came.
pub open spec fn kept_of(all: Seq<FunctionMetricModel>) -> Seq<FunctionMetricModel>
    decreases all.len(),
{
    if all.len() == 0 {
        Seq::empty()
    } else {
        kept_with(kept_of(all.drop_last()), all.last())
    }
}

pub open spec fn at_least(t: int) -> spec_fn(FunctionMetricModel) -> bool {
    |m: FunctionMetricModel| m.shape.cyclomatic >= t
}

pub open spec fn least(a: int, b: int) -> int {
    if a < b {
        a
    } else {
        b
    }
}

proof fn lemma_weakest(s: Seq<FunctionMetricModel>)
    requires
        s.len() > 0,
    ensures
        0 <= weakest(s) < s.len(),
        forall|i: int|
            0 <= i < s.len() ==> s[weakest(s)].shape.cyclomatic <= (
            #[trigger] s[i]).shape.cyclomatic,
    decreases s.len(),
{
    if s.len() > 1 {
        let init = s.drop_last();
        lemma_weakest(init);
        assert forall|i: int| 0 <= i < s.len() implies s[weakest(s)].shape.cyclomatic <= (
        #[trigger] s[i]).shape.cyclomatic by {
            assert(s[weakest(init)] == init[weakest(init)]);
            if i < init.len() {
                assert(init[i] == s[i]);
            }
        }
    }
}

proof fn lemma_count_removed(
    s: Seq<FunctionMetricModel>,
    f: spec_fn(FunctionMetricModel) -> bool,
    k: int,
)
    requires
        0 <= k < s.len(),
    ensures
        fold::count(s, f) == fold::count(s.remove(k), f) + if f(s[k]) {
            1nat
        } else {
            0nat
        },
    decreases s.len(),
{
    if k == s.len() - 1 {
        assert(s.remove(k) =~= s.drop_last());
    } else {
        lemma_count_removed(s.drop_last(), f, k);
        assert(s.remove(k).drop_last() =~= s.drop_last().remove(k));
        assert(s.remove(k).last() == s.last());
    }
}

proof fn lemma_count_all(
    s: Seq<FunctionMetricModel>,
    f: spec_fn(FunctionMetricModel) -> bool,
)
    requires
        forall|i: int| 0 <= i < s.len() ==> f(#[trigger] s[i]),
    ensures
        fold::count(s, f) == s.len(),
    decreases s.len(),
{
    if s.len() > 0 {
        let init = s.drop_last();
        assert forall|i: int| 0 <= i < init.len() implies f(#[trigger] init[i]) by {
            assert(init[i] == s[i]);
        }
        lemma_count_all(init, f);
        assert(f(s[s.len() - 1]));
    }
}

/// The kept functions are the most complex of all that came: for every bound,
/// as many are kept that reach it as came, up to the limit.
pub proof fn most_complex_are_kept(all: Seq<FunctionMetricModel>, t: int)
    ensures
        fold::count(kept_of(all), at_least(t)) == least(
            fold::count(all, at_least(t)) as int,
            MAX_METRICS as int,
        ),
        kept_of(all).len() == least(all.len() as int, MAX_METRICS as int),
    decreases all.len(),
{
    if all.len() > 0 {
        let init = all.drop_last();
        most_complex_are_kept(init, t);
        let s = kept_of(init);
        let m = all.last();
        let f = at_least(t);
        fold::lemma_count_bound(s, f);
        if s.len() < MAX_METRICS {
            assert(s.push(m).drop_last() =~= s);
        } else {
            lemma_weakest(s);
            let w = weakest(s);
            if t <= s[w].shape.cyclomatic {
                lemma_count_all(s, f);
            }
            lemma_count_removed(s, f, w);
            fold::lemma_count_bound(s.remove(w), f);
            assert(s.remove(w).push(m).drop_last() =~= s.remove(w));
        }
    }
}

pub open spec fn complexity_columns() -> Seq<Seq<char>> {
    seq![
        "cyclomatic"@,
        "cognitive"@,
        "mi"@,
        "lines"@,
        "args"@,
        "exits"@,
        "language"@,
        "recommendation"@,
    ]
}

pub open spec fn complexity_report(s: Seq<FunctionMetricModel>) -> ResultModel {
    types::report_of(
        "complexity"@,
        complexity_columns(),
        report::entries_of::<FunctionMetric>(order::sort_ranked::<FunctionMetric>(s)),
    )
}

#[derive(Debug)]
pub struct ComplexityCollector {
    pub metrics: Vec<FunctionMetric>,
}

impl Default for ComplexityCollector {
    fn default() -> (r: Self)
        ensures
            r.metrics@.len() == 0,
    {
        ComplexityCollector::new()
    }
}

impl ComplexityCollector {
    pub fn new() -> (r: Self)
        ensures
            r.metrics@.len() == 0,
    {
        ComplexityCollector { metrics: Vec::new() }
    }

    pub fn name(&self) -> (r: &str)
        ensures
            r@ == "complexity"@,
    {
        "complexity"
    }

    fn find_weakest(&self) -> (r: usize)
        requires
            self.metrics@.len() > 0,
        ensures
            r == weakest(order::models(self.metrics@)),
            r < self.metrics@.len(),
    {
        let ghost all = order::models(self.metrics@);
        let n: usize = self.metrics.len();
        let mut w: usize = 0;
        let mut i: usize = 1;
        while i < n
            invariant
                n == self.metrics@.len(),
                all == order::models(self.metrics@),
                1 <= i <= n,
                w < i,
                w == weakest(all.take(i as int)),
            decreases n - i,
        {
            proof {
                assert(all.take(i + 1).drop_last() =~= all.take(i as int));
                assert(all.take(i + 1).last() == self.metrics@[i as int]@);
                assert(all.take(i + 1)[w as int] == self.metrics@[w as int]@);
            }
            if self.metrics[i].shape.cyclomatic < self.metrics[w].shape.cyclomatic {
                w = i;
            }
            i += 1;
        }
        proof {
            assert(all.take(n as int) =~= all);
        }
        w
    }

    /// Keeps the function if it is among the most complex so far.
    pub fn push_bounded(&mut self, metric: FunctionMetric)
        ensures
            order::models(final(self).metrics@) == kept_with(
                order::models(old(self).metrics@),
                metric@,
            ),
    {
        let ghost all = order::models(self.metrics@);
        if self.metrics.len() < MAX_METRICS {
            self.metrics.push(metric);
            proof {
                assert(order::models(self.metrics@) =~= all.push(metric@));
            }
        } else {
            let w = self.find_weakest();
            if metric.shape.cyclomatic > self.metrics[w].shape.cyclomatic {
                let _ = self.metrics.remove(w);
                proof {
                    assert(order::models(self.metrics@) =~= all.remove(w as int));
                }
                self.metrics.push(metric);
                proof {
                    assert(order::models(self.metrics@) =~= all.remove(w as int).push(metric@));
                }
            }
        }
    }

    /// Reports the kept functions and forgets them.
    pub fn finalize(&mut self) -> (r: MetricResult)
        ensures
            r@ == complexity_report(order::models(old(self).metrics@)),
            final(self).metrics@.len() == 0,
    {
        let mut list: Vec<FunctionMetric> = Vec::new();
        std::mem::swap(&mut list, &mut self.metrics);
        let entries = report::to_entries(order::sort_rows(list));
        let columns = [
            "cyclomatic",
            "cognitive",
            "mi",
            "lines",
            "args",
            "exits",
            "language",
            "recommendation",
        ];
        proof {
            assert(types::str_views(columns@) =~= complexity_columns());
        }
        MetricResult::report("complexity", &columns, entries)
    }
}

/// One more line of a function counts where it is code.
pub proof fn lines_of_code_are_counted(kinds: Seq<LineType>, start: int, end: int)
    requires
        1 <= start <= end + 1,
        end < kinds.len(),
    ensures
        code_lines(kinds, start, start - 1) == 0,
        code_lines(kinds, start, end + 1) == code_lines(kinds, start, end) + if kinds[end]
            == LineType::Code {
            1int
        } else {
            0
        },
{
    let f = line_classifier::is_kind(LineType::Code);
    let longer = kinds.subrange(start - 1, end + 1);
    assert(longer.drop_last() =~= kinds.subrange(start - 1, end));
    assert(longer.last() == kinds[end]);
    reveal_with_fuel(fold::count, 2);
    assert(fold::count(longer, f) == fold::count(longer.drop_last(), f) + if f(kinds[end]) {
        1nat
    } else {
        0nat
    });
    if start == end + 1 {
        assert(longer.drop_last() =~= Seq::empty());
        assert(fold::count(longer.drop_last(), f) == 0);
    }
}

/// The children of a node that the grammar names.
pub open spec fn named_marks(ns: Seq<NodeModel>, i: int) -> spec_fn(int) -> int {
    |j: int|
        if syntax::is_child(ns, i, j) && ns[j].named {
            1
        } else {
            0
        }
}

proof fn lemma_named_from(ns: Seq<NodeModel>, i: int, j: int)
    requires
        0 <= i < ns.len(),
        i < j <= syntax::end_of(ns, i),
    ensures
        named_from(ns, i, j) == sum_over(named_marks(ns, i), j, syntax::end_of(ns, i)),
    decreases syntax::end_of(ns, i) - j,
{
    let end = syntax::end_of(ns, i);
    if j < end {
        lemma_named_from(ns, i, j + 1);
    }
}

/// A function has as many parameters as its list of them has children that the
/// grammar names; without a list it has none.
pub proof fn parameters_are_counted(ns: Seq<NodeModel>, i: int)
    requires
        0 <= i < ns.len(),
    ensures
        match list_from(ns, i, i + 1) {
            Some(c) => i < c < syntax::end_of(ns, i) && text::contains(ns[c].kind, "parameter"@)
                && params(ns, i) == sum_over(named_marks(ns, c), c + 1, syntax::end_of(ns, c)),
            None => params(ns, i) == 0,
        },
{
    syntax::lemma_end_of(ns, i);
    parameters_stand_outside_the_body(ns, i, i + 1);
    match list_from(ns, i, i + 1) {
        Some(c) => {
            syntax::lemma_end_of(ns, c);
            lemma_named_from(ns, c, c + 1);
        },
        None => {},
    }
}

/// Each token counts once: as an operand where the grammar names it, else as an
/// operator; a token that is new counts among the different ones.
pub proof fn tokens_are_operands_or_operators(t: Tokens, s: Seq<char>)
    requires
        table::ascending(t.operators),
        table::ascending(t.operands),
        tally::sum(t.operators) < u64::MAX,
        tally::sum(t.operands) < u64::MAX,
    ensures
        ({
            let was = halstead_of(t);
            let named = halstead_of(t.with(true, s));
            let other = halstead_of(t.with(false, s));
            &&& named.operands == was.operands + 1 && named.operators == was.operators
            &&& other.operators == was.operators + 1 && other.operands == was.operands
            &&& named.distinct_operators == was.distinct_operators
            &&& other.distinct_operands == was.distinct_operands
            &&& table::keys(t.operands).contains(s) ==> named.distinct_operands
                == was.distinct_operands
            &&& !table::keys(t.operands).contains(s) ==> named.distinct_operands
                == was.distinct_operands + 1
            &&& table::keys(t.operators).contains(s) ==> other.distinct_operators
                == was.distinct_operators
            &&& !table::keys(t.operators).contains(s) ==> other.distinct_operators
                == was.distinct_operators + 1
            &&& was.length() == was.operators + was.operands
            &&& was.vocabulary() == was.distinct_operators + was.distinct_operands
        }),
{
    tally::amount_within_sum(t.operators, s);
    tally::amount_within_sum(t.operands, s);
    tally::sum_of_credited(t.operators, s, 1);
    tally::sum_of_credited(t.operands, s, 1);
    lemma_put_len(t.operators, s, (tally::amount(t.operators, s) + 1) as u64);
    lemma_put_len(t.operands, s, (tally::amount(t.operands, s) + 1) as u64);
}

proof fn lemma_put_len(m: Seq<(Seq<char>, u64)>, k: Seq<char>, v: u64)
    requires
        table::ascending(m),
    ensures
        table::put(m, k, v).len() == m.len() + if table::keys(m).contains(k) {
            0int
        } else {
            1
        },
    decreases m.len(),
{
    if m.len() > 0 {
        let front = m.drop_last();
        assert(table::ascending(front)) by {
            assert(forall|i: int| 0 <= i < front.len() ==> front[i] == m[i]);
        }
        lemma_put_len(front, k, v);
        let keys = table::keys(m);
        assert(keys[m.len() - 1] == m.last().0);
        assert(forall|i: int| 0 <= i < front.len() ==> table::keys(front)[i] == keys[i]);
        if m.last().0 != k {
            if text::text_le(m.last().0, k) {
                table::lemma_absent_above(m, k);
                table::lemma_lookup_some(m, k);
            } else if keys.contains(k) {
                let i = choose|i: int| 0 <= i < keys.len() && keys[i] == k;
                assert(table::keys(front)[i] == k);
            } else if table::keys(front).contains(k) {
                let i = choose|i: int| 0 <= i < front.len() && table::keys(front)[i] == k;
                assert(keys[i] == k);
            }
        }
    } else {
        assert(!table::keys(m).contains(k));
    }
}

/// A node is a token where it has no parts and its text is not blank.
pub proof fn tokens_have_no_parts(ns: Seq<NodeModel>, source: Seq<char>, j: int)
    ensures
        syntax::end_of(ns, j) != j + 1 ==> token(ns, source, j) is None,
        syntax::end_of(ns, j) == j + 1 ==> (syntax::node_name(source, ns[j]) matches Some(s) ==> (
        if exists|i: int| 0 <= i < s.len() && !text::is_white(#[trigger] s[i]) {
            token(ns, source, j) == Some(s)
        } else {
            token(ns, source, j) is None
        })),
{
}

/// Nodes of these kinds are comments.
pub proof fn comments_are_these(n: NodeModel)
    ensures
        is_comment()(n) <==> n.kind == "comment"@ || n.kind == "line_comment"@ || n.kind
            == "block_comment"@ || n.kind == "documentation_comment"@ || n.kind == "doc_comment"@,
{
}

/// Every function of a source is measured, and nothing else.
pub proof fn every_function_is_measured(
    spec: LangSpec,
    file: Seq<char>,
    source: Seq<char>,
    ns: Seq<NodeModel>,
    n: int,
    x: FunctionShapeModel,
)
    requires
        0 <= n <= ns.len(),
    ensures
        shapes(spec, file, source, ns, n).contains(x) <==> exists|i: int|
            0 <= i < n && spec.is_function()(#[trigger] ns[i]) && x == shape_at(
                spec,
                file,
                source,
                ns,
                i,
            ),
    decreases n,
{
    if n > 0 {
        every_function_is_measured(spec, file, source, ns, n - 1, x);
        let was = shapes(spec, file, source, ns, n - 1);
        let is = shapes(spec, file, source, ns, n);
        if is.contains(x) {
            let i = choose|i: int| 0 <= i < is.len() && is[i] == x;
            if i < was.len() {
                assert(was[i] == x);
            } else {
                assert(spec.is_function()(ns[n - 1]));
            }
        }
        if exists|i: int|
            0 <= i < n && spec.is_function()(#[trigger] ns[i]) && x == shape_at(
                spec,
                file,
                source,
                ns,
                i,
            ) {
            let k = choose|i: int|
                0 <= i < n && spec.is_function()(#[trigger] ns[i]) && x == shape_at(
                    spec,
                    file,
                    source,
                    ns,
                    i,
                );
            if k < n - 1 {
                let i = choose|i: int| 0 <= i < was.len() && was[i] == x;
                assert(is[i] == x);
            } else {
                assert(is[is.len() - 1] == x);
            }
        }
    }
}

/// What is measured of a function: in Dart, where the body stands beside the
/// signature, of both, elsewhere of the function itself.
pub proof fn a_shape_measures_its_function(
    spec: LangSpec,
    file: Seq<char>,
    source: Seq<char>,
    ns: Seq<NodeModel>,
    i: int,
)
    ensures
        ({
            let x = shape_at(spec, file, source, ns, i);
            let s = scope(ns, spec.grammar, i);
            let lines = line_classifier::line_kinds(
                source,
                language_from(syntax::grammar_name(spec.grammar), 0),
            );
            &&& spec.grammar != Grammar::Dart ==> s == i
            &&& spec.grammar == Grammar::Dart && syntax::parent(ns, i) is Some && (ns[i].kind
                == "function_signature"@ || ns[i].kind == "method_signature"@ || ns[i].kind
                == "getter_signature"@ || ns[i].kind == "setter_signature"@) ==> s
                == syntax::parent(ns, i)->0
            &&& x.file == file
            &&& function_name(ns, source, i) matches Some(name) ==> x.name == name
            &&& function_name(ns, source, i) is None ==> x.name == "<anonymous>"@
            &&& x.start_line == syntax::line_of(ns[s].start_row)
            &&& x.line_count == code_lines(
                lines,
                syntax::line_of(ns[s].start_row),
                syntax::line_of(ns[s].end_row),
            )
            &&& x.cyclomatic == cyclomatic(ns, spec, s)
            &&& x.cognitive == cognitive(ns, spec, s)
            &&& x.nargs == params(ns, i)
            &&& x.nexits == own_count(ns, spec, spec.is_exit(), s)
            &&& x.halstead == halstead(ns, source, spec, s)
            &&& x.language == syntax::grammar_name(spec.grammar)
        }),
{
}

/// The more complex a function, the more urgent is what is said of it.
pub proof fn complexity_decides_the_advice(cc: int)
    ensures
        cc <= 5 ==> advice(cc).code == messages::COMPLEXITY_RECOMMENDATION_SIMPLE@ && advice(
            cc,
        ).severity is None,
        5 < cc <= 10 ==> advice(cc).code == messages::COMPLEXITY_RECOMMENDATION_OK@ && advice(
            cc,
        ).severity is None,
        10 < cc <= 20 ==> advice(cc).code == messages::COMPLEXITY_RECOMMENDATION_HIGH@ && advice(
            cc,
        ).severity == Some(Severity::Warning),
        20 < cc ==> advice(cc).code == messages::COMPLEXITY_RECOMMENDATION_VERY_HIGH@ && advice(
            cc,
        ).severity == Some(Severity::Error),
        10 < cc ==> advice(cc).params == seq![("cyclomatic"@, types::ParamModel::Number(cc))],
{
    assert(10 < cc ==> advice(cc).params =~= seq![("cyclomatic"@, types::ParamModel::Number(cc))]);
}

/// All functions are kept while there are no more than two hundred, and never
/// more.
pub proof fn two_hundred_are_kept(all: Seq<FunctionMetricModel>)
    ensures
        all.len() <= 200 ==> kept_of(all) == all,
        kept_of(all).len() <= 200,
    decreases all.len(),
{
    most_complex_are_kept(all, 0);
    if all.len() > 0 {
        two_hundred_are_kept(all.drop_last());
        if all.len() <= 200 {
            assert(kept_of(all) =~= all);
        }
    } else {
        assert(kept_of(all) =~= all);
    }
}

/// The one that goes is the least complex, the first of those.
pub proof fn the_weakest_is_least(s: Seq<FunctionMetricModel>)
    requires
        s.len() > 0,
    ensures
        0 <= weakest(s) < s.len(),
        forall|i: int|
            0 <= i < s.len() ==> s[weakest(s)].shape.cyclomatic <= (#[trigger] s[i]).shape.cyclomatic,
        forall|i: int|
            0 <= i < weakest(s) ==> s[weakest(s)].shape.cyclomatic < (#[trigger] s[i]).shape.cyclomatic,
    decreases s.len(),
{
    if s.len() > 1 {
        let front = s.drop_last();
        the_weakest_is_least(front);
        assert(forall|i: int| 0 <= i < front.len() ==> front[i] == s[i]);
        assert(s[s.len() - 1] == s.last());
        assert(s[weakest(front)] == front[weakest(front)]);
    }
}

/// Every function that was kept is shown with its measures.
pub proof fn every_function_is_shown(s: Seq<FunctionMetricModel>, k: int)
    requires
        0 <= k < s.len(),
    ensures
        exists|i: int|
            0 <= i < complexity_report(s).entries.len() && ({
                let e = #[trigger] complexity_report(s).entries[i];
                let r = s[k];
                &&& e.key == r.shape.file + "::"@ + r.shape.name + ":"@ + text::decimal(r.shape.start_line as nat)
                &&& e.values["cyclomatic"@] == ValueModel::Count(r.shape.cyclomatic)
                &&& e.values["cognitive"@] == ValueModel::Count(r.shape.cognitive)
                &&& e.values["mi"@] == ValueModel::Count(r.mi)
                &&& e.values["lines"@] == ValueModel::Count(r.shape.line_count)
                &&& e.values["args"@] == ValueModel::Count(r.shape.nargs)
                &&& e.values["exits"@] == ValueModel::Count(r.shape.nexits)
                &&& e.values["language"@] == ValueModel::Text(r.shape.language)
                &&& e.values["recommendation"@] == ValueModel::Message(advice(r.shape.cyclomatic))
            }),
{
    let x = s[k];
    let ranked = order::sort_ranked::<FunctionMetric>(s);
    assert(s[k] == x);
    order::sort_same_members::<FunctionMetric>(s);
    order::sort_keeps_elements::<FunctionMetric>(s);
    assert(s.contains(x));
    assert(ranked.contains(x));
    let i = choose|i: int| 0 <= i < ranked.len() && ranked[i] == x;
    assert(complexity_report(s).entries[i] == FunctionMetric::entry(x));
    reveal_strlit("cyclomatic");
    reveal_strlit("cognitive");
    reveal_strlit("mi");
    reveal_strlit("lines");
    reveal_strlit("args");
    reveal_strlit("exits");
    reveal_strlit("language");
    reveal_strlit("recommendation");
    assert("cyclomatic"@.len() != "cognitive"@.len());
    assert("cyclomatic"@.len() != "mi"@.len());
    assert("cyclomatic"@.len() != "lines"@.len());
    assert("cyclomatic"@.len() != "args"@.len());
    assert("cyclomatic"@.len() != "exits"@.len());
    assert("cyclomatic"@.len() != "language"@.len());
    assert("cyclomatic"@.len() != "recommendation"@.len());
    assert("cognitive"@.len() != "mi"@.len());
    assert("cognitive"@.len() != "lines"@.len());
    assert("cognitive"@.len() != "args"@.len());
    assert("cognitive"@.len() != "exits"@.len());
    assert("cognitive"@.len() != "language"@.len());
    assert("cognitive"@.len() != "recommendation"@.len());
    assert("mi"@.len() != "lines"@.len());
    assert("mi"@.len() != "args"@.len());
    assert("mi"@.len() != "exits"@.len());
    assert("mi"@.len() != "language"@.len());
    assert("mi"@.len() != "recommendation"@.len());
    assert("lines"@.len() != "args"@.len());
    assert("lines"@[0] != "exits"@[0]);
    assert("lines"@.len() != "language"@.len());
    assert("lines"@.len() != "recommendation"@.len());
    assert("args"@.len() != "exits"@.len());
    assert("args"@.len() != "language"@.len());
    assert("args"@.len() != "recommendation"@.len());
    assert("exits"@.len() != "language"@.len());
    assert("exits"@.len() != "recommendation"@.len());
    assert("language"@.len() != "recommendation"@.len());
}

/// Whatever is shown is a function that was kept.
pub proof fn only_functions_are_shown(s: Seq<FunctionMetricModel>, i: int)
    requires
        0 <= i < complexity_report(s).entries.len(),
    ensures
        exists|k: int|
            0 <= k < s.len() && ({
                let e = complexity_report(s).entries[i];
                let r = #[trigger] s[k];
                &&& e.key == r.shape.file + "::"@ + r.shape.name + ":"@ + text::decimal(r.shape.start_line as nat)
                &&& e.values["cyclomatic"@] == ValueModel::Count(r.shape.cyclomatic)
                &&& e.values["cognitive"@] == ValueModel::Count(r.shape.cognitive)
                &&& e.values["mi"@] == ValueModel::Count(r.mi)
                &&& e.values["lines"@] == ValueModel::Count(r.shape.line_count)
                &&& e.values["args"@] == ValueModel::Count(r.shape.nargs)
                &&& e.values["exits"@] == ValueModel::Count(r.shape.nexits)
                &&& e.values["language"@] == ValueModel::Text(r.shape.language)
                &&& e.values["recommendation"@] == ValueModel::Message(advice(r.shape.cyclomatic))
            }),
{
    let ranked = order::sort_ranked::<FunctionMetric>(s);
    let x = ranked[i];
    order::sort_same_members::<FunctionMetric>(s);
    order::sort_keeps_elements::<FunctionMetric>(s);
    assert(ranked.contains(x));
    assert(s.contains(x));
    assert(complexity_report(s).entries[i] == FunctionMetric::entry(x));
    let k = choose|k: int| 0 <= k < s.len() && s[k] == x;
    assert(s[k] == s[k]);
    reveal_strlit("cyclomatic");
    reveal_strlit("cognitive");
    reveal_strlit("mi");
    reveal_strlit("lines");
    reveal_strlit("args");
    reveal_strlit("exits");
    reveal_strlit("language");
    reveal_strlit("recommendation");
    assert("cyclomatic"@.len() != "cognitive"@.len());
    assert("cyclomatic"@.len() != "mi"@.len());
    assert("cyclomatic"@.len() != "lines"@.len());
    assert("cyclomatic"@.len() != "args"@.len());
    assert("cyclomatic"@.len() != "exits"@.len());
    assert("cyclomatic"@.len() != "language"@.len());
    assert("cyclomatic"@.len() != "recommendation"@.len());
    assert("cognitive"@.len() != "mi"@.len());
    assert("cognitive"@.len() != "lines"@.len());
    assert("cognitive"@.len() != "args"@.len());
    assert("cognitive"@.len() != "exits"@.len());
    assert("cognitive"@.len() != "language"@.len());
    assert("cognitive"@.len() != "recommendation"@.len());
    assert("mi"@.len() != "lines"@.len());
    assert("mi"@.len() != "args"@.len());
    assert("mi"@.len() != "exits"@.len());
    assert("mi"@.len() != "language"@.len());
    assert("mi"@.len() != "recommendation"@.len());
    assert("lines"@.len() != "args"@.len());
    assert("lines"@[0] != "exits"@[0]);
    assert("lines"@.len() != "language"@.len());
    assert("lines"@.len() != "recommendation"@.len());
    assert("args"@.len() != "exits"@.len());
    assert("args"@.len() != "language"@.len());
    assert("args"@.len() != "recommendation"@.len());
    assert("exits"@.len() != "language"@.len());
    assert("exits"@.len() != "recommendation"@.len());
    assert("language"@.len() != "recommendation"@.len());
}

/// The most complex functions stand first.
pub proof fn most_complex_first(s: Seq<FunctionMetricModel>, i: int, j: int)
    requires
        0 <= i < j < complexity_report(s).entries.len(),
    ensures
        ({
            let a = complexity_report(s).entries[i].values;
            let b = complexity_report(s).entries[j].values;
            a["cyclomatic"@]->Count_0 >= b["cyclomatic"@]->Count_0
        }),
{
    let ranked = order::sort_ranked::<FunctionMetric>(s);
    order::sort_orders::<FunctionMetric>(s);
    assert(complexity_report(s).entries[i] == FunctionMetric::entry(ranked[i]));
    assert(complexity_report(s).entries[j] == FunctionMetric::entry(ranked[j]));
    assert(FunctionMetric::le(ranked[i], ranked[j]));
    reveal_strlit("cyclomatic");
    reveal_strlit("cognitive");
    reveal_strlit("mi");
    reveal_strlit("lines");
    reveal_strlit("args");
    reveal_strlit("exits");
    reveal_strlit("language");
    reveal_strlit("recommendation");
    assert("cyclomatic"@.len() != "cognitive"@.len());
    assert("cyclomatic"@.len() != "mi"@.len());
    assert("cyclomatic"@.len() != "lines"@.len());
    assert("cyclomatic"@.len() != "args"@.len());
    assert("cyclomatic"@.len() != "exits"@.len());
    assert("cyclomatic"@.len() != "language"@.len());
    assert("cyclomatic"@.len() != "recommendation"@.len());
    assert("cognitive"@.len() != "mi"@.len());
    assert("cognitive"@.len() != "lines"@.len());
    assert("cognitive"@.len() != "args"@.len());
    assert("cognitive"@.len() != "exits"@.len());
    assert("cognitive"@.len() != "language"@.len());
    assert("cognitive"@.len() != "recommendation"@.len());
    assert("mi"@.len() != "lines"@.len());
    assert("mi"@.len() != "args"@.len());
    assert("mi"@.len() != "exits"@.len());
    assert("mi"@.len() != "language"@.len());
    assert("mi"@.len() != "recommendation"@.len());
    assert("lines"@.len() != "args"@.len());
    assert("lines"@[0] != "exits"@[0]);
    assert("lines"@.len() != "language"@.len());
    assert("lines"@.len() != "recommendation"@.len());
    assert("args"@.len() != "exits"@.len());
    assert("args"@.len() != "language"@.len());
    assert("args"@.len() != "recommendation"@.len());
    assert("exits"@.len() != "language"@.len());
    assert("exits"@.len() != "recommendation"@.len());
    assert("language"@.len() != "recommendation"@.len());
}

/// The report has these columns, in this order.
pub proof fn the_columns_are_these(s: Seq<FunctionMetricModel>)
    ensures
        complexity_report(s).name == "complexity"@,
        complexity_report(s).columns.len() == 8,
        complexity_report(s).columns[0].value == "cyclomatic"@,
        complexity_report(s).columns[1].value == "cognitive"@,
        complexity_report(s).columns[2].value == "mi"@,
        complexity_report(s).columns[3].value == "lines"@,
        complexity_report(s).columns[4].value == "args"@,
        complexity_report(s).columns[5].value == "exits"@,
        complexity_report(s).columns[6].value == "language"@,
        complexity_report(s).columns[7].value == "recommendation"@,
{
}

/// The limits that hold here.
pub proof fn the_limits_are_these()
    ensures
        MAX_METRICS == 200,
{
}

/// The functions of a file are those of its parsed text; other files have none.
pub proof fn only_parsed_text_is_measured(path: Seq<char>, data: Seq<u8>)
    ensures
        syntax::grammar_of(path) is None ==> functions_of(path, data).len() == 0,
        blob::text_of(data) is None ==> functions_of(path, data).len() == 0,
        syntax::grammar_of(path) is Some && blob::text_of(data) is Some ==> match syntax::parsed(
            syntax::grammar_of(path)->0,
            blob::text_of(data)->0,
        ) {
            Some(ns) => functions_of(path, data) == shapes(
                lang_spec(syntax::grammar_of(path)->0),
                path,
                blob::text_of(data)->0,
                ns,
                ns.len() as int,
            ),
            None => functions_of(path, data).len() == 0,
        },
{
}

/// Tokens are read one by one; what is apart, functions inside and comments, is
/// passed over as a whole.
pub proof fn tokens_are_read_one_by_one(
    ns: Seq<NodeModel>,
    source: Seq<char>,
    spec: LangSpec,
    t: Tokens,
    j: int,
    end: int,
)
    requires
        0 <= j < end <= ns.len(),
    ensures
        ({
            let apart = is_apart(spec);
            let next = tokens_from(ns, source, apart, t, j + 1, end);
            &&& spec.is_function()(ns[j]) || is_comment()(ns[j]) ==> tokens_from(
                ns,
                source,
                apart,
                t,
                j,
                end,
            ) == tokens_from(ns, source, apart, t, syntax::end_of(ns, j), end)
            &&& !spec.is_function()(ns[j]) && !is_comment()(ns[j]) && token(ns, source, j) is None
                ==> tokens_from(ns, source, apart, t, j, end) == next
            &&& !spec.is_function()(ns[j]) && !is_comment()(ns[j]) && token(ns, source, j) is Some
                ==> tokens_from(ns, source, apart, t, j, end) == tokens_from(
                ns,
                source,
                apart,
                t.with(ns[j].named, token(ns, source, j)->0),
                j + 1,
                end,
            )
        }),
        tokens_from(ns, source, is_apart(spec), t, end, end) == t,
        halstead(ns, source, spec, j) == halstead_of(
            tokens_from(
                ns,
                source,
                is_apart(spec),
                Tokens { operators: Seq::empty(), operands: Seq::empty() },
                j + 1,
                syntax::end_of(ns, j),
            ),
        ),
{
}

/// The lines of a source are told by the first language of its grammar's name.
pub proof fn lines_are_told_by_the_language(name: Seq<char>, i: int)
    requires
        0 <= i,
    ensures
        match language_from(name, i) {
            Some(l) => l.name@ == name && exists|k: int|
                i <= k < data::language_table().len() && #[trigger] data::language_table()[k] == l
                    && forall|j: int|
                    i <= j < k ==> (#[trigger] data::language_table()[j]).name@ != name,
            None => forall|j: int|
                i <= j < data::language_table().len() ==> (
                #[trigger] data::language_table()[j]).name@ != name,
        },
    decreases data::language_table().len() - i,
{
    let t = data::language_table();
    if i < t.len() && t[i].name@ != name {
        lines_are_told_by_the_language(name, i + 1);
    } else if i < t.len() {
        assert(t[i] == t[i]);
    }
}

/// A function is called what its first child in the field `name` says; one without
/// such a child has no name.
pub proof fn functions_are_called_by_their_name(ns: Seq<NodeModel>, source: Seq<char>, i: int)
    requires
        0 <= i < ns.len(),
    ensures
        forall|c: int|
            #[trigger] syntax::is_child(ns, i, c) && ns[c].field == Some("name"@) && (forall|d: int|
                i < d < c && #[trigger] syntax::is_child(ns, i, d) ==> ns[d].field != Some("name"@))
                ==> function_name(ns, source, i) == syntax::node_name(source, ns[c]),
        (forall|c: int| #[trigger] syntax::is_child(ns, i, c) ==> ns[c].field != Some("name"@))
            ==> function_name(ns, source, i) is None,
{
    syntax::lemma_end_of(ns, i);
    syntax::first_child_is_first(ns, syntax::has_field("name"@), i, i + 1);
}

} // verus!
