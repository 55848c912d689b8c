//! Modules that change together.

use vstd::prelude::*;

use crate::analysis::source_filter;
use crate::analysis::source_filter::is_source_file;
use crate::double;
use crate::double::{Double, Num};
use crate::fold;
use crate::order;
use crate::order::Ranked;
use crate::report;
use crate::report::Row;
use crate::table;
use crate::table::TextMap;
use crate::tally;
use crate::text;
use crate::types;
use crate::types::{EntryModel, MessageModel, MetricEntry, MetricResult, MetricValue, ResultModel, ValueModel, Values};

verus! {

/// A module is a directory at most so many levels below the root.
pub const MODULE_DEPTH: usize = 2;

/// Pairs with fewer common changes are not reported.
pub const MIN_CO_CHANGES: u64 = 3;

pub const MAX_PAIRS: usize = 100;

/// The module of a file: the directory it lies in, cut to `depth` levels.
pub open spec fn module(path: Seq<char>, depth: int) -> Seq<char> {
    let dirs = text::split_on(path, '/').drop_last();
    if dirs.len() == 0 || depth <= 0 {
        "<root>"@
    } else {
        text::join(order::first_n(dirs, depth), "/"@)
    }
}

/// The module of a file: the directory it lies in, cut to `depth` levels.
pub fn module_of(path: &str, depth: usize) -> (r: String)
    ensures
        r@ == module(path@, depth as int),
{
    let mut parts = text::split(path, '/');
    let ghost all = parts@;
    let _ = parts.pop();
    proof {
        assert(text::views(parts@) =~= text::split_on(path@, '/').drop_last());
    }
    let ghost dirs = parts@;
    if parts.len() == 0 || depth == 0 {
        text::copy_text("<root>")
    } else {
        let taken = order::keep_first(parts, depth);
        proof {
            assert(text::views(taken@) =~= order::first_n(text::views(dirs), depth as int));
        }
        text::join_texts(&taken, "/")
    }
}

/// A file changed in a commit.
#[derive(Debug)]
pub struct FileInCommit {
    pub oid: String,
    pub file: String,
}

pub struct FileInCommitModel {
    pub oid: Seq<char>,
    pub file: Seq<char>,
}

impl View for FileInCommit {
    type V = FileInCommitModel;

    open spec fn view(&self) -> FileInCommitModel {
        FileInCommitModel { oid: self.oid@, file: self.file@ }
    }
}

/// The modules that a run of rows touches, in ascending order.
pub struct Touched {
    pub oid: Seq<char>,
    pub modules: Seq<(Seq<char>, bool)>,
}

/// The modules with that of one more file, if it is a source file.
pub open spec fn touch(modules: Seq<(Seq<char>, bool)>, file: Seq<char>) -> Seq<(Seq<char>, bool)> {
    if source_filter::is_source(file) {
        table::put(modules, module(file, MODULE_DEPTH as int), true)
    } else {
        modules
    }
}

/// The rows, gathered into runs of one commit each.
pub open spec fn runs(rows: Seq<FileInCommitModel>) -> Seq<Touched>
    decreases rows.len(),
{
    if rows.len() == 0 {
        Seq::empty()
    } else {
        let before = runs(rows.drop_last());
        let row = rows.last();
        if before.len() > 0 && before.last().oid == row.oid {
            before.drop_last().push(
                Touched { oid: row.oid, modules: touch(before.last().modules, row.file) },
            )
        } else {
            before.push(Touched { oid: row.oid, modules: touch(Seq::empty(), row.file) })
        }
    }
}

/// One more for each of the first `n` modules.
pub open spec fn counted(
    m: Seq<(Seq<char>, u64)>,
    modules: Seq<(Seq<char>, bool)>,
    n: int,
) -> Seq<(Seq<char>, u64)>
    decreases n,
{
    if n <= 0 {
        m
    } else {
        tally::credited(counted(m, modules, n - 1), modules[n - 1].0, 1)
    }
}

/// One more for each pair of module `i` with one after it and before `j`.
pub open spec fn paired_with(
    g: tally::Groups,
    modules: Seq<(Seq<char>, bool)>,
    i: int,
    j: int,
) -> tally::Groups
    decreases j - i,
{
    if j <= i + 1 {
        g
    } else {
        tally::credited_in(
            paired_with(g, modules, i, j - 1),
            modules[i].0,
            modules[j - 1].0,
            1,
        )
    }
}

/// One more for each pair whose first module is among the first `n`.
pub open spec fn paired(g: tally::Groups, modules: Seq<(Seq<char>, bool)>, n: int) -> tally::Groups
    decreases n,
{
    if n <= 0 {
        g
    } else {
        paired_with(paired(g, modules, n - 1), modules, n - 1, modules.len() as int)
    }
}

/// How many runs touch each module.
pub open spec fn totals(s: Seq<Touched>) -> Seq<(Seq<char>, u64)>
    decreases s.len(),
{
    if s.len() == 0 {
        Seq::empty()
    } else {
        counted(totals(s.drop_last()), s.last().modules, s.last().modules.len() as int)
    }
}

/// How many runs touch both modules of a pair, the lesser module first.
pub open spec fn pair_counts(s: Seq<Touched>) -> tally::Groups
    decreases s.len(),
{
    if s.len() == 0 {
        Seq::empty()
    } else {
        paired(pair_counts(s.drop_last()), s.last().modules, s.last().modules.len() as int)
    }
}

pub open spec fn touches(t: Touched, m: Seq<char>) -> bool {
    table::keys(t.modules).contains(m)
}

pub open spec fn touching(m: Seq<char>) -> spec_fn(Touched) -> bool {
    |t: Touched| touches(t, m)
}

pub open spec fn touching_both(a: Seq<char>, b: Seq<char>) -> spec_fn(Touched) -> bool {
    |t: Touched| touches(t, a) && touches(t, b)
}

/// The modules of every run are in ascending order.
pub open spec fn runs_ok(s: Seq<Touched>) -> bool {
    forall|i: int| 0 <= i < s.len() ==> table::ascending((#[trigger] s[i]).modules)
}

/// The modules of a run stand in ascending order, and there are no more runs
/// than rows.
pub proof fn runs_are_ok(rows: Seq<FileInCommitModel>)
    ensures
        runs_ok(runs(rows)),
        runs(rows).len() <= rows.len(),
        rows.len() > 0 ==> runs(rows).len() > 0 && runs(rows).last().oid == rows.last().oid,
    decreases rows.len(),
{
    if rows.len() > 0 {
        let before = runs(rows.drop_last());
        runs_are_ok(rows.drop_last());
        let file = rows.last().file;
        let m = module(file, MODULE_DEPTH as int);
        if before.len() > 0 {
            assert(table::ascending(before[before.len() - 1].modules));
            table::put_ascends(before.last().modules, m, true);
        }
        table::put_ascends(Seq::<(Seq<char>, bool)>::empty(), m, true);
    }
}

proof fn lemma_counted(m: Seq<(Seq<char>, u64)>, modules: Seq<(Seq<char>, bool)>, n: int, bound: nat)
    requires
        table::ascending(m),
        table::ascending(modules),
        0 <= n <= modules.len(),
        bound < u64::MAX,
        forall|q: Seq<char>| #[trigger] tally::amount(m, q) <= bound,
    ensures
        table::ascending(counted(m, modules, n)),
        forall|q: Seq<char>| #[trigger]
            tally::amount(counted(m, modules, n), q) == tally::amount(m, q) + if table::keys(
                modules.take(n),
            ).contains(q) {
                1nat
            } else {
                0nat
            },
    decreases n,
{
    if n <= 0 {
        assert forall|q: Seq<char>| !(#[trigger] table::keys(modules.take(n)).contains(q)) by {}
    } else {
        lemma_counted(m, modules, n - 1, bound);
        let before = counted(m, modules, n - 1);
        let k = modules[n - 1].0;
        let shorter = table::keys(modules.take(n - 1));
        let longer = table::keys(modules.take(n));
        assert(longer =~= shorter.push(k));
        assert(!shorter.contains(k)) by {
            if shorter.contains(k) {
                let i = choose|i: int| 0 <= i < shorter.len() && shorter[i] == k;
                assert(modules[i].0 == modules[n - 1].0);
            }
        }
        tally::sum_of_credited(before, k, 1);
        assert forall|q: Seq<char>| #[trigger]
            tally::amount(counted(m, modules, n), q) == tally::amount(m, q) + if longer.contains(
                q,
            ) {
                1nat
            } else {
                0nat
            } by {
            tally::amount_of_credited(before, k, 1, q);
            vstd::seq_lib::lemma_seq_contains_after_push(shorter, k, q);
        }
    }
}

/// The pair stands among the modules, its first module at `i` and its second
/// after that and before `j`.
spec fn pair_at(modules: Seq<(Seq<char>, bool)>, i: int, j: int, a: Seq<char>, b: Seq<char>) -> bool {
    modules[i].0 == a && exists|k: int| i < k < j && (#[trigger] modules[k]).0 == b
}

spec fn pair_below(modules: Seq<(Seq<char>, bool)>, n: int, a: Seq<char>, b: Seq<char>) -> bool {
    exists|i: int| 0 <= i < n && #[trigger] pair_at(modules, i, modules.len() as int, a, b)
}

proof fn lemma_paired_with(
    g: tally::Groups,
    modules: Seq<(Seq<char>, bool)>,
    i: int,
    j: int,
    bound: nat,
)
    requires
        tally::in_order(g),
        table::ascending(modules),
        0 <= i < modules.len(),
        i < j <= modules.len(),
        bound < u64::MAX,
        forall|q: Seq<char>| #[trigger] tally::amount(tally::group(g, modules[i].0), q) <= bound,
    ensures
        tally::in_order(paired_with(g, modules, i, j)),
        forall|a: Seq<char>, b: Seq<char>| #[trigger]
            tally::amount(tally::group(paired_with(g, modules, i, j), a), b) == tally::amount(
                tally::group(g, a),
                b,
            ) + if pair_at(modules, i, j, a, b) {
                1nat
            } else {
                0nat
            },
    decreases j,
{
    if j > i + 1 {
        lemma_paired_with(g, modules, i, j - 1, bound);
        let before = paired_with(g, modules, i, j - 1);
        let x = modules[i].0;
        let y = modules[j - 1].0;
        assert(!pair_at(modules, i, j - 1, x, y)) by {
            if pair_at(modules, i, j - 1, x, y) {
                let k = choose|k: int| i < k < j - 1 && (#[trigger] modules[k]).0 == y;
                assert(modules[k].0 == modules[j - 1].0);
            }
        }
        tally::grand_sum_of_credited(before, x, y, 1);
        assert forall|a: Seq<char>, b: Seq<char>| #[trigger]
            tally::amount(tally::group(paired_with(g, modules, i, j), a), b) == tally::amount(
                tally::group(g, a),
                b,
            ) + if pair_at(modules, i, j, a, b) {
                1nat
            } else {
                0nat
            } by {
            tally::amount_of_credited_in(before, x, y, 1, a, b);
            if a == x && b == y {
                assert(modules[j - 1].0 == b);
            }
            if pair_at(modules, i, j - 1, a, b) {
                let k = choose|k: int| i < k < j - 1 && (#[trigger] modules[k]).0 == b;
                assert(modules[k].0 == b);
            }
        }
    }
}

proof fn lemma_paired(g: tally::Groups, modules: Seq<(Seq<char>, bool)>, n: int, bound: nat)
    requires
        tally::in_order(g),
        table::ascending(modules),
        0 <= n <= modules.len(),
        bound < u64::MAX,
        forall|a: Seq<char>, b: Seq<char>| #[trigger]
            tally::amount(tally::group(g, a), b) <= bound,
    ensures
        tally::in_order(paired(g, modules, n)),
        forall|a: Seq<char>, b: Seq<char>| #[trigger]
            tally::amount(tally::group(paired(g, modules, n), a), b) == tally::amount(
                tally::group(g, a),
                b,
            ) + if pair_below(modules, n, a, b) {
                1nat
            } else {
                0nat
            },
    decreases n,
{
    if n > 0 {
        lemma_paired(g, modules, n - 1, bound);
        let before = paired(g, modules, n - 1);
        let x = modules[n - 1].0;
        let len = modules.len() as int;
        assert forall|i: int, b: Seq<char>| 0 <= i < n - 1 implies !(#[trigger] pair_at(
            modules,
            i,
            len,
            x,
            b,
        )) by {
            assert(modules[i].0 != modules[n - 1].0);
        }
        assert forall|b: Seq<char>| !(#[trigger] pair_below(modules, n - 1, x, b)) by {}
        assert forall|q: Seq<char>| #[trigger]
            tally::amount(tally::group(before, x), q) <= bound by {
            assert(!pair_below(modules, n - 1, x, q));
        }
        lemma_paired_with(before, modules, n - 1, len, bound);
        assert forall|a: Seq<char>, b: Seq<char>| #[trigger]
            tally::amount(tally::group(paired(g, modules, n), a), b) == tally::amount(
                tally::group(g, a),
                b,
            ) + if pair_below(modules, n, a, b) {
                1nat
            } else {
                0nat
            } by {
            if pair_below(modules, n - 1, a, b) {
                let i = choose|i: int| 0 <= i < n - 1 && #[trigger] pair_at(modules, i, len, a, b);
                assert(pair_at(modules, i, len, a, b));
                assert(a != x);
            }
            if pair_at(modules, n - 1, len, a, b) {
                assert(pair_below(modules, n, a, b));
            }
        }
    }
}

proof fn lemma_pair_of_keys(modules: Seq<(Seq<char>, bool)>, a: Seq<char>, b: Seq<char>)
    requires
        table::ascending(modules),
    ensures
        pair_below(modules, modules.len() as int, a, b) <==> (table::keys(modules).contains(a)
            && table::keys(modules).contains(b) && a != b && text::text_le(a, b)),
{
    let n = modules.len() as int;
    let ks = table::keys(modules);
    if pair_below(modules, n, a, b) {
        let i = choose|i: int| 0 <= i < n && #[trigger] pair_at(modules, i, n, a, b);
        let k = choose|k: int| i < k < n && (#[trigger] modules[k]).0 == b;
        assert(ks[i] == a);
        assert(ks[k] == b);
    }
    if ks.contains(a) && ks.contains(b) && a != b && text::text_le(a, b) {
        let i = choose|i: int| 0 <= i < ks.len() && ks[i] == a;
        let k = choose|k: int| 0 <= k < ks.len() && ks[k] == b;
        assert(modules[i].0 == a);
        assert(modules[k].0 == b);
        if k < i {
            text::text_le_antisymmetric(a, b);
        }
        assert(pair_at(modules, i, n, a, b));
    }
}

/// Each total is the number of runs that touch the module.
pub proof fn totals_count_runs(s: Seq<Touched>)
    requires
        runs_ok(s),
        s.len() <= u64::MAX,
    ensures
        table::ascending(totals(s)),
        forall|m: Seq<char>| #[trigger] tally::amount(totals(s), m) == fold::count(s, touching(m)),
    decreases s.len(),
{
    if s.len() > 0 {
        let init = s.drop_last();
        assert(runs_ok(init)) by {
            assert forall|i: int| 0 <= i < init.len() implies table::ascending(
                (#[trigger] init[i]).modules,
            ) by {
                assert(init[i] == s[i]);
            }
        }
        totals_count_runs(init);
        let modules = s.last().modules;
        assert(table::ascending(s[s.len() - 1].modules));
        assert forall|q: Seq<char>| #[trigger] tally::amount(totals(init), q) <= init.len() by {
            fold::lemma_count_bound(init, touching(q));
        }
        lemma_counted(totals(init), modules, modules.len() as int, init.len());
        assert(modules.take(modules.len() as int) =~= modules);
        assert forall|m: Seq<char>| #[trigger]
            tally::amount(totals(s), m) == fold::count(s, touching(m)) by {
            assert(touching(m)(s.last()) == table::keys(modules).contains(m));
        }
    } else {
        assert forall|m: Seq<char>| #[trigger]
            tally::amount(totals(s), m) == fold::count(s, touching(m)) by {}
    }
}

/// Each count of a pair is the number of runs that touch both its modules.
pub proof fn pairs_count_runs(s: Seq<Touched>)
    requires
        runs_ok(s),
        s.len() <= u64::MAX,
    ensures
        tally::in_order(pair_counts(s)),
        forall|a: Seq<char>, b: Seq<char>| #[trigger]
            tally::amount(tally::group(pair_counts(s), a), b) == if a != b && text::text_le(a, b) {
                fold::count(s, touching_both(a, b))
            } else {
                0
            },
    decreases s.len(),
{
    if s.len() > 0 {
        let init = s.drop_last();
        assert(runs_ok(init)) by {
            assert forall|i: int| 0 <= i < init.len() implies table::ascending(
                (#[trigger] init[i]).modules,
            ) by {
                assert(init[i] == s[i]);
            }
        }
        pairs_count_runs(init);
        let modules = s.last().modules;
        assert(table::ascending(s[s.len() - 1].modules));
        let g = pair_counts(init);
        assert forall|a: Seq<char>, b: Seq<char>| #[trigger]
            tally::amount(tally::group(g, a), b) <= init.len() by {
            fold::lemma_count_bound(init, touching_both(a, b));
        }
        lemma_paired(g, modules, modules.len() as int, init.len());
        assert forall|a: Seq<char>, b: Seq<char>| #[trigger]
            tally::amount(tally::group(pair_counts(s), a), b) == if a != b && text::text_le(a, b) {
                fold::count(s, touching_both(a, b))
            } else {
                0
            } by {
            lemma_pair_of_keys(modules, a, b);
            assert(touching_both(a, b)(s.last()) == (table::keys(modules).contains(a)
                && table::keys(modules).contains(b)));
        }
    } else {
        assert forall|a: Seq<char>, b: Seq<char>| #[trigger]
            tally::amount(tally::group(pair_counts(s), a), b) == 0 by {
            assert(tally::group(pair_counts(s), a).len() == 0);
        }
    }
}

/// All rows of a commit stand together.
pub open spec fn contiguous(rows: Seq<FileInCommitModel>) -> bool {
    forall|i: int, j: int, k: int|
        0 <= i < j < k < rows.len() && (#[trigger] rows[i]).oid == (#[trigger] rows[k]).oid ==> (
        #[trigger] rows[j]).oid == rows[i].oid
}

/// A row of the commit names a source file of the module.
pub open spec fn commit_touches(rows: Seq<FileInCommitModel>, oid: Seq<char>, m: Seq<char>) -> bool {
    exists|i: int|
        0 <= i < rows.len() && (#[trigger] rows[i]).oid == oid && source_filter::is_source(
            rows[i].file,
        ) && module(rows[i].file, MODULE_DEPTH as int) == m
}

/// A row belongs to the commit.
pub open spec fn names_commit(rows: Seq<FileInCommitModel>, oid: Seq<char>) -> bool {
    exists|i: int| 0 <= i < rows.len() && (#[trigger] rows[i]).oid == oid
}

/// A run belongs to the commit.
pub open spec fn has_run(s: Seq<Touched>, oid: Seq<char>) -> bool {
    exists|p: int| 0 <= p < s.len() && (#[trigger] s[p]).oid == oid
}

/// No two runs belong to one commit.
pub open spec fn one_run_each(s: Seq<Touched>) -> bool {
    forall|p: int, q: int| 0 <= p < q < s.len() ==> (#[trigger] s[p]).oid != (#[trigger] s[q]).oid
}

/// Where the rows of each commit stand together, there is one run per commit,
/// and it touches the modules that the commit touches: gathering the rows as
/// they come counts what gathering all of them first would count.
pub proof fn runs_are_commits(rows: Seq<FileInCommitModel>)
    requires
        contiguous(rows),
    ensures
        one_run_each(runs(rows)),
        forall|oid: Seq<char>| #[trigger] has_run(runs(rows), oid) <==> names_commit(rows, oid),
        forall|p: int, m: Seq<char>|
            0 <= p < runs(rows).len() ==> (#[trigger] touches(runs(rows)[p], m) <==> commit_touches(
                rows,
                runs(rows)[p].oid,
                m,
            )),
    decreases rows.len(),
{
    if rows.len() > 0 {
        let init = rows.drop_last();
        lemma_contiguous_init(rows);
        runs_are_commits(init);
        runs_are_ok(init);
        let before = runs(init);
        let after = runs(rows);
        let w = after.len() - 1;
        let oid = rows.last().oid;
        let same_run = before.len() > 0 && before.last().oid == oid;
        assert(after[w].oid == oid);
        assert(forall|p: int| 0 <= p < w ==> #[trigger] after[p] == before[p]);
        assert forall|p: int| 0 <= p < w implies (#[trigger] after[p]).oid != oid by {
            if same_run {
                assert(before[p].oid != before[before.len() - 1].oid);
            } else if before[p].oid == oid {
                assert(has_run(before, oid));
                lemma_returns(rows);
                assert(before[before.len() - 1].oid == oid);
            }
        }
        assert(one_run_each(after)) by {
            assert forall|p: int, q: int| 0 <= p < q < after.len() implies (#[trigger] after[p]).oid
                != (#[trigger] after[q]).oid by {
                if q < w {
                    assert(before[p].oid != before[q].oid);
                }
            }
        }
        assert forall|o: Seq<char>| #[trigger] has_run(after, o) <==> names_commit(rows, o) by {
            lemma_names_step(rows, o);
            lemma_has_run_step(rows, o);
            assert(has_run(before, o) <==> names_commit(init, o));
        }
        assert forall|p: int, m: Seq<char>| 0 <= p < after.len() implies (#[trigger] touches(
            after[p],
            m,
        ) <==> commit_touches(rows, after[p].oid, m)) by {
            lemma_commit_touches_step(rows, after[p].oid, m);
            if p < w {
                assert(touches(before[p], m) <==> commit_touches(init, before[p].oid, m));
            } else {
                lemma_touches_last(rows, m);
                if same_run {
                    assert(touches(before[before.len() - 1], m) <==> commit_touches(init, oid, m));
                } else if commit_touches(init, oid, m) {
                    lemma_touching_names(init, oid, m);
                    assert(has_run(before, oid));
                    lemma_returns(rows);
                }
            }
        }
    }
}

proof fn lemma_contiguous_init(rows: Seq<FileInCommitModel>)
    requires
        contiguous(rows),
        rows.len() > 0,
    ensures
        contiguous(rows.drop_last()),
{
    let init = rows.drop_last();
    assert forall|i: int, j: int, k: int|
        0 <= i < j < k < init.len() && (#[trigger] init[i]).oid == (#[trigger] init[k]).oid implies (
    #[trigger] init[j]).oid == init[i].oid by {
        assert(rows[i].oid == rows[k].oid);
        assert(rows[j].oid == rows[i].oid);
    }
}

/// A commit that had a run already is the one of the row before.
proof fn lemma_returns(rows: Seq<FileInCommitModel>)
    requires
        contiguous(rows),
        rows.len() > 0,
        names_commit(rows.drop_last(), rows.last().oid),
    ensures
        runs(rows.drop_last()).len() > 0,
        runs(rows.drop_last()).last().oid == rows.last().oid,
{
    let init = rows.drop_last();
    let n = rows.len() - 1;
    let i = choose|i: int| 0 <= i < init.len() && (#[trigger] init[i]).oid == rows.last().oid;
    runs_are_ok(init);
    assert(rows[i].oid == rows[n].oid);
    if i < n - 1 {
        assert(rows[n - 1].oid == rows[i].oid);
    }
    assert(init.last() == rows[n - 1]);
}

proof fn lemma_names_step(rows: Seq<FileInCommitModel>, oid: Seq<char>)
    requires
        rows.len() > 0,
    ensures
        names_commit(rows, oid) <==> names_commit(rows.drop_last(), oid) || rows.last().oid == oid,
{
    let init = rows.drop_last();
    if names_commit(init, oid) {
        let i = choose|i: int| 0 <= i < init.len() && (#[trigger] init[i]).oid == oid;
        assert(rows[i].oid == oid);
    }
    if rows.last().oid == oid {
        assert(rows[rows.len() - 1].oid == oid);
    }
    if names_commit(rows, oid) {
        let i = choose|i: int| 0 <= i < rows.len() && (#[trigger] rows[i]).oid == oid;
        if i < rows.len() - 1 {
            assert(init[i].oid == oid);
        }
    }
}

proof fn lemma_has_run_step(rows: Seq<FileInCommitModel>, oid: Seq<char>)
    requires
        rows.len() > 0,
    ensures
        has_run(runs(rows), oid) <==> has_run(runs(rows.drop_last()), oid) || rows.last().oid == oid,
{
    let before = runs(rows.drop_last());
    let after = runs(rows);
    let w = after.len() - 1;
    if has_run(before, oid) {
        let p = choose|p: int| 0 <= p < before.len() && (#[trigger] before[p]).oid == oid;
        assert(after[p].oid == oid);
    }
    if rows.last().oid == oid {
        assert(after[w].oid == oid);
    }
    if has_run(after, oid) {
        let p = choose|p: int| 0 <= p < after.len() && (#[trigger] after[p]).oid == oid;
        if p < w {
            assert(before[p].oid == oid);
        }
    }
}

/// The last run touches what it touched before and the module of the last row.
proof fn lemma_touches_last(rows: Seq<FileInCommitModel>, m: Seq<char>)
    requires
        rows.len() > 0,
    ensures
        ({
            let before = runs(rows.drop_last());
            let row = rows.last();
            touches(runs(rows).last(), m) <==> (before.len() > 0 && before.last().oid == row.oid
                && touches(before.last(), m)) || (source_filter::is_source(row.file) && module(
                row.file,
                MODULE_DEPTH as int,
            ) == m)
        }),
{
    let before = runs(rows.drop_last());
    runs_are_ok(rows.drop_last());
    let row = rows.last();
    let lm = module(row.file, MODULE_DEPTH as int);
    let held = if before.len() > 0 && before.last().oid == row.oid {
        before.last().modules
    } else {
        Seq::<(Seq<char>, bool)>::empty()
    };
    assert(table::ascending(held)) by {
        if before.len() > 0 {
            assert(table::ascending(before[before.len() - 1].modules));
        }
    }
    table::lookup_of_put(held, lm, true, m);
    table::lemma_lookup_some(held, m);
    table::lemma_lookup_some(table::put(held, lm, true), m);
}

proof fn lemma_touching_names(rows: Seq<FileInCommitModel>, oid: Seq<char>, m: Seq<char>)
    requires
        commit_touches(rows, oid, m),
    ensures
        names_commit(rows, oid),
{
    let i = choose|i: int|
        0 <= i < rows.len() && (#[trigger] rows[i]).oid == oid && source_filter::is_source(
            rows[i].file,
        ) && module(rows[i].file, MODULE_DEPTH as int) == m;
    assert(rows[i].oid == oid);
}

proof fn lemma_commit_touches_step(rows: Seq<FileInCommitModel>, oid: Seq<char>, m: Seq<char>)
    requires
        rows.len() > 0,
    ensures
        commit_touches(rows, oid, m) <==> commit_touches(rows.drop_last(), oid, m) || (
        rows.last().oid == oid && source_filter::is_source(rows.last().file) && module(
            rows.last().file,
            MODULE_DEPTH as int,
        ) == m),
{
    let init = rows.drop_last();
    if commit_touches(init, oid, m) {
        let i = choose|i: int|
            0 <= i < init.len() && (#[trigger] init[i]).oid == oid && source_filter::is_source(
                init[i].file,
            ) && module(init[i].file, MODULE_DEPTH as int) == m;
        assert(rows[i] == init[i]);
    }
    if commit_touches(rows, oid, m) {
        let i = choose|i: int|
            0 <= i < rows.len() && (#[trigger] rows[i]).oid == oid && source_filter::is_source(
                rows[i].file,
            ) && module(rows[i].file, MODULE_DEPTH as int) == m;
        if i < rows.len() - 1 {
            assert(init[i] == rows[i]);
        }
    }
}

/// Counts a commit's modules and the pairs of them.
fn flush(
    modules: &TextMap<bool>,
    co_changes: &mut TextMap<TextMap<u64>>,
    module_totals: &mut TextMap<u64>,
    Ghost(done): Ghost<Seq<Touched>>,
    Ghost(now): Ghost<Touched>,
)
    requires
        runs_ok(done),
        done.len() < u64::MAX,
        now.modules == modules@,
        table::ascending(modules@),
        old(co_changes)@ == pair_counts(done),
        old(module_totals)@ == totals(done),
    ensures
        final(co_changes)@ == pair_counts(done.push(now)),
        final(module_totals)@ == totals(done.push(now)),
        tally::in_order(final(co_changes)@),
        table::ascending(final(module_totals)@),
{
    let ghost t0 = totals(done);
    let ghost g0 = pair_counts(done);
    proof {
        totals_count_runs(done);
        pairs_count_runs(done);
        assert forall|q: Seq<char>| #[trigger] tally::amount(t0, q) <= done.len() by {
            fold::lemma_count_bound(done, touching(q));
        }
        assert forall|a: Seq<char>, b: Seq<char>| #[trigger]
            tally::amount(tally::group(g0, a), b) <= done.len() by {
            fold::lemma_count_bound(done, touching_both(a, b));
        }
        assert(done.push(now).drop_last() =~= done);
    }
    let n: usize = modules.len();
    let mut i: usize = 0;
    while i < n
        invariant
            n == modules@.len(),
            i <= n,
            table::ascending(modules@),
            table::ascending(t0),
            done.len() < u64::MAX,
            forall|q: Seq<char>| #[trigger] tally::amount(t0, q) <= done.len(),
            module_totals@ == counted(t0, modules@, i as int),
            table::ascending(module_totals@),
        decreases n - i,
    {
        proof {
            lemma_counted(t0, modules@, i as int, done.len());
            let k = modules@[i as int].0;
            let shorter = table::keys(modules@.take(i as int));
            if shorter.contains(k) {
                let p = choose|p: int| 0 <= p < shorter.len() && shorter[p] == k;
                assert(modules@[p].0 == modules@[i as int].0);
            }
        }
        tally::credit(module_totals, modules.key_at(i).as_str(), 1);
        i += 1;
    }
    let mut p: usize = 0;
    while p < n
        invariant
            n == modules@.len(),
            p <= n,
            table::ascending(modules@),
            tally::in_order(g0),
            done.len() < u64::MAX,
            forall|a: Seq<char>, b: Seq<char>| #[trigger]
                tally::amount(tally::group(g0, a), b) <= done.len(),
            co_changes@ == paired(g0, modules@, p as int),
            tally::in_order(co_changes@),
        decreases n - p,
    {
        let ghost g1 = co_changes@;
        let ghost x = modules@[p as int].0;
        proof {
            lemma_paired(g0, modules@, p as int, done.len());
            assert forall|q: Seq<char>| #[trigger]
                tally::amount(tally::group(g1, x), q) <= done.len() by {
                if pair_below(modules@, p as int, x, q) {
                    let k = choose|k: int|
                        0 <= k < p && #[trigger] pair_at(modules@, k, n as int, x, q);
                    assert(modules@[k].0 == modules@[p as int].0);
                }
            }
        }
        let mut j: usize = p + 1;
        while j < n
            invariant
                n == modules@.len(),
                p < j <= n,
                table::ascending(modules@),
                tally::in_order(g1),
                x == modules@[p as int].0,
                done.len() < u64::MAX,
                forall|q: Seq<char>| #[trigger] tally::amount(tally::group(g1, x), q) <= done.len(),
                co_changes@ == paired_with(g1, modules@, p as int, j as int),
                tally::in_order(co_changes@),
            decreases n - j,
        {
            proof {
                lemma_paired_with(g1, modules@, p as int, j as int, done.len());
                let y = modules@[j as int].0;
                if pair_at(modules@, p as int, j as int, x, y) {
                    let k = choose|k: int| p < k < j && (#[trigger] modules@[k]).0 == y;
                    assert(modules@[k].0 == modules@[j as int].0);
                }
            }
            tally::credit_in(co_changes, modules.key_at(p).as_str(), modules.key_at(j).as_str(), 1);
            j += 1;
        }
        p += 1;
    }
}

/// Counts, over rows that stand together by commit, how many commits touch
/// each module and how many touch both of two modules. Only the modules of the
/// commit at hand are held besides the counts.
pub fn aggregate_streamed(rows: &[FileInCommit]) -> (r: (TextMap<TextMap<u64>>, TextMap<u64>))
    ensures
        r.0@ == pair_counts(runs(order::models(rows@))),
        r.1@ == totals(runs(order::models(rows@))),
        tally::in_order(r.0@),
        table::ascending(r.1@),
{
    let ghost all = order::models(rows@);
    let mut co_changes: TextMap<TextMap<u64>> = TextMap::new();
    let mut module_totals: TextMap<u64> = TextMap::new();
    let n: usize = rows.len();
    let mut current: TextMap<bool> = TextMap::new();
    let mut i: usize = 0;
    while i < n
        invariant
            n == rows@.len(),
            i <= n,
            all == order::models(rows@),
            table::ascending(current@),
            tally::in_order(co_changes@),
            table::ascending(module_totals@),
            i == 0 ==> co_changes@ == pair_counts(Seq::empty()) && module_totals@ == totals(
                Seq::empty(),
            ),
            i > 0 ==> ({
                let s = runs(all.take(i as int));
                &&& s.len() > 0
                &&& s.last().modules == current@
                &&& s.last().oid == all[i - 1].oid
                &&& co_changes@ == pair_counts(s.drop_last())
                &&& module_totals@ == totals(s.drop_last())
            }),
        decreases n - i,
    {
        let ghost s0 = runs(all.take(i as int));
        let ghost s1 = runs(all.take(i + 1));
        proof {
            assert(all.take(i + 1).drop_last() =~= all.take(i as int));
            assert(all.take(i + 1).last() == rows@[i as int]@);
            runs_are_ok(all.take(i as int));
            runs_are_ok(all.take(i + 1));
        }
        if i == 0 || !text::same(rows[i - 1].oid.as_str(), rows[i].oid.as_str()) {
            if i > 0 {
                proof {
                    let done = s0.drop_last();
                    assert(runs_ok(done)) by {
                        assert forall|k: int| 0 <= k < done.len() implies table::ascending(
                            (#[trigger] done[k]).modules,
                        ) by {
                            assert(done[k] == s0[k]);
                        }
                    }
                    assert(done.push(s0.last()) =~= s0);
                }
                flush(
                    &current,
                    &mut co_changes,
                    &mut module_totals,
                    Ghost(s0.drop_last()),
                    Ghost(s0.last()),
                );
            } else {
                proof {
                    assert(all.take(0).len() == 0);
                    assert(s0 =~= Seq::empty());
                }
            }
            current = TextMap::new();
            proof {
                assert(s1.drop_last() =~= s0);
            }
        } else {
            proof {
                assert(s1.drop_last() =~= s0.drop_last());
            }
        }
        if is_source_file(rows[i].file.as_str()) {
            current.insert(module_of(rows[i].file.as_str(), MODULE_DEPTH), true);
        }
        i += 1;
    }
    proof {
        assert(all.take(n as int) =~= all);
    }
    if n > 0 {
        let ghost s = runs(all);
        proof {
            runs_are_ok(all);
            let done = s.drop_last();
            assert(runs_ok(done)) by {
                assert forall|k: int| 0 <= k < done.len() implies table::ascending(
                    (#[trigger] done[k]).modules,
                ) by {
                    assert(done[k] == s[k]);
                }
            }
            assert(done.push(s.last()) =~= s);
        }
        flush(
            &current,
            &mut co_changes,
            &mut module_totals,
            Ghost(s.drop_last()),
            Ghost(s.last()),
        );
    }
    (co_changes, module_totals)
}

/// Two modules, how often they changed together, and how often the one that
/// changed more did.
pub struct ModulePair {
    pub module_a: String,
    pub module_b: String,
    pub co_changes: u64,
    pub max_changes: u64,
}

pub struct ModulePairModel {
    pub module_a: Seq<char>,
    pub module_b: Seq<char>,
    pub co_changes: int,
    pub max_changes: int,
}

impl View for ModulePair {
    type V = ModulePairModel;

    open spec fn view(&self) -> ModulePairModel {
        ModulePairModel {
            module_a: self.module_a@,
            module_b: self.module_b@,
            co_changes: self.co_changes as int,
            max_changes: self.max_changes as int,
        }
    }
}

impl ModulePairModel {
    /// The share of common changes in those of the module that changed more.
    pub open spec fn score(self) -> Num {
        double::share(self.co_changes, self.max_changes)
    }
}

/// The highest share of common changes first.
impl Ranked for ModulePair {
    open spec fn le(a: ModulePairModel, b: ModulePairModel) -> bool {
        !double::less(a.score(), b.score())
    }

    proof fn le_total(a: ModulePairModel, b: ModulePairModel) {
        double::order_is_total(a.score(), b.score());
    }

    proof fn le_transitive(a: ModulePairModel, b: ModulePairModel, c: ModulePairModel) {
        double::shares_are_normal(a.co_changes, a.max_changes);
        double::shares_are_normal(b.co_changes, b.max_changes);
        double::shares_are_normal(c.co_changes, c.max_changes);
        double::order_is_transitive(a.score(), b.score(), c.score());
    }

    fn not_after(&self, other: &ModulePair) -> (r: bool) {
        let a = Double::share(self.co_changes, self.max_changes);
        let b = Double::share(other.co_changes, other.max_changes);
        !a.is_less(b)
    }
}

impl Row for ModulePair {
    open spec fn entry(p: ModulePairModel) -> EntryModel {
        EntryModel {
            key: p.module_a + " <-> "@ + p.module_b,
            values: Map::empty().insert(
                "module_a"@,
                ValueModel::Text(p.module_a),
            ).insert(
                "module_b"@,
                ValueModel::Text(p.module_b),
            ).insert(
                "co_changes"@,
                ValueModel::Count(p.co_changes),
            ).insert(
                "score"@,
                ValueModel::Ratio(p.co_changes, p.max_changes),
            ),
        }
    }

    fn to_entry(self) -> (r: MetricEntry) {
        let mut values = Values::new();
        let key = text::cat3(self.module_a.as_str(), " <-> ", self.module_b.as_str());
        values.insert("module_a", MetricValue::Text(self.module_a));
        values.insert("module_b", MetricValue::Text(self.module_b));
        values.insert("co_changes", MetricValue::Count(self.co_changes));
        values.insert("score", MetricValue::Ratio { num: self.co_changes, den: self.max_changes });
        MetricEntry { key, values }
    }
}

/// How often the module changed; once, if nothing is known of it.
pub open spec fn changes_of(t: Seq<(Seq<char>, u64)>, m: Seq<char>) -> int {
    match table::lookup(t, m) {
        Some(n) => n as int,
        None => 1,
    }
}

pub open spec fn module_pair(t: Seq<(Seq<char>, u64)>, a: Seq<char>, b: Seq<char>, n: int) ->
    ModulePairModel {
    let ca = changes_of(t, a);
    let cb = changes_of(t, b);
    ModulePairModel {
        module_a: a,
        module_b: b,
        co_changes: n,
        max_changes: if ca > cb {
            ca
        } else {
            cb
        },
    }
}

/// Often enough, and in at least three tenths of the changes.
pub open spec fn is_coupled(p: ModulePairModel) -> bool {
    p.co_changes >= MIN_CO_CHANGES && !double::less(p.score(), double::nearest(3, 10))
}

/// The coupled pairs among the first `n` partners of `a`.
pub open spec fn coupled_with(
    t: Seq<(Seq<char>, u64)>,
    a: Seq<char>,
    partners: Seq<(Seq<char>, u64)>,
    n: int,
) -> Seq<ModulePairModel>
    decreases n,
{
    if n <= 0 {
        Seq::empty()
    } else {
        let p = module_pair(t, a, partners[n - 1].0, partners[n - 1].1 as int);
        if is_coupled(p) {
            coupled_with(t, a, partners, n - 1).push(p)
        } else {
            coupled_with(t, a, partners, n - 1)
        }
    }
}

/// The coupled pairs whose first module is among the first `n`.
pub open spec fn coupled_pairs(g: tally::Groups, t: Seq<(Seq<char>, u64)>, n: int) -> Seq<
    ModulePairModel,
>
    decreases n,
{
    if n <= 0 {
        Seq::empty()
    } else {
        coupled_pairs(g, t, n - 1) + coupled_with(
            t,
            g[n - 1].0,
            g[n - 1].1,
            g[n - 1].1.len() as int,
        )
    }
}

pub open spec fn module_columns() -> Seq<Seq<char>> {
    seq![
        "module_a"@,
        "module_b"@,
        "co_changes"@,
        "score"@,
    ]
}

pub open spec fn module_coupling_report(rows: Seq<FileInCommitModel>) -> ResultModel {
    let g = pair_counts(runs(rows));
    let t = totals(runs(rows));
    types::described(
        types::report_of(
            "module_coupling"@,
            module_columns(),
            report::entries_of::<ModulePair>(
                report::top_ranked::<ModulePair>(
                    coupled_pairs(g, t, g.len() as int),
                    MAX_PAIRS as int,
                ),
            ),
        ),
        MessageModel::of(types::description_code("module_coupling"@)).with_number(
            "module_depth"@,
            MODULE_DEPTH as int,
        ),
    )
}

fn change_count(t: &TextMap<u64>, m: &str) -> (r: u64)
    requires
        table::ascending(t@),
    ensures
        r == changes_of(t@, m@),
{
    match t.get(m) {
        Some(n) => *n,
        None => 1,
    }
}

fn list_pairs(g: &TextMap<TextMap<u64>>, t: &TextMap<u64>) -> (r: Vec<ModulePair>)
    requires
        table::ascending(t@),
    ensures
        order::models(r@) == coupled_pairs(g@, t@, g@.len() as int),
{
    let mut out: Vec<ModulePair> = Vec::new();
    proof {
        assert(order::models(out@) =~= Seq::empty());
    }
    let n: usize = g.len();
    let mut i: usize = 0;
    while i < n
        invariant
            n == g@.len(),
            i <= n,
            table::ascending(t@),
            order::models(out@) == coupled_pairs(g@, t@, i as int),
        decreases n - i,
    {
        let a = g.key_at(i);
        let partners = g.value_at(i);
        let ca = change_count(t, a.as_str());
        let ghost before = order::models(out@);
        let m: usize = partners.len();
        let mut j: usize = 0;
        proof {
            assert(before + Seq::<ModulePairModel>::empty() =~= before);
        }
        while j < m
            invariant
                m == partners@.len(),
                j <= m,
                table::ascending(t@),
                ca == changes_of(t@, a@),
                order::models(out@) == before + coupled_with(t@, a@, partners@, j as int),
            decreases m - j,
        {
            let b = partners.key_at(j);
            let count: u64 = *partners.value_at(j);
            let cb = change_count(t, b.as_str());
            let max: u64 = if ca > cb {
                ca
            } else {
                cb
            };
            if count >= MIN_CO_CHANGES && !Double::share(count, max).is_less(
                Double::fraction(3, 10),
            ) {
                let ghost so_far = order::models(out@);
                let p = ModulePair {
                    module_a: a.clone(),
                    module_b: b.clone(),
                    co_changes: count,
                    max_changes: max,
                };
                out.push(p);
                proof {
                    assert(order::models(out@) =~= so_far.push(p@));
                    assert(so_far.push(p@) =~= before + coupled_with(
                        t@,
                        a@,
                        partners@,
                        j as int,
                    ).push(p@));
                }
            }
            j += 1;
        }
        i += 1;
    }
    out
}

pub struct ModuleCouplingCollector;

impl Default for ModuleCouplingCollector {
    fn default() -> (r: Self)
        ensures
            r == (ModuleCouplingCollector {  }),
    {
        ModuleCouplingCollector::new()
    }
}

impl ModuleCouplingCollector {
    pub fn new() -> (r: Self)
        ensures
            r == (ModuleCouplingCollector {  }),
    {
        ModuleCouplingCollector
    }

    pub fn name(&self) -> (r: &str)
        ensures
            r@ == "module_coupling"@,
    {
        "module_coupling"
    }

    /// The report without any rows to draw on.
    pub fn finalize(&mut self) -> (r: MetricResult)
        ensures
            r@ == types::empty_report("module_coupling"@),
    {
        MetricResult::empty("module_coupling")
    }

    /// The report, given one row per file and commit, where the rows of each
    /// commit stand together.
    pub fn finalize_from_rows(&mut self, rows: &[FileInCommit]) -> (r: MetricResult)
        ensures
            r@ == module_coupling_report(order::models(rows@)),
    {
        let (co_changes, module_totals) = aggregate_streamed(rows);
        let pairs = list_pairs(&co_changes, &module_totals);
        let entries = report::ranked_entries(pairs, MAX_PAIRS);
        let columns = [
            "module_a",
            "module_b",
            "co_changes",
            "score",
        ];
        proof {
            assert(types::str_views(columns@) =~= module_columns());
        }
        let mut result = MetricResult::report("module_coupling", &columns, entries);
        result.description = types::report_description("module_coupling").with_param(
            "module_depth",
            MODULE_DEPTH as u64,
        );
        result
    }
}

/// The module of a file is the directory it lies in, of which only the two upper
/// levels count; a file that lies in none belongs to the root.
pub proof fn modules_are_two_levels_deep(path: Seq<char>)
    ensures
        ({
            let parts = text::split_on(path, '/');
            let m = module(path, 2);
            &&& parts.len() == 1 ==> m == "<root>"@
            &&& parts.len() == 2 ==> m == parts[0]
            &&& parts.len() >= 3 ==> m == parts[0] + "/"@ + parts[1]
        }),
        MODULE_DEPTH == 2,
{
    text::lemma_split_nonempty(path, '/');
    let parts = text::split_on(path, '/');
    let dirs = parts.drop_last();
    reveal_with_fuel(text::join, 3);
    if parts.len() >= 3 {
        let head = order::first_n(dirs, 2);
        assert(head.len() == 2);
        assert(head[0] == parts[0] && head[1] == parts[1]);
        assert(head.drop_last()[0] == parts[0]);
    }
}

/// Two modules are coupled where they changed together three times or more, and
/// in three of ten changes of the one that changed more.
pub proof fn three_in_ten_couple(t: Seq<(Seq<char>, u64)>, a: Seq<char>, b: Seq<char>, n: int)
    requires
        0 <= n < 1_000_000_000_000,
        0 < changes_of(t, a) < 1_000_000_000_000,
        0 < changes_of(t, b) < 1_000_000_000_000,
    ensures
        is_coupled(module_pair(t, a, b, n)) <==> n >= 3 && 10 * n >= 3 * changes_of(t, a) && 10 * n
            >= 3 * changes_of(t, b),
{
    double::three_tenths_is_exact(n, module_pair(t, a, b, n).max_changes);
}

proof fn lemma_coupled_with(
    t: Seq<(Seq<char>, u64)>,
    a: Seq<char>,
    partners: Seq<(Seq<char>, u64)>,
    n: int,
    x: ModulePairModel,
)
    requires
        0 <= n <= partners.len(),
    ensures
        coupled_with(t, a, partners, n).contains(x) <==> exists|k: int|
            0 <= k < n && x == module_pair(
                t,
                a,
                (#[trigger] partners[k]).0,
                partners[k].1 as int,
            ) && is_coupled(x),
    decreases n,
{
    if n > 0 {
        lemma_coupled_with(t, a, partners, n - 1, x);
        let was = coupled_with(t, a, partners, n - 1);
        let is = coupled_with(t, a, partners, n);
        if is.contains(x) {
            let i = choose|i: int| 0 <= i < is.len() && is[i] == x;
            if i < was.len() {
                assert(was[i] == x);
            } else {
                assert(x == module_pair(t, a, partners[n - 1].0, partners[n - 1].1 as int));
            }
        }
        if exists|k: int|
            0 <= k < n && x == module_pair(
                t,
                a,
                (#[trigger] partners[k]).0,
                partners[k].1 as int,
            ) && is_coupled(x) {
            let k = choose|k: int|
                0 <= k < n && x == module_pair(
                    t,
                    a,
                    (#[trigger] partners[k]).0,
                    partners[k].1 as int,
                ) && is_coupled(x);
            if k < n - 1 {
                let i = choose|i: int| 0 <= i < was.len() && was[i] == x;
                assert(is[i] == x);
            } else {
                assert(is[is.len() - 1] == x);
            }
        }
    }
}

proof fn lemma_coupled_pairs(
    g: tally::Groups,
    t: Seq<(Seq<char>, u64)>,
    n: int,
    x: ModulePairModel,
)
    requires
        0 <= n <= g.len(),
    ensures
        coupled_pairs(g, t, n).contains(x) <==> exists|p: int, q: int|
            0 <= p < n && 0 <= q < g[p].1.len() && x == module_pair(
                t,
                g[p].0,
                (#[trigger] g[p].1[q]).0,
                g[p].1[q].1 as int,
            ) && is_coupled(x),
    decreases n,
{
    if n > 0 {
        lemma_coupled_pairs(g, t, n - 1, x);
        let was = coupled_pairs(g, t, n - 1);
        let more = coupled_with(t, g[n - 1].0, g[n - 1].1, g[n - 1].1.len() as int);
        let is = coupled_pairs(g, t, n);
        lemma_coupled_with(t, g[n - 1].0, g[n - 1].1, g[n - 1].1.len() as int, x);
        if is.contains(x) {
            let i = choose|i: int| 0 <= i < is.len() && is[i] == x;
            if i < was.len() {
                assert(was[i] == x);
            } else {
                assert(more[i - was.len()] == x);
                assert(more.contains(x));
                let k = choose|k: int|
                    0 <= k < g[n - 1].1.len() && x == module_pair(
                        t,
                        g[n - 1].0,
                        (#[trigger] g[n - 1].1[k]).0,
                        g[n - 1].1[k].1 as int,
                    ) && is_coupled(x);
                assert(g[n - 1].1[k] == g[n - 1].1[k]);
            }
        }
        if exists|p: int, q: int|
            0 <= p < n && 0 <= q < g[p].1.len() && x == module_pair(
                t,
                g[p].0,
                (#[trigger] g[p].1[q]).0,
                g[p].1[q].1 as int,
            ) && is_coupled(x) {
            let (p, q) = choose|p: int, q: int|
                0 <= p < n && 0 <= q < g[p].1.len() && x == module_pair(
                    t,
                    g[p].0,
                    (#[trigger] g[p].1[q]).0,
                    g[p].1[q].1 as int,
                ) && is_coupled(x);
            if p < n - 1 {
                let i = choose|i: int| 0 <= i < was.len() && was[i] == x;
                assert(is[i] == x);
            } else {
                assert(more.contains(x));
                let i = choose|i: int| 0 <= i < more.len() && more[i] == x;
                assert(is[was.len() + i] == x);
            }
        }
    }
}

/// Every coupled pair of modules is shown with its common changes, unless there
/// are more than the report holds.
pub proof fn every_coupled_pair_is_shown(
    rows: Seq<FileInCommitModel>,
    g: tally::Groups,
    t: Seq<(Seq<char>, u64)>,
    p: int,
    q: int,
)
    requires
        g == pair_counts(runs(rows)),
        t == totals(runs(rows)),
        0 <= p < g.len(),
        0 <= q < g[p].1.len(),
        is_coupled(module_pair(t, g[p].0, g[p].1[q].0, g[p].1[q].1 as int)),
        coupled_pairs(g, t, g.len() as int).len() <= 100,
    ensures
        exists|i: int|
            0 <= i < module_coupling_report(rows).entries.len() && ({
                let e = #[trigger] module_coupling_report(rows).entries[i];
                let a = g[p].0;
                let b = g[p].1[q].0;
                let n = g[p].1[q].1 as int;
                &&& e.key == a + " <-> "@ + b
                &&& e.values["module_a"@] == ValueModel::Text(a)
                &&& e.values["module_b"@] == ValueModel::Text(b)
                &&& e.values["co_changes"@] == ValueModel::Count(n)
                &&& changes_of(t, a) >= changes_of(t, b) ==> e.values["score"@]
                    == ValueModel::Ratio(n, changes_of(t, a))
                &&& changes_of(t, b) >= changes_of(t, a) ==> e.values["score"@]
                    == ValueModel::Ratio(n, changes_of(t, b))
            }),
{
    let x = module_pair(t, g[p].0, g[p].1[q].0, g[p].1[q].1 as int);
    lemma_coupled_pairs(g, t, g.len() as int, x);
    let s = coupled_pairs(g, t, g.len() as int);
    assert(s.contains(x));
    report::top_ranked_members::<ModulePair>(s, 100);
    let ranked = report::top_ranked::<ModulePair>(s, 100);
    assert(ranked.contains(x));
    let i = choose|i: int| 0 <= i < ranked.len() && ranked[i] == x;
    assert(module_coupling_report(rows).entries[i] == ModulePair::entry(x));
    reveal_strlit("module_a");
    reveal_strlit("module_b");
    reveal_strlit("co_changes");
    reveal_strlit("score");
    assert("module_a"@[7] != "module_b"@[7]);
    assert("module_a"@.len() != "co_changes"@.len());
    assert("module_a"@.len() != "score"@.len());
    assert("module_b"@.len() != "co_changes"@.len());
    assert("module_b"@.len() != "score"@.len());
    assert("co_changes"@.len() != "score"@.len());
}

/// Whatever is shown is a coupled pair, the one with the larger share first, and
/// there are at most a hundred.
pub proof fn closest_pairs_first(rows: Seq<FileInCommitModel>, i: int, j: int)
    requires
        0 <= i < j < module_coupling_report(rows).entries.len(),
    ensures
        ({
            let e = module_coupling_report(rows).entries;
            let a = e[i].values["score"@];
            let b = e[j].values["score"@];
            &&& e.len() <= 100
            &&& e[i].values["co_changes"@]->Count_0 >= 3
            &&& !double::less(double::share(a->Ratio_0, a->Ratio_1), double::share(b->Ratio_0, b->Ratio_1))
        }),
{
    let g = pair_counts(runs(rows));
    let t = totals(runs(rows));
    let s = coupled_pairs(g, t, g.len() as int);
    report::top_ranked_members::<ModulePair>(s, 100);
    report::top_ranked_leads::<ModulePair>(s, 100);
    report::top_ranked_len::<ModulePair>(s, 100);
    let ranked = report::top_ranked::<ModulePair>(s, 100);
    assert(s.contains(ranked[i]));
    lemma_coupled_pairs(g, t, g.len() as int, ranked[i]);
    assert(ModulePair::le(ranked[i], ranked[j]));
    assert(module_coupling_report(rows).entries[i] == ModulePair::entry(ranked[i]));
    assert(module_coupling_report(rows).entries[j] == ModulePair::entry(ranked[j]));
    reveal_strlit("module_a");
    reveal_strlit("module_b");
    reveal_strlit("co_changes");
    reveal_strlit("score");
    assert("module_a"@[7] != "module_b"@[7]);
    assert("module_a"@.len() != "co_changes"@.len());
    assert("module_a"@.len() != "score"@.len());
    assert("module_b"@.len() != "co_changes"@.len());
    assert("module_b"@.len() != "score"@.len());
    assert("co_changes"@.len() != "score"@.len());
}

/// The report has these columns, in this order.
pub proof fn the_columns_are_these(rows: Seq<FileInCommitModel>)
    ensures
        module_coupling_report(rows).name == "module_coupling"@,
        module_coupling_report(rows).columns.len() == 4,
        module_coupling_report(rows).columns[0].value == "module_a"@,
        module_coupling_report(rows).columns[1].value == "module_b"@,
        module_coupling_report(rows).columns[2].value == "co_changes"@,
        module_coupling_report(rows).columns[3].value == "score"@,
{
}

/// The limits that hold here.
pub proof fn the_limits_are_these()
    ensures
        MODULE_DEPTH == 2,
        MIN_CO_CHANGES == 3,
        MAX_PAIRS == 100,
{
}

/// A source file touches its module, two levels deep; other files touch none.
pub proof fn source_files_touch_their_module(
    modules: Seq<(Seq<char>, bool)>,
    file: Seq<char>,
    m: Seq<char>,
)
    requires
        table::ascending(modules),
    ensures
        table::keys(touch(modules, file)).contains(m) <==> table::keys(modules).contains(m) || (
        source_filter::is_source(file) && module(file, 2) == m),
        table::ascending(touch(modules, file)),
{
    let at = module(file, 2);
    table::lookup_of_put(modules, at, true, m);
    table::put_ascends(modules, at, true);
    table::lemma_lookup_some(modules, m);
    table::lemma_lookup_some(touch(modules, file), m);
}

/// The description says how deep a module lies.
pub proof fn the_depth_is_told(rows: Seq<FileInCommitModel>)
    ensures
        module_coupling_report(rows).description.code == types::description_code(
            "module_coupling"@,
        ),
        module_coupling_report(rows).description.params == seq![
            ("module_depth"@, types::ParamModel::Number(2)),
        ],
{
    assert(module_coupling_report(rows).description.params =~= seq![
        ("module_depth"@, types::ParamModel::Number(2)),
    ]);
}

} // verus!
