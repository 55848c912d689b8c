//! How large commits are, and which are far larger than usual.

use vstd::prelude::*;

use crate::double;
use crate::double::Double;
use crate::fold;
use crate::metrics::quality;
use crate::metrics::quality::round_quotient;
use crate::order;
use crate::order::Ranked;
use crate::report;
use crate::report::Row;
use crate::text;
use crate::types;
use crate::types::{EntryGroup, EntryModel, GroupModel, MetricEntry, MetricResult, MetricValue, ResultModel, ValueModel, Values};

verus! {

/// At most this many anomalies are listed; all of them are counted.
pub const MAX_ANOMALIES: usize = 25;

/// A commit is an anomaly if it exceeds the 95th percentile so many times.
pub const ANOMALY_P95_MULTIPLIER: u64 = 10;

/// A commit and the number of lines it changed. A negative number counts as 0.
#[derive(Debug)]
pub struct CommitRow {
    pub oid: String,
    pub size: i64,
    pub email: String,
    pub ts: i64,
    pub message: String,
}

pub struct CommitRowModel {
    pub oid: Seq<char>,
    pub size: int,
    pub email: Seq<char>,
    pub ts: int,
    pub message: Seq<char>,
}

impl View for CommitRow {
    type V = CommitRowModel;

    open spec fn view(&self) -> CommitRowModel {
        CommitRowModel {
            oid: self.oid@,
            size: if self.size > 0 {
                self.size as int
            } else {
                0
            },
            email: self.email@,
            ts: self.ts as int,
            message: self.message@,
        }
    }
}

impl CommitRow {
    /// The number of lines changed.
    pub fn lines(&self) -> (r: u64)
        ensures
            r == self@.size,
    {
        if self.size > 0 {
            self.size as u64
        } else {
            0
        }
    }
}

/// The largest first.
impl Ranked for CommitRow {
    open spec fn le(a: CommitRowModel, b: CommitRowModel) -> bool {
        a.size >= b.size
    }

    proof fn le_total(a: CommitRowModel, b: CommitRowModel) {
    }

    proof fn le_transitive(a: CommitRowModel, b: CommitRowModel, c: CommitRowModel) {
    }

    fn not_after(&self, other: &CommitRow) -> (r: bool) {
        self.lines() >= other.lines()
    }
}

/// The first line of a text, at most `n` characters of it.
pub open spec fn first_line_of(s: Seq<char>, n: int) -> Seq<char> {
    let ls = text::lines_of(s);
    order::first_n(
        if ls.len() > 0 {
            ls[0]
        } else {
            Seq::empty()
        },
        n,
    )
}

fn head_chars(s: &str, n: usize) -> (r: String)
    ensures
        r@ == order::first_n(s@, n as int),
{
    let v = text::to_chars(s);
    let kept = order::keep_first(v, n);
    text::to_text(&kept)
}

fn head_line(s: &str, n: usize) -> (r: String)
    ensures
        r@ == first_line_of(s@, n as int),
{
    let ls = text::lines(s);
    proof {
        assert(text::views(ls@).len() == ls@.len());
    }
    if ls.len() > 0 {
        proof {
            assert(text::views(ls@)[0] == ls@[0]@);
        }
        head_chars(ls[0].as_str(), n)
    } else {
        let none = String::new();
        head_chars(none.as_str(), n)
    }
}

impl Row for CommitRow {
    open spec fn entry(c: CommitRowModel) -> EntryModel {
        EntryModel {
            key: order::first_n(c.oid, 12),
            values: Map::empty().insert("lines_changed"@, ValueModel::Count(c.size)).insert(
                "author"@,
                ValueModel::Text(c.email),
            ).insert("date"@, ValueModel::Date(types::day_of(c.ts))).insert(
                "message"@,
                ValueModel::Text(first_line_of(c.message, 80)),
            ),
        }
    }

    fn to_entry(self) -> (r: MetricEntry) {
        let key = head_chars(self.oid.as_str(), 12);
        let size = self.lines();
        let mut values = Values::new();
        values.insert("lines_changed", MetricValue::Count(size));
        values.insert("author", MetricValue::Text(self.email));
        values.insert("date", MetricValue::Date(types::ts_to_date(self.ts)));
        values.insert("message", MetricValue::Text(head_line(self.message.as_str(), 80)));
        MetricEntry { key, values }
    }
}

/// A size among others, the smallest first.
#[derive(Clone, Copy)]
pub struct Size {
    pub lines: u64,
}

impl View for Size {
    type V = u64;

    open spec fn view(&self) -> u64 {
        self.lines
    }
}

impl Ranked for Size {
    open spec fn le(a: u64, b: u64) -> bool {
        a <= b
    }

    proof fn le_total(a: u64, b: u64) {
    }

    proof fn le_transitive(a: u64, b: u64, c: u64) {
    }

    fn not_after(&self, other: &Size) -> (r: bool) {
        self.lines <= other.lines
    }
}

pub open spec fn lines_in() -> spec_fn(u64) -> nat {
    |n: u64| n as nat
}

/// The figures of a distribution of sizes.
#[derive(Debug, Clone, Copy)]
pub struct Stats {
    pub mean: u64,
    pub median: u64,
    pub p95: u64,
    pub p99: u64,
    pub max: u64,
}

/// The place below which `percent` percent of `n` places lie, but never past
/// the last.
pub open spec fn percentile_at(n: int, percent: int) -> int {
    let at = double::whole(double::times(double::of(n), double::nearest(percent, 100)));
    if at < n - 1 {
        at
    } else {
        n - 1
    }
}

pub open spec fn stats_of(sizes: Seq<u64>) -> Stats {
    let n = sizes.len() as int;
    Stats {
        mean: quality::rounded(fold::total(sizes, lines_in()) as int, n) as u64,
        median: sizes[n / 2],
        p95: sizes[percentile_at(n, 95)],
        p99: sizes[percentile_at(n, 99)],
        max: sizes.last(),
    }
}

impl Stats {
    /// The figures of sizes in ascending order. Their sum is at most
    /// `u64::MAX`.
    pub fn from_sorted(sizes: &[u64]) -> (r: Stats)
        requires
            sizes@.len() > 0,
            fold::total(sizes@, lines_in()) <= u64::MAX,
        ensures
            r == stats_of(sizes@),
    {
        let n: usize = sizes.len();
        let mut sum: u64 = 0;
        let mut i: usize = 0;
        proof {
            assert(sizes@.take(0).len() == 0);
        }
        while i < n
            invariant
                n == sizes@.len(),
                i <= n,
                fold::total(sizes@, lines_in()) <= u64::MAX,
                sum == fold::total(sizes@.take(i as int), lines_in()),
            decreases n - i,
        {
            proof {
                fold::lemma_total_step(sizes@, lines_in(), i as int);
            }
            sum += sizes[i];
            i += 1;
        }
        proof {
            assert(sizes@.take(n as int) =~= sizes@);
        }
        Stats {
            mean: round_quotient(sum, n as u64),
            median: sizes[n / 2],
            p95: sizes[place(n, 95)],
            p99: sizes[place(n, 99)],
            max: sizes[n - 1],
        }
    }
}

fn place(n: usize, percent: u64) -> (r: usize)
    requires
        n > 0,
        0 < percent < 100,
    ensures
        r == percentile_at(n as int, percent as int),
        r < n,
{
    let p: u64 = Double::of(n as u64).times(Double::fraction(percent, 100)).truncated();
    if p < n as u64 - 1 {
        p as usize
    } else {
        n - 1
    }
}

/// A commit larger than this is an anomaly.
pub open spec fn threshold_of(s: Stats) -> int {
    let tenfold = double::held(
        double::whole(
            double::times(double::of(s.p95 as int), double::of(ANOMALY_P95_MULTIPLIER as int)),
        ),
    );
    if tenfold > s.p99 {
        tenfold
    } else {
        s.p99 as int
    }
}

pub fn anomaly_threshold(stats: &Stats) -> (r: u64)
    ensures
        r == threshold_of(*stats),
{
    let tenfold: u64 = Double::of(stats.p95).times(
        Double::of(ANOMALY_P95_MULTIPLIER),
    ).truncated();
    if tenfold > stats.p99 {
        tenfold
    } else {
        stats.p99
    }
}

/// The sizes of the commits.
pub open spec fn sizes_of(rows: Seq<CommitRowModel>) -> Seq<u64> {
    Seq::new(rows.len(), |i: int| rows[i].size as u64)
}

/// The sizes of the commits in ascending order.
pub open spec fn sorted_sizes(rows: Seq<CommitRowModel>) -> Seq<u64> {
    order::sort_ranked::<Size>(sizes_of(rows))
}

/// The commits above the threshold, in their order.
pub open spec fn above(rows: Seq<CommitRowModel>, threshold: int) -> Seq<CommitRowModel>
    decreases rows.len(),
{
    if rows.len() == 0 {
        Seq::empty()
    } else if rows.last().size > threshold {
        above(rows.drop_last(), threshold).push(rows.last())
    } else {
        above(rows.drop_last(), threshold)
    }
}

pub open spec fn summary_of(commits: int, s: Stats, anomalies: int) -> EntryModel {
    EntryModel {
        key: "overall"@,
        values: Map::empty().insert("commits"@, ValueModel::Count(commits)).insert(
            "mean"@,
            ValueModel::Count(s.mean as int),
        ).insert("median"@, ValueModel::Count(s.median as int)).insert(
            "p95"@,
            ValueModel::Count(s.p95 as int),
        ).insert("p99"@, ValueModel::Count(s.p99 as int)).insert(
            "max"@,
            ValueModel::Count(s.max as int),
        ).insert("anomaly_count"@, ValueModel::Count(anomalies)),
    }
}

fn summary_entry(commits: u64, stats: &Stats, anomalies: u64) -> (r: MetricEntry)
    ensures
        r@ == summary_of(commits as int, *stats, anomalies as int),
{
    let mut values = Values::new();
    values.insert("commits", MetricValue::Count(commits));
    values.insert("mean", MetricValue::Count(stats.mean));
    values.insert("median", MetricValue::Count(stats.median));
    values.insert("p95", MetricValue::Count(stats.p95));
    values.insert("p99", MetricValue::Count(stats.p99));
    values.insert("max", MetricValue::Count(stats.max));
    values.insert("anomaly_count", MetricValue::Count(anomalies));
    MetricEntry { key: text::copy_text("overall"), values }
}

pub open spec fn commit_size_columns() -> Seq<Seq<char>> {
    seq![
        "commits"@,
        "mean"@,
        "median"@,
        "p95"@,
        "p99"@,
        "max"@,
        "anomaly_count"@,
        "lines_changed"@,
        "author"@,
        "date"@,
        "message"@,
    ]
}

pub open spec fn commit_size_report(rows: Seq<CommitRowModel>) -> ResultModel {
    let stats = stats_of(sorted_sizes(rows));
    let anomalies = above(rows, threshold_of(stats));
    types::grouped_report_of(
        "commit_size"@,
        commit_size_columns(),
        seq![
            GroupModel {
                name: "summary"@,
                label: "commit_size.group.summary"@,
                entries: seq![summary_of(rows.len() as int, stats, anomalies.len() as int)],
            },
            GroupModel {
                name: "anomalies"@,
                label: "commit_size.group.anomalies"@,
                entries: report::entries_of::<CommitRow>(
                    report::top_ranked::<CommitRow>(anomalies, MAX_ANOMALIES as int),
                ),
            },
        ],
    )
}

/// The median never exceeds the 95th percentile, nor that the 99th, nor that
/// the largest size.
pub proof fn figures_ascend(rows: Seq<CommitRowModel>)
    requires
        rows.len() > 0,
    ensures
        ({
            let s = stats_of(sorted_sizes(rows));
            s.median <= s.p95 <= s.p99 <= s.max
        }),
{
    let given = sizes_of(rows);
    order::sort_orders::<Size>(given);
    order::sort_keeps_elements::<Size>(given);
    let sizes = sorted_sizes(rows);
    let n = sizes.len() as int;
    assert(order::is_ranked::<Size>(sizes));
    assert forall|i: int, j: int| 0 <= i <= j < n implies sizes[i] <= sizes[j] by {
        if i < j {
            assert(Size::le(sizes[i], sizes[j]));
        }
    }
    double::places_are_ordered(n, 95, 99, 100);
    assert(0 <= n / 2 <= percentile_at(n, 95) <= percentile_at(n, 99) <= n - 1);
}

/// The list of anomalies holds commits above the threshold only.
pub proof fn anomalies_exceed(rows: Seq<CommitRowModel>, threshold: int)
    ensures
        forall|i: int|
            0 <= i < above(rows, threshold).len() ==> (#[trigger] above(rows, threshold)[i]).size
                > threshold,
        above(rows, threshold).len() <= rows.len(),
    decreases rows.len(),
{
    if rows.len() > 0 {
        anomalies_exceed(rows.drop_last(), threshold);
    }
}

proof fn lemma_total_of_sorted(s: Seq<u64>)
    ensures
        fold::total(order::sort_ranked::<Size>(s), lines_in()) == fold::total(s, lines_in()),
    decreases s.len(),
{
    if s.len() > 0 {
        lemma_total_of_sorted(s.drop_last());
        lemma_total_of_insert(order::sort_ranked::<Size>(s.drop_last()), s.last());
    }
}

proof fn lemma_total_of_insert(s: Seq<u64>, x: u64)
    ensures
        fold::total(order::insert_ranked::<Size>(s, x), lines_in()) == fold::total(s, lines_in())
            + x,
    decreases s.len(),
{
    let t = order::insert_ranked::<Size>(s, x);
    if s.len() == 0 || Size::le(s.last(), x) {
        assert(s.push(x).drop_last() =~= s);
    } else {
        lemma_total_of_insert(s.drop_last(), x);
        let u = order::insert_ranked::<Size>(s.drop_last(), x);
        assert(u.push(s.last()).drop_last() =~= u);
    }
}

fn ascending_sizes(rows: &[CommitRow]) -> (r: Vec<u64>)
    ensures
        r@ == sorted_sizes(order::models(rows@)),
{
    let ghost given = sizes_of(order::models(rows@));
    let mut sizes: Vec<Size> = Vec::new();
    let n: usize = rows.len();
    let mut i: usize = 0;
    while i < n
        invariant
            n == rows@.len(),
            i <= n,
            sizes@.len() == i,
            forall|k: int| 0 <= k < i ==> (#[trigger] sizes@[k])@ == rows@[k]@.size as u64,
        decreases n - i,
    {
        sizes.push(Size { lines: rows[i].lines() });
        i += 1;
    }
    proof {
        assert(order::models(sizes@) =~= given);
    }
    let sorted = order::sort_rows(sizes);
    let ghost want = order::models(sorted@);
    let m: usize = sorted.len();
    let mut out: Vec<u64> = Vec::new();
    let mut j: usize = 0;
    while j < m
        invariant
            m == sorted@.len(),
            want == order::models(sorted@),
            j <= m,
            out@ == want.take(j as int),
        decreases m - j,
    {
        out.push(sorted[j].lines);
        j += 1;
        proof {
            assert(out@ =~= want.take(j as int));
        }
    }
    proof {
        assert(want.take(m as int) =~= want);
    }
    out
}

fn keep_above(rows: Vec<CommitRow>, threshold: u64) -> (r: Vec<CommitRow>)
    ensures
        order::models(r@) == above(order::models(rows@), threshold as int),
{
    let ghost all = order::models(rows@);
    let mut kept: Vec<CommitRow> = Vec::new();
    proof {
        assert(all.take(0).len() == 0);
        assert(order::models(kept@) =~= Seq::empty());
    }
    for row in it: rows
        invariant
            order::models(it.seq()) == all,
            order::models(kept@) == above(all.take(it.index() as int), threshold as int),
    {
        let ghost before = order::models(kept@);
        let ghost i = it.index() as int;
        proof {
            assert(order::models(it.seq())[i] == row@);
            assert(all.take(i + 1).drop_last() =~= all.take(i));
            assert(all.take(i + 1).last() == row@);
        }
        if row.lines() > threshold {
            kept.push(row);
            proof {
                assert(order::models(kept@) =~= before.push(row@));
            }
        }
    }
    proof {
        assert(all.take(all.len() as int) =~= all);
    }
    kept
}

pub struct CommitSizeCollector;

impl Default for CommitSizeCollector {
    fn default() -> (r: Self)
        ensures
            r == (CommitSizeCollector {  }),
    {
        CommitSizeCollector::new()
    }
}

impl CommitSizeCollector {
    pub fn new() -> (r: Self)
        ensures
            r == (CommitSizeCollector {  }),
    {
        CommitSizeCollector
    }

    pub fn name(&self) -> (r: &str)
        ensures
            r@ == "commit_size"@,
    {
        "commit_size"
    }

    /// The report without any rows to draw on.
    pub fn finalize(&mut self) -> (r: MetricResult)
        ensures
            r@ == types::empty_report("commit_size"@),
    {
        MetricResult::empty("commit_size")
    }

    /// The report, given one row per commit; nothing without commits. The
    /// commits together change at most `u64::MAX` lines.
    pub fn finalize_from_rows(&mut self, rows: Vec<CommitRow>) -> (r: Option<MetricResult>)
        requires
            fold::total(sizes_of(order::models(rows@)), lines_in()) <= u64::MAX,
        ensures
            match r {
                Some(report) => rows@.len() > 0 && report@ == commit_size_report(
                    order::models(rows@),
                ),
                None => rows@.len() == 0,
            },
    {
        if rows.len() == 0 {
            return None;
        }
        let ghost all = order::models(rows@);
        let total = rows.len() as u64;
        let sizes = ascending_sizes(&rows);
        proof {
            order::sort_keeps_elements::<Size>(sizes_of(all));
            lemma_total_of_sorted(sizes_of(all));
        }
        let stats = Stats::from_sorted(&sizes);
        let threshold = anomaly_threshold(&stats);
        let anomalies = keep_above(rows, threshold);
        proof {
            assert(order::models(anomalies@).len() == anomalies@.len());
        }
        let count = anomalies.len() as u64;
        let mut overall: Vec<MetricEntry> = Vec::new();
        overall.push(summary_entry(total, &stats, count));
        let details = report::ranked_entries(anomalies, MAX_ANOMALIES);
        proof {
            assert(types::entry_models(overall@) =~= seq![
                summary_of(total as int, stats, count as int),
            ]);
        }
        let mut groups: Vec<EntryGroup> = Vec::new();
        groups.push(EntryGroup::of("summary", "commit_size.group.summary", overall));
        groups.push(EntryGroup::of("anomalies", "commit_size.group.anomalies", details));
        let columns = [
            "commits",
            "mean",
            "median",
            "p95",
            "p99",
            "max",
            "anomaly_count",
            "lines_changed",
            "author",
            "date",
            "message",
        ];
        proof {
            assert(types::str_views(columns@) =~= commit_size_columns());
        }
        proof {
            assert(types::group_models(groups@) =~= commit_size_report(all).groups);
        }
        Some(MetricResult::grouped("commit_size", &columns, groups))
    }
}

proof fn lemma_above(rows: Seq<CommitRowModel>, threshold: int, x: CommitRowModel)
    ensures
        above(rows, threshold).contains(x) <==> exists|k: int|
            0 <= k < rows.len() && (#[trigger] rows[k]).size > threshold && x == rows[k],
        above(rows, threshold).len() <= rows.len(),
    decreases rows.len(),
{
    if rows.len() > 0 {
        let front = rows.drop_last();
        let last = rows.last();
        let was = above(front, threshold);
        let is = above(rows, threshold);
        lemma_above(front, threshold, x);
        assert(rows[rows.len() - 1] == last);
        assert(forall|k: int| 0 <= k < front.len() ==> front[k] == rows[k]);
        if is.contains(x) {
            let i = choose|i: int| 0 <= i < is.len() && is[i] == x;
            if i < was.len() {
                assert(was[i] == x);
                let k = choose|k: int|
                    0 <= k < front.len() && (#[trigger] front[k]).size > threshold && x == front[k];
                assert(rows[k] == front[k]);
            }
        }
        if exists|k: int| 0 <= k < rows.len() && (#[trigger] rows[k]).size > threshold && x == rows[k] {
            let k = choose|k: int|
                0 <= k < rows.len() && (#[trigger] rows[k]).size > threshold && x == rows[k];
            if k < front.len() {
                assert(front[k] == rows[k]);
                let i = choose|i: int| 0 <= i < was.len() && was[i] == x;
                assert(is[i] == x);
            } else {
                assert(is[is.len() - 1] == x);
            }
        }
    }
}

/// Every commit above the threshold is shown with its size, its author, its day
/// and the first line of its message, unless there are more than the list holds.
pub proof fn every_outsized_commit_is_shown(rows: Seq<CommitRowModel>, k: int)
    requires
        0 <= k < rows.len(),
        rows[k].size > threshold_of(stats_of(sorted_sizes(rows))),
        above(rows, threshold_of(stats_of(sorted_sizes(rows)))).len() <= 25,
    ensures
        exists|i: int|
            0 <= i < commit_size_report(rows).groups[1].entries.len() && ({
                let e = #[trigger] commit_size_report(rows).groups[1].entries[i];
                let r = rows[k];
                &&& e.key == order::first_n(r.oid, 12)
                &&& e.values["lines_changed"@] == ValueModel::Count(r.size)
                &&& e.values["author"@] == ValueModel::Text(r.email)
                &&& e.values["date"@] == ValueModel::Date(types::day_of(r.ts))
                &&& e.values["message"@] == ValueModel::Text(first_line_of(r.message, 80))
            }),
{
    let s = above(rows, threshold_of(stats_of(sorted_sizes(rows))));
    let x = rows[k];
    let ranked = report::top_ranked::<CommitRow>(above(rows, threshold_of(stats_of(sorted_sizes(rows)))), 25);
    lemma_above(rows, threshold_of(stats_of(sorted_sizes(rows))), x);
    report::top_ranked_members::<CommitRow>(above(rows, threshold_of(stats_of(sorted_sizes(rows)))), 25);
    report::top_ranked_len::<CommitRow>(above(rows, threshold_of(stats_of(sorted_sizes(rows)))), 25);
    assert(s.contains(x));
    assert(ranked.contains(x));
    let i = choose|i: int| 0 <= i < ranked.len() && ranked[i] == x;
    assert(commit_size_report(rows).groups[1].entries[i] == CommitRow::entry(x));
    reveal_strlit("lines_changed");
    reveal_strlit("author");
    reveal_strlit("date");
    reveal_strlit("message");
    assert("lines_changed"@.len() != "author"@.len());
    assert("lines_changed"@.len() != "date"@.len());
    assert("lines_changed"@.len() != "message"@.len());
    assert("author"@.len() != "date"@.len());
    assert("author"@.len() != "message"@.len());
    assert("date"@.len() != "message"@.len());
}

/// Whatever is listed is a commit above the threshold, and there are at most
/// twenty-five.
pub proof fn only_outsized_commits_are_shown(rows: Seq<CommitRowModel>, i: int)
    requires
        0 <= i < commit_size_report(rows).groups[1].entries.len(),
    ensures
        commit_size_report(rows).groups[1].entries.len() <= 25,
        exists|k: int|
            0 <= k < rows.len() && ({
                let e = commit_size_report(rows).groups[1].entries[i];
                let r = #[trigger] rows[k];
                &&& r.size > threshold_of(stats_of(sorted_sizes(rows)))
                &&& e.key == order::first_n(r.oid, 12)
                &&& e.values["lines_changed"@] == ValueModel::Count(r.size)
                &&& e.values["author"@] == ValueModel::Text(r.email)
                &&& e.values["date"@] == ValueModel::Date(types::day_of(r.ts))
                &&& e.values["message"@] == ValueModel::Text(first_line_of(r.message, 80))
            }),
{
    let s = above(rows, threshold_of(stats_of(sorted_sizes(rows))));
    let ranked = report::top_ranked::<CommitRow>(above(rows, threshold_of(stats_of(sorted_sizes(rows)))), 25);
    let x = ranked[i];
    report::top_ranked_members::<CommitRow>(above(rows, threshold_of(stats_of(sorted_sizes(rows)))), 25);
    report::top_ranked_len::<CommitRow>(above(rows, threshold_of(stats_of(sorted_sizes(rows)))), 25);
    assert(ranked.contains(x));
    assert(s.contains(x));
    lemma_above(rows, threshold_of(stats_of(sorted_sizes(rows))), x);
    assert(commit_size_report(rows).groups[1].entries[i] == CommitRow::entry(x));
    let k = choose|k: int| 0 <= k < rows.len() && (#[trigger] rows[k]).size > threshold_of(stats_of(sorted_sizes(rows))) && x == rows[k];
    assert(rows[k] == rows[k]);
    reveal_strlit("lines_changed");
    reveal_strlit("author");
    reveal_strlit("date");
    reveal_strlit("message");
    assert("lines_changed"@.len() != "author"@.len());
    assert("lines_changed"@.len() != "date"@.len());
    assert("lines_changed"@.len() != "message"@.len());
    assert("author"@.len() != "date"@.len());
    assert("author"@.len() != "message"@.len());
    assert("date"@.len() != "message"@.len());
}

/// The largest commits stand first.
pub proof fn largest_commits_first(rows: Seq<CommitRowModel>, i: int, j: int)
    requires
        0 <= i < j < commit_size_report(rows).groups[1].entries.len(),
    ensures
        ({
            let a = commit_size_report(rows).groups[1].entries[i].values;
            let b = commit_size_report(rows).groups[1].entries[j].values;
            a["lines_changed"@]->Count_0 >= b["lines_changed"@]->Count_0
        }),
{
    let ranked = report::top_ranked::<CommitRow>(above(rows, threshold_of(stats_of(sorted_sizes(rows)))), 25);
    report::top_ranked_leads::<CommitRow>(above(rows, threshold_of(stats_of(sorted_sizes(rows)))), 25);
    assert(commit_size_report(rows).groups[1].entries[i] == CommitRow::entry(ranked[i]));
    assert(commit_size_report(rows).groups[1].entries[j] == CommitRow::entry(ranked[j]));
    assert(CommitRow::le(ranked[i], ranked[j]));
    reveal_strlit("lines_changed");
    reveal_strlit("author");
    reveal_strlit("date");
    reveal_strlit("message");
    assert("lines_changed"@.len() != "author"@.len());
    assert("lines_changed"@.len() != "date"@.len());
    assert("lines_changed"@.len() != "message"@.len());
    assert("author"@.len() != "date"@.len());
    assert("author"@.len() != "message"@.len());
    assert("date"@.len() != "message"@.len());
}

/// The threshold is ten times the 95th percentile, or the 99th percentile where
/// that is more.
pub proof fn the_threshold_is_tenfold(s: Stats)
    requires
        s.p95 < 900_000_000_000_000,
    ensures
        10 * s.p95 >= s.p99 ==> threshold_of(s) == 10 * s.p95,
        10 * s.p95 <= s.p99 ==> threshold_of(s) == s.p99,
{
    let a = s.p95 as int;
    if a > 0 {
        double::small_products_are_exact(a, 10);
    }
    double::small_numbers_are_whole(10 * a);
}

/// No commit is larger than the largest size, and one is as large. Half of the
/// sizes, in ascending order, lie below the median and half above it.
pub proof fn figures_stand_in_the_sizes(rows: Seq<CommitRowModel>)
    requires
        rows.len() > 0,
    ensures
        ({
            let sizes = sizes_of(rows);
            let sorted = sorted_sizes(rows);
            let s = stats_of(sorted);
            &&& sorted.to_multiset() == sizes.to_multiset()
            &&& sizes.contains(s.max) && sizes.contains(s.median)
            &&& forall|k: int| 0 <= k < sizes.len() ==> #[trigger] sizes[k] <= s.max
            &&& forall|k: int| 0 <= k && 2 * k <= sizes.len() && k < sizes.len() ==> #[trigger] sorted[k] <= s.median
            &&& forall|k: int| sizes.len() <= 2 * k + 1 && k < sizes.len() ==> #[trigger] sorted[k] >= s.median
        }),
{
    let sizes = sizes_of(rows);
    let sorted = sorted_sizes(rows);
    order::sort_keeps_elements::<Size>(sizes);
    order::sort_same_members::<Size>(sizes);
    order::sort_orders::<Size>(sizes);
    let n = sizes.len() as int;
    assert(sorted.contains(sorted[n - 1]));
    assert(sorted.contains(sorted[n / 2]));
    assert forall|k: int| 0 <= k < sizes.len() implies #[trigger] sizes[k] <= sorted[n - 1] by {
        assert(sizes.contains(sizes[k]));
        assert(sorted.contains(sizes[k]));
        let j = choose|j: int| 0 <= j < sorted.len() && sorted[j] == sizes[k];
        if j < n - 1 {
            assert(Size::le(sorted[j], sorted[n - 1]));
        }
    }
    assert forall|k: int| 0 <= k && 2 * k <= sizes.len() && k < sizes.len() implies #[trigger] sorted[k] <= sorted[n / 2] by {
        if k < n / 2 {
            assert(Size::le(sorted[k], sorted[n / 2]));
        }
    }
    assert forall|k: int| sizes.len() <= 2 * k + 1 && k < sizes.len() implies #[trigger] sorted[k] >= sorted[n / 2] by {
        if n / 2 < k {
            assert(Size::le(sorted[n / 2], sorted[k]));
        }
    }
}

/// The summary shows each figure under its name.
pub proof fn the_summary_shows_the_figures(rows: Seq<CommitRowModel>)
    ensures
        ({
            let s = stats_of(sorted_sizes(rows));
            let g = commit_size_report(rows).groups[0];
            let v = g.entries[0].values;
            &&& commit_size_report(rows).groups.len() == 2
            &&& g.entries.len() == 1
            &&& v["commits"@] == ValueModel::Count(rows.len() as int)
            &&& v["mean"@] == ValueModel::Count(s.mean as int)
            &&& v["median"@] == ValueModel::Count(s.median as int)
            &&& v["p95"@] == ValueModel::Count(s.p95 as int)
            &&& v["p99"@] == ValueModel::Count(s.p99 as int)
            &&& v["max"@] == ValueModel::Count(s.max as int)
            &&& v["anomaly_count"@] == ValueModel::Count(above(rows, threshold_of(s)).len() as int)
        }),
{
    reveal_strlit("commits");
    reveal_strlit("mean");
    reveal_strlit("median");
    reveal_strlit("p95");
    reveal_strlit("p99");
    reveal_strlit("max");
    reveal_strlit("anomaly_count");
    assert("commits"@.len() != "mean"@.len());
    assert("commits"@.len() != "median"@.len());
    assert("commits"@.len() != "p95"@.len());
    assert("commits"@.len() != "p99"@.len());
    assert("commits"@.len() != "max"@.len());
    assert("commits"@.len() != "anomaly_count"@.len());
    assert("mean"@.len() != "median"@.len());
    assert("mean"@.len() != "p95"@.len());
    assert("mean"@.len() != "p99"@.len());
    assert("mean"@.len() != "max"@.len());
    assert("mean"@.len() != "anomaly_count"@.len());
    assert("median"@.len() != "p95"@.len());
    assert("median"@.len() != "p99"@.len());
    assert("median"@.len() != "max"@.len());
    assert("median"@.len() != "anomaly_count"@.len());
    assert("p95"@[2] != "p99"@[2]);
    assert("p95"@[0] != "max"@[0]);
    assert("p95"@.len() != "anomaly_count"@.len());
    assert("p99"@[0] != "max"@[0]);
    assert("p99"@.len() != "anomaly_count"@.len());
    assert("max"@.len() != "anomaly_count"@.len());
}

/// The first line is cut at so many characters, and holds no line break.
pub proof fn first_lines_are_cut(s: Seq<char>, n: int)
    requires
        n >= 0,
    ensures
        first_line_of(s, n).len() <= n,
        text::lines_of(s).len() > 0 ==> first_line_of(s, n).is_prefix_of(text::lines_of(s)[0]),
{
}

/// The report has these columns, in this order.
pub proof fn the_columns_are_these(rows: Seq<CommitRowModel>)
    ensures
        commit_size_report(rows).name == "commit_size"@,
        commit_size_report(rows).columns.len() == 11,
        commit_size_report(rows).columns[0].value == "commits"@,
        commit_size_report(rows).columns[1].value == "mean"@,
        commit_size_report(rows).columns[2].value == "median"@,
        commit_size_report(rows).columns[3].value == "p95"@,
        commit_size_report(rows).columns[4].value == "p99"@,
        commit_size_report(rows).columns[5].value == "max"@,
        commit_size_report(rows).columns[6].value == "anomaly_count"@,
        commit_size_report(rows).columns[7].value == "lines_changed"@,
        commit_size_report(rows).columns[8].value == "author"@,
        commit_size_report(rows).columns[9].value == "date"@,
        commit_size_report(rows).columns[10].value == "message"@,
{
}

/// The limits that hold here.
pub proof fn the_limits_are_these()
    ensures
        MAX_ANOMALIES == 25,
        ANOMALY_P95_MULTIPLIER == 10,
{
}

/// The 95th percentile is the size below which that many of the commits lie, up
/// to one place, and so is the 99th; neither lies past the last.
pub proof fn percentiles_stand_where_they_say(n: int)
    requires
        0 < n < 1_000_000_000_000,
    ensures
        95 * n / 100 - 1 <= percentile_at(n, 95) <= 95 * n / 100,
        99 * n / 100 - 1 <= percentile_at(n, 99) <= 99 * n / 100,
        percentile_at(n, 95) < n,
        percentile_at(n, 99) < n,
{
    double::ninety_five_in_a_hundred(n);
    double::ninety_nine_in_a_hundred(n);
}

/// The figures are the sizes at these places.
pub proof fn figures_are_sizes_at_places(sizes: Seq<u64>)
    requires
        sizes.len() > 0,
    ensures
        ({
            let n = sizes.len() as int;
            let s = stats_of(sizes);
            &&& s.median == sizes[n / 2]
            &&& s.p95 == sizes[percentile_at(n, 95)]
            &&& s.p99 == sizes[percentile_at(n, 99)]
            &&& s.max == sizes[n - 1]
            &&& s.mean == quality::rounded(fold::total(sizes, lines_in()) as int, n) as u64
        }),
{
}

} // verus!
