//! How much of the churn falls on how few files.

use vstd::prelude::*;

use crate::analysis::source_filter;
use crate::fold;
use crate::messages;
use crate::order;
use crate::order::Ranked;
use crate::report;
use crate::report::{OfFile, Row};
use crate::text;
use crate::types;
use crate::types::{EntryModel, LocalizedMessage, MessageModel, MetricEntry, MetricResult, MetricValue, ResultModel, ValueModel, Values};

verus! {

/// Files that are listed one by one.
pub const LISTED_FILES: usize = 50;

/// How many lines of a file were added and deleted in all.
#[derive(Debug)]
pub struct FileChurn {
    pub file: String,
    pub churn: u64,
}

pub struct FileChurnModel {
    pub file: Seq<char>,
    pub churn: int,
}

impl View for FileChurn {
    type V = FileChurnModel;

    open spec fn view(&self) -> FileChurnModel {
        FileChurnModel {
            file: self.file@,
            churn: self.churn as int,
        }
    }
}

/// The file with more churn first.
impl Ranked for FileChurn {
    open spec fn le(a: FileChurnModel, b: FileChurnModel) -> bool {
        a.churn >= b.churn
    }

    proof fn le_total(a: FileChurnModel, b: FileChurnModel) {
    }

    proof fn le_transitive(a: FileChurnModel, b: FileChurnModel, c: FileChurnModel) {
    }

    fn not_after(&self, other: &FileChurn) -> (r: bool) {
        self.churn >= other.churn
    }
}

impl OfFile for FileChurn {
    open spec fn file_of(r: FileChurnModel) -> Seq<char> {
        r.file
    }

    fn file(&self) -> (r: &str) {
        self.file.as_str()
    }
}

/// The sum of the first `n` numbers.
pub open spec fn sum_to(c: Seq<int>, n: int) -> int
    decreases n,
{
    if n <= 0 {
        0
    } else {
        sum_to(c, n - 1) + c[n - 1]
    }
}

/// How many of the numbers it takes, after the first `i`, until their sum
/// reaches `target`; all of them, if it never does.
pub open spec fn reach_after(c: Seq<int>, target: int, i: int) -> int
    decreases c.len() - i,
{
    if i >= c.len() {
        c.len() as int
    } else if sum_to(c, i + 1) >= target {
        i + 1
    } else {
        reach_after(c, target, i + 1)
    }
}

/// How many of the numbers it takes to reach `percent` percent of `total`.
pub open spec fn needed(c: Seq<int>, total: int, percent: int) -> int {
    if total == 0 {
        0
    } else {
        reach_after(c, total * percent / 100, 0)
    }
}

/// `part` in percent of `whole`, rounded down; nothing is no part of anything.
pub open spec fn percent_of(part: int, whole: int) -> int {
    if whole == 0 {
        0
    } else {
        part * 100 / whole
    }
}

pub open spec fn second_of(s: Seq<(String, u64)>) -> Seq<int> {
    Seq::new(s.len(), |i: int| s[i].1 as int)
}

/// How many files, from the first on, make up `target_pct` percent of `total`.
pub fn files_to_reach_pct(sorted: &[(String, u64)], total: u64, target_pct: u64) -> (r: u64)
    ensures
        r == needed(second_of(sorted@), total as int, target_pct as int),
{
    if total == 0 {
        return 0;
    }
    proof {
        assert(total * target_pct <= u64::MAX * u64::MAX) by (nonlinear_arith)
            requires
                total <= u64::MAX,
                target_pct <= u64::MAX,
        ;
        assert(0 <= total * target_pct) by (nonlinear_arith);
    }
    let target: u128 = total as u128 * target_pct as u128 / 100;
    let ghost c = second_of(sorted@);
    let n: usize = sorted.len();
    let mut cum: u128 = 0;
    let mut i: usize = 0;
    while i < n
        invariant
            n == sorted@.len(),
            i <= n,
            c == second_of(sorted@),
            cum == sum_to(c, i as int),
            cum <= i * 0xffff_ffff_ffff_ffff,
            total != 0,
            target == total * target_pct / 100,
            reach_after(c, target as int, 0) == reach_after(c, target as int, i as int),
        decreases n - i,
    {
        cum += sorted[i].1 as u128;
        if cum >= target {
            return i as u64 + 1;
        }
        i += 1;
    }
    n as u64
}

/// `part` in percent of `whole`, rounded down, where hundred times `part` is
/// cut at the largest number.
pub open spec fn pct_spec(part: int, whole: int) -> int {
    if part * 100 > u64::MAX {
        if whole == 0 {
            0
        } else {
            u64::MAX as int / whole
        }
    } else {
        percent_of(part, whole)
    }
}

pub fn pct(part: u64, whole: u64) -> (r: u64)
    ensures
        r == pct_spec(part as int, whole as int),
{
    let wide: u128 = part as u128 * 100;
    let scaled: u64 = if wide > u64::MAX as u128 {
        u64::MAX
    } else {
        wide as u64
    };
    if whole == 0 {
        0
    } else {
        scaled / whole
    }
}

/// The first so many files that reach the target are the fewest that do.
pub proof fn needed_is_least(c: Seq<int>, target: int, i: int)
    requires
        0 <= i <= c.len(),
    ensures
        i <= reach_after(c, target, i) <= c.len(),
        forall|k: int|
            i < k < reach_after(c, target, i) ==> #[trigger] sum_to(c, k) < target,
        sum_to(c, c.len() as int) >= target && i < c.len() ==> sum_to(
            c,
            reach_after(c, target, i),
        ) >= target,
    decreases c.len() - i,
{
    if i < c.len() && sum_to(c, i + 1) < target {
        needed_is_least(c, target, i + 1);
    }
}

/// A larger share of the churn never takes fewer files.
pub proof fn larger_share_takes_more(c: Seq<int>, total: int, p: int, q: int)
    requires
        total >= 0,
        0 <= p <= q,
    ensures
        needed(c, total, p) <= needed(c, total, q),
{
    if total > 0 {
        assert(total * p <= total * q) by (nonlinear_arith)
            requires
                total >= 0,
                p <= q,
        ;
        lemma_reach_monotone(c, total * p / 100, total * q / 100, 0);
    }
}

proof fn lemma_reach_monotone(c: Seq<int>, s: int, t: int, i: int)
    requires
        s <= t,
        0 <= i <= c.len(),
    ensures
        reach_after(c, s, i) <= reach_after(c, t, i),
    decreases c.len() - i,
{
    if i < c.len() {
        lemma_reach_monotone(c, s, t, i + 1);
        needed_is_least(c, t, i + 1);
    }
}

/// The churn of each file.
pub open spec fn churns(files: Seq<FileChurnModel>) -> Seq<int> {
    Seq::new(files.len(), |i: int| files[i].churn)
}

pub open spec fn churn_total(files: Seq<FileChurnModel>) -> int {
    sum_to(churns(files), files.len() as int)
}

/// A file at its rank, with its share and the share of all up to it.
pub struct RankedFile {
    pub file: String,
    pub rank: u64,
    pub churn: u64,
    pub pct: u64,
    pub cumulative: u64,
}

pub struct RankedFileModel {
    pub file: Seq<char>,
    pub rank: int,
    pub churn: int,
    pub pct: int,
    pub cumulative: int,
}

impl View for RankedFile {
    type V = RankedFileModel;

    open spec fn view(&self) -> RankedFileModel {
        RankedFileModel {
            file: self.file@,
            rank: self.rank as int,
            churn: self.churn as int,
            pct: self.pct as int,
            cumulative: self.cumulative as int,
        }
    }
}

impl Row for RankedFile {
    open spec fn entry(f: RankedFileModel) -> EntryModel {
        EntryModel {
            key: f.file,
            values: Map::empty().insert(
                "rank"@,
                ValueModel::Count(f.rank),
            ).insert(
                "churn"@,
                ValueModel::Count(f.churn),
            ).insert(
                "pct_of_total"@,
                ValueModel::Count(f.pct),
            ).insert(
                "cumulative_pct"@,
                ValueModel::Count(f.cumulative),
            ),
        }
    }

    fn to_entry(self) -> (r: MetricEntry) {
        let mut values = Values::new();
        values.insert("rank", MetricValue::Count(self.rank));
        values.insert("churn", MetricValue::Count(self.churn));
        values.insert("pct_of_total", MetricValue::Count(self.pct));
        values.insert("cumulative_pct", MetricValue::Count(self.cumulative));
        MetricEntry { key: self.file, values }
    }
}

pub open spec fn ranked_file(files: Seq<FileChurnModel>, i: int) -> RankedFileModel {
    RankedFileModel {
        file: files[i].file,
        rank: i + 1,
        churn: files[i].churn,
        pct: percent_of(files[i].churn, churn_total(files)),
        cumulative: percent_of(sum_to(churns(files), i + 1), churn_total(files)),
    }
}

/// How many files make up half, four fifths and nine tenths of the churn.
pub open spec fn summary_entry(files: Seq<FileChurnModel>) -> EntryModel {
    let total = churn_total(files);
    let n = files.len() as int;
    let p50 = needed(churns(files), total, 50);
    let p80 = needed(churns(files), total, 80);
    let p90 = needed(churns(files), total, 90);
    EntryModel {
        key: "<summary>"@,
        values: Map::empty().insert("rank"@, ValueModel::Text("—"@)).insert(
            "churn"@,
            ValueModel::Count(total),
        ).insert(
            "pct_of_total"@,
            ValueModel::Message(
                MessageModel::of(messages::CHURN_PARETO_SUMMARY_PCT@).with_number(
                    "p50"@,
                    p50,
                ).with_number("total"@, n).with_number("p50_pct"@, pct_spec(p50, n)),
            ),
        ).insert(
            "cumulative_pct"@,
            ValueModel::Message(
                MessageModel::of(messages::CHURN_PARETO_SUMMARY_CUMULATIVE@).with_number(
                    "p80"@,
                    p80,
                ).with_number("total"@, n).with_number("p80_pct"@, pct_spec(p80, n)).with_number(
                    "p90"@,
                    p90,
                ).with_number("p90_pct"@, pct_spec(p90, n)),
            ),
        ),
    }
}

pub open spec fn pareto_columns() -> Seq<Seq<char>> {
    seq![
        "rank"@,
        "churn"@,
        "pct_of_total"@,
        "cumulative_pct"@,
    ]
}

/// The files with any churn at all.
pub open spec fn churned(rows: Seq<FileChurnModel>) -> Seq<FileChurnModel>
    decreases rows.len(),
{
    if rows.len() == 0 {
        Seq::empty()
    } else {
        let head = churned(rows.drop_last());
        if rows.last().churn > 0 {
            head.push(rows.last())
        } else {
            head
        }
    }
}

pub open spec fn churn_of() -> spec_fn(FileChurnModel) -> nat {
    |f: FileChurnModel| f.churn as nat
}

/// The source files that churned, the most churned first.
pub open spec fn pareto_files(rows: Seq<FileChurnModel>) -> Seq<FileChurnModel> {
    report::source_only::<FileChurn>(order::sort_ranked::<FileChurn>(churned(rows)))
}

/// The files at their ranks. The summary is left out where nothing churned.
pub open spec fn pareto_report(rows: Seq<FileChurnModel>) -> ResultModel {
    let files = pareto_files(rows);
    let listed = order::first_n(
        Seq::new(files.len(), |i: int| ranked_file(files, i)),
        LISTED_FILES as int,
    );
    let entries = report::entries_of::<RankedFile>(listed);
    types::report_of(
        "churn_pareto"@,
        pareto_columns(),
        if churn_total(files) > 0 {
            seq![summary_entry(files)] + entries
        } else {
            entries
        },
    )
}

proof fn lemma_total_is_sum(files: Seq<FileChurnModel>, n: int)
    requires
        0 <= n <= files.len(),
        forall|i: int| 0 <= i < files.len() ==> (#[trigger] files[i]).churn >= 0,
    ensures
        sum_to(churns(files), n) == fold::total(files.take(n), churn_of()),
    decreases n,
{
    if n > 0 {
        lemma_total_is_sum(files, n - 1);
        assert(files.take(n).drop_last() =~= files.take(n - 1));
        assert(files[n - 1].churn >= 0);
    }
}

proof fn lemma_total_of_churned(rows: Seq<FileChurnModel>)
    ensures
        fold::total(churned(rows), churn_of()) <= fold::total(rows, churn_of()),
    decreases rows.len(),
{
    if rows.len() > 0 {
        let init = rows.drop_last();
        lemma_total_of_churned(init);
        assert(churned(init).push(rows.last()).drop_last() =~= churned(init));
    }
}

/// What the listed files churned is part of what all files did.
proof fn lemma_pareto_total(rows: Seq<FileChurnModel>)
    requires
        forall|i: int| 0 <= i < rows.len() ==> (#[trigger] rows[i]).churn >= 0,
    ensures
        churn_total(pareto_files(rows)) <= fold::total(rows, churn_of()),
{
    let files = pareto_files(rows);
    let sorted = order::sort_ranked::<FileChurn>(churned(rows));
    lemma_total_of_churned(rows);
    order::sort_keeps_total::<FileChurn>(churned(rows), churn_of());
    report::source_only_total::<FileChurn>(sorted, churn_of());
    assert forall|i: int| 0 <= i < files.len() implies (#[trigger] files[i]).churn >= 0 by {
        report::source_only_keeps::<FileChurn>(sorted);
        order::sort_same_members::<FileChurn>(churned(rows));
        lemma_churned_are_rows(rows);
        assert(files.contains(files[i]));
    }
    lemma_total_is_sum(files, files.len() as int);
    assert(files.take(files.len() as int) =~= files);
}

proof fn lemma_churned_are_rows(rows: Seq<FileChurnModel>)
    ensures
        forall|f: FileChurnModel| #[trigger] churned(rows).contains(f) ==> f.churn > 0,
    decreases rows.len(),
{
    if rows.len() > 0 {
        lemma_churned_are_rows(rows.drop_last());
        assert forall|f: FileChurnModel| #[trigger] churned(rows).contains(f) implies f.churn > 0 by {
            let k = choose|k: int| 0 <= k < churned(rows).len() && churned(rows)[k] == f;
            if k < churned(rows.drop_last()).len() {
                assert(churned(rows.drop_last())[k] == f);
                assert(churned(rows.drop_last()).contains(f));
            }
        }
    }
}

fn keep_churned(rows: Vec<FileChurn>) -> (r: Vec<FileChurn>)
    ensures
        order::models(r@) == churned(order::models(rows@)),
{
    let ghost all = order::models(rows@);
    let mut kept: Vec<FileChurn> = Vec::new();
    proof {
        assert(all.take(0).len() == 0);
        assert(order::models(kept@) =~= Seq::empty());
    }
    for f in it: rows
        invariant
            order::models(it.seq()) == all,
            order::models(kept@) == churned(all.take(it.index() as int)),
    {
        let ghost before = order::models(kept@);
        let ghost i = it.index() as int;
        proof {
            assert(order::models(it.seq())[i] == f@);
            assert(all.take(i + 1).drop_last() =~= all.take(i));
            assert(all.take(i + 1).last() == f@);
        }
        if f.churn > 0 {
            kept.push(f);
            proof {
                assert(order::models(kept@) =~= before.push(f@));
            }
        }
    }
    proof {
        assert(all.take(all.len() as int) =~= all);
    }
    kept
}

proof fn lemma_sum_grows(c: Seq<int>, i: int, j: int)
    requires
        0 <= i <= j <= c.len(),
        forall|k: int| 0 <= k < c.len() ==> #[trigger] c[k] >= 0,
    ensures
        0 <= sum_to(c, i) <= sum_to(c, j),
    decreases j,
{
    if i < j {
        lemma_sum_grows(c, i, j - 1);
    } else if i > 0 {
        lemma_sum_grows(c, i - 1, i - 1);
    }
}

fn total_churn(pairs: &[(String, u64)]) -> (r: u64)
    requires
        sum_to(second_of(pairs@), pairs@.len() as int) <= u64::MAX,
    ensures
        r == sum_to(second_of(pairs@), pairs@.len() as int),
{
    let ghost c = second_of(pairs@);
    let n: usize = pairs.len();
    let mut sum: u64 = 0;
    let mut i: usize = 0;
    while i < n
        invariant
            n == pairs@.len(),
            i <= n,
            c == second_of(pairs@),
            sum_to(c, n as int) <= u64::MAX,
            sum == sum_to(c, i as int),
        decreases n - i,
    {
        proof {
            lemma_sum_grows(c, i + 1, n as int);
        }
        sum += pairs[i].1;
        i += 1;
    }
    sum
}

fn percent(part: u64, whole: u64) -> (r: u64)
    requires
        part <= whole,
    ensures
        r == percent_of(part as int, whole as int),
{
    if whole == 0 {
        return 0;
    }
    let q: u128 = part as u128 * 100 / whole as u128;
    proof {
        assert(q <= 100) by (nonlinear_arith)
            requires
                part <= whole,
                whole > 0,
                q as int == (part as int * 100) / (whole as int),
        ;
    }
    q as u64
}

fn summary(pairs: &[(String, u64)], total: u64, Ghost(files): Ghost<Seq<FileChurnModel>>) -> (r:
    MetricEntry)
    requires
        second_of(pairs@) == churns(files),
        total == churn_total(files),
    ensures
        r@ == summary_entry(files),
{
    let n = pairs.len() as u64;
    proof {
        assert(second_of(pairs@).len() == churns(files).len());
    }
    let p50 = files_to_reach_pct(pairs, total, 50);
    let p80 = files_to_reach_pct(pairs, total, 80);
    let p90 = files_to_reach_pct(pairs, total, 90);
    let half = LocalizedMessage::code(messages::CHURN_PARETO_SUMMARY_PCT).with_param(
        "p50",
        p50,
    ).with_param("total", n).with_param("p50_pct", pct(p50, n));
    let most = LocalizedMessage::code(messages::CHURN_PARETO_SUMMARY_CUMULATIVE).with_param(
        "p80",
        p80,
    ).with_param("total", n).with_param("p80_pct", pct(p80, n)).with_param("p90", p90).with_param(
        "p90_pct",
        pct(p90, n),
    );
    let mut values = Values::new();
    values.insert("rank", MetricValue::Text(text::copy_text("—")));
    values.insert("churn", MetricValue::Count(total));
    values.insert("pct_of_total", MetricValue::Message(half));
    values.insert("cumulative_pct", MetricValue::Message(most));
    MetricEntry { key: text::copy_text("<summary>"), values }
}

pub struct ChurnParetoCollector;

impl Default for ChurnParetoCollector {
    fn default() -> (r: Self)
        ensures
            r == (ChurnParetoCollector {  }),
    {
        ChurnParetoCollector::new()
    }
}

impl ChurnParetoCollector {
    pub fn new() -> (r: Self)
        ensures
            r == (ChurnParetoCollector {  }),
    {
        ChurnParetoCollector
    }

    pub fn name(&self) -> (r: &str)
        ensures
            r@ == "churn_pareto"@,
    {
        "churn_pareto"
    }

    /// The report without any rows to draw on.
    pub fn finalize(&mut self) -> (r: MetricResult)
        ensures
            r@ == types::empty_report("churn_pareto"@),
    {
        MetricResult::empty("churn_pareto")
    }

    /// The report, given one row per file, the most churned first. All churn
    /// together is at most `u64::MAX`.
    #[verifier::loop_isolation(false)]
    pub fn finalize_from_rows(&mut self, rows: Vec<FileChurn>) -> (r: MetricResult)
        requires
            fold::total(order::models(rows@), churn_of()) <= u64::MAX,
        ensures
            r@ == pareto_report(order::models(rows@)),
    {
        let ghost all = order::models(rows@);
        let ghost files = pareto_files(all);
        proof {
            assert forall|i: int| 0 <= i < all.len() implies (#[trigger] all[i]).churn >= 0 by {
                assert(all[i] == rows@[i]@);
            }
            lemma_pareto_total(all);
        }
        let kept = report::keep_source(order::sort_rows(keep_churned(rows)));
        let n: usize = kept.len();
        proof {
            assert(order::models(kept@).len() == n);
        }
        let mut pairs: Vec<(String, u64)> = Vec::new();
        for f in it: kept
            invariant
                order::models(it.seq()) == files,
                pairs@.len() == it.index(),
                forall|k: int|
                    0 <= k < pairs@.len() ==> (#[trigger] pairs@[k]).0@ == files[k].file && pairs@[k].1
                        == files[k].churn,
        {
            proof {
                assert(order::models(it.seq())[it.index() as int] == f@);
            }
            pairs.push((f.file, f.churn));
        }
        let ghost c = churns(files);
        proof {
            assert(second_of(pairs@) =~= c);
        }
        let total = total_churn(&pairs);
        let mut listed: Vec<RankedFile> = Vec::new();
        let mut cum: u64 = 0;
        let mut i: usize = 0;
        while i < n && i < LISTED_FILES
            invariant
                i <= n,
                i <= LISTED_FILES,
                cum == sum_to(c, i as int),
                listed@.len() == i,
                forall|k: int|
                    0 <= k < listed@.len() ==> (#[trigger] listed@[k])@ == ranked_file(files, k),
            decreases n - i,
        {
            proof {
                lemma_sum_grows(c, i + 1, n as int);
                lemma_sum_grows(c, i as int, i as int);
                assert(pairs@[i as int].1 == files[i as int].churn);
                assert(c[i as int] == files[i as int].churn);
            }
            let churn: u64 = pairs[i].1;
            cum += churn;
            listed.push(
                RankedFile {
                    file: pairs[i].0.clone(),
                    rank: i as u64 + 1,
                    churn,
                    pct: percent(churn, total),
                    cumulative: percent(cum, total),
                },
            );
            i += 1;
        }
        proof {
            assert(order::models(listed@) =~= order::first_n(
                Seq::new(files.len(), |i: int| ranked_file(files, i)),
                LISTED_FILES as int,
            ));
        }
        let ghost shown = order::models(listed@);
        let mut tail = report::to_entries(listed);
        let ghost below = types::entry_models(tail@);
        let mut entries: Vec<MetricEntry> = Vec::new();
        if total > 0 {
            let top = summary(&pairs, total, Ghost(files));
            entries.push(top);
        }
        let ghost head = types::entry_models(entries@);
        entries.append(&mut tail);
        proof {
            assert(types::entry_models(entries@) =~= head + below);
            if total > 0 {
                assert(head =~= seq![summary_entry(files)]);
            } else {
                assert(head + below =~= below);
            }
        }
        let columns = [
            "rank",
            "churn",
            "pct_of_total",
            "cumulative_pct",
        ];
        proof {
            assert(types::str_views(columns@) =~= pareto_columns());
        }
        MetricResult::report("churn_pareto", &columns, entries)
    }
}

proof fn lemma_churned_rows(rows: Seq<FileChurnModel>, x: FileChurnModel)
    ensures
        churned(rows).contains(x) <==> exists|k: int|
            0 <= k < rows.len() && (#[trigger] rows[k]).churn > 0 && x == rows[k],
        churned(rows).len() <= rows.len(),
    decreases rows.len(),
{
    if rows.len() > 0 {
        let front = rows.drop_last();
        let last = rows.last();
        let was = churned(front);
        let is = churned(rows);
        lemma_churned_rows(front, x);
        assert(rows[rows.len() - 1] == last);
        assert(forall|k: int| 0 <= k < front.len() ==> front[k] == rows[k]);
        if is.contains(x) {
            let i = choose|i: int| 0 <= i < is.len() && is[i] == x;
            if i < was.len() {
                assert(was[i] == x);
                let k = choose|k: int|
                    0 <= k < front.len() && (#[trigger] front[k]).churn > 0 && x == front[k];
                assert(rows[k] == front[k]);
            }
        }
        if exists|k: int| 0 <= k < rows.len() && (#[trigger] rows[k]).churn > 0 && x == rows[k] {
            let k = choose|k: int|
                0 <= k < rows.len() && (#[trigger] rows[k]).churn > 0 && x == rows[k];
            if k < front.len() {
                assert(front[k] == rows[k]);
                let i = choose|i: int| 0 <= i < was.len() && was[i] == x;
                assert(is[i] == x);
            } else {
                assert(is[is.len() - 1] == x);
            }
        }
    }
}

/// A share in percent is rounded down.
pub proof fn percent_is_rounded_down(part: int, whole: int)
    requires
        part >= 0,
        whole > 0,
    ensures
        percent_of(part, whole) * whole <= part * 100 < (percent_of(part, whole) + 1) * whole,
        part <= whole ==> percent_of(part, whole) <= 100,
        percent_of(whole, whole) == 100,
        percent_of(part, 0) == 0,
        part * 100 <= u64::MAX ==> pct_spec(part, whole) == percent_of(part, whole),
{
    let p = part * 100;
    let q = p / whole;
    assert(q * whole <= p < (q + 1) * whole) by (nonlinear_arith)
        requires
            whole > 0,
            q == p / whole,
    ;
    if part <= whole {
        assert(q <= 100) by (nonlinear_arith)
            requires
                q * whole <= p,
                p <= whole * 100,
                whole > 0,
        ;
    }
    assert((whole * 100) / whole == 100) by (nonlinear_arith)
        requires
            whole > 0,
    ;
}

proof fn lemma_pareto_members(rows: Seq<FileChurnModel>)
    ensures
        forall|x: FileChurnModel| #[trigger]
            pareto_files(rows).contains(x) <==> rows.contains(x) && x.churn > 0
                && source_filter::is_source(x.file),
{
    let c = churned(rows);
    order::sort_same_members::<FileChurn>(c);
    report::source_only_keeps::<FileChurn>(order::sort_ranked::<FileChurn>(c));
    assert forall|x: FileChurnModel| #[trigger] pareto_files(rows).contains(x) <==> rows.contains(x)
        && x.churn > 0 && source_filter::is_source(x.file) by {
        lemma_churned_rows(rows, x);
        if rows.contains(x) && x.churn > 0 {
            let k = choose|k: int| 0 <= k < rows.len() && rows[k] == x;
            assert(c.contains(x));
        }
    }
}

proof fn lemma_sums_rise(c: Seq<int>, n: int)
    requires
        0 <= n <= c.len(),
        forall|i: int| 0 <= i < c.len() ==> #[trigger] c[i] > 0,
    ensures
        sum_to(c, n) >= n,
        forall|m: int| 0 <= m <= n ==> #[trigger] sum_to(c, m) <= sum_to(c, n),
    decreases n,
{
    if n > 0 {
        lemma_sums_rise(c, n - 1);
    }
}

/// Every source file that churned has a rank, and nothing else has.
pub proof fn every_churned_file_is_ranked(rows: Seq<FileChurnModel>, x: FileChurnModel)
    ensures
        pareto_files(rows).contains(x) <==> rows.contains(x) && x.churn > 0
            && source_filter::is_source(x.file),
{
    lemma_pareto_members(rows);
}

/// The files stand behind the summary, the most churned first. Each of the first
/// fifty is shown with its rank, its churn, its share of all churn and the share
/// of the files down to it, in percent and rounded down.
pub proof fn ranks_follow_churn(rows: Seq<FileChurnModel>, i: int)
    requires
        0 <= i < pareto_files(rows).len(),
    ensures
        ({
            let files = pareto_files(rows);
            let all = sum_to(churns(files), files.len() as int);
            let down_to = sum_to(churns(files), i + 1);
            let r = pareto_report(rows);
            &&& r.entries.len() <= 51
            &&& r.entries[0].key == "<summary>"@
            &&& r.entries[0].values["churn"@] == ValueModel::Count(all)
            &&& i > 0 ==> files[i - 1].churn >= files[i].churn
            &&& i < 50 ==> {
                let e = r.entries[i + 1];
                let p = e.values["pct_of_total"@]->Count_0;
                let c = e.values["cumulative_pct"@]->Count_0;
                &&& e.key == files[i].file
                &&& e.values["rank"@] == ValueModel::Count(i + 1)
                &&& e.values["churn"@] == ValueModel::Count(files[i].churn)
                &&& p * all <= files[i].churn * 100 < (p + 1) * all
                &&& c * all <= down_to * 100 < (c + 1) * all
                &&& i + 1 == files.len() ==> c == 100
            }
        }),
{
    let files = pareto_files(rows);
    let c = churns(files);
    let all = churn_total(files);
    lemma_pareto_members(rows);
    assert forall|k: int| 0 <= k < c.len() implies #[trigger] c[k] > 0 by {
        assert(files.contains(files[k]));
    }
    lemma_sums_rise(c, c.len() as int);
    let sorted = order::sort_ranked::<FileChurn>(churned(rows));
    order::sort_orders::<FileChurn>(churned(rows));
    report::source_only_ranked::<FileChurn>(sorted);
    if i > 0 {
        assert(FileChurn::le(files[i - 1], files[i]));
    }
    assert(c[i] > 0);
    assert(sum_to(c, i + 1) <= sum_to(c, c.len() as int));
    lemma_sums_rise(c, i + 1);
    percent_is_rounded_down(files[i].churn, all);
    percent_is_rounded_down(sum_to(c, i + 1), all);
    let listed = order::first_n(Seq::new(files.len(), |k: int| ranked_file(files, k)), 50);
    if i < 50 {
        assert(pareto_report(rows).entries[i + 1] == RankedFile::entry(ranked_file(files, i)));
    }
    reveal_strlit("rank");
    reveal_strlit("churn");
    reveal_strlit("pct_of_total");
    reveal_strlit("cumulative_pct");
    assert("rank"@.len() != "churn"@.len());
    assert("rank"@.len() != "pct_of_total"@.len());
    assert("rank"@.len() != "cumulative_pct"@.len());
    assert("churn"@.len() != "pct_of_total"@.len());
    assert("churn"@.len() != "cumulative_pct"@.len());
    assert("pct_of_total"@.len() != "cumulative_pct"@.len());
}

/// The summary tells how few of the most churned files make up half of all
/// churn, four fifths and nine tenths of it.
pub proof fn the_summary_counts_the_fewest(rows: Seq<FileChurnModel>)
    requires
        pareto_files(rows).len() > 0,
    ensures
        ({
            let files = pareto_files(rows);
            let c = churns(files);
            let all = sum_to(c, files.len() as int);
            let e = pareto_report(rows).entries[0];
            let half = needed(c, all, 50);
            let most = needed(c, all, 80);
            let nearly = needed(c, all, 90);
            &&& e.values["pct_of_total"@]->Message_0.params == seq![
                ("p50"@, types::ParamModel::Number(half)),
                ("total"@, types::ParamModel::Number(files.len() as int)),
                ("p50_pct"@, types::ParamModel::Number(pct_spec(half, files.len() as int))),
            ]
            &&& e.values["cumulative_pct"@]->Message_0.params == seq![
                ("p80"@, types::ParamModel::Number(most)),
                ("total"@, types::ParamModel::Number(files.len() as int)),
                ("p80_pct"@, types::ParamModel::Number(pct_spec(most, files.len() as int))),
                ("p90"@, types::ParamModel::Number(nearly)),
                ("p90_pct"@, types::ParamModel::Number(pct_spec(nearly, files.len() as int))),
            ]
            &&& 2 * sum_to(c, half) + 1 >= all && (forall|k: int|
                0 < k < half ==> 2 * #[trigger] sum_to(c, k) < all)
            &&& 5 * sum_to(c, most) + 4 >= 4 * all && (forall|k: int|
                0 < k < most ==> 5 * #[trigger] sum_to(c, k) < 4 * all)
            &&& 10 * sum_to(c, nearly) + 9 >= 9 * all && (forall|k: int|
                0 < k < nearly ==> 10 * #[trigger] sum_to(c, k) < 9 * all)
        }),
{
    let files = pareto_files(rows);
    let c = churns(files);
    let all = churn_total(files);
    let n = files.len() as int;
    ranks_follow_churn(rows, 0);
    lemma_pareto_members(rows);
    assert forall|k: int| 0 <= k < c.len() implies #[trigger] c[k] > 0 by {
        assert(files.contains(files[k]));
    }
    lemma_sums_rise(c, c.len() as int);
    needed_is_least(c, all * 50 / 100, 0);
    needed_is_least(c, all * 80 / 100, 0);
    needed_is_least(c, all * 90 / 100, 0);
    reveal_with_fuel(types::params_with, 6);
    reveal_strlit("rank");
    reveal_strlit("churn");
    reveal_strlit("pct_of_total");
    reveal_strlit("cumulative_pct");
    assert("rank"@.len() != "churn"@.len());
    assert("rank"@.len() != "pct_of_total"@.len());
    assert("rank"@.len() != "cumulative_pct"@.len());
    assert("churn"@.len() != "pct_of_total"@.len());
    assert("churn"@.len() != "cumulative_pct"@.len());
    assert("pct_of_total"@.len() != "cumulative_pct"@.len());
    reveal_strlit("p50");
    reveal_strlit("total");
    reveal_strlit("p50_pct");
    reveal_strlit("p80");
    reveal_strlit("p80_pct");
    reveal_strlit("p90");
    reveal_strlit("p90_pct");
    assert("p50"@.len() != "total"@.len());
    assert("p50"@.len() != "p50_pct"@.len());
    assert("p50"@[1] != "p80"@[1]);
    assert("p50"@.len() != "p80_pct"@.len());
    assert("p50"@[1] != "p90"@[1]);
    assert("p50"@.len() != "p90_pct"@.len());
    assert("total"@.len() != "p50_pct"@.len());
    assert("total"@.len() != "p80"@.len());
    assert("total"@.len() != "p80_pct"@.len());
    assert("total"@.len() != "p90"@.len());
    assert("total"@.len() != "p90_pct"@.len());
    assert("p50_pct"@.len() != "p80"@.len());
    assert("p50_pct"@[1] != "p80_pct"@[1]);
    assert("p50_pct"@.len() != "p90"@.len());
    assert("p50_pct"@[1] != "p90_pct"@[1]);
    assert("p80"@.len() != "p80_pct"@.len());
    assert("p80"@[1] != "p90"@[1]);
    assert("p80"@.len() != "p90_pct"@.len());
    assert("p80_pct"@.len() != "p90"@.len());
    assert("p80_pct"@[1] != "p90_pct"@[1]);
    assert("p90"@.len() != "p90_pct"@.len());
    let half = needed(c, all, 50);
    let most = needed(c, all, 80);
    let nearly = needed(c, all, 90);
    let e = summary_entry(files);
    assert(e.values["pct_of_total"@]->Message_0.params =~= seq![
        ("p50"@, types::ParamModel::Number(half)),
        ("total"@, types::ParamModel::Number(n)),
        ("p50_pct"@, types::ParamModel::Number(pct_spec(half, n))),
    ]);
    assert(e.values["cumulative_pct"@]->Message_0.params =~= seq![
        ("p80"@, types::ParamModel::Number(most)),
        ("total"@, types::ParamModel::Number(n)),
        ("p80_pct"@, types::ParamModel::Number(pct_spec(most, n))),
        ("p90"@, types::ParamModel::Number(nearly)),
        ("p90_pct"@, types::ParamModel::Number(pct_spec(nearly, n))),
    ]);
}

/// The report has these columns, in this order.
pub proof fn the_columns_are_these(rows: Seq<FileChurnModel>)
    ensures
        pareto_report(rows).name == "churn_pareto"@,
        pareto_report(rows).columns.len() == 4,
        pareto_report(rows).columns[0].value == "rank"@,
        pareto_report(rows).columns[1].value == "churn"@,
        pareto_report(rows).columns[2].value == "pct_of_total"@,
        pareto_report(rows).columns[3].value == "cumulative_pct"@,
{
}

/// The limits that hold here.
pub proof fn the_limits_are_these()
    ensures
        LISTED_FILES == 50,
{
}

} // verus!
