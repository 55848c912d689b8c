//! Files that change together.

use vstd::prelude::*;

use crate::double;
use crate::double::Double;
use crate::order;
use crate::order::Ranked;
use crate::report;
use crate::report::{OfFile, Row};
use crate::table;
use crate::table::TextMap;
use crate::text;
use crate::types;
use crate::types::{EntryModel, MetricEntry, MetricResult, MetricValue, ResultModel, ValueModel, Values};

verus! {

/// Pairs that changed together less often are left out.
pub const MIN_COUPLING_COUNT: u64 = 3;

/// Only this many of the pairs that change together most are looked at.
pub const TOP_PAIRS: usize = 1000;

/// Only this many of the most active source files are compared.
pub const TOP_FILES: usize = 500;

/// How often a file changed.
#[derive(Debug)]
pub struct FileCount {
    pub file: String,
    pub count: u64,
}

pub struct FileCountModel {
    pub file: Seq<char>,
    pub count: u64,
}

impl View for FileCount {
    type V = FileCountModel;

    open spec fn view(&self) -> FileCountModel {
        FileCountModel { file: self.file@, count: self.count }
    }
}

impl OfFile for FileCount {
    open spec fn file_of(r: FileCountModel) -> Seq<char> {
        r.file
    }

    fn file(&self) -> (r: &str) {
        self.file.as_str()
    }
}

/// The file that changed more first.
impl Ranked for FileCount {
    open spec fn le(a: FileCountModel, b: FileCountModel) -> bool {
        a.count >= b.count
    }

    proof fn le_total(a: FileCountModel, b: FileCountModel) {
    }

    proof fn le_transitive(a: FileCountModel, b: FileCountModel, c: FileCountModel) {
    }

    fn not_after(&self, other: &FileCount) -> (r: bool) {
        self.count >= other.count
    }
}

/// How often two files changed in the same commit.
#[derive(Debug)]
pub struct PairRow {
    pub file_a: String,
    pub file_b: String,
    pub co_changes: u64,
}

pub struct PairRowModel {
    pub file_a: Seq<char>,
    pub file_b: Seq<char>,
    pub co_changes: u64,
}

impl View for PairRow {
    type V = PairRowModel;

    open spec fn view(&self) -> PairRowModel {
        PairRowModel { file_a: self.file_a@, file_b: self.file_b@, co_changes: self.co_changes }
    }
}

/// The pair with more common changes first.
impl Ranked for PairRow {
    open spec fn le(a: PairRowModel, b: PairRowModel) -> bool {
        a.co_changes >= b.co_changes
    }

    proof fn le_total(a: PairRowModel, b: PairRowModel) {
    }

    proof fn le_transitive(a: PairRowModel, b: PairRowModel, c: PairRowModel) {
    }

    fn not_after(&self, other: &PairRow) -> (r: bool) {
        self.co_changes >= other.co_changes
    }
}

/// The most active source files, at most as many as are compared.
pub fn top_source_files(rows: Vec<FileCount>) -> (r: Vec<FileCount>)
    ensures
        order::models(r@) == order::first_n(
            report::source_only::<FileCount>(
                order::sort_ranked::<FileCount>(order::models(rows@)),
            ),
            TOP_FILES as int,
        ),
{
    let kept = report::keep_source(order::sort_rows(rows));
    proof {
        order::models_of_first_n(kept@, TOP_FILES as int);
    }
    order::keep_first(kept, TOP_FILES)
}

/// How often each file changed; the last row about a file counts.
pub open spec fn count_map(rows: Seq<FileCountModel>) -> Seq<(Seq<char>, u64)>
    decreases rows.len(),
{
    if rows.len() == 0 {
        Seq::empty()
    } else {
        table::put(count_map(rows.drop_last()), rows.last().file, rows.last().count)
    }
}

/// How often a file changed; once, if nothing is known of it.
pub open spec fn changes_of(m: Seq<(Seq<char>, u64)>, file: Seq<char>) -> int {
    match table::lookup(m, file) {
        Some(n) => n as int,
        None => 1,
    }
}

/// Two files and how strongly they are coupled: the share of common changes in
/// the changes of the file that changed more.
pub struct CoupledFiles {
    pub file_a: String,
    pub file_b: String,
    pub co_changes: u64,
    pub max_changes: u64,
}

pub struct CoupledFilesModel {
    pub file_a: Seq<char>,
    pub file_b: Seq<char>,
    pub co_changes: int,
    pub max_changes: int,
}

impl View for CoupledFiles {
    type V = CoupledFilesModel;

    open spec fn view(&self) -> CoupledFilesModel {
        CoupledFilesModel {
            file_a: self.file_a@,
            file_b: self.file_b@,
            co_changes: self.co_changes as int,
            max_changes: self.max_changes as int,
        }
    }
}

impl Row for CoupledFiles {
    open spec fn entry(p: CoupledFilesModel) -> EntryModel {
        EntryModel {
            key: p.file_a + " <-> "@ + p.file_b,
            values: Map::empty().insert("file_a"@, ValueModel::Text(p.file_a)).insert(
                "file_b"@,
                ValueModel::Text(p.file_b),
            ).insert("co_changes"@, ValueModel::Count(p.co_changes)).insert(
                "score"@,
                ValueModel::Ratio(p.co_changes, p.max_changes),
            ),
        }
    }

    fn to_entry(self) -> (r: MetricEntry) {
        let key = text::cat3(self.file_a.as_str(), " <-> ", self.file_b.as_str());
        let mut values = Values::new();
        values.insert("file_a", MetricValue::Text(self.file_a));
        values.insert("file_b", MetricValue::Text(self.file_b));
        values.insert("co_changes", MetricValue::Count(self.co_changes));
        values.insert(
            "score",
            MetricValue::Ratio { num: self.co_changes, den: self.max_changes },
        );
        MetricEntry { key, values }
    }
}

pub open spec fn coupled(m: Seq<(Seq<char>, u64)>, p: PairRowModel) -> CoupledFilesModel {
    let a = changes_of(m, p.file_a);
    let b = changes_of(m, p.file_b);
    CoupledFilesModel {
        file_a: p.file_a,
        file_b: p.file_b,
        co_changes: p.co_changes as int,
        max_changes: if a > b {
            a
        } else {
            b
        },
    }
}

/// The score is at least 0.3.
pub open spec fn is_strong(p: CoupledFilesModel) -> bool {
    !double::less(double::share(p.co_changes, p.max_changes), double::nearest(3, 10))
}

/// The pairs that changed together often enough to be looked at.
pub open spec fn frequent(pairs: Seq<PairRowModel>) -> Seq<PairRowModel>
    decreases pairs.len(),
{
    if pairs.len() == 0 {
        Seq::empty()
    } else {
        let head = frequent(pairs.drop_last());
        if pairs.last().co_changes >= MIN_COUPLING_COUNT {
            head.push(pairs.last())
        } else {
            head
        }
    }
}

/// The pairs that are looked at, those with the most common changes first.
pub open spec fn top_pairs(pairs: Seq<PairRowModel>) -> Seq<PairRowModel> {
    order::first_n(order::sort_ranked::<PairRow>(frequent(pairs)), TOP_PAIRS as int)
}

/// The pairs that are coupled strongly enough, in their order.
pub open spec fn strong_pairs(m: Seq<(Seq<char>, u64)>, pairs: Seq<PairRowModel>) -> Seq<
    CoupledFilesModel,
>
    decreases pairs.len(),
{
    if pairs.len() == 0 {
        Seq::empty()
    } else {
        let head = strong_pairs(m, pairs.drop_last());
        let p = coupled(m, pairs.last());
        if is_strong(p) {
            head.push(p)
        } else {
            head
        }
    }
}

pub open spec fn coupling_columns() -> Seq<Seq<char>> {
    seq!["file_a"@, "file_b"@, "co_changes"@, "score"@]
}

pub open spec fn coupling_report(totals: Seq<FileCountModel>, pairs: Seq<PairRowModel>) ->
    ResultModel {
    types::report_of(
        "coupling"@,
        coupling_columns(),
        report::entries_of::<CoupledFiles>(strong_pairs(count_map(totals), top_pairs(pairs))),
    )
}

fn collect_counts(rows: &[FileCount]) -> (r: TextMap<u64>)
    ensures
        r@ == count_map(order::models(rows@)),
        table::ascending(r@),
{
    let ghost all = order::models(rows@);
    let mut m: TextMap<u64> = TextMap::new();
    let n: usize = rows.len();
    let mut i: usize = 0;
    while i < n
        invariant
            n == rows@.len(),
            i <= n,
            all == order::models(rows@),
            m@ == count_map(all.take(i as int)),
            table::ascending(m@),
        decreases n - i,
    {
        proof {
            assert(all.take(i + 1).drop_last() =~= all.take(i as int));
        }
        m.insert(rows[i].file.clone(), rows[i].count);
        i += 1;
    }
    proof {
        assert(all.take(n as int) =~= all);
    }
    m
}

fn count_of(m: &TextMap<u64>, file: &str) -> (r: u64)
    requires
        table::ascending(m@),
    ensures
        r == changes_of(m@, file@),
{
    match m.get(file) {
        Some(n) => *n,
        None => 1,
    }
}

fn keep_frequent(pairs: Vec<PairRow>) -> (r: Vec<PairRow>)
    ensures
        order::models(r@) == frequent(order::models(pairs@)),
{
    let ghost all = order::models(pairs@);
    let mut kept: Vec<PairRow> = Vec::new();
    proof {
        assert(all.take(0).len() == 0);
        assert(order::models(kept@) =~= Seq::empty());
    }
    for pair in it: pairs
        invariant
            order::models(it.seq()) == all,
            order::models(kept@) == frequent(all.take(it.index() as int)),
    {
        let ghost before = order::models(kept@);
        let ghost i = it.index() as int;
        proof {
            assert(order::models(it.seq())[i] == pair@);
            assert(all.take(i + 1).drop_last() =~= all.take(i));
            assert(all.take(i + 1).last() == pair@);
        }
        if pair.co_changes >= MIN_COUPLING_COUNT {
            kept.push(pair);
            proof {
                assert(order::models(kept@) =~= before.push(pair@));
            }
        }
    }
    proof {
        assert(all.take(all.len() as int) =~= all);
    }
    kept
}

proof fn lemma_strong_are_pairs(m: Seq<(Seq<char>, u64)>, pairs: Seq<PairRowModel>, i: int)
    requires
        0 <= i < strong_pairs(m, pairs).len(),
    ensures
        is_strong(strong_pairs(m, pairs)[i]),
        exists|k: int|
            0 <= k < pairs.len() && coupled(m, #[trigger] pairs[k]) == strong_pairs(m, pairs)[i],
    decreases pairs.len(),
{
    if pairs.len() > 0 {
        let init = pairs.drop_last();
        if i < strong_pairs(m, init).len() {
            lemma_strong_are_pairs(m, init, i);
            let k = choose|k: int|
                0 <= k < init.len() && coupled(m, #[trigger] init[k]) == strong_pairs(m, init)[i];
            assert(pairs[k] == init[k]);
        } else {
            assert(pairs[pairs.len() - 1] == pairs.last());
        }
    }
}

proof fn lemma_frequent(pairs: Seq<PairRowModel>)
    ensures
        forall|p: PairRowModel| #[trigger]
            frequent(pairs).contains(p) ==> pairs.contains(p) && p.co_changes
                >= MIN_COUPLING_COUNT,
    decreases pairs.len(),
{
    if pairs.len() > 0 {
        let init = pairs.drop_last();
        lemma_frequent(init);
        assert forall|p: PairRowModel| #[trigger] frequent(pairs).contains(p) implies pairs.contains(
            p,
        ) && p.co_changes >= MIN_COUPLING_COUNT by {
            let k = choose|k: int| 0 <= k < frequent(pairs).len() && frequent(pairs)[k] == p;
            if k < frequent(init).len() {
                assert(frequent(init)[k] == p);
                assert(frequent(init).contains(p));
                let j = choose|j: int| 0 <= j < init.len() && init[j] == p;
                assert(pairs[j] == p);
            } else {
                assert(pairs[pairs.len() - 1] == p);
            }
        }
    }
}

/// Whatever the report lists is a pair that was counted, that changed together
/// often enough, and whose common changes are a large enough share.
pub proof fn listed_pairs_are_coupled(
    totals: Seq<FileCountModel>,
    pairs: Seq<PairRowModel>,
    i: int,
)
    requires
        0 <= i < strong_pairs(count_map(totals), top_pairs(pairs)).len(),
    ensures
        ({
            let p = strong_pairs(count_map(totals), top_pairs(pairs))[i];
            &&& is_strong(p)
            &&& p.co_changes >= MIN_COUPLING_COUNT
            &&& exists|k: int|
                0 <= k < pairs.len() && coupled(count_map(totals), #[trigger] pairs[k]) == p
        }),
{
    let m = count_map(totals);
    let top = top_pairs(pairs);
    let p = strong_pairs(m, top)[i];
    lemma_strong_are_pairs(m, top, i);
    let k = choose|k: int| 0 <= k < top.len() && coupled(m, #[trigger] top[k]) == p;
    let sorted = order::sort_ranked::<PairRow>(frequent(pairs));
    assert(sorted[k] == top[k]);
    assert(sorted.contains(top[k]));
    order::sort_same_members::<PairRow>(frequent(pairs));
    lemma_frequent(pairs);
    assert(pairs.contains(top[k]));
    let j = choose|j: int| 0 <= j < pairs.len() && pairs[j] == top[k];
    assert(coupled(m, pairs[j]) == p);
}

pub struct CouplingCollector;

impl Default for CouplingCollector {
    fn default() -> (r: Self)
        ensures
            r == (CouplingCollector {  }),
    {
        CouplingCollector::new()
    }
}

impl CouplingCollector {
    pub fn new() -> (r: Self)
        ensures
            r == (CouplingCollector {  }),
    {
        CouplingCollector
    }

    pub fn name(&self) -> (r: &str)
        ensures
            r@ == "coupling"@,
    {
        "coupling"
    }

    /// The report without any rows to draw on.
    pub fn finalize(&mut self) -> (r: MetricResult)
        ensures
            r@ == types::empty_report("coupling"@),
    {
        MetricResult::empty("coupling")
    }

    /// The report, given how often each compared file changed and how often
    /// each pair of them changed together.
    pub fn finalize_from_rows(&mut self, totals: &[FileCount], pairs: Vec<PairRow>) -> (r:
        MetricResult)
        ensures
            r@ == coupling_report(order::models(totals@), order::models(pairs@)),
    {
        let counts = collect_counts(totals);
        let sorted = order::sort_rows(keep_frequent(pairs));
        proof {
            order::models_of_first_n(sorted@, TOP_PAIRS as int);
        }
        let top = order::keep_first(sorted, TOP_PAIRS);
        let ghost all = order::models(top@);
        let mut kept: Vec<CoupledFiles> = Vec::new();
        proof {
            assert(all.take(0).len() == 0);
            assert(order::models(kept@) =~= Seq::empty());
        }
        for pair in it: top
            invariant
                order::models(it.seq()) == all,
                table::ascending(counts@),
                order::models(kept@) == strong_pairs(counts@, all.take(it.index() as int)),
        {
            let ghost before = order::models(kept@);
            let ghost i = it.index() as int;
            proof {
                assert(order::models(it.seq())[i] == pair@);
                assert(all.take(i + 1).drop_last() =~= all.take(i));
                assert(all.take(i + 1).last() == pair@);
            }
            let a = count_of(&counts, pair.file_a.as_str());
            let b = count_of(&counts, pair.file_b.as_str());
            let max: u64 = if a > b {
                a
            } else {
                b
            };
            if !Double::share(pair.co_changes, max).is_less(Double::fraction(3, 10)) {
                let p = CoupledFiles {
                    file_a: pair.file_a,
                    file_b: pair.file_b,
                    co_changes: pair.co_changes,
                    max_changes: max,
                };
                kept.push(p);
                proof {
                    assert(order::models(kept@) =~= before.push(p@));
                }
            }
        }
        proof {
            assert(all.take(all.len() as int) =~= all);
        }
        let entries = report::to_entries(kept);
        let columns = ["file_a", "file_b", "co_changes", "score"];
        proof {
            assert(types::str_views(columns@) =~= coupling_columns());
        }
        MetricResult::report("coupling", &columns, entries)
    }
}

proof fn lemma_frequent_rows(pairs: Seq<PairRowModel>, x: PairRowModel)
    ensures
        frequent(pairs).contains(x) <==> exists|k: int|
            0 <= k < pairs.len() && (#[trigger] pairs[k]).co_changes >= 3 && x == pairs[k],
        frequent(pairs).len() <= pairs.len(),
    decreases pairs.len(),
{
    if pairs.len() > 0 {
        let front = pairs.drop_last();
        let last = pairs.last();
        let was = frequent(front);
        let is = frequent(pairs);
        lemma_frequent_rows(front, x);
        assert(pairs[pairs.len() - 1] == last);
        assert(forall|k: int| 0 <= k < front.len() ==> front[k] == pairs[k]);
        if is.contains(x) {
            let i = choose|i: int| 0 <= i < is.len() && is[i] == x;
            if i < was.len() {
                assert(was[i] == x);
                let k = choose|k: int|
                    0 <= k < front.len() && (#[trigger] front[k]).co_changes >= 3 && x == front[k];
                assert(pairs[k] == front[k]);
            }
        }
        if exists|k: int| 0 <= k < pairs.len() && (#[trigger] pairs[k]).co_changes >= 3 && x == pairs[k] {
            let k = choose|k: int|
                0 <= k < pairs.len() && (#[trigger] pairs[k]).co_changes >= 3 && x == pairs[k];
            if k < front.len() {
                assert(front[k] == pairs[k]);
                let i = choose|i: int| 0 <= i < was.len() && was[i] == x;
                assert(is[i] == x);
            } else {
                assert(is[is.len() - 1] == x);
            }
        }
    }
}

proof fn lemma_strong_rows(pairs: Seq<PairRowModel>, m: Seq<(Seq<char>, u64)>, x: CoupledFilesModel)
    ensures
        strong_pairs(m, pairs).contains(x) <==> exists|k: int|
            0 <= k < pairs.len() && is_strong(coupled(m, (#[trigger] pairs[k]))) && x == coupled(m, pairs[k]),
        strong_pairs(m, pairs).len() <= pairs.len(),
    decreases pairs.len(),
{
    if pairs.len() > 0 {
        let front = pairs.drop_last();
        let last = pairs.last();
        let was = strong_pairs(m, front);
        let is = strong_pairs(m, pairs);
        lemma_strong_rows(front, m, x);
        assert(pairs[pairs.len() - 1] == last);
        assert(forall|k: int| 0 <= k < front.len() ==> front[k] == pairs[k]);
        if is.contains(x) {
            let i = choose|i: int| 0 <= i < is.len() && is[i] == x;
            if i < was.len() {
                assert(was[i] == x);
                let k = choose|k: int|
                    0 <= k < front.len() && is_strong(coupled(m, (#[trigger] front[k]))) && x == coupled(m, front[k]);
                assert(pairs[k] == front[k]);
            }
        }
        if exists|k: int| 0 <= k < pairs.len() && is_strong(coupled(m, (#[trigger] pairs[k]))) && x == coupled(m, pairs[k]) {
            let k = choose|k: int|
                0 <= k < pairs.len() && is_strong(coupled(m, (#[trigger] pairs[k]))) && x == coupled(m, pairs[k]);
            if k < front.len() {
                assert(front[k] == pairs[k]);
                let i = choose|i: int| 0 <= i < was.len() && was[i] == x;
                assert(is[i] == x);
            } else {
                assert(is[is.len() - 1] == x);
            }
        }
    }
}

/// The number of changes that is known of a file is that of its last row; a file
/// without a row counts as changed once.
pub proof fn the_last_count_holds(rows: Seq<FileCountModel>, k: int, file: Seq<char>)
    requires
        0 <= k < rows.len(),
        forall|j: int| k < j < rows.len() ==> (#[trigger] rows[j]).file != rows[k].file,
    ensures
        changes_of(count_map(rows), rows[k].file) == rows[k].count,
        (forall|j: int| 0 <= j < rows.len() ==> (#[trigger] rows[j]).file != file) ==> changes_of(
            count_map(rows),
            file,
        ) == 1,
{
    lemma_counts(rows, rows[k].file);
    lemma_counts(rows, file);
}

proof fn lemma_counts(rows: Seq<FileCountModel>, file: Seq<char>)
    ensures
        table::ascending(count_map(rows)),
        (forall|j: int| 0 <= j < rows.len() ==> (#[trigger] rows[j]).file != file)
            ==> table::lookup(count_map(rows), file) is None,
        forall|k: int|
            0 <= k < rows.len() && (#[trigger] rows[k]).file == file && (forall|j: int|
                k < j < rows.len() ==> (#[trigger] rows[j]).file != file) ==> table::lookup(
                count_map(rows),
                file,
            ) == Some(rows[k].count),
    decreases rows.len(),
{
    if rows.len() > 0 {
        let front = rows.drop_last();
        let last = rows.last();
        lemma_counts(front, file);
        table::put_ascends(count_map(front), last.file, last.count);
        table::lookup_of_put(count_map(front), last.file, last.count, file);
        assert(rows[rows.len() - 1] == last);
        assert(forall|j: int| 0 <= j < front.len() ==> front[j] == rows[j]);
        assert forall|k: int|
            0 <= k < rows.len() && (#[trigger] rows[k]).file == file && (forall|j: int|
                k < j < rows.len() ==> (#[trigger] rows[j]).file != file) implies table::lookup(
            count_map(rows),
            file,
        ) == Some(rows[k].count) by {
            if k < front.len() {
                assert(rows[rows.len() - 1].file != file);
                assert(front[k].file == file);
            }
        }
    }
}

/// Two files are coupled where at least three in ten changes of the one that
/// changed more are common to both.
pub proof fn three_in_ten_couple(m: Seq<(Seq<char>, u64)>, p: PairRowModel)
    requires
        p.co_changes < 1_000_000_000_000,
        0 < changes_of(m, p.file_a) < 1_000_000_000_000,
        0 < changes_of(m, p.file_b) < 1_000_000_000_000,
    ensures
        is_strong(coupled(m, p)) <==> 10 * p.co_changes >= 3 * changes_of(m, p.file_a) && 10
            * p.co_changes >= 3 * changes_of(m, p.file_b),
        coupled(m, p).max_changes >= changes_of(m, p.file_a),
        coupled(m, p).max_changes >= changes_of(m, p.file_b),
        coupled(m, p).max_changes == changes_of(m, p.file_a) || coupled(m, p).max_changes
            == changes_of(m, p.file_b),
{
    double::three_tenths_is_exact(p.co_changes as int, coupled(m, p).max_changes);
}

proof fn lemma_listed(totals: Seq<FileCountModel>, pairs: Seq<PairRowModel>, x: CoupledFilesModel)
    requires
        frequent(pairs).len() <= 1000,
    ensures
        strong_pairs(count_map(totals), top_pairs(pairs)).contains(x) <==> exists|k: int|
            0 <= k < pairs.len() && (#[trigger] pairs[k]).co_changes >= 3 && is_strong(
                coupled(count_map(totals), pairs[k]),
            ) && x == coupled(count_map(totals), pairs[k]),
{
    let m = count_map(totals);
    let top = top_pairs(pairs);
    lemma_strong_rows(top, m, x);
    order::sort_same_members::<PairRow>(frequent(pairs));
    order::sort_keeps_elements::<PairRow>(frequent(pairs));
    if strong_pairs(m, top).contains(x) {
        let t = choose|t: int|
            0 <= t < top.len() && is_strong(coupled(m, #[trigger] top[t])) && x == coupled(
                m,
                top[t],
            );
        assert(top.contains(top[t]));
        assert(frequent(pairs).contains(top[t]));
        lemma_frequent_rows(pairs, top[t]);
    }
    if exists|k: int|
        0 <= k < pairs.len() && (#[trigger] pairs[k]).co_changes >= 3 && is_strong(
            coupled(m, pairs[k]),
        ) && x == coupled(m, pairs[k]) {
        let k = choose|k: int|
            0 <= k < pairs.len() && (#[trigger] pairs[k]).co_changes >= 3 && is_strong(
                coupled(m, pairs[k]),
            ) && x == coupled(m, pairs[k]);
        lemma_frequent_rows(pairs, pairs[k]);
        assert(frequent(pairs).contains(pairs[k]));
        assert(top.contains(pairs[k]));
        let t = choose|t: int| 0 <= t < top.len() && top[t] == pairs[k];
        assert(is_strong(coupled(m, top[t])));
    }
}

/// Every coupled pair that changed together three times or more is shown, unless
/// more than a thousand did.
pub proof fn every_coupled_pair_is_shown(
    totals: Seq<FileCountModel>,
    pairs: Seq<PairRowModel>,
    k: int,
)
    requires
        frequent(pairs).len() <= 1000,
        0 <= k < pairs.len(),
        pairs[k].co_changes >= 3,
        is_strong(coupled(count_map(totals), pairs[k])),
    ensures
        exists|i: int|
            0 <= i < coupling_report(totals, pairs).entries.len() && ({
                let e = #[trigger] coupling_report(totals, pairs).entries[i];
                let r = pairs[k];
                &&& e.key == r.file_a + " <-> "@ + r.file_b
                &&& e.values["file_a"@] == ValueModel::Text(r.file_a)
                &&& e.values["file_b"@] == ValueModel::Text(r.file_b)
                &&& e.values["co_changes"@] == ValueModel::Count(r.co_changes as int)
                &&& e.values["score"@] == ValueModel::Ratio(
                    r.co_changes as int,
                    coupled(count_map(totals), r).max_changes,
                )
            }),
{
    let x = coupled(count_map(totals), pairs[k]);
    lemma_listed(totals, pairs, x);
    let s = strong_pairs(count_map(totals), top_pairs(pairs));
    assert(s.contains(x));
    let i = choose|i: int| 0 <= i < s.len() && s[i] == x;
    assert(coupling_report(totals, pairs).entries[i] == CoupledFiles::entry(x));
    reveal_strlit("file_a");
    reveal_strlit("file_b");
    reveal_strlit("co_changes");
    reveal_strlit("score");
    assert("file_a"@[5] != "file_b"@[5]);
    assert("file_a"@.len() != "co_changes"@.len());
    assert("file_a"@.len() != "score"@.len());
    assert("file_b"@.len() != "co_changes"@.len());
    assert("file_b"@.len() != "score"@.len());
    assert("co_changes"@.len() != "score"@.len());
}

/// The pairs with the most common changes stand first.
pub proof fn most_common_changes_first(
    totals: Seq<FileCountModel>,
    pairs: Seq<PairRowModel>,
    i: int,
    j: int,
)
    requires
        0 <= i < j < coupling_report(totals, pairs).entries.len(),
    ensures
        coupling_report(totals, pairs).entries[i].values["co_changes"@]->Count_0
            >= coupling_report(totals, pairs).entries[j].values["co_changes"@]->Count_0,
{
    let m = count_map(totals);
    let top = top_pairs(pairs);
    let sorted = order::sort_ranked::<PairRow>(frequent(pairs));
    order::sort_orders::<PairRow>(frequent(pairs));
    assert(order::is_ranked::<PairRow>(top)) by {
        assert(forall|t: int| 0 <= t < top.len() ==> top[t] == sorted[t]);
    }
    lemma_strong_in_order(m, top);
    let s = strong_pairs(m, top);
    assert(coupling_report(totals, pairs).entries[i] == CoupledFiles::entry(s[i]));
    assert(coupling_report(totals, pairs).entries[j] == CoupledFiles::entry(s[j]));
    reveal_strlit("file_a");
    reveal_strlit("file_b");
    reveal_strlit("co_changes");
    reveal_strlit("score");
    assert("file_a"@[5] != "file_b"@[5]);
    assert("file_a"@.len() != "co_changes"@.len());
    assert("file_a"@.len() != "score"@.len());
    assert("file_b"@.len() != "co_changes"@.len());
    assert("file_b"@.len() != "score"@.len());
    assert("co_changes"@.len() != "score"@.len());
}

proof fn lemma_strong_in_order(m: Seq<(Seq<char>, u64)>, pairs: Seq<PairRowModel>)
    requires
        order::is_ranked::<PairRow>(pairs),
    ensures
        forall|i: int, j: int|
            0 <= i < j < strong_pairs(m, pairs).len() ==> (#[trigger] strong_pairs(
                m,
                pairs,
            )[i]).co_changes >= (#[trigger] strong_pairs(m, pairs)[j]).co_changes,
    decreases pairs.len(),
{
    if pairs.len() > 0 {
        let front = pairs.drop_last();
        assert(order::is_ranked::<PairRow>(front)) by {
            assert(forall|t: int| 0 <= t < front.len() ==> front[t] == pairs[t]);
        }
        lemma_strong_in_order(m, front);
        let was = strong_pairs(m, front);
        let is = strong_pairs(m, pairs);
        assert forall|i: int, j: int| 0 <= i < j < is.len() implies (#[trigger] is[i]).co_changes
            >= (#[trigger] is[j]).co_changes by {
            assert(is[i] == was[i]);
            if j < was.len() {
                assert(is[j] == was[j]);
            } else {
                lemma_strong_rows(front, m, was[i]);
                assert(was.contains(was[i]));
                let k = choose|k: int|
                    0 <= k < front.len() && is_strong(coupled(m, #[trigger] front[k])) && was[i]
                        == coupled(m, front[k]);
                assert(PairRow::le(pairs[k], pairs[pairs.len() - 1]));
            }
        }
    }
}

/// The report has these columns, in this order.
pub proof fn the_columns_are_these(totals: Seq<FileCountModel>, pairs: Seq<PairRowModel>)
    ensures
        coupling_report(totals, pairs).name == "coupling"@,
        coupling_report(totals, pairs).columns.len() == 4,
        coupling_report(totals, pairs).columns[0].value == "file_a"@,
        coupling_report(totals, pairs).columns[1].value == "file_b"@,
        coupling_report(totals, pairs).columns[2].value == "co_changes"@,
        coupling_report(totals, pairs).columns[3].value == "score"@,
{
}

/// The limits that hold here.
pub proof fn the_limits_are_these()
    ensures
        MIN_COUPLING_COUNT == 3,
        TOP_PAIRS == 1000,
        TOP_FILES == 500,
{
}

} // verus!
