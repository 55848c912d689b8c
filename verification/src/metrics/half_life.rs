//! How much of each file has stood the test of time.

use vstd::prelude::*;

use crate::fold;
use crate::order;
use crate::order::Ranked;
use crate::report;
use crate::report::Row;
use crate::table;
use crate::table::TextMap;
use crate::text;
use crate::types;
use crate::types::{EntryModel, MetricEntry, MetricResult, MetricValue, ResultModel, ValueModel, Values};

verus! {

/// Larger files are not blamed.
pub const MAX_BLOB_BYTES: u64 = 51_200;

/// At most this many files are blamed.
pub const MAX_FILES: usize = 50;

/// Lines are ancient after so many months of thirty days.
pub const ANCIENT_MONTHS: i64 = 6;

/// What the names of files that are looked at end in.
pub open spec fn source_extensions() -> Seq<Seq<char>> {
    seq![
        "rs"@,
        "py"@,
        "pyi"@,
        "ts"@,
        "tsx"@,
        "js"@,
        "jsx"@,
        "java"@,
        "go"@,
        "cpp"@,
        "cc"@,
        "cxx"@,
        "hpp"@,
        "h"@,
        "cs"@,
        "kt"@,
        "kts"@,
        "php"@,
        "rb"@,
        "scala"@,
        "sc"@,
        "swift"@,
        "sh"@,
        "bash"@,
    ]
}

/// Judges by what follows the last point of the path, or by the whole path where
/// there is none.
pub fn is_source(path: &str) -> (r: bool)
    ensures
        r == source_extensions().contains(text::after_last(path@, '.')),
{
    let ext = text::tail_after(path, '.');
    let known = [
        "rs",
        "py",
        "pyi",
        "ts",
        "tsx",
        "js",
        "jsx",
        "java",
        "go",
        "cpp",
        "cc",
        "cxx",
        "hpp",
        "h",
        "cs",
        "kt",
        "kts",
        "php",
        "rb",
        "scala",
        "sc",
        "swift",
        "sh",
        "bash",
    ];
    proof {
        assert(text::str_texts(known@) =~= source_extensions());
    }
    text::is_one_of(ext.as_str(), &known)
}

/// Whether a file of the tree is to be blamed.
pub fn wants_blob(path: &str, size: u64) -> (r: bool)
    ensures
        r == (source_extensions().contains(text::after_last(path@, '.')) && size
            <= MAX_BLOB_BYTES),
{
    is_source(path) && size <= MAX_BLOB_BYTES
}

/// A path among others, in lexicographic order.
pub struct PathRow {
    pub path: String,
}

impl View for PathRow {
    type V = Seq<char>;

    open spec fn view(&self) -> Seq<char> {
        self.path@
    }
}

impl Ranked for PathRow {
    open spec fn le(a: Seq<char>, b: Seq<char>) -> bool {
        text::text_le(a, b)
    }

    proof fn le_total(a: Seq<char>, b: Seq<char>) {
        text::text_le_total(a, b);
    }

    proof fn le_transitive(a: Seq<char>, b: Seq<char>, c: Seq<char>) {
        text::text_le_transitive(a, b, c);
    }

    fn not_after(&self, other: &PathRow) -> (r: bool) {
        text::text_not_after(self.path.as_str(), other.path.as_str())
    }
}

/// The first paths in lexicographic order: the files that are blamed.
pub fn pick_paths(paths: Vec<String>) -> (r: Vec<String>)
    ensures
        text::views(r@) == report::top_ranked::<PathRow>(text::views(paths@), MAX_FILES as int),
{
    let ghost all = text::views(paths@);
    let mut rows: Vec<PathRow> = Vec::new();
    for path in it: paths
        invariant
            text::views(it.seq()) == all,
            rows@.len() == it.index(),
            forall|k: int| 0 <= k < rows@.len() ==> (#[trigger] rows@[k])@ == all[k],
    {
        proof {
            assert(text::views(it.seq())[it.index() as int] == path@);
        }
        rows.push(PathRow { path });
    }
    proof {
        assert(order::models(rows@) =~= all);
    }
    let sorted = order::sort_rows(rows);
    proof {
        order::models_of_first_n(sorted@, MAX_FILES as int);
    }
    let top = order::keep_first(sorted, MAX_FILES);
    let ghost want = order::models(top@);
    let mut out: Vec<String> = Vec::new();
    for row in it: top
        invariant
            order::models(it.seq()) == want,
            out@.len() == it.index(),
            forall|k: int| 0 <= k < out@.len() ==> (#[trigger] out@[k])@ == want[k],
    {
        proof {
            assert(order::models(it.seq())[it.index() as int] == row@);
        }
        out.push(row.path);
    }
    proof {
        assert(text::views(out@) =~= want);
    }
    out
}

/// The latest time at which a line counts as ancient.
pub open spec fn cutoff(now: int) -> int {
    now - ANCIENT_MONTHS * 30 * 86_400
}

pub fn ancient_cutoff(now: i64) -> (r: i64)
    requires
        cutoff(now as int) >= i64::MIN,
    ensures
        r == cutoff(now as int),
{
    now - ANCIENT_MONTHS * 30 * 86_400
}

/// Lines that one commit left in a file, and when it was made, if that is
/// known.
#[derive(Debug, Clone, Copy)]
pub struct BlameRange {
    pub len: u64,
    pub time: Option<i64>,
}

pub open spec fn len_of() -> spec_fn(BlameRange) -> nat {
    |b: BlameRange| b.len as nat
}

pub open spec fn ancient_len(limit: int) -> spec_fn(BlameRange) -> nat {
    |b: BlameRange|
        match b.time {
            Some(t) => if t <= limit {
                b.len as nat
            } else {
                0
            },
            None => 0,
        }
}

/// The earliest of the known times, but none after `now`.
pub open spec fn oldest(ranges: Seq<BlameRange>, now: int) -> int
    decreases ranges.len(),
{
    if ranges.len() == 0 {
        now
    } else {
        let o = oldest(ranges.drop_last(), now);
        match ranges.last().time {
            Some(t) => if t < o {
                t as int
            } else {
                o
            },
            None => o,
        }
    }
}

proof fn lemma_oldest_bound(ranges: Seq<BlameRange>, now: int)
    requires
        i64::MIN <= now,
    ensures
        i64::MIN <= oldest(ranges, now) <= now,
    decreases ranges.len(),
{
    if ranges.len() > 0 {
        lemma_oldest_bound(ranges.drop_last(), now);
    }
}

proof fn lemma_ancient_within(ranges: Seq<BlameRange>, limit: int)
    ensures
        fold::total(ranges, ancient_len(limit)) <= fold::total(ranges, len_of()),
    decreases ranges.len(),
{
    if ranges.len() > 0 {
        lemma_ancient_within(ranges.drop_last(), limit);
    }
}

/// The lines of a file, how many of them are ancient, and the age of the oldest.
#[derive(Debug)]
pub struct FileHalfLife {
    pub total_lines: u64,
    pub ancient_lines: u64,
    pub oldest_age_days: u64,
}

pub struct FileHalfLifeModel {
    pub total_lines: int,
    pub ancient_lines: int,
    pub oldest_age_days: int,
}

impl View for FileHalfLife {
    type V = FileHalfLifeModel;

    open spec fn view(&self) -> FileHalfLifeModel {
        FileHalfLifeModel {
            total_lines: self.total_lines as int,
            ancient_lines: self.ancient_lines as int,
            oldest_age_days: self.oldest_age_days as int,
        }
    }
}

pub open spec fn half_life_of(ranges: Seq<BlameRange>, now: int) -> FileHalfLifeModel {
    FileHalfLifeModel {
        total_lines: fold::total(ranges, len_of()) as int,
        ancient_lines: fold::total(ranges, ancient_len(cutoff(now))) as int,
        oldest_age_days: (now - oldest(ranges, now)) / 86_400,
    }
}

/// A file never has more ancient lines than lines.
pub proof fn ancient_lines_are_lines(ranges: Seq<BlameRange>, now: int)
    ensures
        half_life_of(ranges, now).ancient_lines <= half_life_of(ranges, now).total_lines,
{
    lemma_ancient_within(ranges, cutoff(now));
}

/// The share of ancient lines in percent, rounded down.
pub open spec fn ancient_pct(f: FileHalfLifeModel) -> int {
    if f.total_lines == 0 {
        0
    } else {
        let scaled = if f.ancient_lines * 100 > u64::MAX {
            u64::MAX as int
        } else {
            f.ancient_lines * 100
        };
        if scaled / f.total_lines > 100 {
            100
        } else {
            scaled / f.total_lines
        }
    }
}

/// The share is that of the ancient lines in all lines, in per cent and rounded
/// down: nothing where no line is ancient, all where every line is.
pub proof fn ancient_pct_is_the_share_of_ancient_lines(f: FileHalfLifeModel)
    requires
        0 <= f.ancient_lines <= f.total_lines,
        0 < f.total_lines,
        100 * f.ancient_lines <= u64::MAX,
    ensures
        ancient_pct(f) * f.total_lines <= 100 * f.ancient_lines,
        100 * f.ancient_lines < (ancient_pct(f) + 1) * f.total_lines,
        f.ancient_lines == 0 ==> ancient_pct(f) == 0,
        f.ancient_lines == f.total_lines ==> ancient_pct(f) == 100,
{
    let all = f.total_lines;
    let p = (f.ancient_lines * 100) / all;
    assert(p * all <= f.ancient_lines * 100 && f.ancient_lines * 100 < (p + 1) * all)
        by (nonlinear_arith)
        requires
            all > 0,
            p == (f.ancient_lines * 100) / all,
    ;
    assert(p <= 100) by (nonlinear_arith)
        requires
            all > 0,
            p * all <= f.ancient_lines * 100,
            f.ancient_lines <= all,
    ;
    if f.ancient_lines == 0 {
        assert(p == 0) by (nonlinear_arith)
            requires
                all > 0,
                p == 0int / all,
        ;
    }
    if f.ancient_lines == all {
        assert(p == 100) by (nonlinear_arith)
            requires
                all > 0,
                all * 100 < (p + 1) * all,
                p <= 100,
        ;
    }
}

/// The share does not fall as more lines turn ancient.
pub proof fn ancient_pct_grows_with_ancient_lines(f: FileHalfLifeModel, g: FileHalfLifeModel)
    requires
        0 <= f.ancient_lines <= g.ancient_lines <= g.total_lines,
        f.total_lines == g.total_lines,
        0 < f.total_lines,
        100 * g.ancient_lines <= u64::MAX,
    ensures
        ancient_pct(f) <= ancient_pct(g),
{
    ancient_pct_is_the_share_of_ancient_lines(f);
    ancient_pct_is_the_share_of_ancient_lines(g);
    let p = ancient_pct(f);
    let q = ancient_pct(g);
    let n = f.total_lines;
    assert(p <= q) by (nonlinear_arith)
        requires
            p * n <= 100 * f.ancient_lines,
            100 * g.ancient_lines < (q + 1) * n,
            f.ancient_lines <= g.ancient_lines,
            n > 0,
    ;
}

fn percent_ancient(f: &FileHalfLife) -> (r: u64)
    ensures
        r == ancient_pct(f@),
{
    if f.total_lines == 0 {
        return 0;
    }
    let wide: u128 = f.ancient_lines as u128 * 100;
    let scaled: u64 = if wide > u64::MAX as u128 {
        u64::MAX
    } else {
        wide as u64
    };
    let p: u64 = scaled / f.total_lines;
    if p > 100 {
        100
    } else {
        p
    }
}

pub open spec fn advice(pct: int) -> Seq<char> {
    if pct <= 20 {
        "Hot zone — frequent rewrites"@
    } else if pct <= 50 {
        "Aging steadily"@
    } else if pct <= 80 {
        "Mostly stable"@
    } else {
        "Stable core"@
    }
}

pub fn classify(pct: u64) -> (r: &'static str)
    ensures
        r@ == advice(pct as int),
{
    if pct <= 20 {
        "Hot zone — frequent rewrites"
    } else if pct <= 50 {
        "Aging steadily"
    } else if pct <= 80 {
        "Mostly stable"
    } else {
        "Stable core"
    }
}

/// A row of the report.
pub struct HalfLifeRow {
    pub path: String,
    pub total_lines: u64,
    pub ancient_lines: u64,
    pub pct: u64,
    pub oldest_age_days: u64,
}

pub struct HalfLifeRowModel {
    pub path: Seq<char>,
    pub total_lines: int,
    pub ancient_lines: int,
    pub pct: int,
    pub oldest_age_days: int,
}

impl View for HalfLifeRow {
    type V = HalfLifeRowModel;

    open spec fn view(&self) -> HalfLifeRowModel {
        HalfLifeRowModel {
            path: self.path@,
            total_lines: self.total_lines as int,
            ancient_lines: self.ancient_lines as int,
            pct: self.pct as int,
            oldest_age_days: self.oldest_age_days as int,
        }
    }
}

impl Row for HalfLifeRow {
    open spec fn entry(f: HalfLifeRowModel) -> EntryModel {
        EntryModel {
            key: f.path,
            values: Map::empty().insert(
                "total_lines"@,
                ValueModel::Count(f.total_lines),
            ).insert(
                "ancient_lines"@,
                ValueModel::Count(f.ancient_lines),
            ).insert(
                "ancient_pct"@,
                ValueModel::Count(f.pct),
            ).insert(
                "oldest_age_days"@,
                ValueModel::Count(f.oldest_age_days),
            ).insert(
                "recommendation"@,
                ValueModel::Text(advice(f.pct)),
            ),
        }
    }

    fn to_entry(self) -> (r: MetricEntry) {
        let mut values = Values::new();
        values.insert("total_lines", MetricValue::Count(self.total_lines));
        values.insert("ancient_lines", MetricValue::Count(self.ancient_lines));
        values.insert("ancient_pct", MetricValue::Count(self.pct));
        values.insert("oldest_age_days", MetricValue::Count(self.oldest_age_days));
        values.insert("recommendation", MetricValue::Text(text::copy_text(classify(self.pct))));
        MetricEntry { key: self.path, values }
    }
}

/// The least ancient first.
impl Ranked for HalfLifeRow {
    open spec fn le(a: HalfLifeRowModel, b: HalfLifeRowModel) -> bool {
        a.pct <= b.pct
    }

    proof fn le_total(a: HalfLifeRowModel, b: HalfLifeRowModel) {
    }

    proof fn le_transitive(a: HalfLifeRowModel, b: HalfLifeRowModel, c: HalfLifeRowModel) {
    }

    fn not_after(&self, other: &HalfLifeRow) -> (r: bool) {
        self.pct <= other.pct
    }
}

pub open spec fn half_life_row(p: (Seq<char>, FileHalfLifeModel)) -> HalfLifeRowModel {
    HalfLifeRowModel {
        path: p.0,
        total_lines: p.1.total_lines,
        ancient_lines: p.1.ancient_lines,
        pct: ancient_pct(p.1),
        oldest_age_days: p.1.oldest_age_days,
    }
}

pub open spec fn half_life_columns() -> Seq<Seq<char>> {
    seq![
        "total_lines"@,
        "ancient_lines"@,
        "ancient_pct"@,
        "oldest_age_days"@,
        "recommendation"@,
    ]
}

pub open spec fn half_life_report(m: Seq<(Seq<char>, FileHalfLifeModel)>) -> ResultModel {
    types::plain_report_of(
        "half_life"@,
        "Code Half-Life"@,
        "Per-file code longevity: what fraction of the current code was written more than 6 months ago. High percentage = stable, mature code that has stood the test of time. Low percentage = file is constantly rewritten, handle changes here with extra care."@,
        half_life_columns(),
        report::entries_of::<HalfLifeRow>(
            order::sort_ranked::<HalfLifeRow>(
                Seq::new(m.len(), |i: int| half_life_row(m[i])),
            ),
        ),
    )
}

/// A file with its blame, unless it has no lines.
pub open spec fn blamed(
    m: Seq<(Seq<char>, FileHalfLifeModel)>,
    path: Seq<char>,
    ranges: Seq<BlameRange>,
    now: int,
) -> Seq<(Seq<char>, FileHalfLifeModel)> {
    if fold::total(ranges, len_of()) == 0 {
        m
    } else {
        table::put(m, path, half_life_of(ranges, now))
    }
}

fn weigh(ranges: &[BlameRange], now: i64) -> (r: FileHalfLife)
    requires
        fold::total(ranges@, len_of()) <= u64::MAX,
        cutoff(now as int) >= i64::MIN,
    ensures
        r@ == half_life_of(ranges@, now as int),
{
    let limit = ancient_cutoff(now);
    let ghost all = ranges@;
    let n: usize = ranges.len();
    let mut total: u64 = 0;
    let mut ancient: u64 = 0;
    let mut first: i64 = now;
    let mut i: usize = 0;
    proof {
        assert(all.take(0).len() == 0);
    }
    while i < n
        invariant
            n == ranges@.len(),
            all == ranges@,
            i <= n,
            fold::total(all, len_of()) <= u64::MAX,
            limit == cutoff(now as int),
            total == fold::total(all.take(i as int), len_of()),
            ancient == fold::total(all.take(i as int), ancient_len(limit as int)),
            first == oldest(all.take(i as int), now as int),
        decreases n - i,
    {
        proof {
            fold::lemma_total_step(all, len_of(), i as int);
            fold::lemma_total_step(all, ancient_len(limit as int), i as int);
            lemma_ancient_within(all, limit as int);
            assert(all.take(i + 1).drop_last() =~= all.take(i as int));
        }
        total += ranges[i].len;
        match ranges[i].time {
            Some(t) => {
                if t < first {
                    first = t;
                }
                if t <= limit {
                    ancient += ranges[i].len;
                }
            },
            None => {},
        }
        i += 1;
    }
    proof {
        assert(all.take(n as int) =~= all);
        lemma_oldest_bound(all, now as int);
    }
    let age: i128 = (now as i128 - first as i128) / 86_400;
    FileHalfLife { total_lines: total, ancient_lines: ancient, oldest_age_days: age as u64 }
}

pub struct HalfLifeCollector {
    pub files: TextMap<FileHalfLife>,
}

impl Default for HalfLifeCollector {
    fn default() -> (r: Self)
        ensures
            r.files@.len() == 0,
    {
        HalfLifeCollector::new()
    }
}

impl HalfLifeCollector {
    pub fn new() -> (r: Self)
        ensures
            r.files@.len() == 0,
    {
        HalfLifeCollector { files: TextMap::new() }
    }

    pub fn name(&self) -> (r: &str)
        ensures
            r@ == "half_life"@,
    {
        "half_life"
    }

    /// Records the blame of a file, looked at at the time `now`.
    pub fn record_blame(&mut self, path: &str, ranges: &[BlameRange], now: i64)
        requires
            table::ascending(old(self).files@),
            fold::total(ranges@, len_of()) <= u64::MAX,
            cutoff(now as int) >= i64::MIN,
        ensures
            final(self).files@ == blamed(old(self).files@, path@, ranges@, now as int),
            table::ascending(final(self).files@),
    {
        let f = weigh(ranges, now);
        if f.total_lines > 0 {
            self.files.insert(text::copy_text(path), f);
        }
    }

    /// Reports the recorded files and forgets them.
    pub fn finalize(&mut self) -> (r: MetricResult)
        ensures
            r@ == half_life_report(old(self).files@),
            final(self).files@.len() == 0,
    {
        let mut files: TextMap<FileHalfLife> = TextMap::new();
        std::mem::swap(&mut files, &mut self.files);
        let ghost m = files@;
        let n: usize = files.len();
        let mut list: Vec<HalfLifeRow> = Vec::new();
        let mut i: usize = 0;
        while i < n
            invariant
                n == m.len(),
                m == files@,
                i <= n,
                list@.len() == i,
                forall|k: int| 0 <= k < i ==> (#[trigger] list@[k])@ == half_life_row(m[k]),
            decreases n - i,
        {
            let f = files.value_at(i);
            list.push(
                HalfLifeRow {
                    path: files.key_at(i).clone(),
                    total_lines: f.total_lines,
                    ancient_lines: f.ancient_lines,
                    pct: percent_ancient(f),
                    oldest_age_days: f.oldest_age_days,
                },
            );
            i += 1;
        }
        proof {
            assert(order::models(list@) =~= Seq::new(m.len(), |i: int| half_life_row(m[i])));
        }
        let entries = report::to_entries(order::sort_rows(list));
        let columns = [
            "total_lines",
            "ancient_lines",
            "ancient_pct",
            "oldest_age_days",
            "recommendation",
        ];
        proof {
            assert(types::str_views(columns@) =~= half_life_columns());
        }
        MetricResult::plain(
            "half_life",
            "Code Half-Life",
            "Per-file code longevity: what fraction of the current code was written more than 6 months ago. High percentage = stable, mature code that has stood the test of time. Low percentage = file is constantly rewritten, handle changes here with extra care.",
            &columns,
            entries,
        )
    }
}

/// More lines add to the lines of a file, and to the ancient ones where they were
/// written a hundred and eighty days ago or before.
pub proof fn lines_turn_ancient(ranges: Seq<BlameRange>, r: BlameRange, now: int)
    ensures
        ({
            let was = half_life_of(ranges, now);
            let is = half_life_of(ranges.push(r), now);
            &&& is.total_lines == was.total_lines + r.len
            &&& r.time is None ==> is.ancient_lines == was.ancient_lines
            &&& r.time matches Some(t) ==> (now - t >= 180 * 24 * 60 * 60 ==> is.ancient_lines
                == was.ancient_lines + r.len) && (now - t < 180 * 24 * 60 * 60 ==> is.ancient_lines
                == was.ancient_lines)
        }),
        half_life_of(Seq::empty(), now).total_lines == 0,
        half_life_of(Seq::empty(), now).ancient_lines == 0,
{
    assert(ranges.push(r).drop_last() =~= ranges);
}

proof fn lemma_oldest(ranges: Seq<BlameRange>, now: int)
    ensures
        oldest(ranges, now) <= now,
        forall|k: int|
            0 <= k < ranges.len() ==> ((#[trigger] ranges[k]).time matches Some(t) ==> oldest(
                ranges,
                now,
            ) <= t),
        oldest(ranges, now) == now || exists|k: int|
            0 <= k < ranges.len() && (#[trigger] ranges[k]).time is Some && ranges[k].time->0
                == oldest(ranges, now),
    decreases ranges.len(),
{
    if ranges.len() > 0 {
        let front = ranges.drop_last();
        lemma_oldest(front, now);
        assert(ranges[ranges.len() - 1] == ranges.last());
        assert(forall|k: int| 0 <= k < front.len() ==> front[k] == ranges[k]);
        if oldest(front, now) != now {
            let k = choose|k: int|
                0 <= k < front.len() && (#[trigger] front[k]).time is Some && front[k].time->0
                    == oldest(front, now);
            assert(ranges[k] == front[k]);
        }
    }
}

/// The age of a file is that of its oldest line, in whole days.
pub proof fn a_file_is_as_old_as_its_oldest_line(ranges: Seq<BlameRange>, now: int)
    ensures
        ({
            let age = half_life_of(ranges, now).oldest_age_days;
            &&& age >= 0
            &&& forall|k: int|
                0 <= k < ranges.len() ==> ((#[trigger] ranges[k]).time matches Some(t) ==> (now - t)
                    < (age + 1) * 86_400)
            &&& age == 0 || exists|k: int|
                0 <= k < ranges.len() && (#[trigger] ranges[k]).time is Some && age * 86_400 <= now
                    - ranges[k].time->0
        }),
{
    lemma_oldest(ranges, now);
    let o = oldest(ranges, now);
    let age = (now - o) / 86_400;
    assert(age * 86_400 <= now - o < (age + 1) * 86_400);
}

/// The advice goes by the share of ancient lines alone.
pub proof fn the_share_decides_the_advice(pct: int)
    ensures
        pct <= 20 ==> advice(pct) == "Hot zone — frequent rewrites"@,
        20 < pct <= 50 ==> advice(pct) == "Aging steadily"@,
        50 < pct <= 80 ==> advice(pct) == "Mostly stable"@,
        80 < pct ==> advice(pct) == "Stable core"@,
{
}

/// A file without lines is not recorded; any other is, in place of what was
/// known of it.
pub proof fn files_with_lines_are_recorded(
    m: Seq<(Seq<char>, FileHalfLifeModel)>,
    path: Seq<char>,
    ranges: Seq<BlameRange>,
    now: int,
    q: Seq<char>,
)
    requires
        table::ascending(m),
    ensures
        fold::total(ranges, len_of()) == 0 ==> blamed(m, path, ranges, now) == m,
        fold::total(ranges, len_of()) > 0 ==> table::lookup(blamed(m, path, ranges, now), path)
            == Some(half_life_of(ranges, now)),
        q != path ==> table::lookup(blamed(m, path, ranges, now), q) == table::lookup(m, q),
{
    table::lookup_of_put(m, path, half_life_of(ranges, now), path);
    table::lookup_of_put(m, path, half_life_of(ranges, now), q);
}

/// Every blamed file is shown with its lines and the share of ancient ones.
pub proof fn every_blamed_file_is_shown(m: Seq<(Seq<char>, FileHalfLifeModel)>, k: int)
    requires
        0 <= k < m.len(),
    ensures
        exists|i: int|
            0 <= i < half_life_report(m).entries.len() && ({
                let e = #[trigger] half_life_report(m).entries[i];
                let r = m[k];
                &&& e.key == r.0
                &&& e.values["total_lines"@] == ValueModel::Count(r.1.total_lines)
                &&& e.values["ancient_lines"@] == ValueModel::Count(r.1.ancient_lines)
                &&& e.values["ancient_pct"@] == ValueModel::Count(ancient_pct(r.1))
                &&& e.values["oldest_age_days"@] == ValueModel::Count(r.1.oldest_age_days)
                &&& e.values["recommendation"@] == ValueModel::Text(advice(ancient_pct(r.1)))
            }),
{
    let s = Seq::new(m.len(), |n: int| half_life_row(m[n]));
    let x = half_life_row(m[k]);
    let ranked = order::sort_ranked::<HalfLifeRow>(Seq::new(m.len(), |n: int| half_life_row(m[n])));
    assert(s[k] == x);
    order::sort_same_members::<HalfLifeRow>(Seq::new(m.len(), |n: int| half_life_row(m[n])));
    order::sort_keeps_elements::<HalfLifeRow>(Seq::new(m.len(), |n: int| half_life_row(m[n])));
    assert(Seq::new(m.len(), |n: int| half_life_row(m[n])) =~= Seq::new(m.len(), |i: int| half_life_row(m[i])));
    assert(s.contains(x));
    assert(ranked.contains(x));
    let i = choose|i: int| 0 <= i < ranked.len() && ranked[i] == x;
    assert(half_life_report(m).entries[i] == HalfLifeRow::entry(x));
    reveal_strlit("total_lines");
    reveal_strlit("ancient_lines");
    reveal_strlit("ancient_pct");
    reveal_strlit("oldest_age_days");
    reveal_strlit("recommendation");
    assert("total_lines"@.len() != "ancient_lines"@.len());
    assert("total_lines"@[0] != "ancient_pct"@[0]);
    assert("total_lines"@.len() != "oldest_age_days"@.len());
    assert("total_lines"@.len() != "recommendation"@.len());
    assert("ancient_lines"@.len() != "ancient_pct"@.len());
    assert("ancient_lines"@.len() != "oldest_age_days"@.len());
    assert("ancient_lines"@.len() != "recommendation"@.len());
    assert("ancient_pct"@.len() != "oldest_age_days"@.len());
    assert("ancient_pct"@.len() != "recommendation"@.len());
    assert("oldest_age_days"@.len() != "recommendation"@.len());
}

/// Whatever is shown is a blamed file.
pub proof fn only_blamed_files_are_shown(m: Seq<(Seq<char>, FileHalfLifeModel)>, i: int)
    requires
        0 <= i < half_life_report(m).entries.len(),
    ensures
        exists|k: int|
            0 <= k < m.len() && ({
                let e = half_life_report(m).entries[i];
                let r = #[trigger] m[k];
                &&& e.key == r.0
                &&& e.values["total_lines"@] == ValueModel::Count(r.1.total_lines)
                &&& e.values["ancient_lines"@] == ValueModel::Count(r.1.ancient_lines)
                &&& e.values["ancient_pct"@] == ValueModel::Count(ancient_pct(r.1))
                &&& e.values["oldest_age_days"@] == ValueModel::Count(r.1.oldest_age_days)
                &&& e.values["recommendation"@] == ValueModel::Text(advice(ancient_pct(r.1)))
            }),
{
    let s = Seq::new(m.len(), |n: int| half_life_row(m[n]));
    let ranked = order::sort_ranked::<HalfLifeRow>(Seq::new(m.len(), |n: int| half_life_row(m[n])));
    let x = ranked[i];
    order::sort_same_members::<HalfLifeRow>(Seq::new(m.len(), |n: int| half_life_row(m[n])));
    order::sort_keeps_elements::<HalfLifeRow>(Seq::new(m.len(), |n: int| half_life_row(m[n])));
    assert(Seq::new(m.len(), |n: int| half_life_row(m[n])) =~= Seq::new(m.len(), |i: int| half_life_row(m[i])));
    assert(ranked.contains(x));
    assert(s.contains(x));
    assert(half_life_report(m).entries[i] == HalfLifeRow::entry(x));
    let k = choose|k: int| 0 <= k < s.len() && s[k] == x;
    assert(m[k] == m[k]);
    reveal_strlit("total_lines");
    reveal_strlit("ancient_lines");
    reveal_strlit("ancient_pct");
    reveal_strlit("oldest_age_days");
    reveal_strlit("recommendation");
    assert("total_lines"@.len() != "ancient_lines"@.len());
    assert("total_lines"@[0] != "ancient_pct"@[0]);
    assert("total_lines"@.len() != "oldest_age_days"@.len());
    assert("total_lines"@.len() != "recommendation"@.len());
    assert("ancient_lines"@.len() != "ancient_pct"@.len());
    assert("ancient_lines"@.len() != "oldest_age_days"@.len());
    assert("ancient_lines"@.len() != "recommendation"@.len());
    assert("ancient_pct"@.len() != "oldest_age_days"@.len());
    assert("ancient_pct"@.len() != "recommendation"@.len());
    assert("oldest_age_days"@.len() != "recommendation"@.len());
}

/// The files with the smallest share of ancient lines stand first.
pub proof fn most_rewritten_first(m: Seq<(Seq<char>, FileHalfLifeModel)>, i: int, j: int)
    requires
        0 <= i < j < half_life_report(m).entries.len(),
    ensures
        ({
            let a = half_life_report(m).entries[i].values;
            let b = half_life_report(m).entries[j].values;
            a["ancient_pct"@]->Count_0 <= b["ancient_pct"@]->Count_0
        }),
{
    let ranked = order::sort_ranked::<HalfLifeRow>(Seq::new(m.len(), |n: int| half_life_row(m[n])));
    order::sort_orders::<HalfLifeRow>(Seq::new(m.len(), |n: int| half_life_row(m[n])));
    assert(Seq::new(m.len(), |n: int| half_life_row(m[n])) =~= Seq::new(m.len(), |i: int| half_life_row(m[i])));
    assert(half_life_report(m).entries[i] == HalfLifeRow::entry(ranked[i]));
    assert(half_life_report(m).entries[j] == HalfLifeRow::entry(ranked[j]));
    assert(HalfLifeRow::le(ranked[i], ranked[j]));
    reveal_strlit("total_lines");
    reveal_strlit("ancient_lines");
    reveal_strlit("ancient_pct");
    reveal_strlit("oldest_age_days");
    reveal_strlit("recommendation");
    assert("total_lines"@.len() != "ancient_lines"@.len());
    assert("total_lines"@[0] != "ancient_pct"@[0]);
    assert("total_lines"@.len() != "oldest_age_days"@.len());
    assert("total_lines"@.len() != "recommendation"@.len());
    assert("ancient_lines"@.len() != "ancient_pct"@.len());
    assert("ancient_lines"@.len() != "oldest_age_days"@.len());
    assert("ancient_lines"@.len() != "recommendation"@.len());
    assert("ancient_pct"@.len() != "oldest_age_days"@.len());
    assert("ancient_pct"@.len() != "recommendation"@.len());
    assert("oldest_age_days"@.len() != "recommendation"@.len());
}

/// The report has these columns, in this order.
pub proof fn the_columns_are_these(m: Seq<(Seq<char>, FileHalfLifeModel)>)
    ensures
        half_life_report(m).name == "half_life"@,
        half_life_report(m).columns.len() == 5,
        half_life_report(m).columns[0].value == "total_lines"@,
        half_life_report(m).columns[1].value == "ancient_lines"@,
        half_life_report(m).columns[2].value == "ancient_pct"@,
        half_life_report(m).columns[3].value == "oldest_age_days"@,
        half_life_report(m).columns[4].value == "recommendation"@,
{
}

/// The limits that hold here.
pub proof fn the_limits_are_these()
    ensures
        MAX_BLOB_BYTES == 51_200,
        MAX_FILES == 50,
        ANCIENT_MONTHS == 6,
{
}

/// The names of the files that are looked at end in one of these.
pub proof fn extensions_are_these(ext: Seq<char>)
    ensures
        source_extensions().contains(ext) <==> ext == "rs"@
            || ext == "py"@
            || ext == "pyi"@
            || ext == "ts"@
            || ext == "tsx"@
            || ext == "js"@
            || ext == "jsx"@
            || ext == "java"@
            || ext == "go"@
            || ext == "cpp"@
            || ext == "cc"@
            || ext == "cxx"@
            || ext == "hpp"@
            || ext == "h"@
            || ext == "cs"@
            || ext == "kt"@
            || ext == "kts"@
            || ext == "php"@
            || ext == "rb"@
            || ext == "scala"@
            || ext == "sc"@
            || ext == "swift"@
            || ext == "sh"@
            || ext == "bash"@,
{
    assert(source_extensions()[0] == "rs"@);
    assert(source_extensions()[1] == "py"@);
    assert(source_extensions()[2] == "pyi"@);
    assert(source_extensions()[3] == "ts"@);
    assert(source_extensions()[4] == "tsx"@);
    assert(source_extensions()[5] == "js"@);
    assert(source_extensions()[6] == "jsx"@);
    assert(source_extensions()[7] == "java"@);
    assert(source_extensions()[8] == "go"@);
    assert(source_extensions()[9] == "cpp"@);
    assert(source_extensions()[10] == "cc"@);
    assert(source_extensions()[11] == "cxx"@);
    assert(source_extensions()[12] == "hpp"@);
    assert(source_extensions()[13] == "h"@);
    assert(source_extensions()[14] == "cs"@);
    assert(source_extensions()[15] == "kt"@);
    assert(source_extensions()[16] == "kts"@);
    assert(source_extensions()[17] == "php"@);
    assert(source_extensions()[18] == "rb"@);
    assert(source_extensions()[19] == "scala"@);
    assert(source_extensions()[20] == "sc"@);
    assert(source_extensions()[21] == "swift"@);
    assert(source_extensions()[22] == "sh"@);
    assert(source_extensions()[23] == "bash"@);
}

/// At most fifty files are picked, in the order of their paths.
pub proof fn picked_paths_ascend(paths: Seq<Seq<char>>, i: int, j: int)
    requires
        0 <= i < j < report::top_ranked::<PathRow>(paths, MAX_FILES as int).len(),
    ensures
        report::top_ranked::<PathRow>(paths, MAX_FILES as int).len() <= 50,
        text::text_le(
            report::top_ranked::<PathRow>(paths, MAX_FILES as int)[i],
            report::top_ranked::<PathRow>(paths, MAX_FILES as int)[j],
        ),
{
    report::top_ranked_leads::<PathRow>(paths, 50);
    report::top_ranked_len::<PathRow>(paths, 50);
    let r = report::top_ranked::<PathRow>(paths, 50);
    assert(PathRow::le(r[i], r[j]));
}

/// The report is headed by these words.
pub proof fn the_title_is_this(m: Seq<(Seq<char>, FileHalfLifeModel)>)
    ensures
        half_life_report(m).display_name.code == "Code Half-Life"@,
        half_life_report(m).description.code == "Per-file code longevity: what fraction of the current code was written more than 6 months ago. High percentage = stable, mature code that has stood the test of time. Low percentage = file is constantly rewritten, handle changes here with extra care."@,
{
}

} // verus!
