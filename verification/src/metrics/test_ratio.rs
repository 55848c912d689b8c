//! How much of the code is test code.

use vstd::prelude::*;

use crate::analysis::line_classifier;
use crate::analysis::line_classifier::{count_lines, LineType};
use crate::analysis::source_filter;
use crate::analysis::source_filter::is_source_file;
use crate::blob;
use crate::fold;
use crate::langs::detection;
use crate::langs::detection::detect_language_info;
use crate::order;
use crate::order::Ranked;
use crate::report;
use crate::report::Row;
use crate::table;
use crate::table::TextMap;
use crate::text;
use crate::types;
use crate::types::{EntryModel, MetricEntry, MetricResult, MetricValue, ResultModel, ValueModel, Values};

verus! {

/// Larger files are not read.
pub const MAX_BLOB_BYTES: u64 = 2_097_152;

/// A directory on the path holds tests; `p` is in lower case.
pub open spec fn in_test_directory(p: Seq<char>) -> bool {
    ||| "tests/"@.is_prefix_of(p)
    ||| "test/"@.is_prefix_of(p)
    ||| text::contains(p, "/tests/"@)
    ||| text::contains(p, "/test/"@)
    ||| text::contains(p, "/__tests__/"@)
    ||| "__tests__/"@.is_prefix_of(p)
    ||| "spec/"@.is_prefix_of(p)
    ||| text::contains(p, "/spec/"@)
}

/// The file name, in lower case, is that of a test in Go, Python, JavaScript,
/// TypeScript or Ruby.
pub open spec fn is_test_name(name: Seq<char>) -> bool {
    ||| "_test.go"@.is_suffix_of(name)
    ||| ("test_"@.is_prefix_of(name) && ".py"@.is_suffix_of(name))
    ||| "_test.py"@.is_suffix_of(name)
    ||| text::contains(name, ".test."@)
    ||| text::contains(name, ".spec."@)
    ||| "_test.rb"@.is_suffix_of(name)
    ||| "_spec.rb"@.is_suffix_of(name)
}

/// The file name, as it is written, is that of a test in Java, Kotlin or C#.
pub open spec fn is_test_class_name(name: Seq<char>) -> bool {
    ||| "Test.java"@.is_suffix_of(name)
    ||| "Tests.java"@.is_suffix_of(name)
    ||| "Spec.java"@.is_suffix_of(name)
    ||| "Test.kt"@.is_suffix_of(name)
    ||| "Tests.kt"@.is_suffix_of(name)
    ||| "Test.cs"@.is_suffix_of(name)
    ||| "Tests.cs"@.is_suffix_of(name)
}

/// The path looks like that of a test file.
pub open spec fn is_test(path: Seq<char>) -> bool {
    let lower = text::lower_ascii(path);
    ||| in_test_directory(lower)
    ||| is_test_name(text::after_last(lower, '/'))
    ||| is_test_class_name(text::after_last(path, '/'))
}

pub fn is_test_file(path: &str) -> (r: bool)
    ensures
        r == is_test(path@),
{
    let lower_text = text::to_lower_ascii(path);
    let lower = lower_text.as_str();
    if text::starts_with(lower, "tests/") || text::starts_with(lower, "test/") || text::has(
        lower,
        "/tests/",
    ) || text::has(lower, "/test/") || text::has(lower, "/__tests__/") || text::starts_with(
        lower,
        "__tests__/",
    ) || text::starts_with(lower, "spec/") || text::has(lower, "/spec/") {
        return true;
    }
    let name_text = text::tail_after(lower, '/');
    let name = name_text.as_str();
    if text::ends_with(name, "_test.go") || (text::starts_with(name, "test_") && text::ends_with(
        name,
        ".py",
    )) || text::ends_with(name, "_test.py") || text::has(name, ".test.") || text::has(
        name,
        ".spec.",
    ) || text::ends_with(name, "_test.rb") || text::ends_with(name, "_spec.rb") {
        return true;
    }
    let written_text = text::tail_after(path, '/');
    let written = written_text.as_str();
    text::ends_with(written, "Test.java") || text::ends_with(written, "Tests.java")
        || text::ends_with(written, "Spec.java") || text::ends_with(written, "Test.kt")
        || text::ends_with(written, "Tests.kt") || text::ends_with(written, "Test.cs")
        || text::ends_with(written, "Tests.cs")
}

/// The files and lines of code of one language, tests apart.
#[derive(Debug)]
pub struct LangStats {
    pub source_files: u64,
    pub test_files: u64,
    pub source_lines: u64,
    pub test_lines: u64,
}

pub struct LangStatsModel {
    pub source_files: int,
    pub test_files: int,
    pub source_lines: int,
    pub test_lines: int,
}

impl View for LangStats {
    type V = LangStatsModel;

    open spec fn view(&self) -> LangStatsModel {
        LangStatsModel {
            source_files: self.source_files as int,
            test_files: self.test_files as int,
            source_lines: self.source_lines as int,
            test_lines: self.test_lines as int,
        }
    }
}

impl LangStatsModel {
    pub open spec fn empty() -> LangStatsModel {
        LangStatsModel { source_files: 0, test_files: 0, source_lines: 0, test_lines: 0 }
    }

    pub open spec fn lines(self) -> int {
        self.source_lines + self.test_lines
    }

    pub open spec fn with_file(self, test: bool, code: int) -> LangStatsModel {
        if test {
            LangStatsModel {
                test_files: self.test_files + 1,
                test_lines: self.test_lines + code,
                ..self
            }
        } else {
            LangStatsModel {
                source_files: self.source_files + 1,
                source_lines: self.source_lines + code,
                ..self
            }
        }
    }
}

pub open spec fn stats_of(m: Seq<(Seq<char>, LangStatsModel)>, name: Seq<char>) -> LangStatsModel {
    match table::lookup(m, name) {
        Some(s) => s,
        None => LangStatsModel::empty(),
    }
}

/// The language and the lines of code of a file: nothing, unless it is a
/// readable source file in a known language.
pub open spec fn measured(path: Seq<char>, data: Seq<u8>) -> Option<(Seq<char>, int)> {
    if !source_filter::is_source(path) {
        None
    } else {
        match blob::readable(data, MAX_BLOB_BYTES as int) {
            None => None,
            Some(content) => match detection::detected(path, Some(content)) {
                None => None,
                Some(lang) => Some(
                    (
                        lang.name@,
                        fold::count(
                            line_classifier::line_kinds(content, Some(lang)),
                            line_classifier::is_kind(LineType::Code),
                        ) as int,
                    ),
                ),
            },
        }
    }
}

/// The counts after one more file in a language.
pub open spec fn recorded(
    m: Seq<(Seq<char>, LangStatsModel)>,
    path: Seq<char>,
    name: Seq<char>,
    code: int,
) -> Seq<(Seq<char>, LangStatsModel)> {
    table::put(m, name, stats_of(m, name).with_file(is_test(path), code))
}

/// One more file of the tree.
pub open spec fn inspected(m: Seq<(Seq<char>, LangStatsModel)>, path: Seq<char>, data: Seq<u8>) ->
    Seq<(Seq<char>, LangStatsModel)> {
    match measured(path, data) {
        None => m,
        Some((name, code)) => recorded(m, path, name, code),
    }
}

pub fn measure(path: &str, data: &[u8]) -> (r: Option<(String, u64)>)
    ensures
        match r {
            Some((name, code)) => measured(path@, data@) == Some((name@, code as int)),
            None => measured(path@, data@) is None,
        },
{
    if !is_source_file(path) {
        return None;
    }
    match blob::readable_text(data, MAX_BLOB_BYTES) {
        None => None,
        Some(content) => match detect_language_info(path, Some(content)) {
            None => None,
            Some(lang) => {
                let counts = count_lines(content, Some(&lang));
                Some((text::copy_text(lang.name), counts.code))
            },
        },
    }
}

/// A row of the report.
pub struct LangRow {
    pub name: String,
    pub source_files: u64,
    pub test_files: u64,
    pub source_lines: u64,
    pub test_lines: u64,
    pub lines: u64,
}

pub struct LangRowModel {
    pub name: Seq<char>,
    pub source_files: int,
    pub test_files: int,
    pub source_lines: int,
    pub test_lines: int,
    pub lines: int,
}

impl View for LangRow {
    type V = LangRowModel;

    open spec fn view(&self) -> LangRowModel {
        LangRowModel {
            name: self.name@,
            source_files: self.source_files as int,
            test_files: self.test_files as int,
            source_lines: self.source_lines as int,
            test_lines: self.test_lines as int,
            lines: self.lines as int,
        }
    }
}

impl Row for LangRow {
    open spec fn entry(s: LangRowModel) -> EntryModel {
        EntryModel {
            key: s.name,
            values: Map::empty().insert(
                "source_files"@,
                ValueModel::Count(s.source_files),
            ).insert(
                "test_files"@,
                ValueModel::Count(s.test_files),
            ).insert(
                "source_lines"@,
                ValueModel::Count(s.source_lines),
            ).insert(
                "test_lines"@,
                ValueModel::Count(s.test_lines),
            ).insert(
                "test_pct"@,
                ValueModel::Percent(s.test_lines, s.lines),
            ),
        }
    }

    fn to_entry(self) -> (r: MetricEntry) {
        let mut values = Values::new();
        values.insert("source_files", MetricValue::Count(self.source_files));
        values.insert("test_files", MetricValue::Count(self.test_files));
        values.insert("source_lines", MetricValue::Count(self.source_lines));
        values.insert("test_lines", MetricValue::Count(self.test_lines));
        values.insert("test_pct", MetricValue::Percent { num: self.test_lines, den: self.lines });
        MetricEntry { key: self.name, values }
    }
}

/// The most lines first.
impl Ranked for LangRow {
    open spec fn le(a: LangRowModel, b: LangRowModel) -> bool {
        a.lines >= b.lines
    }

    proof fn le_total(a: LangRowModel, b: LangRowModel) {
    }

    proof fn le_transitive(a: LangRowModel, b: LangRowModel, c: LangRowModel) {
    }

    fn not_after(&self, other: &LangRow) -> (r: bool) {
        self.lines >= other.lines
    }
}

pub open spec fn lang_row(name: Seq<char>, s: LangStatsModel) -> LangRowModel {
    LangRowModel {
        name,
        source_files: s.source_files,
        test_files: s.test_files,
        source_lines: s.source_lines,
        test_lines: s.test_lines,
        lines: s.lines(),
    }
}

/// The languages that have any code.
pub open spec fn rows_of(m: Seq<(Seq<char>, LangStatsModel)>) -> Seq<LangRowModel>
    decreases m.len(),
{
    if m.len() == 0 {
        Seq::empty()
    } else if m.last().1.lines() > 0 {
        rows_of(m.drop_last()).push(lang_row(m.last().0, m.last().1))
    } else {
        rows_of(m.drop_last())
    }
}

/// All languages together.
pub open spec fn all_of(m: Seq<(Seq<char>, LangStatsModel)>) -> LangStatsModel
    decreases m.len(),
{
    if m.len() == 0 {
        LangStatsModel::empty()
    } else {
        let a = all_of(m.drop_last());
        let s = m.last().1;
        LangStatsModel {
            source_files: a.source_files + s.source_files,
            test_files: a.test_files + s.test_files,
            source_lines: a.source_lines + s.source_lines,
            test_lines: a.test_lines + s.test_lines,
        }
    }
}

pub open spec fn test_ratio_columns() -> Seq<Seq<char>> {
    seq![
        "source_files"@,
        "test_files"@,
        "source_lines"@,
        "test_lines"@,
        "test_pct"@,
    ]
}

pub open spec fn test_ratio_report(m: Seq<(Seq<char>, LangStatsModel)>) -> ResultModel {
    types::report_of(
        "test_ratio"@,
        test_ratio_columns(),
        report::entries_of::<LangRow>(order::sort_ranked::<LangRow>(rows_of(m))).push(
            LangRow::entry(lang_row("(total)"@, all_of(m))),
        ),
    )
}

/// All files and all lines can be counted.
pub open spec fn counts_fit(m: Seq<(Seq<char>, LangStatsModel)>) -> bool {
    let a = all_of(m);
    a.source_files <= u64::MAX && a.test_files <= u64::MAX && a.lines() <= u64::MAX
}

/// No number is negative.
pub open spec fn sound(m: Seq<(Seq<char>, LangStatsModel)>) -> bool {
    forall|i: int|
        0 <= i < m.len() ==> ({
            let s = (#[trigger] m[i]).1;
            s.source_files >= 0 && s.test_files >= 0 && s.source_lines >= 0 && s.test_lines >= 0
        })
}

proof fn lemma_all_grows(m: Seq<(Seq<char>, LangStatsModel)>, i: int)
    requires
        sound(m),
        0 <= i <= m.len(),
    ensures
        ({
            let a = all_of(m.take(i));
            let b = all_of(m);
            &&& 0 <= a.source_files <= b.source_files
            &&& 0 <= a.test_files <= b.test_files
            &&& 0 <= a.source_lines <= b.source_lines
            &&& 0 <= a.test_lines <= b.test_lines
        }),
    decreases m.len(),
{
    if m.len() > 0 {
        let init = m.drop_last();
        assert(sound(init)) by {
            assert forall|k: int| 0 <= k < init.len() implies ({
                let s = (#[trigger] init[k]).1;
                s.source_files >= 0 && s.test_files >= 0 && s.source_lines >= 0 && s.test_lines >= 0
            }) by {
                assert(init[k] == m[k]);
            }
        }
        assert(m[m.len() - 1].1.source_files >= 0);
        if i == m.len() {
            lemma_all_grows(init, init.len() as int);
            assert(init.take(init.len() as int) =~= init);
            assert(m.take(i) =~= m);
        } else {
            lemma_all_grows(init, i);
            assert(init.take(i) =~= m.take(i));
        }
    }
}

/// The rows of the languages add up to the total.
pub proof fn rows_add_up(m: Seq<(Seq<char>, LangStatsModel)>)
    requires
        sound(m),
    ensures
        fold::total(rows_of(m), row_lines()) == all_of(m).lines(),
    decreases m.len(),
{
    if m.len() > 0 {
        let init = m.drop_last();
        assert(sound(init)) by {
            assert forall|k: int| 0 <= k < init.len() implies ({
                let s = (#[trigger] init[k]).1;
                s.source_files >= 0 && s.test_files >= 0 && s.source_lines >= 0 && s.test_lines >= 0
            }) by {
                assert(init[k] == m[k]);
            }
        }
        assert(m[m.len() - 1].1.source_lines >= 0);
        rows_add_up(init);
        let r = lang_row(m.last().0, m.last().1);
        assert(rows_of(init).push(r).drop_last() =~= rows_of(init));
    }
}

pub open spec fn row_lines() -> spec_fn(LangRowModel) -> nat {
    |r: LangRowModel| r.lines as nat
}

pub struct TestRatioCollector {
    pub stats: TextMap<LangStats>,
}

impl Default for TestRatioCollector {
    fn default() -> (r: Self)
        ensures
            r.stats@.len() == 0,
    {
        TestRatioCollector::new()
    }
}

impl TestRatioCollector {
    pub fn new() -> (r: Self)
        ensures
            r.stats@.len() == 0,
    {
        TestRatioCollector { stats: TextMap::new() }
    }

    pub fn name(&self) -> (r: &str)
        ensures
            r@ == "test_ratio"@,
    {
        "test_ratio"
    }

    /// Counts a file that holds `code` lines of code in the language `name`.
    pub fn record(&mut self, path: &str, name: String, code: u64)
        requires
            table::ascending(old(self).stats@),
            counts_fit(recorded(old(self).stats@, path@, name@, code as int)),
        ensures
            final(self).stats@ == recorded(old(self).stats@, path@, name@, code as int),
            table::ascending(final(self).stats@),
    {
        let held = match self.stats.get(name.as_str()) {
            Some(s) => LangStats {
                source_files: s.source_files,
                test_files: s.test_files,
                source_lines: s.source_lines,
                test_lines: s.test_lines,
            },
            None => LangStats { source_files: 0, test_files: 0, source_lines: 0, test_lines: 0 },
        };
        proof {
            lemma_within_all(self.stats, path@, name@, code as int);
        }
        let more = if is_test_file(path) {
            LangStats {
                source_files: held.source_files,
                test_files: held.test_files + 1,
                source_lines: held.source_lines,
                test_lines: held.test_lines + code,
            }
        } else {
            LangStats {
                source_files: held.source_files + 1,
                test_files: held.test_files,
                source_lines: held.source_lines + code,
                test_lines: held.test_lines,
            }
        };
        self.stats.insert(name, more);
    }

    /// Whether a file with `code` lines of code can still be counted.
    pub fn has_room(&self, path: &str, name: &str, code: u64) -> (r: bool)
        requires
            table::ascending(self.stats@),
            counts_fit(self.stats@),
        ensures
            r == counts_fit(recorded(self.stats@, path@, name@, code as int)),
    {
        let all = sum_up(&self.stats);
        let lines: u64 = all.source_lines + all.test_lines;
        let files: u64 = if is_test_file(path) {
            all.test_files
        } else {
            all.source_files
        };
        proof {
            each_file_counts_once(self.stats@, path@, name@, code as int);
        }
        files < u64::MAX && code <= u64::MAX - lines
    }

    /// Counts a file of the tree.
    pub fn inspect_blob(&mut self, path: &str, data: &[u8])
        requires
            table::ascending(old(self).stats@),
            counts_fit(inspected(old(self).stats@, path@, data@)),
        ensures
            final(self).stats@ == inspected(old(self).stats@, path@, data@),
            table::ascending(final(self).stats@),
    {
        if let Some((name, code)) = measure(path, data) {
            self.record(path, name, code);
        }
    }

    /// Counts a file of the tree if it can still be counted, and tells whether
    /// it could.
    pub fn try_inspect_blob(&mut self, path: &str, data: &[u8]) -> (counted: bool)
        requires
            table::ascending(old(self).stats@),
            counts_fit(old(self).stats@),
        ensures
            counted == counts_fit(inspected(old(self).stats@, path@, data@)),
            final(self).stats@ == (if counted {
                inspected(old(self).stats@, path@, data@)
            } else {
                old(self).stats@
            }),
            table::ascending(final(self).stats@),
            counts_fit(final(self).stats@),
    {
        match measure(path, data) {
            None => true,
            Some((name, code)) => {
                if self.has_room(path, name.as_str(), code) {
                    self.record(path, name, code);
                    true
                } else {
                    false
                }
            },
        }
    }

    /// Reports what was counted and forgets it.
    pub fn finalize(&mut self) -> (r: MetricResult)
        requires
            counts_fit(old(self).stats@),
        ensures
            r@ == test_ratio_report(old(self).stats@),
            final(self).stats@.len() == 0,
    {
        let mut stats: TextMap<LangStats> = TextMap::new();
        std::mem::swap(&mut stats, &mut self.stats);
        let ghost m = stats@;
        let n: usize = stats.len();
        let all = sum_up(&stats);
        let mut list: Vec<LangRow> = Vec::new();
        let mut i: usize = 0;
        proof {
            assert(m.take(0).len() == 0);
            assert(order::models(list@) =~= Seq::empty());
            lemma_sound(&stats);
        }
        while i < n
            invariant
                n == m.len(),
                m == stats@,
                i <= n,
                sound(m),
                counts_fit(m),
                order::models(list@) == rows_of(m.take(i as int)),
            decreases n - i,
        {
            let ghost before = order::models(list@);
            proof {
                assert(m.take(i + 1).drop_last() =~= m.take(i as int));
                lemma_all_grows(m, i + 1);
                lemma_all_grows(m, i as int);
            }
            let s = stats.value_at(i);
            let lines: u64 = s.source_lines + s.test_lines;
            if lines > 0 {
                let row = LangRow {
                    name: stats.key_at(i).clone(),
                    source_files: s.source_files,
                    test_files: s.test_files,
                    source_lines: s.source_lines,
                    test_lines: s.test_lines,
                    lines,
                };
                list.push(row);
                proof {
                    assert(order::models(list@) =~= before.push(row@));
                }
            }
            i += 1;
        }
        proof {
            assert(m.take(n as int) =~= m);
        }
        let mut entries = report::to_entries(order::sort_rows(list));
        let ghost known = types::entry_models(entries@);
        let total = LangRow {
            name: text::copy_text("(total)"),
            source_files: all.source_files,
            test_files: all.test_files,
            source_lines: all.source_lines,
            test_lines: all.test_lines,
            lines: all.source_lines + all.test_lines,
        };
        let last = total.to_entry();
        entries.push(last);
        proof {
            assert(types::entry_models(entries@) =~= known.push(last@));
        }
        let columns = [
            "source_files",
            "test_files",
            "source_lines",
            "test_lines",
            "test_pct",
        ];
        proof {
            assert(types::str_views(columns@) =~= test_ratio_columns());
        }
        MetricResult::report("test_ratio", &columns, entries)
    }
}

fn sum_up(stats: &TextMap<LangStats>) -> (r: LangStats)
    requires
        counts_fit(stats@),
    ensures
        r@ == all_of(stats@),
{
    let ghost m = stats@;
    let n: usize = stats.len();
    let mut all = LangStats { source_files: 0, test_files: 0, source_lines: 0, test_lines: 0 };
    let mut i: usize = 0;
    proof {
        assert(m.take(0).len() == 0);
        lemma_sound(stats);
    }
    while i < n
        invariant
            n == m.len(),
            m == stats@,
            i <= n,
            sound(m),
            counts_fit(m),
            all@ == all_of(m.take(i as int)),
        decreases n - i,
    {
        proof {
            assert(m.take(i + 1).drop_last() =~= m.take(i as int));
            lemma_all_grows(m, i + 1);
        }
        let s = stats.value_at(i);
        all = LangStats {
            source_files: all.source_files + s.source_files,
            test_files: all.test_files + s.test_files,
            source_lines: all.source_lines + s.source_lines,
            test_lines: all.test_lines + s.test_lines,
        };
        i += 1;
    }
    proof {
        assert(m.take(n as int) =~= m);
    }
    all
}

/// One more file adds itself and its lines to the total, and nothing else.
pub proof fn each_file_counts_once(
    m: Seq<(Seq<char>, LangStatsModel)>,
    path: Seq<char>,
    name: Seq<char>,
    code: int,
)
    requires
        table::ascending(m),
    ensures
        all_of(recorded(m, path, name, code)) == all_of(m).with_file(is_test(path), code),
{
    lemma_all_of_put(m, name, stats_of(m, name).with_file(is_test(path), code));
}

proof fn lemma_all_of_put(
    m: Seq<(Seq<char>, LangStatsModel)>,
    name: Seq<char>,
    s: LangStatsModel,
)
    requires
        table::ascending(m),
    ensures
        ({
            let a = all_of(table::put(m, name, s));
            let b = all_of(m);
            let held = stats_of(m, name);
            &&& a.source_files == b.source_files - held.source_files + s.source_files
            &&& a.test_files == b.test_files - held.test_files + s.test_files
            &&& a.source_lines == b.source_lines - held.source_lines + s.source_lines
            &&& a.test_lines == b.test_lines - held.test_lines + s.test_lines
        }),
    decreases m.len(),
{
    let p = table::put(m, name, s);
    if m.len() == 0 {
        assert(p.drop_last() =~= m);
    } else if m.last().0 == name {
        assert(p.drop_last() =~= m.drop_last());
    } else if text::text_le(m.last().0, name) {
        assert(p.drop_last() =~= m);
        table::lemma_absent_above(m, name);
    } else {
        assert(table::ascending(m.drop_last()));
        lemma_all_of_put(m.drop_last(), name, s);
        assert(p.drop_last() =~= table::put(m.drop_last(), name, s));
    }
}

proof fn lemma_sound(stats: &TextMap<LangStats>)
    ensures
        sound(stats@),
{
    table::lemma_values_are_views(stats);
    assert forall|i: int| 0 <= i < stats@.len() implies ({
        let s = (#[trigger] stats@[i]).1;
        s.source_files >= 0 && s.test_files >= 0 && s.source_lines >= 0 && s.test_lines >= 0
    }) by {
        assert(table::is_view::<LangStats>(stats@[i].1));
        let v = choose|v: LangStats| #[trigger] v@ == stats@[i].1;
        assert(v.source_files >= 0);
    }
}

proof fn lemma_within_all(
    stats: TextMap<LangStats>,
    path: Seq<char>,
    name: Seq<char>,
    code: int,
)
    requires
        table::ascending(stats@),
        code >= 0,
        counts_fit(recorded(stats@, path, name, code)),
    ensures
        ({
            let more = stats_of(stats@, name).with_file(is_test(path), code);
            more.source_files <= u64::MAX && more.test_files <= u64::MAX && more.source_lines
                <= u64::MAX && more.test_lines <= u64::MAX
        }),
{
    let m = stats@;
    lemma_sound(&stats);
    let more = stats_of(m, name).with_file(is_test(path), code);
    let goal = table::put(m, name, more);
    assert(stats_of(m, name).source_files >= 0 && stats_of(m, name).test_files >= 0 && stats_of(
        m,
        name,
    ).source_lines >= 0 && stats_of(m, name).test_lines >= 0) by {
        lemma_stats_sound(m, name);
    }
    assert(sound(goal)) by {
        assert forall|i: int| 0 <= i < goal.len() implies ({
            let s = (#[trigger] goal[i]).1;
            s.source_files >= 0 && s.test_files >= 0 && s.source_lines >= 0 && s.test_lines >= 0
        }) by {
            table::lemma_put_members(m, name, more, i);
            if goal[i] != (name, more) {
                let j = choose|j: int| 0 <= j < m.len() && m[j] == goal[i];
                assert(m[j].1.source_files >= 0);
            }
        }
    }
    table::put_ascends(m, name, more);
    table::lookup_of_put(m, name, more, name);
    table::lemma_lookup_some(goal, name);
    let ks = table::keys(goal);
    let i = choose|i: int| 0 <= i < ks.len() && ks[i] == name;
    table::lemma_lookup_at(goal, i);
    assert(goal[i].1 == more);
    assert(goal.take(i + 1).drop_last() =~= goal.take(i));
    lemma_all_grows(goal, i + 1);
    lemma_all_grows(goal, i);
}

proof fn lemma_stats_sound(m: Seq<(Seq<char>, LangStatsModel)>, name: Seq<char>)
    requires
        sound(m),
    ensures
        ({
            let s = stats_of(m, name);
            s.source_files >= 0 && s.test_files >= 0 && s.source_lines >= 0 && s.test_lines >= 0
        }),
    decreases m.len(),
{
    if m.len() > 0 {
        let init = m.drop_last();
        assert(sound(init)) by {
            assert forall|k: int| 0 <= k < init.len() implies ({
                let s = (#[trigger] init[k]).1;
                s.source_files >= 0 && s.test_files >= 0 && s.source_lines >= 0 && s.test_lines >= 0
            }) by {
                assert(init[k] == m[k]);
            }
        }
        lemma_stats_sound(init, name);
        assert(m[m.len() - 1].1.source_files >= 0);
    }
}

proof fn lemma_rows(m: Seq<(Seq<char>, LangStatsModel)>, x: LangRowModel)
    ensures
        rows_of(m).contains(x) <==> exists|k: int|
            0 <= k < m.len() && (#[trigger] m[k]).1.source_lines + (#[trigger] m[k]).1.test_lines > 0 && x == lang_row(m[k].0, m[k].1),
        rows_of(m).len() <= m.len(),
    decreases m.len(),
{
    if m.len() > 0 {
        let front = m.drop_last();
        let last = m.last();
        let was = rows_of(front);
        let is = rows_of(m);
        lemma_rows(front, x);
        assert(m[m.len() - 1] == last);
        assert(forall|k: int| 0 <= k < front.len() ==> front[k] == m[k]);
        if is.contains(x) {
            let i = choose|i: int| 0 <= i < is.len() && is[i] == x;
            if i < was.len() {
                assert(was[i] == x);
                let k = choose|k: int|
                    0 <= k < front.len() && (#[trigger] front[k]).1.source_lines + (#[trigger] front[k]).1.test_lines > 0 && x == lang_row(front[k].0, front[k].1);
                assert(m[k] == front[k]);
            }
        }
        if exists|k: int| 0 <= k < m.len() && (#[trigger] m[k]).1.source_lines + (#[trigger] m[k]).1.test_lines > 0 && x == lang_row(m[k].0, m[k].1) {
            let k = choose|k: int|
                0 <= k < m.len() && (#[trigger] m[k]).1.source_lines + (#[trigger] m[k]).1.test_lines > 0 && x == lang_row(m[k].0, m[k].1);
            if k < front.len() {
                assert(front[k] == m[k]);
                let i = choose|i: int| 0 <= i < was.len() && was[i] == x;
                assert(is[i] == x);
            } else {
                assert(is[is.len() - 1] == x);
            }
        }
    }
}

/// Every language with any code is shown with its source and its tests, and the
/// share of tests in the lines.
pub proof fn every_language_with_code_is_shown(m: Seq<(Seq<char>, LangStatsModel)>, k: int)
    requires
        0 <= k < m.len(),
        m[k].1.source_lines + m[k].1.test_lines > 0,
    ensures
        exists|i: int|
            0 <= i < test_ratio_report(m).entries.len() && ({
                let e = #[trigger] test_ratio_report(m).entries[i];
                let r = m[k];
                &&& e.key == r.0
                &&& e.values["source_files"@] == ValueModel::Count(r.1.source_files)
                &&& e.values["test_files"@] == ValueModel::Count(r.1.test_files)
                &&& e.values["source_lines"@] == ValueModel::Count(r.1.source_lines)
                &&& e.values["test_lines"@] == ValueModel::Count(r.1.test_lines)
                &&& e.values["test_pct"@] == ValueModel::Percent(r.1.test_lines, r.1.source_lines + r.1.test_lines)
            }),
{
    let s = rows_of(m);
    let x = lang_row(m[k].0, m[k].1);
    let ranked = order::sort_ranked::<LangRow>(rows_of(m));
    lemma_rows(m, x);
    order::sort_same_members::<LangRow>(rows_of(m));
    order::sort_keeps_elements::<LangRow>(rows_of(m));
    assert(s.contains(x));
    assert(ranked.contains(x));
    let i = choose|i: int| 0 <= i < ranked.len() && ranked[i] == x;
    assert(test_ratio_report(m).entries[i] == LangRow::entry(x));
    reveal_strlit("source_files");
    reveal_strlit("test_files");
    reveal_strlit("source_lines");
    reveal_strlit("test_lines");
    reveal_strlit("test_pct");
    assert("source_files"@.len() != "test_files"@.len());
    assert("source_files"@[7] != "source_lines"@[7]);
    assert("source_files"@.len() != "test_lines"@.len());
    assert("source_files"@.len() != "test_pct"@.len());
    assert("test_files"@.len() != "source_lines"@.len());
    assert("test_files"@[5] != "test_lines"@[5]);
    assert("test_files"@.len() != "test_pct"@.len());
    assert("source_lines"@.len() != "test_lines"@.len());
    assert("source_lines"@.len() != "test_pct"@.len());
    assert("test_lines"@.len() != "test_pct"@.len());
}

/// All rows but the last are languages with code.
pub proof fn languages_come_before_the_total(m: Seq<(Seq<char>, LangStatsModel)>, i: int)
    requires
        i + 1 < test_ratio_report(m).entries.len(),
        0 <= i < test_ratio_report(m).entries.len(),
    ensures
        exists|k: int|
            0 <= k < m.len() && ({
                let e = test_ratio_report(m).entries[i];
                let r = #[trigger] m[k];
                &&& r.1.source_lines + r.1.test_lines > 0
                &&& e.key == r.0
                &&& e.values["source_files"@] == ValueModel::Count(r.1.source_files)
                &&& e.values["test_files"@] == ValueModel::Count(r.1.test_files)
                &&& e.values["source_lines"@] == ValueModel::Count(r.1.source_lines)
                &&& e.values["test_lines"@] == ValueModel::Count(r.1.test_lines)
                &&& e.values["test_pct"@] == ValueModel::Percent(r.1.test_lines, r.1.source_lines + r.1.test_lines)
            }),
{
    let s = rows_of(m);
    let ranked = order::sort_ranked::<LangRow>(rows_of(m));
    let x = ranked[i];
    order::sort_same_members::<LangRow>(rows_of(m));
    order::sort_keeps_elements::<LangRow>(rows_of(m));
    assert(ranked.contains(x));
    assert(s.contains(x));
    lemma_rows(m, x);
    assert(test_ratio_report(m).entries[i] == LangRow::entry(x));
    let k = choose|k: int| 0 <= k < m.len() && (#[trigger] m[k]).1.source_lines + (#[trigger] m[k]).1.test_lines > 0 && x == lang_row(m[k].0, m[k].1);
    assert(m[k] == m[k]);
    reveal_strlit("source_files");
    reveal_strlit("test_files");
    reveal_strlit("source_lines");
    reveal_strlit("test_lines");
    reveal_strlit("test_pct");
    assert("source_files"@.len() != "test_files"@.len());
    assert("source_files"@[7] != "source_lines"@[7]);
    assert("source_files"@.len() != "test_lines"@.len());
    assert("source_files"@.len() != "test_pct"@.len());
    assert("test_files"@.len() != "source_lines"@.len());
    assert("test_files"@[5] != "test_lines"@[5]);
    assert("test_files"@.len() != "test_pct"@.len());
    assert("source_lines"@.len() != "test_lines"@.len());
    assert("source_lines"@.len() != "test_pct"@.len());
    assert("test_lines"@.len() != "test_pct"@.len());
}

/// The languages with the most lines stand first.
pub proof fn most_lines_first(m: Seq<(Seq<char>, LangStatsModel)>, i: int, j: int)
    requires
        j + 1 < test_ratio_report(m).entries.len(),
        0 <= i < j < test_ratio_report(m).entries.len(),
    ensures
        ({
            let a = test_ratio_report(m).entries[i].values;
            let b = test_ratio_report(m).entries[j].values;
            a["source_lines"@]->Count_0 + a["test_lines"@]->Count_0 >= b["source_lines"@]->Count_0
                + b["test_lines"@]->Count_0
        }),
{
    let ranked = order::sort_ranked::<LangRow>(rows_of(m));
    order::sort_orders::<LangRow>(rows_of(m));
    order::sort_keeps_elements::<LangRow>(rows_of(m));
    assert(test_ratio_report(m).entries[i] == LangRow::entry(ranked[i]));
    assert(test_ratio_report(m).entries[j] == LangRow::entry(ranked[j]));
    order::sort_same_members::<LangRow>(rows_of(m));
    assert(ranked.contains(ranked[i]) && ranked.contains(ranked[j]));
    lemma_rows(m, ranked[i]);
    lemma_rows(m, ranked[j]);
    assert(LangRow::le(ranked[i], ranked[j]));
    reveal_strlit("source_files");
    reveal_strlit("test_files");
    reveal_strlit("source_lines");
    reveal_strlit("test_lines");
    reveal_strlit("test_pct");
    assert("source_files"@.len() != "test_files"@.len());
    assert("source_files"@[7] != "source_lines"@[7]);
    assert("source_files"@.len() != "test_lines"@.len());
    assert("source_files"@.len() != "test_pct"@.len());
    assert("test_files"@.len() != "source_lines"@.len());
    assert("test_files"@[5] != "test_lines"@[5]);
    assert("test_files"@.len() != "test_pct"@.len());
    assert("source_lines"@.len() != "test_lines"@.len());
    assert("source_lines"@.len() != "test_pct"@.len());
    assert("test_lines"@.len() != "test_pct"@.len());
}

/// The last row is the total of all languages.
pub proof fn the_total_stands_last(m: Seq<(Seq<char>, LangStatsModel)>)
    ensures
        ({
            let r = test_ratio_report(m).entries;
            let e = r[r.len() - 1];
            let all = all_of(m);
            &&& r.len() == rows_of(m).len() + 1
            &&& e.key == "(total)"@
            &&& e.values["source_files"@] == ValueModel::Count(all.source_files)
            &&& e.values["test_files"@] == ValueModel::Count(all.test_files)
            &&& e.values["source_lines"@] == ValueModel::Count(all.source_lines)
            &&& e.values["test_lines"@] == ValueModel::Count(all.test_lines)
            &&& e.values["test_pct"@] == ValueModel::Percent(
                all.test_lines,
                all.source_lines + all.test_lines,
            )
        }),
{
    order::sort_keeps_elements::<LangRow>(rows_of(m));
    reveal_strlit("source_files");
    reveal_strlit("test_files");
    reveal_strlit("source_lines");
    reveal_strlit("test_lines");
    reveal_strlit("test_pct");
    assert("source_files"@.len() != "test_files"@.len());
    assert("source_files"@[7] != "source_lines"@[7]);
    assert("source_files"@.len() != "test_lines"@.len());
    assert("source_files"@.len() != "test_pct"@.len());
    assert("test_files"@.len() != "source_lines"@.len());
    assert("test_files"@[5] != "test_lines"@[5]);
    assert("test_files"@.len() != "test_pct"@.len());
    assert("source_lines"@.len() != "test_lines"@.len());
    assert("source_lines"@.len() != "test_pct"@.len());
    assert("test_lines"@.len() != "test_pct"@.len());
}

/// A measured file adds itself and its lines of code to its language: to the
/// tests where it is one, else to the source. Other languages stay as they were.
pub proof fn a_file_is_source_or_test(
    m: Seq<(Seq<char>, LangStatsModel)>,
    path: Seq<char>,
    data: Seq<u8>,
    q: Seq<char>,
)
    requires
        table::ascending(m),
    ensures
        match measured(path, data) {
            None => inspected(m, path, data) == m,
            Some((name, code)) => {
                let was = stats_of(m, q);
                let is = stats_of(inspected(m, path, data), q);
                &&& q != name ==> is == was
                &&& q == name && is_test(path) ==> is.test_files == was.test_files + 1
                    && is.test_lines == was.test_lines + code && is.source_files == was.source_files
                    && is.source_lines == was.source_lines
                &&& q == name && !is_test(path) ==> is.source_files == was.source_files + 1
                    && is.source_lines == was.source_lines + code && is.test_files == was.test_files
                    && is.test_lines == was.test_lines
            },
        },
{
    match measured(path, data) {
        None => {},
        Some((name, code)) => {
            table::lookup_of_put(m, name, stats_of(m, name).with_file(is_test(path), code), q);
        },
    }
}

/// Only source files of up to two mebibytes of readable text in a known language
/// are measured, by their lines of code.
pub proof fn only_source_text_is_measured(path: Seq<char>, data: Seq<u8>)
    ensures
        ({
            let content = blob::readable(data, 2_097_152);
            let lang = detection::detected(path, content);
            &&& measured(path, data) is Some <==> source_filter::is_source(path) && content is Some
                && lang is Some
            &&& measured(path, data) matches Some((name, code)) ==> name == lang->0.name@ && code
                == fold::count(
                line_classifier::line_kinds(content->0, lang),
                |k: LineType| k == LineType::Code,
            )
        }),
{
    assert((|k: LineType| k == LineType::Code) =~= line_classifier::is_kind(LineType::Code));
}

/// A file is a test where it lies in a directory of tests or is named like one:
/// in lower case for the languages that write so, with capitals for the others.
pub proof fn tests_are_told_by_their_paths(path: Seq<char>)
    ensures
        ({
            let p = text::lower_ascii(path);
            let lower = text::after_last(p, '/');
            let name = text::after_last(path, '/');
            is_test(path) <==> {
                ||| "test/"@.is_prefix_of(p)
                ||| text::contains(p, "/test/"@)
                ||| "tests/"@.is_prefix_of(p)
                ||| text::contains(p, "/tests/"@)
                ||| "__tests__/"@.is_prefix_of(p)
                ||| text::contains(p, "/__tests__/"@)
                ||| "spec/"@.is_prefix_of(p)
                ||| text::contains(p, "/spec/"@)
                ||| "_test.go"@.is_suffix_of(lower)
                ||| "_test.py"@.is_suffix_of(lower)
                ||| "_test.rb"@.is_suffix_of(lower)
                ||| "_spec.rb"@.is_suffix_of(lower)
                ||| "test_"@.is_prefix_of(lower) && ".py"@.is_suffix_of(lower)
                ||| text::contains(lower, ".test."@)
                ||| text::contains(lower, ".spec."@)
                ||| "Test.java"@.is_suffix_of(name)
                ||| "Tests.java"@.is_suffix_of(name)
                ||| "Spec.java"@.is_suffix_of(name)
                ||| "Test.kt"@.is_suffix_of(name)
                ||| "Tests.kt"@.is_suffix_of(name)
                ||| "Test.cs"@.is_suffix_of(name)
                ||| "Tests.cs"@.is_suffix_of(name)
            }
        }),
{
}

/// The report has these columns, in this order.
pub proof fn the_columns_are_these(m: Seq<(Seq<char>, LangStatsModel)>)
    ensures
        test_ratio_report(m).name == "test_ratio"@,
        test_ratio_report(m).columns.len() == 5,
        test_ratio_report(m).columns[0].value == "source_files"@,
        test_ratio_report(m).columns[1].value == "test_files"@,
        test_ratio_report(m).columns[2].value == "source_lines"@,
        test_ratio_report(m).columns[3].value == "test_lines"@,
        test_ratio_report(m).columns[4].value == "test_pct"@,
{
}

/// The limits that hold here.
pub proof fn the_limits_are_these()
    ensures
        MAX_BLOB_BYTES == 2_097_152,
{
}

} // verus!
