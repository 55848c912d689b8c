//! Source files with too many lines of code.

use vstd::prelude::*;

use crate::analysis::line_classifier;
use crate::analysis::line_classifier::{count_lines, LineType};
use crate::blob;
use crate::double;
use crate::double::Double;
use crate::fold;
use crate::langs::detection;
use crate::langs::detection::detect_language_info;
use crate::order;
use crate::order::Ranked;
use crate::report;
use crate::text;
use crate::types;
use crate::types::{EntryModel, MetricEntry, MetricResult, MetricValue, ResultModel, ValueModel, Values};

verus! {

/// Larger files are not read.
pub const MAX_BLOB_BYTES: u64 = 20_971_520;

/// Files with less code are left out.
pub const MIN_CODE_LINES: u64 = 500;

pub const MAX_ENTRIES: usize = 100;

/// Languages that code is written in by hand.
pub open spec fn source_languages() -> Seq<Seq<char>> {
    seq![
        "Rust"@,
        "Python"@,
        "Java"@,
        "JavaScript"@,
        "TypeScript"@,
        "Go"@,
        "Kotlin"@,
        "Dart"@,
        "C"@,
        "C++"@,
        "C#"@,
        "PHP"@,
        "Ruby"@,
        "Scala"@,
        "Swift"@,
        "Bash"@,
        "Shell"@,
        "Objective-C"@,
    ]
}

pub fn is_source_language(name: &str) -> (r: bool)
    ensures
        r == source_languages().contains(name@),
{
    let known = [
        "Rust",
        "Python",
        "Java",
        "JavaScript",
        "TypeScript",
        "Go",
        "Kotlin",
        "Dart",
        "C",
        "C++",
        "C#",
        "PHP",
        "Ruby",
        "Scala",
        "Swift",
        "Bash",
        "Shell",
        "Objective-C",
    ];
    proof {
        assert(text::str_texts(known@) =~= source_languages());
    }
    text::is_one_of(name, &known)
}

/// What the names of source files end in.
pub open spec fn source_extensions() -> Seq<Seq<char>> {
    seq![
        "rs"@,
        "py"@,
        "pyi"@,
        "ts"@,
        "tsx"@,
        "js"@,
        "jsx"@,
        "mjs"@,
        "cjs"@,
        "java"@,
        "go"@,
        "kt"@,
        "kts"@,
        "cs"@,
        "cpp"@,
        "cc"@,
        "cxx"@,
        "hpp"@,
        "h"@,
        "c"@,
        "rb"@,
        "php"@,
        "scala"@,
        "sc"@,
        "swift"@,
        "dart"@,
        "sh"@,
        "bash"@,
        "m"@,
        "mm"@,
    ]
}

/// Judges by what follows the last point of the path. A path without a point is
/// that of no source file.
pub fn is_source_path(path: &str) -> (r: bool)
    ensures
        r == (path@.contains('.') && source_extensions().contains(text::after_last(path@, '.'))),
{
    let ext = match text::extension_of(path) {
        Some(e) => e,
        None => {
            return false;
        },
    };
    let known = [
        "rs",
        "py",
        "pyi",
        "ts",
        "tsx",
        "js",
        "jsx",
        "mjs",
        "cjs",
        "java",
        "go",
        "kt",
        "kts",
        "cs",
        "cpp",
        "cc",
        "cxx",
        "hpp",
        "h",
        "c",
        "rb",
        "php",
        "scala",
        "sc",
        "swift",
        "dart",
        "sh",
        "bash",
        "m",
        "mm",
    ];
    proof {
        assert(text::str_texts(known@) =~= source_extensions());
    }
    text::is_one_of(ext.as_str(), &known)
}

pub open spec fn advice(code_lines: int) -> Seq<char> {
    if code_lines < 1500 {
        "Sizeable — monitor"@
    } else if code_lines < 5000 {
        "Very large — consider splitting"@
    } else {
        "Enormous — likely generated or a god module"@
    }
}

pub fn classify(code_lines: u64) -> (r: &'static str)
    ensures
        r@ == advice(code_lines as int),
{
    if code_lines < 1500 {
        "Sizeable — monitor"
    } else if code_lines < 5000 {
        "Very large — consider splitting"
    } else {
        "Enormous — likely generated or a god module"
    }
}

pub open spec fn readable_size(n: int) -> Seq<char> {
    if n >= 1_048_576 {
        double::two_places(double::share(n, 1_048_576)) + " MB"@
    } else if n >= 1024 {
        double::one_place(double::share(n, 1024)) + " KB"@
    } else {
        text::decimal(n as nat) + " B"@
    }
}

pub fn human_size(n: u64) -> (r: String)
    ensures
        r@ == readable_size(n as int),
{
    if n >= 1_048_576 {
        text::cat(Double::share(n, 1_048_576).with_two_places().as_str(), " MB")
    } else if n >= 1024 {
        text::cat(Double::share(n, 1024).with_one_place().as_str(), " KB")
    } else {
        text::cat(text::decimal_text(n).as_str(), " B")
    }
}

/// A source file and its lines by kind.
#[derive(Debug)]
pub struct SourceFile {
    pub path: String,
    pub bytes: u64,
    pub code: u64,
    pub comment: u64,
    pub blank: u64,
    pub language: String,
}

pub struct SourceFileModel {
    pub path: Seq<char>,
    pub bytes: int,
    pub code: int,
    pub comment: int,
    pub blank: int,
    pub language: Seq<char>,
}

impl View for SourceFile {
    type V = SourceFileModel;

    open spec fn view(&self) -> SourceFileModel {
        SourceFileModel {
            path: self.path@,
            bytes: self.bytes as int,
            code: self.code as int,
            comment: self.comment as int,
            blank: self.blank as int,
            language: self.language@,
        }
    }
}

impl SourceFileModel {
    pub open spec fn total(self) -> int {
        self.code + self.comment + self.blank
    }
}

/// The most code first.
impl Ranked for SourceFile {
    open spec fn le(a: SourceFileModel, b: SourceFileModel) -> bool {
        a.code >= b.code
    }

    proof fn le_total(a: SourceFileModel, b: SourceFileModel) {
    }

    proof fn le_transitive(a: SourceFileModel, b: SourceFileModel, c: SourceFileModel) {
    }

    fn not_after(&self, other: &SourceFile) -> (r: bool) {
        self.code >= other.code
    }
}

pub open spec fn source_entry(f: SourceFileModel) -> EntryModel {
    EntryModel {
        key: f.path,
        values: Map::empty().insert("size_bytes"@, ValueModel::Count(f.bytes)).insert(
            "size_human"@,
            ValueModel::Text(readable_size(f.bytes)),
        ).insert("code_lines"@, ValueModel::Count(f.code)).insert(
            "comment_lines"@,
            ValueModel::Count(f.comment),
        ).insert("blank_lines"@, ValueModel::Count(f.blank)).insert(
            "total_lines"@,
            ValueModel::Count(f.total()),
        ).insert("language"@, ValueModel::Text(f.language)).insert(
            "recommendation"@,
            ValueModel::Text(advice(f.code)),
        ),
    }
}

fn to_source_entry(f: SourceFile) -> (r: MetricEntry)
    requires
        f@.total() <= u64::MAX,
    ensures
        r@ == source_entry(f@),
{
    let total: u64 = f.code + f.comment + f.blank;
    let mut values = Values::new();
    values.insert("size_bytes", MetricValue::Count(f.bytes));
    values.insert("size_human", MetricValue::Text(human_size(f.bytes)));
    values.insert("code_lines", MetricValue::Count(f.code));
    values.insert("comment_lines", MetricValue::Count(f.comment));
    values.insert("blank_lines", MetricValue::Count(f.blank));
    values.insert("total_lines", MetricValue::Count(total));
    values.insert("language", MetricValue::Text(f.language));
    values.insert("recommendation", MetricValue::Text(text::copy_text(classify(f.code))));
    MetricEntry { key: f.path, values }
}

/// The files with enough code, in their order.
pub open spec fn sizeable(s: Seq<SourceFileModel>) -> Seq<SourceFileModel>
    decreases s.len(),
{
    if s.len() == 0 {
        Seq::empty()
    } else if s.last().code >= MIN_CODE_LINES {
        sizeable(s.drop_last()).push(s.last())
    } else {
        sizeable(s.drop_last())
    }
}

/// No file has more lines than can be counted.
pub open spec fn lines_fit(s: Seq<SourceFileModel>) -> bool {
    forall|i: int| 0 <= i < s.len() ==> (#[trigger] s[i]).total() <= u64::MAX
}

pub open spec fn large_columns() -> Seq<Seq<char>> {
    seq![
        "size_bytes"@,
        "size_human"@,
        "code_lines"@,
        "comment_lines"@,
        "blank_lines"@,
        "total_lines"@,
        "language"@,
        "recommendation"@,
    ]
}

pub open spec fn large_report(s: Seq<SourceFileModel>) -> ResultModel {
    types::plain_report_of(
        "large_sources"@,
        "Large Source Files"@,
        "Source files (handwritten code, not markup or data) sorted by executable code lines. Anything over 1500 code lines is a split candidate — it's hard to navigate, review, and test. An enormous file (5k+ code lines) is usually either auto-generated (consider moving to a build step instead of committing) or a 'god module' that has accreted too many responsibilities."@,
        large_columns(),
        report::top_ranked::<SourceFile>(sizeable(s), MAX_ENTRIES as int).map_values(
            |f: SourceFileModel| source_entry(f),
        ),
    )
}

/// What is recorded of a file: nothing, unless it is readable text in a
/// language that code is written in.
pub open spec fn measured(path: Seq<char>, data: Seq<u8>) -> Option<SourceFileModel> {
    match blob::readable(data, MAX_BLOB_BYTES as int) {
        None => None,
        Some(content) => match detection::detected(path, Some(content)) {
            None => None,
            Some(lang) => if source_languages().contains(lang.name@) {
                let kinds = line_classifier::line_kinds(content, Some(lang));
                Some(
                    SourceFileModel {
                        path,
                        bytes: data.len() as int,
                        code: fold::count(kinds, line_classifier::is_kind(LineType::Code)) as int,
                        comment: fold::count(
                            kinds,
                            line_classifier::is_kind(LineType::Comment),
                        ) as int,
                        blank: fold::count(kinds, line_classifier::is_kind(LineType::Blank)) as int,
                        language: lang.name@,
                    },
                )
            } else {
                None
            },
        },
    }
}

pub fn measure(path: &str, data: &[u8]) -> (r: Option<SourceFile>)
    ensures
        match r {
            Some(f) => measured(path@, data@) == Some(f@) && f@.total() <= u64::MAX,
            None => measured(path@, data@) is None,
        },
{
    match blob::readable_text(data, MAX_BLOB_BYTES) {
        None => None,
        Some(content) => match detect_language_info(path, Some(content)) {
            None => None,
            Some(lang) => {
                if !is_source_language(lang.name) {
                    return None;
                }
                let counts = count_lines(content, Some(&lang));
                Some(
                    SourceFile {
                        path: text::copy_text(path),
                        bytes: data.len() as u64,
                        code: counts.code,
                        comment: counts.comment,
                        blank: counts.blank,
                        language: text::copy_text(lang.name),
                    },
                )
            },
        },
    }
}

#[derive(Debug)]
pub struct LargeSourcesCollector {
    pub files: Vec<SourceFile>,
}

impl Default for LargeSourcesCollector {
    fn default() -> (r: Self)
        ensures
            r.files@.len() == 0,
    {
        LargeSourcesCollector::new()
    }
}

impl LargeSourcesCollector {
    pub fn new() -> (r: Self)
        ensures
            r.files@.len() == 0,
    {
        LargeSourcesCollector { files: Vec::new() }
    }

    pub fn name(&self) -> (r: &str)
        ensures
            r@ == "large_sources"@,
    {
        "large_sources"
    }

    /// Records a file of the tree.
    pub fn inspect_blob(&mut self, path: &str, data: &[u8])
        ensures
            order::models(final(self).files@) == (match measured(path@, data@) {
                Some(f) => order::models(old(self).files@).push(f),
                None => order::models(old(self).files@),
            }),
            lines_fit(order::models(old(self).files@)) ==> lines_fit(
                order::models(final(self).files@),
            ),
    {
        let ghost before = order::models(self.files@);
        if let Some(f) = measure(path, data) {
            self.files.push(f);
            proof {
                assert(order::models(self.files@) =~= before.push(f@));
            }
        }
    }

    /// Reports the recorded files and forgets them.
    pub fn finalize(&mut self) -> (r: MetricResult)
        requires
            lines_fit(order::models(old(self).files@)),
        ensures
            r@ == large_report(order::models(old(self).files@)),
            final(self).files@.len() == 0,
    {
        let ghost all = order::models(self.files@);
        let mut files: Vec<SourceFile> = Vec::new();
        std::mem::swap(&mut files, &mut self.files);
        let mut kept: Vec<SourceFile> = Vec::new();
        proof {
            assert(all.take(0).len() == 0);
            assert(order::models(kept@) =~= Seq::empty());
        }
        for f in it: files
            invariant
                order::models(it.seq()) == all,
                lines_fit(all),
                order::models(kept@) == sizeable(all.take(it.index() as int)),
                lines_fit(order::models(kept@)),
        {
            let ghost before = order::models(kept@);
            let ghost i = it.index() as int;
            proof {
                assert(order::models(it.seq())[i] == f@);
                assert(all.take(i + 1).drop_last() =~= all.take(i));
                assert(all.take(i + 1).last() == f@);
            }
            if f.code >= MIN_CODE_LINES {
                kept.push(f);
                proof {
                    assert(order::models(kept@) =~= before.push(f@));
                }
            }
        }
        proof {
            assert(all.take(all.len() as int) =~= all);
        }
        let ghost chosen = order::models(kept@);
        let sorted = order::sort_rows(kept);
        proof {
            order::models_of_first_n(sorted@, MAX_ENTRIES as int);
            order::sort_same_members::<SourceFile>(chosen);
        }
        let ghost ranked = order::models(sorted@);
        let top = order::keep_first(sorted, MAX_ENTRIES);
        let ghost shown = order::models(top@);
        let mut entries: Vec<MetricEntry> = Vec::new();
        for f in it: top
            invariant
                order::models(it.seq()) == shown,
                shown == order::first_n(ranked, MAX_ENTRIES as int),
                ranked == order::sort_ranked::<SourceFile>(chosen),
                forall|x: SourceFileModel| #[trigger]
                    ranked.contains(x) <==> chosen.contains(x),
                lines_fit(chosen),
                entries@.len() == it.index(),
                forall|k: int|
                    0 <= k < entries@.len() ==> (#[trigger] entries@[k])@ == source_entry(shown[k]),
        {
            proof {
                let i = it.index() as int;
                assert(shown.len() == it.seq().len());
                assert(shown[i] == f@);
                assert(shown[i] == ranked[i]);
                assert(ranked.contains(f@));
                let j = choose|j: int| 0 <= j < chosen.len() && chosen[j] == f@;
                assert(chosen[j].total() <= u64::MAX);
            }
            entries.push(to_source_entry(f));
        }
        let columns = [
            "size_bytes",
            "size_human",
            "code_lines",
            "comment_lines",
            "blank_lines",
            "total_lines",
            "language",
            "recommendation",
        ];
        proof {
            assert(types::str_views(columns@) =~= large_columns());
        }
        proof {
            assert(types::entry_models(entries@) =~= shown.map_values(
                |f: SourceFileModel| source_entry(f),
            ));
        }
        MetricResult::plain(
            "large_sources",
            "Large Source Files",
            "Source files (handwritten code, not markup or data) sorted by executable code lines. Anything over 1500 code lines is a split candidate — it's hard to navigate, review, and test. An enormous file (5k+ code lines) is usually either auto-generated (consider moving to a build step instead of committing) or a 'god module' that has accreted too many responsibilities.",
            &columns,
            entries,
        )
    }
}

proof fn lemma_sizeable_rows(rows: Seq<SourceFileModel>, x: SourceFileModel)
    ensures
        sizeable(rows).contains(x) <==> exists|k: int|
            0 <= k < rows.len() && (#[trigger] rows[k]).code >= 500 && x == rows[k],
        sizeable(rows).len() <= rows.len(),
    decreases rows.len(),
{
    if rows.len() > 0 {
        let front = rows.drop_last();
        let last = rows.last();
        let was = sizeable(front);
        let is = sizeable(rows);
        lemma_sizeable_rows(front, x);
        assert(rows[rows.len() - 1] == last);
        assert(forall|k: int| 0 <= k < front.len() ==> front[k] == rows[k]);
        if is.contains(x) {
            let i = choose|i: int| 0 <= i < is.len() && is[i] == x;
            if i < was.len() {
                assert(was[i] == x);
                let k = choose|k: int|
                    0 <= k < front.len() && (#[trigger] front[k]).code >= 500 && x == front[k];
                assert(rows[k] == front[k]);
            }
        }
        if exists|k: int| 0 <= k < rows.len() && (#[trigger] rows[k]).code >= 500 && x == rows[k] {
            let k = choose|k: int|
                0 <= k < rows.len() && (#[trigger] rows[k]).code >= 500 && x == rows[k];
            if k < front.len() {
                assert(front[k] == rows[k]);
                let i = choose|i: int| 0 <= i < was.len() && was[i] == x;
                assert(is[i] == x);
            } else {
                assert(is[is.len() - 1] == x);
            }
        }
    }
}

/// Every file with five hundred lines of code is shown, unless there are more
/// files than the report holds.
pub proof fn every_large_source_is_shown(rows: Seq<SourceFileModel>, k: int)
    requires
        0 <= k < rows.len(),
        rows[k].code >= 500,
        rows.len() <= 100,
    ensures
        exists|i: int|
            0 <= i < large_report(rows).entries.len() && ({
                let e = #[trigger] large_report(rows).entries[i];
                let r = rows[k];
                &&& e.key == r.path
                &&& e.values["size_bytes"@] == ValueModel::Count(r.bytes)
                &&& e.values["size_human"@] == ValueModel::Text(readable_size(r.bytes))
                &&& e.values["code_lines"@] == ValueModel::Count(r.code)
                &&& e.values["comment_lines"@] == ValueModel::Count(r.comment)
                &&& e.values["blank_lines"@] == ValueModel::Count(r.blank)
                &&& e.values["total_lines"@] == ValueModel::Count(r.code + r.comment + r.blank)
                &&& e.values["language"@] == ValueModel::Text(r.language)
                &&& e.values["recommendation"@] == ValueModel::Text(advice(r.code))
            }),
{
    let s = sizeable(rows);
    let x = rows[k];
    let ranked = report::top_ranked::<SourceFile>(sizeable(rows), 100);
    lemma_sizeable_rows(rows, x);
    report::top_ranked_members::<SourceFile>(sizeable(rows), 100);
    report::top_ranked_len::<SourceFile>(sizeable(rows), 100);
    assert(s.contains(x));
    assert(ranked.contains(x));
    let i = choose|i: int| 0 <= i < ranked.len() && ranked[i] == x;
    assert(large_report(rows).entries[i] == source_entry(x));
    reveal_strlit("size_bytes");
    reveal_strlit("size_human");
    reveal_strlit("code_lines");
    reveal_strlit("comment_lines");
    reveal_strlit("blank_lines");
    reveal_strlit("total_lines");
    reveal_strlit("language");
    reveal_strlit("recommendation");
    assert("size_bytes"@[5] != "size_human"@[5]);
    assert("size_bytes"@[0] != "code_lines"@[0]);
    assert("size_bytes"@.len() != "comment_lines"@.len());
    assert("size_bytes"@.len() != "blank_lines"@.len());
    assert("size_bytes"@.len() != "total_lines"@.len());
    assert("size_bytes"@.len() != "language"@.len());
    assert("size_bytes"@.len() != "recommendation"@.len());
    assert("size_human"@[0] != "code_lines"@[0]);
    assert("size_human"@.len() != "comment_lines"@.len());
    assert("size_human"@.len() != "blank_lines"@.len());
    assert("size_human"@.len() != "total_lines"@.len());
    assert("size_human"@.len() != "language"@.len());
    assert("size_human"@.len() != "recommendation"@.len());
    assert("code_lines"@.len() != "comment_lines"@.len());
    assert("code_lines"@.len() != "blank_lines"@.len());
    assert("code_lines"@.len() != "total_lines"@.len());
    assert("code_lines"@.len() != "language"@.len());
    assert("code_lines"@.len() != "recommendation"@.len());
    assert("comment_lines"@.len() != "blank_lines"@.len());
    assert("comment_lines"@.len() != "total_lines"@.len());
    assert("comment_lines"@.len() != "language"@.len());
    assert("comment_lines"@.len() != "recommendation"@.len());
    assert("blank_lines"@[0] != "total_lines"@[0]);
    assert("blank_lines"@.len() != "language"@.len());
    assert("blank_lines"@.len() != "recommendation"@.len());
    assert("total_lines"@.len() != "language"@.len());
    assert("total_lines"@.len() != "recommendation"@.len());
    assert("language"@.len() != "recommendation"@.len());
}

/// Whatever is shown has five hundred lines of code, and there are at most a
/// hundred files.
pub proof fn only_large_sources_are_shown(rows: Seq<SourceFileModel>, i: int)
    requires
        0 <= i < large_report(rows).entries.len(),
    ensures
        large_report(rows).entries.len() <= 100,
        exists|k: int|
            0 <= k < rows.len() && ({
                let e = large_report(rows).entries[i];
                let r = #[trigger] rows[k];
                &&& r.code >= 500
                &&& e.key == r.path
                &&& e.values["size_bytes"@] == ValueModel::Count(r.bytes)
                &&& e.values["size_human"@] == ValueModel::Text(readable_size(r.bytes))
                &&& e.values["code_lines"@] == ValueModel::Count(r.code)
                &&& e.values["comment_lines"@] == ValueModel::Count(r.comment)
                &&& e.values["blank_lines"@] == ValueModel::Count(r.blank)
                &&& e.values["total_lines"@] == ValueModel::Count(r.code + r.comment + r.blank)
                &&& e.values["language"@] == ValueModel::Text(r.language)
                &&& e.values["recommendation"@] == ValueModel::Text(advice(r.code))
            }),
{
    let s = sizeable(rows);
    let ranked = report::top_ranked::<SourceFile>(sizeable(rows), 100);
    let x = ranked[i];
    report::top_ranked_members::<SourceFile>(sizeable(rows), 100);
    report::top_ranked_len::<SourceFile>(sizeable(rows), 100);
    assert(ranked.contains(x));
    assert(s.contains(x));
    lemma_sizeable_rows(rows, x);
    assert(large_report(rows).entries[i] == source_entry(x));
    let k = choose|k: int| 0 <= k < rows.len() && (#[trigger] rows[k]).code >= 500 && x == rows[k];
    assert(rows[k] == rows[k]);
    reveal_strlit("size_bytes");
    reveal_strlit("size_human");
    reveal_strlit("code_lines");
    reveal_strlit("comment_lines");
    reveal_strlit("blank_lines");
    reveal_strlit("total_lines");
    reveal_strlit("language");
    reveal_strlit("recommendation");
    assert("size_bytes"@[5] != "size_human"@[5]);
    assert("size_bytes"@[0] != "code_lines"@[0]);
    assert("size_bytes"@.len() != "comment_lines"@.len());
    assert("size_bytes"@.len() != "blank_lines"@.len());
    assert("size_bytes"@.len() != "total_lines"@.len());
    assert("size_bytes"@.len() != "language"@.len());
    assert("size_bytes"@.len() != "recommendation"@.len());
    assert("size_human"@[0] != "code_lines"@[0]);
    assert("size_human"@.len() != "comment_lines"@.len());
    assert("size_human"@.len() != "blank_lines"@.len());
    assert("size_human"@.len() != "total_lines"@.len());
    assert("size_human"@.len() != "language"@.len());
    assert("size_human"@.len() != "recommendation"@.len());
    assert("code_lines"@.len() != "comment_lines"@.len());
    assert("code_lines"@.len() != "blank_lines"@.len());
    assert("code_lines"@.len() != "total_lines"@.len());
    assert("code_lines"@.len() != "language"@.len());
    assert("code_lines"@.len() != "recommendation"@.len());
    assert("comment_lines"@.len() != "blank_lines"@.len());
    assert("comment_lines"@.len() != "total_lines"@.len());
    assert("comment_lines"@.len() != "language"@.len());
    assert("comment_lines"@.len() != "recommendation"@.len());
    assert("blank_lines"@[0] != "total_lines"@[0]);
    assert("blank_lines"@.len() != "language"@.len());
    assert("blank_lines"@.len() != "recommendation"@.len());
    assert("total_lines"@.len() != "language"@.len());
    assert("total_lines"@.len() != "recommendation"@.len());
    assert("language"@.len() != "recommendation"@.len());
}

/// The files with the most code stand first.
pub proof fn most_code_lines_first(rows: Seq<SourceFileModel>, i: int, j: int)
    requires
        0 <= i < j < large_report(rows).entries.len(),
    ensures
        ({
            let a = large_report(rows).entries[i].values;
            let b = large_report(rows).entries[j].values;
            a["code_lines"@]->Count_0 >= b["code_lines"@]->Count_0
        }),
{
    let ranked = report::top_ranked::<SourceFile>(sizeable(rows), 100);
    report::top_ranked_leads::<SourceFile>(sizeable(rows), 100);
    assert(large_report(rows).entries[i] == source_entry(ranked[i]));
    assert(large_report(rows).entries[j] == source_entry(ranked[j]));
    assert(SourceFile::le(ranked[i], ranked[j]));
    reveal_strlit("size_bytes");
    reveal_strlit("size_human");
    reveal_strlit("code_lines");
    reveal_strlit("comment_lines");
    reveal_strlit("blank_lines");
    reveal_strlit("total_lines");
    reveal_strlit("language");
    reveal_strlit("recommendation");
    assert("size_bytes"@[5] != "size_human"@[5]);
    assert("size_bytes"@[0] != "code_lines"@[0]);
    assert("size_bytes"@.len() != "comment_lines"@.len());
    assert("size_bytes"@.len() != "blank_lines"@.len());
    assert("size_bytes"@.len() != "total_lines"@.len());
    assert("size_bytes"@.len() != "language"@.len());
    assert("size_bytes"@.len() != "recommendation"@.len());
    assert("size_human"@[0] != "code_lines"@[0]);
    assert("size_human"@.len() != "comment_lines"@.len());
    assert("size_human"@.len() != "blank_lines"@.len());
    assert("size_human"@.len() != "total_lines"@.len());
    assert("size_human"@.len() != "language"@.len());
    assert("size_human"@.len() != "recommendation"@.len());
    assert("code_lines"@.len() != "comment_lines"@.len());
    assert("code_lines"@.len() != "blank_lines"@.len());
    assert("code_lines"@.len() != "total_lines"@.len());
    assert("code_lines"@.len() != "language"@.len());
    assert("code_lines"@.len() != "recommendation"@.len());
    assert("comment_lines"@.len() != "blank_lines"@.len());
    assert("comment_lines"@.len() != "total_lines"@.len());
    assert("comment_lines"@.len() != "language"@.len());
    assert("comment_lines"@.len() != "recommendation"@.len());
    assert("blank_lines"@[0] != "total_lines"@[0]);
    assert("blank_lines"@.len() != "language"@.len());
    assert("blank_lines"@.len() != "recommendation"@.len());
    assert("total_lines"@.len() != "language"@.len());
    assert("total_lines"@.len() != "recommendation"@.len());
    assert("language"@.len() != "recommendation"@.len());
}

/// The advice goes by the lines of code alone.
pub proof fn lines_decide_the_advice(n: int)
    ensures
        n < 1500 ==> advice(n) == "Sizeable — monitor"@,
        1500 <= n < 5000 ==> advice(n) == "Very large — consider splitting"@,
        5000 <= n ==> advice(n) == "Enormous — likely generated or a god module"@,
{
}

/// Sizes are shown in the largest unit of which there is a whole one.
pub proof fn sizes_are_shown_in_fitting_units(n: int)
    requires
        n >= 0,
    ensures
        n < 1024 ==> readable_size(n) == text::decimal(n as nat) + " B"@,
        1024 <= n < 1_048_576 ==> readable_size(n) == double::one_place(double::share(n, 1024))
            + " KB"@,
        1_048_576 <= n ==> readable_size(n) == double::two_places(double::share(n, 1_048_576))
            + " MB"@,
{
}

/// A file is measured where it is readable text in a language that code is
/// written in: its bytes, and each of its lines as what it is.
pub proof fn written_code_is_measured(path: Seq<char>, data: Seq<u8>)
    ensures
        ({
            let content = blob::readable(data, 20_971_520);
            let lang = detection::detected(path, content);
            &&& measured(path, data) is Some <==> content is Some && lang is Some
                && source_languages().contains(lang->0.name@)
            &&& measured(path, data) matches Some(f) ==> {
                let kinds = line_classifier::line_kinds(content->0, lang);
                &&& f.path == path
                &&& f.bytes == data.len()
                &&& f.language == lang->0.name@
                &&& f.code == fold::count(kinds, |k: LineType| k == LineType::Code)
                &&& f.comment == fold::count(kinds, |k: LineType| k == LineType::Comment)
                &&& f.blank == fold::count(kinds, |k: LineType| k == LineType::Blank)
            }
        }),
{
    assert((|k: LineType| k == LineType::Code) =~= line_classifier::is_kind(LineType::Code));
    assert((|k: LineType| k == LineType::Comment) =~= line_classifier::is_kind(LineType::Comment));
    assert((|k: LineType| k == LineType::Blank) =~= line_classifier::is_kind(LineType::Blank));
}

/// The report has these columns, in this order.
pub proof fn the_columns_are_these(s: Seq<SourceFileModel>)
    ensures
        large_report(s).name == "large_sources"@,
        large_report(s).columns.len() == 8,
        large_report(s).columns[0].value == "size_bytes"@,
        large_report(s).columns[1].value == "size_human"@,
        large_report(s).columns[2].value == "code_lines"@,
        large_report(s).columns[3].value == "comment_lines"@,
        large_report(s).columns[4].value == "blank_lines"@,
        large_report(s).columns[5].value == "total_lines"@,
        large_report(s).columns[6].value == "language"@,
        large_report(s).columns[7].value == "recommendation"@,
{
}

/// The limits that hold here.
pub proof fn the_limits_are_these()
    ensures
        MAX_BLOB_BYTES == 20_971_520,
        MIN_CODE_LINES == 500,
        MAX_ENTRIES == 100,
{
}

/// The names of the files that are looked at end in one of these.
pub proof fn extensions_are_these(ext: Seq<char>)
    ensures
        source_extensions().contains(ext) <==> ext == "rs"@
            || ext == "py"@
            || ext == "pyi"@
            || ext == "ts"@
            || ext == "tsx"@
            || ext == "js"@
            || ext == "jsx"@
            || ext == "mjs"@
            || ext == "cjs"@
            || ext == "java"@
            || ext == "go"@
            || ext == "kt"@
            || ext == "kts"@
            || ext == "cs"@
            || ext == "cpp"@
            || ext == "cc"@
            || ext == "cxx"@
            || ext == "hpp"@
            || ext == "h"@
            || ext == "c"@
            || ext == "rb"@
            || ext == "php"@
            || ext == "scala"@
            || ext == "sc"@
            || ext == "swift"@
            || ext == "dart"@
            || ext == "sh"@
            || ext == "bash"@
            || ext == "m"@
            || ext == "mm"@,
{
    assert(source_extensions()[0] == "rs"@);
    assert(source_extensions()[1] == "py"@);
    assert(source_extensions()[2] == "pyi"@);
    assert(source_extensions()[3] == "ts"@);
    assert(source_extensions()[4] == "tsx"@);
    assert(source_extensions()[5] == "js"@);
    assert(source_extensions()[6] == "jsx"@);
    assert(source_extensions()[7] == "mjs"@);
    assert(source_extensions()[8] == "cjs"@);
    assert(source_extensions()[9] == "java"@);
    assert(source_extensions()[10] == "go"@);
    assert(source_extensions()[11] == "kt"@);
    assert(source_extensions()[12] == "kts"@);
    assert(source_extensions()[13] == "cs"@);
    assert(source_extensions()[14] == "cpp"@);
    assert(source_extensions()[15] == "cc"@);
    assert(source_extensions()[16] == "cxx"@);
    assert(source_extensions()[17] == "hpp"@);
    assert(source_extensions()[18] == "h"@);
    assert(source_extensions()[19] == "c"@);
    assert(source_extensions()[20] == "rb"@);
    assert(source_extensions()[21] == "php"@);
    assert(source_extensions()[22] == "scala"@);
    assert(source_extensions()[23] == "sc"@);
    assert(source_extensions()[24] == "swift"@);
    assert(source_extensions()[25] == "dart"@);
    assert(source_extensions()[26] == "sh"@);
    assert(source_extensions()[27] == "bash"@);
    assert(source_extensions()[28] == "m"@);
    assert(source_extensions()[29] == "mm"@);
}

/// Code is written by hand in these languages.
pub proof fn languages_of_code_are_these(name: Seq<char>)
    ensures
        source_languages().contains(name) <==> name == "Rust"@
            || name == "Python"@
            || name == "Java"@
            || name == "JavaScript"@
            || name == "TypeScript"@
            || name == "Go"@
            || name == "Kotlin"@
            || name == "Dart"@
            || name == "C"@
            || name == "C++"@
            || name == "C#"@
            || name == "PHP"@
            || name == "Ruby"@
            || name == "Scala"@
            || name == "Swift"@
            || name == "Bash"@
            || name == "Shell"@
            || name == "Objective-C"@,
{
    assert(source_languages()[0] == "Rust"@);
    assert(source_languages()[1] == "Python"@);
    assert(source_languages()[2] == "Java"@);
    assert(source_languages()[3] == "JavaScript"@);
    assert(source_languages()[4] == "TypeScript"@);
    assert(source_languages()[5] == "Go"@);
    assert(source_languages()[6] == "Kotlin"@);
    assert(source_languages()[7] == "Dart"@);
    assert(source_languages()[8] == "C"@);
    assert(source_languages()[9] == "C++"@);
    assert(source_languages()[10] == "C#"@);
    assert(source_languages()[11] == "PHP"@);
    assert(source_languages()[12] == "Ruby"@);
    assert(source_languages()[13] == "Scala"@);
    assert(source_languages()[14] == "Swift"@);
    assert(source_languages()[15] == "Bash"@);
    assert(source_languages()[16] == "Shell"@);
    assert(source_languages()[17] == "Objective-C"@);
}

/// The report is headed by these words.
pub proof fn the_title_is_this(s: Seq<SourceFileModel>)
    ensures
        large_report(s).display_name.code == "Large Source Files"@,
        large_report(s).description.code == "Source files (handwritten code, not markup or data) sorted by executable code lines. Anything over 1500 code lines is a split candidate — it's hard to navigate, review, and test. An enormous file (5k+ code lines) is usually either auto-generated (consider moving to a build step instead of committing) or a 'god module' that has accreted too many responsibilities."@,
{
}

} // verus!
