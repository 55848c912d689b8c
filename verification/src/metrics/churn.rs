//! Lines added and removed per file.

use vstd::prelude::*;

use crate::analysis::source_filter;
use crate::order;
use crate::order::Ranked;
use crate::report;
use crate::report::OfFile;
use crate::types;
use crate::types::{EntryModel, MetricEntry, MetricResult, MetricValue, ResultModel, ValueModel, Values};

verus! {

pub const MAX_CHURN_ROWS: usize = 500;

/// The lines added to and deleted from a file, and in how many changes.
#[derive(Debug)]
pub struct FileChanges {
    pub file: String,
    pub added: u64,
    pub deleted: u64,
    pub change_count: u64,
}

pub struct FileChangesModel {
    pub file: Seq<char>,
    pub added: int,
    pub deleted: int,
    pub change_count: int,
}

impl View for FileChanges {
    type V = FileChangesModel;

    open spec fn view(&self) -> FileChangesModel {
        FileChangesModel {
            file: self.file@,
            added: self.added as int,
            deleted: self.deleted as int,
            change_count: self.change_count as int,
        }
    }
}

impl OfFile for FileChanges {
    open spec fn file_of(r: FileChangesModel) -> Seq<char> {
        r.file
    }

    fn file(&self) -> (r: &str) {
        self.file.as_str()
    }
}

/// The file with more lines added and deleted first.
impl Ranked for FileChanges {
    open spec fn le(a: FileChangesModel, b: FileChangesModel) -> bool {
        a.added + a.deleted >= b.added + b.deleted
    }

    proof fn le_total(a: FileChangesModel, b: FileChangesModel) {
    }

    proof fn le_transitive(a: FileChangesModel, b: FileChangesModel, c: FileChangesModel) {
    }

    fn not_after(&self, other: &FileChanges) -> (r: bool) {
        self.added as u128 + self.deleted as u128 >= other.added as u128 + other.deleted as u128
    }
}

/// What the report shows of a file.
pub open spec fn churn_entry(r: FileChangesModel) -> EntryModel {
    EntryModel {
        key: r.file,
        values: Map::empty().insert("lines_added"@, ValueModel::Count(r.added)).insert(
            "lines_deleted"@,
            ValueModel::Count(r.deleted),
        ).insert("net_change"@, ValueModel::Signed(r.added - r.deleted)).insert(
            "total_churn"@,
            ValueModel::Count(r.added + r.deleted),
        ).insert("change_count"@, ValueModel::Count(r.change_count)).insert(
            "churn_rate"@,
            ValueModel::Ratio(r.added + r.deleted, r.change_count),
        ),
    }
}

/// The files of the report: source files only, the most churned first.
pub open spec fn churn_files(rows: Seq<FileChangesModel>) -> Seq<FileChangesModel> {
    order::first_n(
        report::source_only::<FileChanges>(order::sort_ranked::<FileChanges>(rows)),
        MAX_CHURN_ROWS as int,
    )
}

pub open spec fn churn_columns() -> Seq<Seq<char>> {
    seq![
        "lines_added"@,
        "lines_deleted"@,
        "net_change"@,
        "total_churn"@,
        "change_count"@,
        "churn_rate"@,
    ]
}

pub open spec fn churn_report(rows: Seq<FileChangesModel>) -> ResultModel {
    types::report_of(
        "churn"@,
        churn_columns(),
        churn_files(rows).map_values(|r: FileChangesModel| churn_entry(r)),
    )
}

/// The line counts are within the signed 64-bit range.
pub open spec fn lines_fit(rows: Seq<FileChangesModel>) -> bool {
    forall|i: int|
        0 <= i < rows.len() ==> (#[trigger] rows[i]).added <= i64::MAX && rows[i].deleted
            <= i64::MAX
}

/// Every file of the report is one of the rows.
proof fn lemma_churn_files_are_rows(rows: Seq<FileChangesModel>, i: int)
    requires
        0 <= i < churn_files(rows).len(),
    ensures
        rows.contains(churn_files(rows)[i]),
{
    let sorted = order::sort_ranked::<FileChanges>(rows);
    let kept = report::source_only::<FileChanges>(sorted);
    assert(kept[i] == churn_files(rows)[i]);
    assert(kept.contains(kept[i]));
    report::source_only_keeps::<FileChanges>(sorted);
    order::sort_same_members::<FileChanges>(rows);
}

fn to_churn_entry(f: FileChanges) -> (r: MetricEntry)
    requires
        f.added <= i64::MAX,
        f.deleted <= i64::MAX,
    ensures
        r@ == churn_entry(f@),
{
    let total: u64 = f.added + f.deleted;
    let net: i64 = f.added as i64 - f.deleted as i64;
    let mut values = Values::new();
    values.insert("lines_added", MetricValue::Count(f.added));
    values.insert("lines_deleted", MetricValue::Count(f.deleted));
    values.insert("net_change", MetricValue::SignedCount(net));
    values.insert("total_churn", MetricValue::Count(total));
    values.insert("change_count", MetricValue::Count(f.change_count));
    values.insert("churn_rate", MetricValue::Ratio { num: total, den: f.change_count });
    MetricEntry { key: f.file, values }
}

pub struct ChurnCollector;

impl Default for ChurnCollector {
    fn default() -> (r: Self)
        ensures
            r == (ChurnCollector {  }),
    {
        ChurnCollector::new()
    }
}

impl ChurnCollector {
    pub fn new() -> (r: Self)
        ensures
            r == (ChurnCollector {  }),
    {
        ChurnCollector
    }

    pub fn name(&self) -> (r: &str)
        ensures
            r@ == "churn"@,
    {
        "churn"
    }

    /// The report without any rows to draw on.
    pub fn finalize(&mut self) -> (r: MetricResult)
        ensures
            r@ == types::empty_report("churn"@),
    {
        MetricResult::empty("churn")
    }

    /// The report, given one row per file.
    pub fn finalize_from_rows(&mut self, rows: Vec<FileChanges>) -> (r: MetricResult)
        requires
            lines_fit(order::models(rows@)),
        ensures
            r@ == churn_report(order::models(rows@)),
    {
        let ghost all = order::models(rows@);
        let kept = report::keep_source(order::sort_rows(rows));
        proof {
            order::models_of_first_n(kept@, MAX_CHURN_ROWS as int);
        }
        let top = order::keep_first(kept, MAX_CHURN_ROWS);
        let mut entries: Vec<MetricEntry> = Vec::new();
        for f in it: top
            invariant
                order::models(it.seq()) == churn_files(all),
                lines_fit(all),
                entries@.len() == it.index(),
                forall|k: int|
                    0 <= k < entries@.len() ==> (#[trigger] entries@[k])@ == churn_entry(
                        churn_files(all)[k],
                    ),
        {
            proof {
                assert(order::models(it.seq())[it.index() as int] == f@);
                lemma_churn_files_are_rows(all, it.index() as int);
                let k = choose|k: int| 0 <= k < all.len() && all[k] == f@;
                assert(all[k].added <= i64::MAX);
            }
            entries.push(to_churn_entry(f));
        }
        let columns = [
            "lines_added",
            "lines_deleted",
            "net_change",
            "total_churn",
            "change_count",
            "churn_rate",
        ];
        proof {
            assert(types::str_views(columns@) =~= churn_columns());
            assert(types::entry_models(entries@) =~= churn_files(all).map_values(
                |r: FileChangesModel| churn_entry(r),
            ));
        }
        MetricResult::report("churn", &columns, entries)
    }
}

/// A source file is shown with the lines it gained and lost, unless there are
/// more files than the report holds.
pub proof fn every_source_file_is_shown(rows: Seq<FileChangesModel>, k: int)
    requires
        0 <= k < rows.len(),
        source_filter::is_source(rows[k].file),
        rows.len() <= 500,
    ensures
        exists|i: int|
            0 <= i < churn_report(rows).entries.len() && ({
                let e = #[trigger] churn_report(rows).entries[i];
                let r = rows[k];
                &&& e.key == r.file
                &&& e.values["lines_added"@] == ValueModel::Count(r.added)
                &&& e.values["lines_deleted"@] == ValueModel::Count(r.deleted)
                &&& e.values["net_change"@] == ValueModel::Signed(r.added - r.deleted)
                &&& e.values["total_churn"@] == ValueModel::Count(r.added + r.deleted)
                &&& e.values["change_count"@] == ValueModel::Count(r.change_count)
                &&& e.values["churn_rate"@] == ValueModel::Ratio(r.added + r.deleted, r.change_count)
            }),
{
    let s = rows;
    let x = rows[k];
    let ranked = churn_files(rows);
    assert(s[k] == x);
    let sorted = order::sort_ranked::<FileChanges>(rows);
    order::sort_same_members::<FileChanges>(rows);
    order::sort_keeps_elements::<FileChanges>(rows);
    report::source_only_keeps::<FileChanges>(sorted);
    let kept = report::source_only::<FileChanges>(sorted);
    assert(forall|m: int| 0 <= m < ranked.len() ==> ranked[m] == kept[m]);
    assert(forall|m: int| 0 <= m < kept.len() ==> kept.contains(#[trigger] kept[m]));
    assert(s.contains(x));
    assert(ranked.contains(x));
    let i = choose|i: int| 0 <= i < ranked.len() && ranked[i] == x;
    assert(churn_report(rows).entries[i] == churn_entry(x));
    reveal_strlit("lines_added");
    reveal_strlit("lines_deleted");
    reveal_strlit("net_change");
    reveal_strlit("total_churn");
    reveal_strlit("change_count");
    reveal_strlit("churn_rate");
    assert("lines_added"@.len() != "lines_deleted"@.len());
    assert("lines_added"@.len() != "net_change"@.len());
    assert("lines_added"@[0] != "total_churn"@[0]);
    assert("lines_added"@.len() != "change_count"@.len());
    assert("lines_added"@.len() != "churn_rate"@.len());
    assert("lines_deleted"@.len() != "net_change"@.len());
    assert("lines_deleted"@.len() != "total_churn"@.len());
    assert("lines_deleted"@.len() != "change_count"@.len());
    assert("lines_deleted"@.len() != "churn_rate"@.len());
    assert("net_change"@.len() != "total_churn"@.len());
    assert("net_change"@.len() != "change_count"@.len());
    assert("net_change"@[0] != "churn_rate"@[0]);
    assert("total_churn"@.len() != "change_count"@.len());
    assert("total_churn"@.len() != "churn_rate"@.len());
    assert("change_count"@.len() != "churn_rate"@.len());
}

/// Whatever is shown is a source file, and there are at most five hundred.
pub proof fn only_source_files_are_shown(rows: Seq<FileChangesModel>, i: int)
    requires
        0 <= i < churn_report(rows).entries.len(),
    ensures
        churn_report(rows).entries.len() <= 500,
        exists|k: int|
            0 <= k < rows.len() && ({
                let e = churn_report(rows).entries[i];
                let r = #[trigger] rows[k];
                &&& source_filter::is_source(r.file)
                &&& e.key == r.file
                &&& e.values["lines_added"@] == ValueModel::Count(r.added)
                &&& e.values["lines_deleted"@] == ValueModel::Count(r.deleted)
                &&& e.values["net_change"@] == ValueModel::Signed(r.added - r.deleted)
                &&& e.values["total_churn"@] == ValueModel::Count(r.added + r.deleted)
                &&& e.values["change_count"@] == ValueModel::Count(r.change_count)
                &&& e.values["churn_rate"@] == ValueModel::Ratio(r.added + r.deleted, r.change_count)
            }),
{
    let s = rows;
    let ranked = churn_files(rows);
    let x = ranked[i];
    let sorted = order::sort_ranked::<FileChanges>(rows);
    order::sort_same_members::<FileChanges>(rows);
    order::sort_keeps_elements::<FileChanges>(rows);
    report::source_only_keeps::<FileChanges>(sorted);
    let kept = report::source_only::<FileChanges>(sorted);
    assert(forall|m: int| 0 <= m < ranked.len() ==> ranked[m] == kept[m]);
    assert(forall|m: int| 0 <= m < kept.len() ==> kept.contains(#[trigger] kept[m]));
    assert(ranked.contains(x));
    assert(s.contains(x));
    assert(churn_report(rows).entries[i] == churn_entry(x));
    let k = choose|k: int| 0 <= k < s.len() && s[k] == x;
    assert(rows[k] == rows[k]);
    reveal_strlit("lines_added");
    reveal_strlit("lines_deleted");
    reveal_strlit("net_change");
    reveal_strlit("total_churn");
    reveal_strlit("change_count");
    reveal_strlit("churn_rate");
    assert("lines_added"@.len() != "lines_deleted"@.len());
    assert("lines_added"@.len() != "net_change"@.len());
    assert("lines_added"@[0] != "total_churn"@[0]);
    assert("lines_added"@.len() != "change_count"@.len());
    assert("lines_added"@.len() != "churn_rate"@.len());
    assert("lines_deleted"@.len() != "net_change"@.len());
    assert("lines_deleted"@.len() != "total_churn"@.len());
    assert("lines_deleted"@.len() != "change_count"@.len());
    assert("lines_deleted"@.len() != "churn_rate"@.len());
    assert("net_change"@.len() != "total_churn"@.len());
    assert("net_change"@.len() != "change_count"@.len());
    assert("net_change"@[0] != "churn_rate"@[0]);
    assert("total_churn"@.len() != "change_count"@.len());
    assert("total_churn"@.len() != "churn_rate"@.len());
    assert("change_count"@.len() != "churn_rate"@.len());
}

/// The files with the most lines gained and lost stand first.
pub proof fn most_churned_first(rows: Seq<FileChangesModel>, i: int, j: int)
    requires
        0 <= i < j < churn_report(rows).entries.len(),
    ensures
        ({
            let a = churn_report(rows).entries[i].values;
            let b = churn_report(rows).entries[j].values;
            a["total_churn"@]->Count_0 >= b["total_churn"@]->Count_0
        }),
{
    let ranked = churn_files(rows);
    let sorted = order::sort_ranked::<FileChanges>(rows);
    order::sort_orders::<FileChanges>(rows);
    report::source_only_ranked::<FileChanges>(sorted);
    let kept = report::source_only::<FileChanges>(sorted);
    assert(ranked[i] == kept[i] && ranked[j] == kept[j]);
    assert(churn_report(rows).entries[i] == churn_entry(ranked[i]));
    assert(churn_report(rows).entries[j] == churn_entry(ranked[j]));
    assert(FileChanges::le(ranked[i], ranked[j]));
    reveal_strlit("lines_added");
    reveal_strlit("lines_deleted");
    reveal_strlit("net_change");
    reveal_strlit("total_churn");
    reveal_strlit("change_count");
    reveal_strlit("churn_rate");
    assert("lines_added"@.len() != "lines_deleted"@.len());
    assert("lines_added"@.len() != "net_change"@.len());
    assert("lines_added"@[0] != "total_churn"@[0]);
    assert("lines_added"@.len() != "change_count"@.len());
    assert("lines_added"@.len() != "churn_rate"@.len());
    assert("lines_deleted"@.len() != "net_change"@.len());
    assert("lines_deleted"@.len() != "total_churn"@.len());
    assert("lines_deleted"@.len() != "change_count"@.len());
    assert("lines_deleted"@.len() != "churn_rate"@.len());
    assert("net_change"@.len() != "total_churn"@.len());
    assert("net_change"@.len() != "change_count"@.len());
    assert("net_change"@[0] != "churn_rate"@[0]);
    assert("total_churn"@.len() != "change_count"@.len());
    assert("total_churn"@.len() != "churn_rate"@.len());
    assert("change_count"@.len() != "churn_rate"@.len());
}

/// The report has these columns, in this order.
pub proof fn the_columns_are_these(rows: Seq<FileChangesModel>)
    ensures
        churn_report(rows).name == "churn"@,
        churn_report(rows).columns.len() == 6,
        churn_report(rows).columns[0].value == "lines_added"@,
        churn_report(rows).columns[1].value == "lines_deleted"@,
        churn_report(rows).columns[2].value == "net_change"@,
        churn_report(rows).columns[3].value == "total_churn"@,
        churn_report(rows).columns[4].value == "change_count"@,
        churn_report(rows).columns[5].value == "churn_rate"@,
{
}

/// The limits that hold here.
pub proof fn the_limits_are_these()
    ensures
        MAX_CHURN_ROWS == 500,
{
}

} // verus!
