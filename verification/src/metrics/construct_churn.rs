//! How often each construct changed.

use vstd::prelude::*;

use crate::analysis::source_filter;
use crate::order;
use crate::order::Ranked;
use crate::report;
use crate::report::{OfFile, Row};
use crate::text;
use crate::types;
use crate::types::{EntryModel, MetricEntry, MetricResult, MetricValue, ResultModel, ValueModel, Values};

verus! {

/// Only this many of the constructs that changed most are looked at.
pub const LISTED_CONSTRUCTS: usize = 500;

/// The changes of a construct.
#[derive(Debug)]
pub struct ConstructChanges {
    pub file: String,
    pub qualified_name: String,
    pub kind: String,
    pub changes: u64,
    pub lines_touched: u64,
    pub unique_authors: u64,
    pub last_ts: i64,
}

pub struct ConstructChangesModel {
    pub file: Seq<char>,
    pub qualified_name: Seq<char>,
    pub kind: Seq<char>,
    pub changes: int,
    pub lines_touched: int,
    pub unique_authors: int,
    pub last_ts: int,
}

impl View for ConstructChanges {
    type V = ConstructChangesModel;

    open spec fn view(&self) -> ConstructChangesModel {
        ConstructChangesModel {
            file: self.file@,
            qualified_name: self.qualified_name@,
            kind: self.kind@,
            changes: self.changes as int,
            lines_touched: self.lines_touched as int,
            unique_authors: self.unique_authors as int,
            last_ts: self.last_ts as int,
        }
    }
}

impl OfFile for ConstructChanges {
    open spec fn file_of(r: ConstructChangesModel) -> Seq<char> {
        r.file
    }

    fn file(&self) -> (r: &str) {
        self.file.as_str()
    }
}

/// The construct with more changes first.
impl Ranked for ConstructChanges {
    open spec fn le(a: ConstructChangesModel, b: ConstructChangesModel) -> bool {
        a.changes >= b.changes
    }

    proof fn le_total(a: ConstructChangesModel, b: ConstructChangesModel) {
    }

    proof fn le_transitive(
        a: ConstructChangesModel,
        b: ConstructChangesModel,
        c: ConstructChangesModel,
    ) {
    }

    fn not_after(&self, other: &ConstructChanges) -> (r: bool) {
        self.changes >= other.changes
    }
}

impl Row for ConstructChanges {
    open spec fn entry(c: ConstructChangesModel) -> EntryModel {
        EntryModel {
            key: c.file + "::"@ + c.qualified_name,
            values: Map::empty().insert(
                "kind"@,
                ValueModel::Text(c.kind),
            ).insert(
                "file"@,
                ValueModel::Text(c.file),
            ).insert(
                "changes"@,
                ValueModel::Count(c.changes),
            ).insert(
                "lines_touched"@,
                ValueModel::Count(c.lines_touched),
            ).insert(
                "unique_authors"@,
                ValueModel::Count(c.unique_authors),
            ).insert(
                "last_modified"@,
                ValueModel::Date(types::day_of(c.last_ts)),
            ),
        }
    }

    fn to_entry(self) -> (r: MetricEntry) {
        let mut values = Values::new();
        let key = text::cat3(self.file.as_str(), "::", self.qualified_name.as_str());
        values.insert("kind", MetricValue::Text(self.kind));
        values.insert("file", MetricValue::Text(self.file));
        values.insert("changes", MetricValue::Count(self.changes));
        values.insert("lines_touched", MetricValue::Count(self.lines_touched));
        values.insert("unique_authors", MetricValue::Count(self.unique_authors));
        values.insert("last_modified", MetricValue::Date(types::ts_to_date(self.last_ts)));
        MetricEntry { key, values }
    }
}

pub open spec fn construct_churn_columns() -> Seq<Seq<char>> {
    seq![
        "kind"@,
        "file"@,
        "changes"@,
        "lines_touched"@,
        "unique_authors"@,
        "last_modified"@,
    ]
}

/// The constructs that changed most, of which those outside source files are
/// left out.
pub open spec fn construct_churn_report(rows: Seq<ConstructChangesModel>) -> ResultModel {
    types::report_of(
        "construct_churn"@,
        construct_churn_columns(),
        report::entries_of::<ConstructChanges>(
            report::source_only::<ConstructChanges>(
                order::first_n(
                    order::sort_ranked::<ConstructChanges>(rows),
                    LISTED_CONSTRUCTS as int,
                ),
            ),
        ),
    )
}

pub struct ConstructChurnCollector;

impl Default for ConstructChurnCollector {
    fn default() -> (r: Self)
        ensures
            r == (ConstructChurnCollector {  }),
    {
        ConstructChurnCollector::new()
    }
}

impl ConstructChurnCollector {
    pub fn new() -> (r: Self)
        ensures
            r == (ConstructChurnCollector {  }),
    {
        ConstructChurnCollector
    }

    pub fn name(&self) -> (r: &str)
        ensures
            r@ == "construct_churn"@,
    {
        "construct_churn"
    }

    /// The report without any rows to draw on.
    pub fn finalize(&mut self) -> (r: MetricResult)
        ensures
            r@ == types::empty_report("construct_churn"@),
    {
        MetricResult::empty("construct_churn")
    }

    /// The report, given one row per construct.
    pub fn finalize_from_rows(&mut self, rows: Vec<ConstructChanges>) -> (r: MetricResult)
        ensures
            r@ == construct_churn_report(order::models(rows@)),
    {
        let sorted = order::sort_rows(rows);
        proof {
            order::models_of_first_n(sorted@, LISTED_CONSTRUCTS as int);
        }
        let entries = report::to_entries(
            report::keep_source(order::keep_first(sorted, LISTED_CONSTRUCTS)),
        );
        let columns = [
            "kind",
            "file",
            "changes",
            "lines_touched",
            "unique_authors",
            "last_modified",
        ];
        proof {
            assert(types::str_views(columns@) =~= construct_churn_columns());
        }
        MetricResult::report("construct_churn", &columns, entries)
    }
}

/// A construct of a source file is shown with how often and by how many it was
/// changed, unless there are more rows than the report looks at.
pub proof fn every_source_construct_is_shown(rows: Seq<ConstructChangesModel>, k: int)
    requires
        0 <= k < rows.len(),
        source_filter::is_source(rows[k].file),
        rows.len() <= 500,
    ensures
        exists|i: int|
            0 <= i < construct_churn_report(rows).entries.len() && ({
                let e = #[trigger] construct_churn_report(rows).entries[i];
                let r = rows[k];
                &&& e.key == r.file + "::"@ + r.qualified_name
                &&& e.values["kind"@] == ValueModel::Text(r.kind)
                &&& e.values["file"@] == ValueModel::Text(r.file)
                &&& e.values["changes"@] == ValueModel::Count(r.changes)
                &&& e.values["lines_touched"@] == ValueModel::Count(r.lines_touched)
                &&& e.values["unique_authors"@] == ValueModel::Count(r.unique_authors)
                &&& e.values["last_modified"@] == ValueModel::Date(types::day_of(r.last_ts))
            }),
{
    let s = rows;
    let x = rows[k];
    let ranked = report::source_only::<ConstructChanges>(order::first_n(order::sort_ranked::<ConstructChanges>(rows), 500));
    assert(s[k] == x);
    let sorted = order::sort_ranked::<ConstructChanges>(rows);
    order::sort_same_members::<ConstructChanges>(rows);
    order::sort_keeps_elements::<ConstructChanges>(rows);
    let head = order::first_n(sorted, 500);
    report::source_only_keeps::<ConstructChanges>(head);
    assert(forall|m: int| 0 <= m < head.len() ==> head[m] == sorted[m]);
    assert(forall|m: int| 0 <= m < head.len() ==> sorted.contains(#[trigger] head[m]));
    assert(s.contains(x));
    assert(ranked.contains(x));
    let i = choose|i: int| 0 <= i < ranked.len() && ranked[i] == x;
    assert(construct_churn_report(rows).entries[i] == ConstructChanges::entry(x));
    reveal_strlit("kind");
    reveal_strlit("file");
    reveal_strlit("changes");
    reveal_strlit("lines_touched");
    reveal_strlit("unique_authors");
    reveal_strlit("last_modified");
    assert("kind"@[0] != "file"@[0]);
    assert("kind"@.len() != "changes"@.len());
    assert("kind"@.len() != "lines_touched"@.len());
    assert("kind"@.len() != "unique_authors"@.len());
    assert("kind"@.len() != "last_modified"@.len());
    assert("file"@.len() != "changes"@.len());
    assert("file"@.len() != "lines_touched"@.len());
    assert("file"@.len() != "unique_authors"@.len());
    assert("file"@.len() != "last_modified"@.len());
    assert("changes"@.len() != "lines_touched"@.len());
    assert("changes"@.len() != "unique_authors"@.len());
    assert("changes"@.len() != "last_modified"@.len());
    assert("lines_touched"@.len() != "unique_authors"@.len());
    assert("lines_touched"@[1] != "last_modified"@[1]);
    assert("unique_authors"@.len() != "last_modified"@.len());
}

/// Whatever is shown is a construct of a source file, and there are at most five
/// hundred.
pub proof fn only_source_constructs_are_shown(rows: Seq<ConstructChangesModel>, i: int)
    requires
        0 <= i < construct_churn_report(rows).entries.len(),
    ensures
        construct_churn_report(rows).entries.len() <= 500,
        exists|k: int|
            0 <= k < rows.len() && ({
                let e = construct_churn_report(rows).entries[i];
                let r = #[trigger] rows[k];
                &&& source_filter::is_source(r.file)
                &&& e.key == r.file + "::"@ + r.qualified_name
                &&& e.values["kind"@] == ValueModel::Text(r.kind)
                &&& e.values["file"@] == ValueModel::Text(r.file)
                &&& e.values["changes"@] == ValueModel::Count(r.changes)
                &&& e.values["lines_touched"@] == ValueModel::Count(r.lines_touched)
                &&& e.values["unique_authors"@] == ValueModel::Count(r.unique_authors)
                &&& e.values["last_modified"@] == ValueModel::Date(types::day_of(r.last_ts))
            }),
{
    let s = rows;
    let ranked = report::source_only::<ConstructChanges>(order::first_n(order::sort_ranked::<ConstructChanges>(rows), 500));
    let x = ranked[i];
    let sorted = order::sort_ranked::<ConstructChanges>(rows);
    order::sort_same_members::<ConstructChanges>(rows);
    order::sort_keeps_elements::<ConstructChanges>(rows);
    let head = order::first_n(sorted, 500);
    report::source_only_keeps::<ConstructChanges>(head);
    assert(forall|m: int| 0 <= m < head.len() ==> head[m] == sorted[m]);
    assert(forall|m: int| 0 <= m < head.len() ==> sorted.contains(#[trigger] head[m]));
    assert(ranked.contains(x));
    assert(s.contains(x));
    assert(construct_churn_report(rows).entries[i] == ConstructChanges::entry(x));
    let k = choose|k: int| 0 <= k < s.len() && s[k] == x;
    assert(rows[k] == rows[k]);
    reveal_strlit("kind");
    reveal_strlit("file");
    reveal_strlit("changes");
    reveal_strlit("lines_touched");
    reveal_strlit("unique_authors");
    reveal_strlit("last_modified");
    assert("kind"@[0] != "file"@[0]);
    assert("kind"@.len() != "changes"@.len());
    assert("kind"@.len() != "lines_touched"@.len());
    assert("kind"@.len() != "unique_authors"@.len());
    assert("kind"@.len() != "last_modified"@.len());
    assert("file"@.len() != "changes"@.len());
    assert("file"@.len() != "lines_touched"@.len());
    assert("file"@.len() != "unique_authors"@.len());
    assert("file"@.len() != "last_modified"@.len());
    assert("changes"@.len() != "lines_touched"@.len());
    assert("changes"@.len() != "unique_authors"@.len());
    assert("changes"@.len() != "last_modified"@.len());
    assert("lines_touched"@.len() != "unique_authors"@.len());
    assert("lines_touched"@[1] != "last_modified"@[1]);
    assert("unique_authors"@.len() != "last_modified"@.len());
}

/// The constructs that changed most often stand first.
pub proof fn most_changed_first(rows: Seq<ConstructChangesModel>, i: int, j: int)
    requires
        0 <= i < j < construct_churn_report(rows).entries.len(),
    ensures
        ({
            let a = construct_churn_report(rows).entries[i].values;
            let b = construct_churn_report(rows).entries[j].values;
            a["changes"@]->Count_0 >= b["changes"@]->Count_0
        }),
{
    let ranked = report::source_only::<ConstructChanges>(order::first_n(order::sort_ranked::<ConstructChanges>(rows), 500));
    let sorted = order::sort_ranked::<ConstructChanges>(rows);
    order::sort_orders::<ConstructChanges>(rows);
    let head = order::first_n(sorted, 500);
    assert(order::is_ranked::<ConstructChanges>(head)) by {
        assert(forall|m: int| 0 <= m < head.len() ==> head[m] == sorted[m]);
    }
    report::source_only_ranked::<ConstructChanges>(head);
    assert(construct_churn_report(rows).entries[i] == ConstructChanges::entry(ranked[i]));
    assert(construct_churn_report(rows).entries[j] == ConstructChanges::entry(ranked[j]));
    assert(ConstructChanges::le(ranked[i], ranked[j]));
    reveal_strlit("kind");
    reveal_strlit("file");
    reveal_strlit("changes");
    reveal_strlit("lines_touched");
    reveal_strlit("unique_authors");
    reveal_strlit("last_modified");
    assert("kind"@[0] != "file"@[0]);
    assert("kind"@.len() != "changes"@.len());
    assert("kind"@.len() != "lines_touched"@.len());
    assert("kind"@.len() != "unique_authors"@.len());
    assert("kind"@.len() != "last_modified"@.len());
    assert("file"@.len() != "changes"@.len());
    assert("file"@.len() != "lines_touched"@.len());
    assert("file"@.len() != "unique_authors"@.len());
    assert("file"@.len() != "last_modified"@.len());
    assert("changes"@.len() != "lines_touched"@.len());
    assert("changes"@.len() != "unique_authors"@.len());
    assert("changes"@.len() != "last_modified"@.len());
    assert("lines_touched"@.len() != "unique_authors"@.len());
    assert("lines_touched"@[1] != "last_modified"@[1]);
    assert("unique_authors"@.len() != "last_modified"@.len());
}

/// The report has these columns, in this order.
pub proof fn the_columns_are_these(rows: Seq<ConstructChangesModel>)
    ensures
        construct_churn_report(rows).name == "construct_churn"@,
        construct_churn_report(rows).columns.len() == 6,
        construct_churn_report(rows).columns[0].value == "kind"@,
        construct_churn_report(rows).columns[1].value == "file"@,
        construct_churn_report(rows).columns[2].value == "changes"@,
        construct_churn_report(rows).columns[3].value == "lines_touched"@,
        construct_churn_report(rows).columns[4].value == "unique_authors"@,
        construct_churn_report(rows).columns[5].value == "last_modified"@,
{
}

/// The limits that hold here.
pub proof fn the_limits_are_these()
    ensures
        LISTED_CONSTRUCTS == 500,
{
}

} // verus!
