//! How old files are and how often they change.

use vstd::prelude::*;

use crate::double;
use crate::double::{Double, Num};
use crate::order;
use crate::order::Ranked;
use crate::report;
use crate::report::Row;
use crate::types;
use crate::types::{
    Date, EntryModel, MetricEntry, MetricResult, MetricValue, ResultModel, ValueModel, Values,
};

verus! {

/// The first and the last change of a file, how many changes there were, and
/// whether it was ever deleted.
#[derive(Debug)]
pub struct FileSpan {
    pub file: String,
    pub first_ts: i64,
    pub last_ts: i64,
    pub change_count: u64,
    pub ever_deleted: bool,
}

pub struct FileSpanModel {
    pub file: Seq<char>,
    pub first_ts: int,
    pub last_ts: int,
    pub change_count: int,
    pub ever_deleted: bool,
}

impl View for FileSpan {
    type V = FileSpanModel;

    open spec fn view(&self) -> FileSpanModel {
        FileSpanModel {
            file: self.file@,
            first_ts: self.first_ts as int,
            last_ts: self.last_ts as int,
            change_count: self.change_count as int,
            ever_deleted: self.ever_deleted,
        }
    }
}

/// The age of a file.
pub struct FileAge {
    pub file: String,
    pub age_days: u32,
    pub first_seen: Date,
    pub last_modified: Date,
    pub idle_days: u32,
    pub change_count: u64,
}

pub struct FileAgeModel {
    pub file: Seq<char>,
    pub age_days: int,
    pub first_seen: int,
    pub last_modified: int,
    pub idle_days: int,
    pub change_count: int,
}

impl View for FileAge {
    type V = FileAgeModel;

    open spec fn view(&self) -> FileAgeModel {
        FileAgeModel {
            file: self.file@,
            age_days: self.age_days as int,
            first_seen: self.first_seen.days as int,
            last_modified: self.last_modified.days as int,
            idle_days: self.idle_days as int,
            change_count: self.change_count as int,
        }
    }
}

impl FileAgeModel {
    /// Changes per year of 365.25 days; a file of no age has as many as it has
    /// changes.
    pub open spec fn rate(self) -> Num {
        double::per_year(self.change_count, self.age_days)
    }
}

/// The most changes per year first.
impl Ranked for FileAge {
    open spec fn le(a: FileAgeModel, b: FileAgeModel) -> bool {
        !double::less(a.rate(), b.rate())
    }

    proof fn le_total(a: FileAgeModel, b: FileAgeModel) {
        double::order_is_total(a.rate(), b.rate());
    }

    proof fn le_transitive(a: FileAgeModel, b: FileAgeModel, c: FileAgeModel) {
        double::rates_are_normal(a.change_count, a.age_days);
        double::rates_are_normal(b.change_count, b.age_days);
        double::rates_are_normal(c.change_count, c.age_days);
        double::order_is_transitive(a.rate(), b.rate(), c.rate());
    }

    fn not_after(&self, other: &FileAge) -> (r: bool) {
        let a = Double::per_year(self.change_count, self.age_days as u64);
        let b = Double::per_year(other.change_count, other.age_days as u64);
        !a.is_less(b)
    }
}

impl Row for FileAge {
    open spec fn entry(f: FileAgeModel) -> EntryModel {
        EntryModel {
            key: f.file,
            values: Map::empty().insert("age_days"@, ValueModel::Count(f.age_days)).insert(
                "first_seen"@,
                ValueModel::Date(f.first_seen),
            ).insert("last_modified"@, ValueModel::Date(f.last_modified)).insert(
                "days_since_last_change"@,
                ValueModel::Count(f.idle_days),
            ).insert("change_count"@, ValueModel::Count(f.change_count)).insert(
                "changes_per_year"@,
                ValueModel::PerYear(f.change_count, f.age_days),
            ),
        }
    }

    fn to_entry(self) -> (r: MetricEntry) {
        let mut values = Values::new();
        values.insert("age_days", MetricValue::Count(self.age_days as u64));
        values.insert("first_seen", MetricValue::Date(self.first_seen));
        values.insert("last_modified", MetricValue::Date(self.last_modified));
        values.insert("days_since_last_change", MetricValue::Count(self.idle_days as u64));
        values.insert("change_count", MetricValue::Count(self.change_count));
        values.insert(
            "changes_per_year",
            MetricValue::PerYear { count: self.change_count, days: self.age_days as u64 },
        );
        MetricEntry { key: self.file, values }
    }
}

pub open spec fn aged(r: FileSpanModel, now: int) -> FileAgeModel {
    let today = types::day_of(now);
    let first = types::day_of(r.first_ts);
    let last = types::day_of(r.last_ts);
    FileAgeModel {
        file: r.file,
        age_days: types::days_from(first, today),
        first_seen: first,
        last_modified: last,
        idle_days: types::days_from(last, today),
        change_count: r.change_count,
    }
}

/// The ages of the files that were never deleted.
pub open spec fn ages(rows: Seq<FileSpanModel>, now: int) -> Seq<FileAgeModel>
    decreases rows.len(),
{
    if rows.len() == 0 {
        Seq::empty()
    } else if rows.last().ever_deleted {
        ages(rows.drop_last(), now)
    } else {
        ages(rows.drop_last(), now).push(aged(rows.last(), now))
    }
}

pub open spec fn age_columns() -> Seq<Seq<char>> {
    seq![
        "age_days"@,
        "first_seen"@,
        "last_modified"@,
        "days_since_last_change"@,
        "change_count"@,
        "changes_per_year"@,
    ]
}

pub open spec fn age_report(rows: Seq<FileSpanModel>, now: int) -> ResultModel {
    types::report_of(
        "age"@,
        age_columns(),
        report::entries_of::<FileAge>(order::sort_ranked::<FileAge>(ages(rows, now))),
    )
}

pub struct AgeCollector;

impl Default for AgeCollector {
    fn default() -> (r: Self)
        ensures
            r == (AgeCollector {  }),
    {
        AgeCollector::new()
    }
}

impl AgeCollector {
    pub fn new() -> (r: Self)
        ensures
            r == (AgeCollector {  }),
    {
        AgeCollector
    }

    pub fn name(&self) -> (r: &str)
        ensures
            r@ == "age"@,
    {
        "age"
    }

    /// The report without any rows to draw on.
    pub fn finalize(&mut self) -> (r: MetricResult)
        ensures
            r@ == types::empty_report("age"@),
    {
        MetricResult::empty("age")
    }

    /// The report at the time `now`, given one row per file.
    pub fn finalize_from_rows(&mut self, rows: Vec<FileSpan>, now: i64) -> (r: MetricResult)
        ensures
            r@ == age_report(order::models(rows@), now as int),
    {
        let ghost all = order::models(rows@);
        let today = types::ts_to_date(now);
        let mut list: Vec<FileAge> = Vec::new();
        proof {
            assert(all.take(0).len() == 0);
            assert(order::models(list@) =~= Seq::empty());
        }
        for row in it: rows
            invariant
                order::models(it.seq()) == all,
                today.days == types::day_of(now as int),
                -96465293 <= today.days <= 95026236,
                order::models(list@) == ages(all.take(it.index() as int), now as int),
        {
            let ghost before = order::models(list@);
            let ghost i = it.index() as int;
            proof {
                assert(order::models(it.seq())[i] == row@);
                assert(all.take(i + 1).drop_last() =~= all.take(i));
                assert(all.take(i + 1).last() == row@);
            }
            if !row.ever_deleted {
                let first_seen = types::ts_to_date(row.first_ts);
                let last_modified = types::ts_to_date(row.last_ts);
                let a = FileAge {
                    file: row.file,
                    age_days: types::days_since(first_seen, today) as u32,
                    first_seen,
                    last_modified,
                    idle_days: types::days_since(last_modified, today) as u32,
                    change_count: row.change_count,
                };
                list.push(a);
                proof {
                    assert(order::models(list@) =~= before.push(a@));
                }
            }
        }
        proof {
            assert(all.take(all.len() as int) =~= all);
        }
        let entries = report::to_entries(order::sort_rows(list));
        let columns = [
            "age_days",
            "first_seen",
            "last_modified",
            "days_since_last_change",
            "change_count",
            "changes_per_year",
        ];
        proof {
            assert(types::str_views(columns@) =~= age_columns());
        }
        MetricResult::report("age", &columns, entries)
    }
}

proof fn lemma_ages(rows: Seq<FileSpanModel>, now: int, x: FileAgeModel)
    ensures
        ages(rows, now).contains(x) <==> exists|k: int|
            0 <= k < rows.len() && !(#[trigger] rows[k]).ever_deleted && x == aged(rows[k], now),
        ages(rows, now).len() <= rows.len(),
    decreases rows.len(),
{
    if rows.len() > 0 {
        let front = rows.drop_last();
        let last = rows.last();
        let was = ages(front, now);
        let is = ages(rows, now);
        lemma_ages(front, now, x);
        assert(rows[rows.len() - 1] == last);
        assert(forall|k: int| 0 <= k < front.len() ==> front[k] == rows[k]);
        if is.contains(x) {
            let i = choose|i: int| 0 <= i < is.len() && is[i] == x;
            if i < was.len() {
                assert(was[i] == x);
                let k = choose|k: int|
                    0 <= k < front.len() && !(#[trigger] front[k]).ever_deleted && x == aged(front[k], now);
                assert(rows[k] == front[k]);
            }
        }
        if exists|k: int| 0 <= k < rows.len() && !(#[trigger] rows[k]).ever_deleted && x == aged(rows[k], now) {
            let k = choose|k: int|
                0 <= k < rows.len() && !(#[trigger] rows[k]).ever_deleted && x == aged(rows[k], now);
            if k < front.len() {
                assert(front[k] == rows[k]);
                let i = choose|i: int| 0 <= i < was.len() && was[i] == x;
                assert(is[i] == x);
            } else {
                assert(is[is.len() - 1] == x);
            }
        }
    }
}

/// A file that was never deleted is shown with its age, counted from its first
/// commit, and the days since it last changed.
pub proof fn every_living_file_has_an_age(rows: Seq<FileSpanModel>, now: int, k: int)
    requires
        0 <= k < rows.len(),
        !rows[k].ever_deleted,
    ensures
        exists|i: int|
            0 <= i < age_report(rows, now).entries.len() && ({
                let e = #[trigger] age_report(rows, now).entries[i];
                let r = rows[k];
                &&& e.key == r.file
                &&& e.values["age_days"@] == ValueModel::Count(types::days_from(types::day_of(r.first_ts), types::day_of(now)))
                &&& e.values["first_seen"@] == ValueModel::Date(types::day_of(r.first_ts))
                &&& e.values["last_modified"@] == ValueModel::Date(types::day_of(r.last_ts))
                &&& e.values["days_since_last_change"@] == ValueModel::Count(types::days_from(types::day_of(r.last_ts), types::day_of(now)))
                &&& e.values["change_count"@] == ValueModel::Count(r.change_count)
                &&& e.values["changes_per_year"@] == ValueModel::PerYear(r.change_count, types::days_from(types::day_of(r.first_ts), types::day_of(now)))
            }),
{
    let s = ages(rows, now);
    let x = aged(rows[k], now);
    let ranked = order::sort_ranked::<FileAge>(ages(rows, now));
    lemma_ages(rows, now, x);
    order::sort_same_members::<FileAge>(ages(rows, now));
    order::sort_keeps_elements::<FileAge>(ages(rows, now));
    assert(s.contains(x));
    assert(ranked.contains(x));
    let i = choose|i: int| 0 <= i < ranked.len() && ranked[i] == x;
    assert(age_report(rows, now).entries[i] == FileAge::entry(x));
    reveal_strlit("age_days");
    reveal_strlit("first_seen");
    reveal_strlit("last_modified");
    reveal_strlit("days_since_last_change");
    reveal_strlit("change_count");
    reveal_strlit("changes_per_year");
    assert("age_days"@.len() != "first_seen"@.len());
    assert("age_days"@.len() != "last_modified"@.len());
    assert("age_days"@.len() != "days_since_last_change"@.len());
    assert("age_days"@.len() != "change_count"@.len());
    assert("age_days"@.len() != "changes_per_year"@.len());
    assert("first_seen"@.len() != "last_modified"@.len());
    assert("first_seen"@.len() != "days_since_last_change"@.len());
    assert("first_seen"@.len() != "change_count"@.len());
    assert("first_seen"@.len() != "changes_per_year"@.len());
    assert("last_modified"@.len() != "days_since_last_change"@.len());
    assert("last_modified"@.len() != "change_count"@.len());
    assert("last_modified"@.len() != "changes_per_year"@.len());
    assert("days_since_last_change"@.len() != "change_count"@.len());
    assert("days_since_last_change"@.len() != "changes_per_year"@.len());
    assert("change_count"@.len() != "changes_per_year"@.len());
}

/// Whatever is shown is a file that was never deleted.
pub proof fn only_living_files_have_an_age(rows: Seq<FileSpanModel>, now: int, i: int)
    requires
        0 <= i < age_report(rows, now).entries.len(),
    ensures
        exists|k: int|
            0 <= k < rows.len() && ({
                let e = age_report(rows, now).entries[i];
                let r = #[trigger] rows[k];
                &&& !r.ever_deleted
                &&& e.key == r.file
                &&& e.values["age_days"@] == ValueModel::Count(types::days_from(types::day_of(r.first_ts), types::day_of(now)))
                &&& e.values["first_seen"@] == ValueModel::Date(types::day_of(r.first_ts))
                &&& e.values["last_modified"@] == ValueModel::Date(types::day_of(r.last_ts))
                &&& e.values["days_since_last_change"@] == ValueModel::Count(types::days_from(types::day_of(r.last_ts), types::day_of(now)))
                &&& e.values["change_count"@] == ValueModel::Count(r.change_count)
                &&& e.values["changes_per_year"@] == ValueModel::PerYear(r.change_count, types::days_from(types::day_of(r.first_ts), types::day_of(now)))
            }),
{
    let s = ages(rows, now);
    let ranked = order::sort_ranked::<FileAge>(ages(rows, now));
    let x = ranked[i];
    order::sort_same_members::<FileAge>(ages(rows, now));
    order::sort_keeps_elements::<FileAge>(ages(rows, now));
    assert(ranked.contains(x));
    assert(s.contains(x));
    lemma_ages(rows, now, x);
    assert(age_report(rows, now).entries[i] == FileAge::entry(x));
    let k = choose|k: int| 0 <= k < rows.len() && !(#[trigger] rows[k]).ever_deleted && x == aged(rows[k], now);
    assert(rows[k] == rows[k]);
    reveal_strlit("age_days");
    reveal_strlit("first_seen");
    reveal_strlit("last_modified");
    reveal_strlit("days_since_last_change");
    reveal_strlit("change_count");
    reveal_strlit("changes_per_year");
    assert("age_days"@.len() != "first_seen"@.len());
    assert("age_days"@.len() != "last_modified"@.len());
    assert("age_days"@.len() != "days_since_last_change"@.len());
    assert("age_days"@.len() != "change_count"@.len());
    assert("age_days"@.len() != "changes_per_year"@.len());
    assert("first_seen"@.len() != "last_modified"@.len());
    assert("first_seen"@.len() != "days_since_last_change"@.len());
    assert("first_seen"@.len() != "change_count"@.len());
    assert("first_seen"@.len() != "changes_per_year"@.len());
    assert("last_modified"@.len() != "days_since_last_change"@.len());
    assert("last_modified"@.len() != "change_count"@.len());
    assert("last_modified"@.len() != "changes_per_year"@.len());
    assert("days_since_last_change"@.len() != "change_count"@.len());
    assert("days_since_last_change"@.len() != "changes_per_year"@.len());
    assert("change_count"@.len() != "changes_per_year"@.len());
}

/// The files that change most often stand first.
pub proof fn most_often_changed_first(rows: Seq<FileSpanModel>, now: int, i: int, j: int)
    requires
        0 <= i < j < age_report(rows, now).entries.len(),
    ensures
        ({
            let a = age_report(rows, now).entries[i].values;
            let b = age_report(rows, now).entries[j].values;
            !double::less(double::per_year(a["change_count"@]->Count_0, a["age_days"@]->Count_0), double::per_year(b["change_count"@]->Count_0, b["age_days"@]->Count_0))
        }),
{
    let ranked = order::sort_ranked::<FileAge>(ages(rows, now));
    order::sort_orders::<FileAge>(ages(rows, now));
    assert(age_report(rows, now).entries[i] == FileAge::entry(ranked[i]));
    assert(age_report(rows, now).entries[j] == FileAge::entry(ranked[j]));
    assert(FileAge::le(ranked[i], ranked[j]));
    reveal_strlit("age_days");
    reveal_strlit("first_seen");
    reveal_strlit("last_modified");
    reveal_strlit("days_since_last_change");
    reveal_strlit("change_count");
    reveal_strlit("changes_per_year");
    assert("age_days"@.len() != "first_seen"@.len());
    assert("age_days"@.len() != "last_modified"@.len());
    assert("age_days"@.len() != "days_since_last_change"@.len());
    assert("age_days"@.len() != "change_count"@.len());
    assert("age_days"@.len() != "changes_per_year"@.len());
    assert("first_seen"@.len() != "last_modified"@.len());
    assert("first_seen"@.len() != "days_since_last_change"@.len());
    assert("first_seen"@.len() != "change_count"@.len());
    assert("first_seen"@.len() != "changes_per_year"@.len());
    assert("last_modified"@.len() != "days_since_last_change"@.len());
    assert("last_modified"@.len() != "change_count"@.len());
    assert("last_modified"@.len() != "changes_per_year"@.len());
    assert("days_since_last_change"@.len() != "change_count"@.len());
    assert("days_since_last_change"@.len() != "changes_per_year"@.len());
    assert("change_count"@.len() != "changes_per_year"@.len());
}

/// The report has these columns, in this order.
pub proof fn the_columns_are_these(rows: Seq<FileSpanModel>, now: int)
    ensures
        age_report(rows, now).name == "age"@,
        age_report(rows, now).columns.len() == 6,
        age_report(rows, now).columns[0].value == "age_days"@,
        age_report(rows, now).columns[1].value == "first_seen"@,
        age_report(rows, now).columns[2].value == "last_modified"@,
        age_report(rows, now).columns[3].value == "days_since_last_change"@,
        age_report(rows, now).columns[4].value == "change_count"@,
        age_report(rows, now).columns[5].value == "changes_per_year"@,
{
}

} // verus!
