//! Commits and changed lines per week and per month.

use vstd::prelude::*;

use crate::order;
use crate::order::Ranked;
use crate::report;
use crate::report::Row;
use crate::text;
use crate::types;
use crate::types::{EntryGroup, EntryModel, GroupModel, MetricEntry, MetricResult, MetricValue, ResultModel, ValueModel, Values};

verus! {

/// What was committed in one week or month.
#[derive(Debug)]
pub struct Period {
    pub label: String,
    pub commits: u64,
    pub lines: u64,
}

pub struct PeriodModel {
    pub label: Seq<char>,
    pub commits: int,
    pub lines: int,
}

impl View for Period {
    type V = PeriodModel;

    open spec fn view(&self) -> PeriodModel {
        PeriodModel {
            label: self.label@,
            commits: self.commits as int,
            lines: self.lines as int,
        }
    }
}

/// The period whose label comes first in the alphabet first.
impl Ranked for Period {
    open spec fn le(a: PeriodModel, b: PeriodModel) -> bool {
        text::text_le(a.label, b.label)
    }

    proof fn le_total(a: PeriodModel, b: PeriodModel) {
        text::text_le_total(a.label, b.label);
    }

    proof fn le_transitive(a: PeriodModel, b: PeriodModel, c: PeriodModel) {
        text::text_le_transitive(a.label, b.label, c.label);
    }

    fn not_after(&self, other: &Period) -> (r: bool) {
        text::text_not_after(self.label.as_str(), other.label.as_str())
    }
}

impl Row for Period {
    open spec fn entry(p: PeriodModel) -> EntryModel {
        EntryModel {
            key: p.label,
            values: Map::empty().insert(
                "commits"@,
                ValueModel::Count(p.commits),
            ).insert(
                "lines_changed"@,
                ValueModel::Count(p.lines),
            ),
        }
    }

    fn to_entry(self) -> (r: MetricEntry) {
        let mut values = Values::new();
        values.insert("commits", MetricValue::Count(self.commits));
        values.insert("lines_changed", MetricValue::Count(self.lines));
        MetricEntry { key: self.label, values }
    }
}

pub open spec fn velocity_columns() -> Seq<Seq<char>> {
    seq![
        "commits"@,
        "lines_changed"@,
    ]
}

pub open spec fn velocity_report(weekly: Seq<PeriodModel>, monthly: Seq<PeriodModel>) -> ResultModel {
    types::grouped_report_of(
        "commit_velocity"@,
        velocity_columns(),
        seq![
            GroupModel {
                name: "weekly"@,
                label: "Weekly"@,
                entries: report::entries_of::<Period>(order::sort_ranked::<Period>(weekly)),
            },
            GroupModel {
                name: "monthly"@,
                label: "Monthly"@,
                entries: report::entries_of::<Period>(order::sort_ranked::<Period>(monthly)),
            },
        ],
    )
}

pub struct CommitVelocityCollector;

impl Default for CommitVelocityCollector {
    fn default() -> (r: Self)
        ensures
            r == (CommitVelocityCollector {  }),
    {
        CommitVelocityCollector::new()
    }
}

impl CommitVelocityCollector {
    pub fn new() -> (r: Self)
        ensures
            r == (CommitVelocityCollector {  }),
    {
        CommitVelocityCollector
    }

    pub fn name(&self) -> (r: &str)
        ensures
            r@ == "commit_velocity"@,
    {
        "commit_velocity"
    }

    /// The report without any rows to draw on.
    pub fn finalize(&mut self) -> (r: MetricResult)
        ensures
            r@ == types::empty_report("commit_velocity"@),
    {
        MetricResult::empty("commit_velocity")
    }

    /// The report, given the weeks and the months.
    pub fn finalize_from_rows(&mut self, weekly: Vec<Period>, monthly: Vec<Period>) -> (r:
        MetricResult)
        ensures
            r@ == velocity_report(order::models(weekly@), order::models(monthly@)),
    {
        let ghost ws = order::models(weekly@);
        let ghost ms = order::models(monthly@);
        let mut groups: Vec<EntryGroup> = Vec::new();
        groups.push(EntryGroup::of("weekly", "Weekly", report::to_entries(order::sort_rows(weekly))));
        groups.push(EntryGroup::of("monthly", "Monthly", report::to_entries(order::sort_rows(monthly))));
        let columns = [
            "commits",
            "lines_changed",
        ];
        proof {
            assert(types::str_views(columns@) =~= velocity_columns());
        }
        proof {
            assert(types::group_models(groups@) =~= velocity_report(ws, ms).groups);
        }
        MetricResult::grouped("commit_velocity", &columns, groups)
    }
}

/// Every week is shown with its commits and the lines they changed.
pub proof fn every_week_is_shown(weekly: Seq<PeriodModel>, monthly: Seq<PeriodModel>, k: int)
    requires
        0 <= k < weekly.len(),
    ensures
        exists|i: int|
            0 <= i < velocity_report(weekly, monthly).groups[0].entries.len() && ({
                let e = #[trigger] velocity_report(weekly, monthly).groups[0].entries[i];
                let r = weekly[k];
                &&& e.key == r.label
                &&& e.values["commits"@] == ValueModel::Count(r.commits)
                &&& e.values["lines_changed"@] == ValueModel::Count(r.lines)
            }),
{
    let s = weekly;
    let x = weekly[k];
    let ranked = order::sort_ranked::<Period>(weekly);
    assert(s[k] == x);
    order::sort_same_members::<Period>(weekly);
    order::sort_keeps_elements::<Period>(weekly);
    assert(s.contains(x));
    assert(ranked.contains(x));
    let i = choose|i: int| 0 <= i < ranked.len() && ranked[i] == x;
    assert(velocity_report(weekly, monthly).groups[0].entries[i] == Period::entry(x));
    reveal_strlit("commits");
    reveal_strlit("lines_changed");
    assert("commits"@.len() != "lines_changed"@.len());
}

/// Whatever is shown of the weeks is one of them.
pub proof fn only_weeks_are_shown(weekly: Seq<PeriodModel>, monthly: Seq<PeriodModel>, i: int)
    requires
        0 <= i < velocity_report(weekly, monthly).groups[0].entries.len(),
    ensures
        exists|k: int|
            0 <= k < weekly.len() && ({
                let e = velocity_report(weekly, monthly).groups[0].entries[i];
                let r = #[trigger] weekly[k];
                &&& e.key == r.label
                &&& e.values["commits"@] == ValueModel::Count(r.commits)
                &&& e.values["lines_changed"@] == ValueModel::Count(r.lines)
            }),
{
    let s = weekly;
    let ranked = order::sort_ranked::<Period>(weekly);
    let x = ranked[i];
    order::sort_same_members::<Period>(weekly);
    order::sort_keeps_elements::<Period>(weekly);
    assert(ranked.contains(x));
    assert(s.contains(x));
    assert(velocity_report(weekly, monthly).groups[0].entries[i] == Period::entry(x));
    let k = choose|k: int| 0 <= k < s.len() && s[k] == x;
    assert(weekly[k] == weekly[k]);
    reveal_strlit("commits");
    reveal_strlit("lines_changed");
    assert("commits"@.len() != "lines_changed"@.len());
}

/// Every month is shown with its commits and the lines they changed.
pub proof fn every_month_is_shown(weekly: Seq<PeriodModel>, monthly: Seq<PeriodModel>, k: int)
    requires
        0 <= k < monthly.len(),
    ensures
        exists|i: int|
            0 <= i < velocity_report(weekly, monthly).groups[1].entries.len() && ({
                let e = #[trigger] velocity_report(weekly, monthly).groups[1].entries[i];
                let r = monthly[k];
                &&& e.key == r.label
                &&& e.values["commits"@] == ValueModel::Count(r.commits)
                &&& e.values["lines_changed"@] == ValueModel::Count(r.lines)
            }),
{
    let s = monthly;
    let x = monthly[k];
    let ranked = order::sort_ranked::<Period>(monthly);
    assert(s[k] == x);
    order::sort_same_members::<Period>(monthly);
    order::sort_keeps_elements::<Period>(monthly);
    assert(s.contains(x));
    assert(ranked.contains(x));
    let i = choose|i: int| 0 <= i < ranked.len() && ranked[i] == x;
    assert(velocity_report(weekly, monthly).groups[1].entries[i] == Period::entry(x));
    reveal_strlit("commits");
    reveal_strlit("lines_changed");
    assert("commits"@.len() != "lines_changed"@.len());
}

/// Whatever is shown of the months is one of them.
pub proof fn only_months_are_shown(weekly: Seq<PeriodModel>, monthly: Seq<PeriodModel>, i: int)
    requires
        0 <= i < velocity_report(weekly, monthly).groups[1].entries.len(),
    ensures
        exists|k: int|
            0 <= k < monthly.len() && ({
                let e = velocity_report(weekly, monthly).groups[1].entries[i];
                let r = #[trigger] monthly[k];
                &&& e.key == r.label
                &&& e.values["commits"@] == ValueModel::Count(r.commits)
                &&& e.values["lines_changed"@] == ValueModel::Count(r.lines)
            }),
{
    let s = monthly;
    let ranked = order::sort_ranked::<Period>(monthly);
    let x = ranked[i];
    order::sort_same_members::<Period>(monthly);
    order::sort_keeps_elements::<Period>(monthly);
    assert(ranked.contains(x));
    assert(s.contains(x));
    assert(velocity_report(weekly, monthly).groups[1].entries[i] == Period::entry(x));
    let k = choose|k: int| 0 <= k < s.len() && s[k] == x;
    assert(monthly[k] == monthly[k]);
    reveal_strlit("commits");
    reveal_strlit("lines_changed");
    assert("commits"@.len() != "lines_changed"@.len());
}

/// Weeks and months stand in the order of their labels.
pub proof fn periods_ascend(weekly: Seq<PeriodModel>, monthly: Seq<PeriodModel>, g: int, i: int, j: int)
    requires
        0 <= g < 2,
        0 <= i < j < velocity_report(weekly, monthly).groups[g].entries.len(),
    ensures
        velocity_report(weekly, monthly).groups.len() == 2,
        text::text_le(
            velocity_report(weekly, monthly).groups[g].entries[i].key,
            velocity_report(weekly, monthly).groups[g].entries[j].key,
        ),
{
    let s = if g == 0 {
        weekly
    } else {
        monthly
    };
    order::sort_orders::<Period>(s);
    let ranked = order::sort_ranked::<Period>(s);
    assert(velocity_report(weekly, monthly).groups[g].entries[i] == Period::entry(ranked[i]));
    assert(velocity_report(weekly, monthly).groups[g].entries[j] == Period::entry(ranked[j]));
    assert(Period::le(ranked[i], ranked[j]));
}

/// The report has these columns, in this order.
pub proof fn the_columns_are_these(weekly: Seq<PeriodModel>, monthly: Seq<PeriodModel>)
    ensures
        velocity_report(weekly, monthly).name == "commit_velocity"@,
        velocity_report(weekly, monthly).columns.len() == 2,
        velocity_report(weekly, monthly).columns[0].value == "commits"@,
        velocity_report(weekly, monthly).columns[1].value == "lines_changed"@,
{
}

} // verus!
