//! When commits are made: by hour and by day of the week.

use vstd::prelude::*;

use crate::fold;
use crate::order;
use crate::report;
use crate::report::Row;
use crate::text;
use crate::types;
use crate::types::{EntryGroup, EntryModel, GroupModel, MetricEntry, MetricResult, MetricValue, ResultModel, ValueModel, Values};

verus! {

/// How many commits were made at an hour of a weekday, where day 0 is Sunday.
#[derive(Debug)]
pub struct HourOfDay {
    pub hour: i64,
    pub dow: i64,
    pub commits: u64,
}

/// The hour, moved into the day.
pub open spec fn hour_slot(r: HourOfDay) -> int {
    if r.hour < 0 {
        0
    } else if r.hour > 23 {
        23
    } else {
        r.hour as int
    }
}

/// The place of the day in a week that starts on Monday.
pub open spec fn day_slot(r: HourOfDay) -> int {
    if r.dow == 0 {
        6
    } else {
        r.dow - 1
    }
}

pub open spec fn commits_of() -> spec_fn(HourOfDay) -> nat {
    |r: HourOfDay| r.commits as nat
}

pub open spec fn in_hour(h: int) -> spec_fn(HourOfDay) -> nat {
    |r: HourOfDay|
        if hour_slot(r) == h {
            r.commits as nat
        } else {
            0
        }
}

pub open spec fn in_day(d: int) -> spec_fn(HourOfDay) -> nat {
    |r: HourOfDay|
        if day_slot(r) == d {
            r.commits as nat
        } else {
            0
        }
}

/// The sum of the first `n` values of `f`.
pub open spec fn slots_sum(f: spec_fn(int) -> nat, n: int) -> nat
    decreases n,
{
    if n <= 0 {
        0
    } else {
        slots_sum(f, n - 1) + f(n - 1)
    }
}

/// The days of the rows are days of the week.
pub open spec fn days_ok(rows: Seq<HourOfDay>) -> bool {
    forall|i: int| 0 <= i < rows.len() ==> 0 <= (#[trigger] rows[i]).dow <= 7
}

pub open spec fn hour_totals(rows: Seq<HourOfDay>) -> spec_fn(int) -> nat {
    |h: int| fold::total(rows, in_hour(h))
}

pub open spec fn day_totals(rows: Seq<HourOfDay>) -> spec_fn(int) -> nat {
    |d: int| fold::total(rows, in_day(d))
}

proof fn lemma_slot_added(f: spec_fn(int) -> nat, g: spec_fn(int) -> nat, at: int, extra: nat, n: int)
    requires
        forall|k: int| 0 <= k ==> #[trigger] g(k) == f(k) + if k == at {
            extra
        } else {
            0
        },
        0 <= at,
    ensures
        slots_sum(g, n) == slots_sum(f, n) + if at < n {
            extra
        } else {
            0
        },
    decreases n,
{
    if n > 0 {
        lemma_slot_added(f, g, at, extra, n - 1);
    }
}

proof fn lemma_no_slots(f: spec_fn(int) -> nat, n: int)
    requires
        forall|k: int| #[trigger] f(k) == 0,
    ensures
        slots_sum(f, n) == 0,
    decreases n,
{
    if n > 0 {
        lemma_no_slots(f, n - 1);
    }
}

/// Every commit counts in one hour and in one day.
pub proof fn each_commit_counts_once(rows: Seq<HourOfDay>)
    requires
        days_ok(rows),
    ensures
        slots_sum(hour_totals(rows), 24) == fold::total(rows, commits_of()),
        slots_sum(day_totals(rows), 7) == fold::total(rows, commits_of()),
    decreases rows.len(),
{
    if rows.len() == 0 {
        lemma_no_slots(hour_totals(rows), 24);
        lemma_no_slots(day_totals(rows), 7);
    } else {
        let init = rows.drop_last();
        assert forall|i: int| 0 <= i < init.len() implies 0 <= (#[trigger] init[i]).dow <= 7 by {
            assert(init[i] == rows[i]);
        }
        each_commit_counts_once(init);
        let last = rows.last();
        assert(last == rows[rows.len() - 1]);
        lemma_slot_added(
            hour_totals(init),
            hour_totals(rows),
            hour_slot(last),
            last.commits as nat,
            24,
        );
        lemma_slot_added(
            day_totals(init),
            day_totals(rows),
            day_slot(last),
            last.commits as nat,
            7,
        );
    }
}

proof fn lemma_slot_within(rows: Seq<HourOfDay>, h: int, d: int)
    ensures
        fold::total(rows, in_hour(h)) <= fold::total(rows, commits_of()),
        fold::total(rows, in_day(d)) <= fold::total(rows, commits_of()),
    decreases rows.len(),
{
    if rows.len() > 0 {
        lemma_slot_within(rows.drop_last(), h, d);
    }
}

/// `hh:00`.
pub open spec fn hour_label(h: int) -> Seq<char> {
    (if h < 10 {
        "0"@
    } else {
        Seq::empty()
    }) + text::decimal(h as nat) + ":00"@
}

fn label_of_hour(h: u64) -> (r: String)
    ensures
        r@ == hour_label(h as int),
{
    let digits = text::decimal_text(h);
    if h < 10 {
        text::cat3("0", digits.as_str(), ":00")
    } else {
        proof {
            assert(Seq::<char>::empty() + text::decimal(h as nat) =~= text::decimal(h as nat));
        }
        text::cat(digits.as_str(), ":00")
    }
}

pub open spec fn day_names() -> Seq<Seq<char>> {
    seq!["Mon"@, "Tue"@, "Wed"@, "Thu"@, "Fri"@, "Sat"@, "Sun"@]
}

/// A row of either group.
pub struct Slot {
    pub key: String,
    pub place: u64,
    pub commits: u64,
}

pub struct SlotModel {
    pub key: Seq<char>,
    pub place: int,
    pub commits: int,
}

impl View for Slot {
    type V = SlotModel;

    open spec fn view(&self) -> SlotModel {
        SlotModel {
            key: self.key@,
            place: self.place as int,
            commits: self.commits as int,
        }
    }
}

impl Row for Slot {
    open spec fn entry(s: SlotModel) -> EntryModel {
        EntryModel {
            key: s.key,
            values: Map::empty().insert(
                "order"@,
                ValueModel::Count(s.place),
            ).insert(
                "commits"@,
                ValueModel::Count(s.commits),
            ),
        }
    }

    fn to_entry(self) -> (r: MetricEntry) {
        let mut values = Values::new();
        values.insert("order", MetricValue::Count(self.place));
        values.insert("commits", MetricValue::Count(self.commits));
        MetricEntry { key: self.key, values }
    }
}

pub open spec fn pattern_columns() -> Seq<Seq<char>> {
    seq![
        "order"@,
        "commits"@,
    ]
}

pub open spec fn hourly_slots(rows: Seq<HourOfDay>) -> Seq<SlotModel> {
    Seq::new(
        24,
        |h: int|
            SlotModel {
                key: hour_label(h),
                place: h,
                commits: fold::total(rows, in_hour(h)) as int,
            },
    )
}

pub open spec fn daily_slots(rows: Seq<HourOfDay>) -> Seq<SlotModel> {
    Seq::new(
        7,
        |d: int|
            SlotModel {
                key: day_names()[d],
                place: d + 1,
                commits: fold::total(rows, in_day(d)) as int,
            },
    )
}

pub open spec fn pattern_report(rows: Seq<HourOfDay>) -> ResultModel {
    types::grouped_report_of(
        "patterns"@,
        pattern_columns(),
        seq![
            GroupModel {
                name: "hourly"@,
                label: "Hourly"@,
                entries: report::entries_of::<Slot>(hourly_slots(rows)),
            },
            GroupModel {
                name: "daily"@,
                label: "Daily"@,
                entries: report::entries_of::<Slot>(daily_slots(rows)),
            },
        ],
    )
}

fn zeros(n: usize) -> (r: Vec<u64>)
    ensures
        r@.len() == n,
        forall|k: int| 0 <= k < n ==> #[trigger] r@[k] == 0,
{
    let mut out: Vec<u64> = Vec::new();
    let mut i: usize = 0;
    while i < n
        invariant
            i <= n,
            out@.len() == i,
            forall|k: int| 0 <= k < i ==> #[trigger] out@[k] == 0,
        decreases n - i,
    {
        out.push(0);
        i += 1;
    }
    out
}

fn bucket(rows: &[HourOfDay]) -> (r: (Vec<u64>, Vec<u64>))
    requires
        days_ok(rows@),
        fold::total(rows@, commits_of()) <= u64::MAX,
    ensures
        r.0@.len() == 24,
        r.1@.len() == 7,
        forall|h: int| 0 <= h < 24 ==> #[trigger] r.0@[h] == fold::total(rows@, in_hour(h)),
        forall|d: int| 0 <= d < 7 ==> #[trigger] r.1@[d] == fold::total(rows@, in_day(d)),
{
    let mut hourly = zeros(24);
    let mut daily = zeros(7);
    let ghost all = rows@;
    let n: usize = rows.len();
    let mut i: usize = 0;
    proof {
        assert(all.take(0).len() == 0);
    }
    while i < n
        invariant
            n == rows@.len(),
            i <= n,
            all == rows@,
            days_ok(all),
            fold::total(all, commits_of()) <= u64::MAX,
            hourly@.len() == 24,
            daily@.len() == 7,
            forall|h: int|
                0 <= h < 24 ==> #[trigger] hourly@[h] == fold::total(all.take(i as int), in_hour(h)),
            forall|d: int|
                0 <= d < 7 ==> #[trigger] daily@[d] == fold::total(all.take(i as int), in_day(d)),
        decreases n - i,
    {
        let r = &rows[i];
        let h: usize = if r.hour < 0 {
            0
        } else if r.hour > 23 {
            23
        } else {
            r.hour as usize
        };
        let d: usize = if r.dow == 0 {
            6
        } else {
            (r.dow - 1) as usize
        };
        proof {
            assert(all[i as int].dow <= 7);
            fold::lemma_total_step(all, commits_of(), i as int);
            assert(all.take(i + 1).drop_last() =~= all.take(i as int));
            lemma_slot_within(all.take(i as int), h as int, d as int);
        }
        let more: u64 = hourly[h] + r.commits;
        hourly[h] = more;
        let more: u64 = daily[d] + r.commits;
        daily[d] = more;
        i += 1;
    }
    proof {
        assert(all.take(n as int) =~= all);
    }
    (hourly, daily)
}

pub struct PatternsCollector;

impl Default for PatternsCollector {
    fn default() -> (r: Self)
        ensures
            r == (PatternsCollector {  }),
    {
        PatternsCollector::new()
    }
}

impl PatternsCollector {
    pub fn new() -> (r: Self)
        ensures
            r == (PatternsCollector {  }),
    {
        PatternsCollector
    }

    pub fn name(&self) -> (r: &str)
        ensures
            r@ == "patterns"@,
    {
        "patterns"
    }

    /// The report without any rows to draw on.
    pub fn finalize(&mut self) -> (r: MetricResult)
        ensures
            r@ == types::empty_report("patterns"@),
    {
        MetricResult::empty("patterns")
    }

    /// The report, given the commits of each hour of each weekday. They number
    /// at most `u64::MAX` in all.
    pub fn finalize_from_rows(&mut self, rows: &[HourOfDay]) -> (r: MetricResult)
        requires
            days_ok(rows@),
            fold::total(rows@, commits_of()) <= u64::MAX,
        ensures
            r@ == pattern_report(rows@),
    {
        let (hourly, daily) = bucket(rows);
        let mut hours: Vec<Slot> = Vec::new();
        let mut h: usize = 0;
        while h < 24
            invariant
                h <= 24,
                hourly@.len() == 24,
                forall|k: int|
                    0 <= k < 24 ==> #[trigger] hourly@[k] == fold::total(rows@, in_hour(k)),
                hours@.len() == h,
                forall|k: int|
                    0 <= k < h ==> (#[trigger] hours@[k])@ == hourly_slots(rows@)[k],
            decreases 24 - h,
        {
            hours.push(
                Slot { key: label_of_hour(h as u64), place: h as u64, commits: hourly[h] },
            );
            h += 1;
        }
        let names = ["Mon", "Tue", "Wed", "Thu", "Fri", "Sat", "Sun"];
        proof {
            assert(types::str_views(names@) =~= day_names());
        }
        let mut days: Vec<Slot> = Vec::new();
        let mut d: usize = 0;
        while d < 7
            invariant
                d <= 7,
                daily@.len() == 7,
                types::str_views(names@) == day_names(),
                forall|k: int|
                    0 <= k < 7 ==> #[trigger] daily@[k] == fold::total(rows@, in_day(k)),
                days@.len() == d,
                forall|k: int| 0 <= k < d ==> (#[trigger] days@[k])@ == daily_slots(rows@)[k],
            decreases 7 - d,
        {
            proof {
                assert(types::str_views(names@)[d as int] == names@[d as int]@);
            }
            days.push(
                Slot { key: text::copy_text(names[d]), place: d as u64 + 1, commits: daily[d] },
            );
            d += 1;
        }
        proof {
            assert(order::models(hours@) =~= hourly_slots(rows@));
            assert(order::models(days@) =~= daily_slots(rows@));
        }
        let mut groups: Vec<EntryGroup> = Vec::new();
        groups.push(EntryGroup::of("hourly", "Hourly", report::to_entries(hours)));
        groups.push(EntryGroup::of("daily", "Daily", report::to_entries(days)));
        let columns = [
            "order",
            "commits",
        ];
        proof {
            assert(types::str_views(columns@) =~= pattern_columns());
        }
        proof {
            assert(types::group_models(groups@) =~= pattern_report(rows@).groups);
        }
        MetricResult::grouped("patterns", &columns, groups)
    }
}

/// The commits of one hour.
pub open spec fn at_hour(h: int) -> spec_fn(HourOfDay) -> nat {
    |r: HourOfDay|
        if r.hour == h {
            r.commits as nat
        } else {
            0
        }
}

/// The commits of one day of the week, which Sunday starts or ends.
pub open spec fn on_day(d: int) -> spec_fn(HourOfDay) -> nat {
    |r: HourOfDay|
        if r.dow == d || (d == 7 && r.dow == 0) {
            r.commits as nat
        } else {
            0
        }
}

/// Each hour shows the commits that were made in it.
pub proof fn hours_show_their_commits(rows: Seq<HourOfDay>, h: int)
    requires
        forall|i: int| 0 <= i < rows.len() ==> 0 <= (#[trigger] rows[i]).hour <= 23,
        0 <= h < 24,
    ensures
        ({
            let g = pattern_report(rows).groups[0];
            &&& pattern_report(rows).groups.len() == 2
            &&& g.name == "hourly"@
            &&& g.entries.len() == 24
            &&& h < 10 ==> g.entries[h].key == "0"@ + text::decimal(h as nat) + ":00"@
            &&& h >= 10 ==> g.entries[h].key == text::decimal(h as nat) + ":00"@
            &&& g.entries[h].values["order"@] == ValueModel::Count(h)
            &&& g.entries[h].values["commits"@] == ValueModel::Count(
                fold::total(rows, at_hour(h)) as int,
            )
        }),
{
    fold::total_agrees(rows, in_hour(h), at_hour(h));
    let g = pattern_report(rows).groups[0];
    assert(g.entries[h] == Slot::entry(hourly_slots(rows)[h]));
    assert(Seq::<char>::empty() + text::decimal(h as nat) =~= text::decimal(h as nat));
    reveal_strlit("order");
    reveal_strlit("commits");
    assert("order"@.len() != "commits"@.len());
}

/// An hour before the day counts as its first, one after it as its last.
pub proof fn hours_stay_in_the_day(r: HourOfDay)
    ensures
        0 <= hour_slot(r) <= 23,
        r.hour < 0 ==> hour_slot(r) == 0,
        r.hour > 23 ==> hour_slot(r) == 23,
{
}

/// Each day of the week, Monday first, shows the commits that were made on it;
/// Sunday is the day before the first or after the sixth.
pub proof fn days_show_their_commits(rows: Seq<HourOfDay>, d: int)
    requires
        days_ok(rows),
        0 <= d < 7,
    ensures
        ({
            let g = pattern_report(rows).groups[1];
            &&& g.name == "daily"@
            &&& g.entries.len() == 7
            &&& d == 0 ==> g.entries[d].key == "Mon"@
            &&& d == 1 ==> g.entries[d].key == "Tue"@
            &&& d == 2 ==> g.entries[d].key == "Wed"@
            &&& d == 3 ==> g.entries[d].key == "Thu"@
            &&& d == 4 ==> g.entries[d].key == "Fri"@
            &&& d == 5 ==> g.entries[d].key == "Sat"@
            &&& d == 6 ==> g.entries[d].key == "Sun"@
            &&& g.entries[d].values["order"@] == ValueModel::Count(d + 1)
            &&& g.entries[d].values["commits"@] == ValueModel::Count(
                fold::total(rows, on_day(d + 1)) as int,
            )
        }),
{
    fold::total_agrees(rows, in_day(d), on_day(d + 1));
    let g = pattern_report(rows).groups[1];
    assert(g.entries[d] == Slot::entry(daily_slots(rows)[d]));
    reveal_strlit("order");
    reveal_strlit("commits");
    assert("order"@.len() != "commits"@.len());
}

/// The report has these columns, in this order.
pub proof fn the_columns_are_these(rows: Seq<HourOfDay>)
    ensures
        pattern_report(rows).name == "patterns"@,
        pattern_report(rows).columns.len() == 2,
        pattern_report(rows).columns[0].value == "order"@,
        pattern_report(rows).columns[1].value == "commits"@,
{
}

} // verus!
