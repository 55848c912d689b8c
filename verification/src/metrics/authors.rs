//! Commit counts and contribution per author.

use vstd::prelude::*;

use crate::order;
use crate::order::Ranked;
use crate::report;
use crate::report::Row;
use crate::types;
use crate::types::{EntryModel, MetricEntry, MetricResult, MetricValue, ResultModel, ValueModel, Values};

verus! {

/// What an author did in all.
#[derive(Debug)]
pub struct AuthorActivity {
    pub email: String,
    pub commits: u64,
    pub lines_added: u64,
    pub lines_deleted: u64,
    pub active_days: u64,
    pub first_ts: i64,
    pub last_ts: i64,
}

pub struct AuthorActivityModel {
    pub email: Seq<char>,
    pub commits: int,
    pub lines_added: int,
    pub lines_deleted: int,
    pub active_days: int,
    pub first_ts: int,
    pub last_ts: int,
}

impl View for AuthorActivity {
    type V = AuthorActivityModel;

    open spec fn view(&self) -> AuthorActivityModel {
        AuthorActivityModel {
            email: self.email@,
            commits: self.commits as int,
            lines_added: self.lines_added as int,
            lines_deleted: self.lines_deleted as int,
            active_days: self.active_days as int,
            first_ts: self.first_ts as int,
            last_ts: self.last_ts as int,
        }
    }
}

/// Whoever made more commits first.
impl Ranked for AuthorActivity {
    open spec fn le(a: AuthorActivityModel, b: AuthorActivityModel) -> bool {
        a.commits >= b.commits
    }

    proof fn le_total(a: AuthorActivityModel, b: AuthorActivityModel) {
    }

    proof fn le_transitive(
        a: AuthorActivityModel,
        b: AuthorActivityModel,
        c: AuthorActivityModel,
    ) {
    }

    fn not_after(&self, other: &AuthorActivity) -> (r: bool) {
        self.commits >= other.commits
    }
}

impl Row for AuthorActivity {
    open spec fn entry(a: AuthorActivityModel) -> EntryModel {
        EntryModel {
            key: a.email,
            values: Map::empty().insert("commits"@, ValueModel::Count(a.commits)).insert(
                "lines_added"@,
                ValueModel::Count(a.lines_added),
            ).insert("lines_deleted"@, ValueModel::Count(a.lines_deleted)).insert(
                "active_days"@,
                ValueModel::Count(a.active_days),
            ).insert("first_commit"@, ValueModel::Date(types::day_of(a.first_ts))).insert(
                "last_commit"@,
                ValueModel::Date(types::day_of(a.last_ts)),
            ),
        }
    }

    fn to_entry(self) -> (r: MetricEntry) {
        let mut values = Values::new();
        values.insert("commits", MetricValue::Count(self.commits));
        values.insert("lines_added", MetricValue::Count(self.lines_added));
        values.insert("lines_deleted", MetricValue::Count(self.lines_deleted));
        values.insert("active_days", MetricValue::Count(self.active_days));
        values.insert("first_commit", MetricValue::Date(types::ts_to_date(self.first_ts)));
        values.insert("last_commit", MetricValue::Date(types::ts_to_date(self.last_ts)));
        MetricEntry { key: self.email, values }
    }
}

pub open spec fn author_columns() -> Seq<Seq<char>> {
    seq![
        "commits"@,
        "lines_added"@,
        "lines_deleted"@,
        "active_days"@,
        "first_commit"@,
        "last_commit"@,
    ]
}

pub open spec fn author_report(rows: Seq<AuthorActivityModel>) -> ResultModel {
    types::report_of(
        "authors"@,
        author_columns(),
        report::entries_of::<AuthorActivity>(order::sort_ranked::<AuthorActivity>(rows)),
    )
}

pub struct AuthorsCollector;

impl Default for AuthorsCollector {
    fn default() -> (r: Self)
        ensures
            r == (AuthorsCollector {  }),
    {
        AuthorsCollector::new()
    }
}

impl AuthorsCollector {
    pub fn new() -> (r: Self)
        ensures
            r == (AuthorsCollector {  }),
    {
        AuthorsCollector
    }

    pub fn name(&self) -> (r: &str)
        ensures
            r@ == "authors"@,
    {
        "authors"
    }

    /// The report without any rows to draw on.
    pub fn finalize(&mut self) -> (r: MetricResult)
        ensures
            r@ == types::empty_report("authors"@),
    {
        MetricResult::empty("authors")
    }

    /// The report, given one row per author: whoever made more commits comes
    /// first.
    pub fn finalize_from_rows(&mut self, rows: Vec<AuthorActivity>) -> (r: MetricResult)
        ensures
            r@ == author_report(order::models(rows@)),
    {
        let entries = report::to_entries(order::sort_rows(rows));
        let columns = [
            "commits",
            "lines_added",
            "lines_deleted",
            "active_days",
            "first_commit",
            "last_commit",
        ];
        proof {
            assert(types::str_views(columns@) =~= author_columns());
        }
        MetricResult::report("authors", &columns, entries)
    }
}

/// Every author is shown with what they did.
pub proof fn every_author_is_shown(rows: Seq<AuthorActivityModel>, k: int)
    requires
        0 <= k < rows.len(),
    ensures
        exists|i: int|
            0 <= i < author_report(rows).entries.len() && ({
                let e = #[trigger] author_report(rows).entries[i];
                let r = rows[k];
                &&& e.key == r.email
                &&& e.values["commits"@] == ValueModel::Count(r.commits)
                &&& e.values["lines_added"@] == ValueModel::Count(r.lines_added)
                &&& e.values["lines_deleted"@] == ValueModel::Count(r.lines_deleted)
                &&& e.values["active_days"@] == ValueModel::Count(r.active_days)
                &&& e.values["first_commit"@] == ValueModel::Date(types::day_of(r.first_ts))
                &&& e.values["last_commit"@] == ValueModel::Date(types::day_of(r.last_ts))
            }),
{
    let s = rows;
    let x = rows[k];
    let ranked = order::sort_ranked::<AuthorActivity>(rows);
    assert(s[k] == x);
    order::sort_same_members::<AuthorActivity>(rows);
    order::sort_keeps_elements::<AuthorActivity>(rows);
    assert(s.contains(x));
    assert(ranked.contains(x));
    let i = choose|i: int| 0 <= i < ranked.len() && ranked[i] == x;
    assert(author_report(rows).entries[i] == AuthorActivity::entry(x));
    reveal_strlit("commits");
    reveal_strlit("lines_added");
    reveal_strlit("lines_deleted");
    reveal_strlit("active_days");
    reveal_strlit("first_commit");
    reveal_strlit("last_commit");
    assert("commits"@.len() != "lines_added"@.len());
    assert("commits"@.len() != "lines_deleted"@.len());
    assert("commits"@.len() != "active_days"@.len());
    assert("commits"@.len() != "first_commit"@.len());
    assert("commits"@.len() != "last_commit"@.len());
    assert("lines_added"@.len() != "lines_deleted"@.len());
    assert("lines_added"@[0] != "active_days"@[0]);
    assert("lines_added"@.len() != "first_commit"@.len());
    assert("lines_added"@[1] != "last_commit"@[1]);
    assert("lines_deleted"@.len() != "active_days"@.len());
    assert("lines_deleted"@.len() != "first_commit"@.len());
    assert("lines_deleted"@.len() != "last_commit"@.len());
    assert("active_days"@.len() != "first_commit"@.len());
    assert("active_days"@[0] != "last_commit"@[0]);
    assert("first_commit"@.len() != "last_commit"@.len());
}

/// Whatever is shown is what an author did.
pub proof fn only_authors_are_shown(rows: Seq<AuthorActivityModel>, i: int)
    requires
        0 <= i < author_report(rows).entries.len(),
    ensures
        exists|k: int|
            0 <= k < rows.len() && ({
                let e = author_report(rows).entries[i];
                let r = #[trigger] rows[k];
                &&& e.key == r.email
                &&& e.values["commits"@] == ValueModel::Count(r.commits)
                &&& e.values["lines_added"@] == ValueModel::Count(r.lines_added)
                &&& e.values["lines_deleted"@] == ValueModel::Count(r.lines_deleted)
                &&& e.values["active_days"@] == ValueModel::Count(r.active_days)
                &&& e.values["first_commit"@] == ValueModel::Date(types::day_of(r.first_ts))
                &&& e.values["last_commit"@] == ValueModel::Date(types::day_of(r.last_ts))
            }),
{
    let s = rows;
    let ranked = order::sort_ranked::<AuthorActivity>(rows);
    let x = ranked[i];
    order::sort_same_members::<AuthorActivity>(rows);
    order::sort_keeps_elements::<AuthorActivity>(rows);
    assert(ranked.contains(x));
    assert(s.contains(x));
    assert(author_report(rows).entries[i] == AuthorActivity::entry(x));
    let k = choose|k: int| 0 <= k < s.len() && s[k] == x;
    assert(rows[k] == rows[k]);
    reveal_strlit("commits");
    reveal_strlit("lines_added");
    reveal_strlit("lines_deleted");
    reveal_strlit("active_days");
    reveal_strlit("first_commit");
    reveal_strlit("last_commit");
    assert("commits"@.len() != "lines_added"@.len());
    assert("commits"@.len() != "lines_deleted"@.len());
    assert("commits"@.len() != "active_days"@.len());
    assert("commits"@.len() != "first_commit"@.len());
    assert("commits"@.len() != "last_commit"@.len());
    assert("lines_added"@.len() != "lines_deleted"@.len());
    assert("lines_added"@[0] != "active_days"@[0]);
    assert("lines_added"@.len() != "first_commit"@.len());
    assert("lines_added"@[1] != "last_commit"@[1]);
    assert("lines_deleted"@.len() != "active_days"@.len());
    assert("lines_deleted"@.len() != "first_commit"@.len());
    assert("lines_deleted"@.len() != "last_commit"@.len());
    assert("active_days"@.len() != "first_commit"@.len());
    assert("active_days"@[0] != "last_commit"@[0]);
    assert("first_commit"@.len() != "last_commit"@.len());
}

/// The authors with the most commits stand first.
pub proof fn most_commits_first(rows: Seq<AuthorActivityModel>, i: int, j: int)
    requires
        0 <= i < j < author_report(rows).entries.len(),
    ensures
        ({
            let a = author_report(rows).entries[i].values;
            let b = author_report(rows).entries[j].values;
            a["commits"@]->Count_0 >= b["commits"@]->Count_0
        }),
{
    let ranked = order::sort_ranked::<AuthorActivity>(rows);
    order::sort_orders::<AuthorActivity>(rows);
    assert(author_report(rows).entries[i] == AuthorActivity::entry(ranked[i]));
    assert(author_report(rows).entries[j] == AuthorActivity::entry(ranked[j]));
    assert(AuthorActivity::le(ranked[i], ranked[j]));
    reveal_strlit("commits");
    reveal_strlit("lines_added");
    reveal_strlit("lines_deleted");
    reveal_strlit("active_days");
    reveal_strlit("first_commit");
    reveal_strlit("last_commit");
    assert("commits"@.len() != "lines_added"@.len());
    assert("commits"@.len() != "lines_deleted"@.len());
    assert("commits"@.len() != "active_days"@.len());
    assert("commits"@.len() != "first_commit"@.len());
    assert("commits"@.len() != "last_commit"@.len());
    assert("lines_added"@.len() != "lines_deleted"@.len());
    assert("lines_added"@[0] != "active_days"@[0]);
    assert("lines_added"@.len() != "first_commit"@.len());
    assert("lines_added"@[1] != "last_commit"@[1]);
    assert("lines_deleted"@.len() != "active_days"@.len());
    assert("lines_deleted"@.len() != "first_commit"@.len());
    assert("lines_deleted"@.len() != "last_commit"@.len());
    assert("active_days"@.len() != "first_commit"@.len());
    assert("active_days"@[0] != "last_commit"@[0]);
    assert("first_commit"@.len() != "last_commit"@.len());
}

/// The report has these columns, in this order.
pub proof fn the_columns_are_these(rows: Seq<AuthorActivityModel>)
    ensures
        author_report(rows).name == "authors"@,
        author_report(rows).columns.len() == 6,
        author_report(rows).columns[0].value == "commits"@,
        author_report(rows).columns[1].value == "lines_added"@,
        author_report(rows).columns[2].value == "lines_deleted"@,
        author_report(rows).columns[3].value == "active_days"@,
        author_report(rows).columns[4].value == "first_commit"@,
        author_report(rows).columns[5].value == "last_commit"@,
{
}

} // verus!
