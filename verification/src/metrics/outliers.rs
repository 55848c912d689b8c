//! Files that change too often or by too many hands.

use vstd::prelude::*;

use crate::analysis::source_filter;
use crate::messages;
use crate::order;
use crate::order::Ranked;
use crate::report;
use crate::report::{OfFile, Row};
use crate::types;
use crate::types::{EntryModel, LocalizedMessage, MessageModel, MetricEntry, MetricResult, MetricValue, ResultModel, Severity, ValueModel, Values};

verus! {

/// From this many changes on, a file churns too much.
pub const HIGH_CHURN_THRESHOLD: u64 = 100;

/// From this many authors on, a file has too many of them.
pub const HIGH_AUTHORS_THRESHOLD: usize = 5;

/// At most this many candidates are looked at.
pub const MAX_CANDIDATES: usize = 5_000;

/// What is known of a file.
#[derive(Debug)]
pub struct Candidate {
    pub file: String,
    pub ever_deleted: bool,
    pub change_count: u64,
    pub unique_authors: u64,
    pub total_churn: u64,
}

pub struct CandidateModel {
    pub file: Seq<char>,
    pub ever_deleted: bool,
    pub change_count: int,
    pub unique_authors: int,
    pub total_churn: int,
}

impl View for Candidate {
    type V = CandidateModel;

    open spec fn view(&self) -> CandidateModel {
        CandidateModel {
            file: self.file@,
            ever_deleted: self.ever_deleted,
            change_count: self.change_count as int,
            unique_authors: self.unique_authors as int,
            total_churn: self.total_churn as int,
        }
    }
}

impl OfFile for Candidate {
    open spec fn file_of(r: CandidateModel) -> Seq<char> {
        r.file
    }

    fn file(&self) -> (r: &str) {
        self.file.as_str()
    }
}

/// The most changes first.
impl Ranked for Candidate {
    open spec fn le(a: CandidateModel, b: CandidateModel) -> bool {
        a.change_count >= b.change_count
    }

    proof fn le_total(a: CandidateModel, b: CandidateModel) {
    }

    proof fn le_transitive(a: CandidateModel, b: CandidateModel, c: CandidateModel) {
    }

    fn not_after(&self, other: &Candidate) -> (r: bool) {
        self.change_count >= other.change_count
    }
}

/// What to do about a file with so many changes and authors.
pub open spec fn recommendation(changes: int, authors: int) -> MessageModel {
    let high_churn = changes >= HIGH_CHURN_THRESHOLD;
    let high_authors = authors >= HIGH_AUTHORS_THRESHOLD;
    let code = if high_churn && high_authors {
        messages::OUTLIERS_RECOMMENDATION_GOD_FILE@
    } else if high_churn {
        messages::OUTLIERS_RECOMMENDATION_HIGH_CHURN@
    } else if high_authors {
        messages::OUTLIERS_RECOMMENDATION_DIFFUSE_OWNERSHIP@
    } else {
        messages::OUTLIERS_RECOMMENDATION_OK@
    };
    let told = MessageModel::of(code).with_number("changes"@, changes).with_number(
        "authors"@,
        authors,
    );
    if high_churn && high_authors {
        told.severe(Severity::Error)
    } else if high_churn || high_authors {
        told.severe(Severity::Warning)
    } else {
        told
    }
}

pub fn build_recommendation(changes: u64, authors: u64) -> (r: LocalizedMessage)
    ensures
        r@ == recommendation(changes as int, authors as int),
{
    let high_churn = changes >= HIGH_CHURN_THRESHOLD;
    let high_authors = authors >= HIGH_AUTHORS_THRESHOLD as u64;
    let (code, severity) = match (high_churn, high_authors) {
        (true, true) => (messages::OUTLIERS_RECOMMENDATION_GOD_FILE, Some(Severity::Error)),
        (true, false) => (messages::OUTLIERS_RECOMMENDATION_HIGH_CHURN, Some(Severity::Warning)),
        (false, true) => (
            messages::OUTLIERS_RECOMMENDATION_DIFFUSE_OWNERSHIP,
            Some(Severity::Warning),
        ),
        (false, false) => (messages::OUTLIERS_RECOMMENDATION_OK, None),
    };
    let msg = LocalizedMessage::code(code).with_param("changes", changes).with_param(
        "authors",
        authors,
    );
    match severity {
        Some(s) => msg.with_severity(s),
        None => msg,
    }
}

impl Row for Candidate {
    open spec fn entry(c: CandidateModel) -> EntryModel {
        EntryModel {
            key: c.file,
            values: Map::empty().insert(
                "change_count"@,
                ValueModel::Count(c.change_count),
            ).insert(
                "unique_authors"@,
                ValueModel::Count(c.unique_authors),
            ).insert(
                "total_churn"@,
                ValueModel::Count(c.total_churn),
            ).insert(
                "recommendation"@,
                ValueModel::Message(recommendation(c.change_count, c.unique_authors)),
            ),
        }
    }

    fn to_entry(self) -> (r: MetricEntry) {
        let mut values = Values::new();
        values.insert("change_count", MetricValue::Count(self.change_count));
        values.insert("unique_authors", MetricValue::Count(self.unique_authors));
        values.insert("total_churn", MetricValue::Count(self.total_churn));
        values.insert("recommendation", MetricValue::Message(build_recommendation(self.change_count, self.unique_authors)));
        MetricEntry { key: self.file, values }
    }
}

pub open spec fn outlier_columns() -> Seq<Seq<char>> {
    seq![
        "change_count"@,
        "unique_authors"@,
        "total_churn"@,
        "recommendation"@,
    ]
}

/// The files that changed often or that many people changed, and that were
/// never deleted.
pub open spec fn standing_out(rows: Seq<CandidateModel>) -> Seq<CandidateModel>
    decreases rows.len(),
{
    if rows.len() == 0 {
        Seq::empty()
    } else {
        let head = standing_out(rows.drop_last());
        let c = rows.last();
        if !c.ever_deleted && (c.change_count >= HIGH_CHURN_THRESHOLD || c.unique_authors
            >= HIGH_AUTHORS_THRESHOLD) {
            head.push(rows.last())
        } else {
            head
        }
    }
}

/// The files that stand out, those with the most changes first; of these only
/// so many are looked at, and of those only source files are listed.
pub open spec fn outlier_report(rows: Seq<CandidateModel>) -> ResultModel {
    types::report_of(
        "outliers"@,
        outlier_columns(),
        report::entries_of::<Candidate>(
            report::source_only::<Candidate>(
                order::first_n(
                    order::sort_ranked::<Candidate>(standing_out(rows)),
                    MAX_CANDIDATES as int,
                ),
            ),
        ),
    )
}

fn keep_standing_out(rows: Vec<Candidate>) -> (r: Vec<Candidate>)
    ensures
        order::models(r@) == standing_out(order::models(rows@)),
{
    let ghost all = order::models(rows@);
    let mut kept: Vec<Candidate> = Vec::new();
    proof {
        assert(all.take(0).len() == 0);
        assert(order::models(kept@) =~= Seq::empty());
    }
    for c in it: rows
        invariant
            order::models(it.seq()) == all,
            order::models(kept@) == standing_out(all.take(it.index() as int)),
    {
        let ghost before = order::models(kept@);
        let ghost i = it.index() as int;
        proof {
            assert(order::models(it.seq())[i] == c@);
            assert(all.take(i + 1).drop_last() =~= all.take(i));
            assert(all.take(i + 1).last() == c@);
        }
        if !c.ever_deleted && (c.change_count >= HIGH_CHURN_THRESHOLD || c.unique_authors
            >= HIGH_AUTHORS_THRESHOLD as u64) {
            kept.push(c);
            proof {
                assert(order::models(kept@) =~= before.push(c@));
            }
        }
    }
    proof {
        assert(all.take(all.len() as int) =~= all);
    }
    kept
}

pub struct OutliersCollector;

impl Default for OutliersCollector {
    fn default() -> (r: Self)
        ensures
            r == (OutliersCollector {  }),
    {
        OutliersCollector::new()
    }
}

impl OutliersCollector {
    pub fn new() -> (r: Self)
        ensures
            r == (OutliersCollector {  }),
    {
        OutliersCollector
    }

    pub fn name(&self) -> (r: &str)
        ensures
            r@ == "outliers"@,
    {
        "outliers"
    }

    /// The report without any rows to draw on.
    pub fn finalize(&mut self) -> (r: MetricResult)
        ensures
            r@ == types::empty_report("outliers"@),
    {
        MetricResult::empty("outliers")
    }

    /// The report, given one row per file.
    pub fn finalize_from_rows(&mut self, rows: Vec<Candidate>) -> (r: MetricResult)
        ensures
            r@ == outlier_report(order::models(rows@)),
    {
        let sorted = order::sort_rows(keep_standing_out(rows));
        proof {
            order::models_of_first_n(sorted@, MAX_CANDIDATES as int);
        }
        let entries = report::to_entries(
            report::keep_source(order::keep_first(sorted, MAX_CANDIDATES)),
        );
        let columns = [
            "change_count",
            "unique_authors",
            "total_churn",
            "recommendation",
        ];
        proof {
            assert(types::str_views(columns@) =~= outlier_columns());
        }
        MetricResult::report("outliers", &columns, entries)
    }
}

proof fn lemma_standing_out(rows: Seq<CandidateModel>, x: CandidateModel)
    ensures
        standing_out(rows).contains(x) <==> exists|k: int|
            0 <= k < rows.len() && ((#[trigger] rows[k]).change_count >= 100 || (#[trigger] rows[k]).unique_authors >= 5) && !(#[trigger] rows[k]).ever_deleted && x == rows[k],
        standing_out(rows).len() <= rows.len(),
    decreases rows.len(),
{
    if rows.len() > 0 {
        let front = rows.drop_last();
        let last = rows.last();
        let was = standing_out(front);
        let is = standing_out(rows);
        lemma_standing_out(front, x);
        assert(rows[rows.len() - 1] == last);
        assert(forall|k: int| 0 <= k < front.len() ==> front[k] == rows[k]);
        if is.contains(x) {
            let i = choose|i: int| 0 <= i < is.len() && is[i] == x;
            if i < was.len() {
                assert(was[i] == x);
                let k = choose|k: int|
                    0 <= k < front.len() && ((#[trigger] front[k]).change_count >= 100 || (#[trigger] front[k]).unique_authors >= 5) && !(#[trigger] front[k]).ever_deleted && x == front[k];
                assert(rows[k] == front[k]);
            }
        }
        if exists|k: int| 0 <= k < rows.len() && ((#[trigger] rows[k]).change_count >= 100 || (#[trigger] rows[k]).unique_authors >= 5) && !(#[trigger] rows[k]).ever_deleted && x == rows[k] {
            let k = choose|k: int|
                0 <= k < rows.len() && ((#[trigger] rows[k]).change_count >= 100 || (#[trigger] rows[k]).unique_authors >= 5) && !(#[trigger] rows[k]).ever_deleted && x == rows[k];
            if k < front.len() {
                assert(front[k] == rows[k]);
                let i = choose|i: int| 0 <= i < was.len() && was[i] == x;
                assert(is[i] == x);
            } else {
                assert(is[is.len() - 1] == x);
            }
        }
    }
}

/// A source file with a hundred changes or five authors that was never deleted is
/// shown, unless there are more files than the report looks at.
pub proof fn every_outlier_is_shown(rows: Seq<CandidateModel>, k: int)
    requires
        0 <= k < rows.len(),
        (rows[k].change_count >= 100 || rows[k].unique_authors >= 5) && !rows[k].ever_deleted && source_filter::is_source(rows[k].file),
        rows.len() <= 5000,
    ensures
        exists|i: int|
            0 <= i < outlier_report(rows).entries.len() && ({
                let e = #[trigger] outlier_report(rows).entries[i];
                let r = rows[k];
                &&& e.key == r.file
                &&& e.values["change_count"@] == ValueModel::Count(r.change_count)
                &&& e.values["unique_authors"@] == ValueModel::Count(r.unique_authors)
                &&& e.values["total_churn"@] == ValueModel::Count(r.total_churn)
                &&& e.values["recommendation"@] == ValueModel::Message(recommendation(r.change_count, r.unique_authors))
            }),
{
    let s = standing_out(rows);
    let x = rows[k];
    let ranked = report::source_only::<Candidate>(order::first_n(order::sort_ranked::<Candidate>(standing_out(rows)), 5000));
    lemma_standing_out(rows, x);
    let sorted = order::sort_ranked::<Candidate>(standing_out(rows));
    order::sort_same_members::<Candidate>(standing_out(rows));
    order::sort_keeps_elements::<Candidate>(standing_out(rows));
    let head = order::first_n(sorted, 5000);
    report::source_only_keeps::<Candidate>(head);
    assert(forall|m: int| 0 <= m < head.len() ==> head[m] == sorted[m]);
    assert(forall|m: int| 0 <= m < head.len() ==> sorted.contains(#[trigger] head[m]));
    assert(s.contains(x));
    assert(ranked.contains(x));
    let i = choose|i: int| 0 <= i < ranked.len() && ranked[i] == x;
    assert(outlier_report(rows).entries[i] == Candidate::entry(x));
    reveal_strlit("change_count");
    reveal_strlit("unique_authors");
    reveal_strlit("total_churn");
    reveal_strlit("recommendation");
    assert("change_count"@.len() != "unique_authors"@.len());
    assert("change_count"@.len() != "total_churn"@.len());
    assert("change_count"@.len() != "recommendation"@.len());
    assert("unique_authors"@.len() != "total_churn"@.len());
    assert("unique_authors"@[0] != "recommendation"@[0]);
    assert("total_churn"@.len() != "recommendation"@.len());
}

/// Whatever is shown has a hundred changes or five authors and is a source file
/// that was never deleted.
pub proof fn only_outliers_are_shown(rows: Seq<CandidateModel>, i: int)
    requires
        0 <= i < outlier_report(rows).entries.len(),
    ensures
        outlier_report(rows).entries.len() <= 5000,
        exists|k: int|
            0 <= k < rows.len() && ({
                let e = outlier_report(rows).entries[i];
                let r = #[trigger] rows[k];
                &&& (r.change_count >= 100 || r.unique_authors >= 5) && !r.ever_deleted && source_filter::is_source(r.file)
                &&& e.key == r.file
                &&& e.values["change_count"@] == ValueModel::Count(r.change_count)
                &&& e.values["unique_authors"@] == ValueModel::Count(r.unique_authors)
                &&& e.values["total_churn"@] == ValueModel::Count(r.total_churn)
                &&& e.values["recommendation"@] == ValueModel::Message(recommendation(r.change_count, r.unique_authors))
            }),
{
    let s = standing_out(rows);
    let ranked = report::source_only::<Candidate>(order::first_n(order::sort_ranked::<Candidate>(standing_out(rows)), 5000));
    let x = ranked[i];
    let sorted = order::sort_ranked::<Candidate>(standing_out(rows));
    order::sort_same_members::<Candidate>(standing_out(rows));
    order::sort_keeps_elements::<Candidate>(standing_out(rows));
    let head = order::first_n(sorted, 5000);
    report::source_only_keeps::<Candidate>(head);
    assert(forall|m: int| 0 <= m < head.len() ==> head[m] == sorted[m]);
    assert(forall|m: int| 0 <= m < head.len() ==> sorted.contains(#[trigger] head[m]));
    assert(ranked.contains(x));
    assert(s.contains(x));
    lemma_standing_out(rows, x);
    assert(outlier_report(rows).entries[i] == Candidate::entry(x));
    let k = choose|k: int| 0 <= k < rows.len() && ((#[trigger] rows[k]).change_count >= 100 || (#[trigger] rows[k]).unique_authors >= 5) && !(#[trigger] rows[k]).ever_deleted && source_filter::is_source((#[trigger] rows[k]).file) && x == rows[k];
    assert(rows[k] == rows[k]);
    reveal_strlit("change_count");
    reveal_strlit("unique_authors");
    reveal_strlit("total_churn");
    reveal_strlit("recommendation");
    assert("change_count"@.len() != "unique_authors"@.len());
    assert("change_count"@.len() != "total_churn"@.len());
    assert("change_count"@.len() != "recommendation"@.len());
    assert("unique_authors"@.len() != "total_churn"@.len());
    assert("unique_authors"@[0] != "recommendation"@[0]);
    assert("total_churn"@.len() != "recommendation"@.len());
}

/// The files with the most changes stand first.
pub proof fn most_changes_first(rows: Seq<CandidateModel>, i: int, j: int)
    requires
        0 <= i < j < outlier_report(rows).entries.len(),
    ensures
        ({
            let a = outlier_report(rows).entries[i].values;
            let b = outlier_report(rows).entries[j].values;
            a["change_count"@]->Count_0 >= b["change_count"@]->Count_0
        }),
{
    let ranked = report::source_only::<Candidate>(order::first_n(order::sort_ranked::<Candidate>(standing_out(rows)), 5000));
    let sorted = order::sort_ranked::<Candidate>(standing_out(rows));
    order::sort_orders::<Candidate>(standing_out(rows));
    let head = order::first_n(sorted, 5000);
    assert(order::is_ranked::<Candidate>(head)) by {
        assert(forall|m: int| 0 <= m < head.len() ==> head[m] == sorted[m]);
    }
    report::source_only_ranked::<Candidate>(head);
    assert(outlier_report(rows).entries[i] == Candidate::entry(ranked[i]));
    assert(outlier_report(rows).entries[j] == Candidate::entry(ranked[j]));
    assert(Candidate::le(ranked[i], ranked[j]));
    reveal_strlit("change_count");
    reveal_strlit("unique_authors");
    reveal_strlit("total_churn");
    reveal_strlit("recommendation");
    assert("change_count"@.len() != "unique_authors"@.len());
    assert("change_count"@.len() != "total_churn"@.len());
    assert("change_count"@.len() != "recommendation"@.len());
    assert("unique_authors"@.len() != "total_churn"@.len());
    assert("unique_authors"@[0] != "recommendation"@[0]);
    assert("total_churn"@.len() != "recommendation"@.len());
}

/// Many changes and many authors are each worth a warning, both together an
/// error; the numbers are told.
pub proof fn what_stands_out_is_told(changes: int, authors: int)
    ensures
        changes >= 100 && authors >= 5 ==> recommendation(changes, authors).severity == Some(
            Severity::Error,
        ) && recommendation(changes, authors).code == messages::OUTLIERS_RECOMMENDATION_GOD_FILE@,
        changes >= 100 && authors < 5 ==> recommendation(changes, authors).severity == Some(
            Severity::Warning,
        ) && recommendation(changes, authors).code == messages::OUTLIERS_RECOMMENDATION_HIGH_CHURN@,
        changes < 100 && authors >= 5 ==> recommendation(changes, authors).severity == Some(
            Severity::Warning,
        ) && recommendation(changes, authors).code
            == messages::OUTLIERS_RECOMMENDATION_DIFFUSE_OWNERSHIP@,
        changes < 100 && authors < 5 ==> recommendation(changes, authors).severity is None
            && recommendation(changes, authors).code == messages::OUTLIERS_RECOMMENDATION_OK@,
        recommendation(changes, authors).params == seq![
            ("changes"@, types::ParamModel::Number(changes)),
            ("authors"@, types::ParamModel::Number(authors)),
        ],
{
    reveal_with_fuel(types::params_with, 3);
    reveal_strlit("changes");
    reveal_strlit("authors");
    assert("changes"@[0] != "authors"@[0]);
    assert(recommendation(changes, authors).params =~= seq![
        ("changes"@, types::ParamModel::Number(changes)),
        ("authors"@, types::ParamModel::Number(authors)),
    ]);
}

/// The report has these columns, in this order.
pub proof fn the_columns_are_these(rows: Seq<CandidateModel>)
    ensures
        outlier_report(rows).name == "outliers"@,
        outlier_report(rows).columns.len() == 4,
        outlier_report(rows).columns[0].value == "change_count"@,
        outlier_report(rows).columns[1].value == "unique_authors"@,
        outlier_report(rows).columns[2].value == "total_churn"@,
        outlier_report(rows).columns[3].value == "recommendation"@,
{
}

/// The limits that hold here.
pub proof fn the_limits_are_these()
    ensures
        HIGH_CHURN_THRESHOLD == 100,
        HIGH_AUTHORS_THRESHOLD == 5,
        MAX_CANDIDATES == 5_000,
{
}

} // verus!
