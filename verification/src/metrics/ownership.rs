//! Code ownership by author, per file.

use vstd::prelude::*;

use crate::analysis::source_filter;
use crate::analysis::source_filter::is_source_file;
use crate::fold;
use crate::order;
use crate::order::Ranked;
use crate::report;
use crate::report::Row;
use crate::table;
use crate::table::TextMap;
use crate::tally;
use crate::tally::compute_bus_factor;
use crate::text;
use crate::types;
use crate::types::{EntryModel, MetricEntry, MetricResult, MetricValue, ResultModel, ValueModel, Values};

verus! {

/// No more rows than this are reported.
pub const MAX_OWNERSHIP_ROWS: usize = 500;

/// The lines that one author added to one file.
#[derive(Debug)]
pub struct AuthorLines {
    pub file: String,
    pub email: String,
    pub added: u64,
}

pub struct AuthorLinesModel {
    pub file: Seq<char>,
    pub email: Seq<char>,
    pub added: nat,
}

impl View for AuthorLines {
    type V = AuthorLinesModel;

    open spec fn view(&self) -> AuthorLinesModel {
        AuthorLinesModel { file: self.file@, email: self.email@, added: self.added as nat }
    }
}

pub open spec fn lines_added() -> spec_fn(AuthorLinesModel) -> nat {
    |r: AuthorLinesModel| r.added
}

/// For each source file, who added how many lines.
pub open spec fn lines_by_file(rows: Seq<AuthorLinesModel>) -> tally::Groups
    decreases rows.len(),
{
    if rows.len() == 0 {
        Seq::empty()
    } else {
        let head = lines_by_file(rows.drop_last());
        let r = rows.last();
        if source_filter::is_source(r.file) {
            tally::credited_in(head, r.file, r.email, r.added)
        } else {
            head
        }
    }
}

/// Who owns a file.
pub struct FileOwnership {
    pub file: String,
    pub total_authors: u64,
    pub bus_factor: u64,
    pub top_author: String,
    pub total_lines: u64,
}

pub struct FileOwnershipModel {
    pub file: Seq<char>,
    pub total_authors: int,
    pub bus_factor: int,
    pub top_author: Seq<char>,
    pub total_lines: int,
}

impl View for FileOwnership {
    type V = FileOwnershipModel;

    open spec fn view(&self) -> FileOwnershipModel {
        FileOwnershipModel {
            file: self.file@,
            total_authors: self.total_authors as int,
            bus_factor: self.bus_factor as int,
            top_author: self.top_author@,
            total_lines: self.total_lines as int,
        }
    }
}

/// The lowest bus factor first; of those that tie, the most lines; then by
/// file.
impl Ranked for FileOwnership {
    open spec fn le(a: FileOwnershipModel, b: FileOwnershipModel) -> bool {
        if a.bus_factor != b.bus_factor {
            a.bus_factor < b.bus_factor
        } else if a.total_lines != b.total_lines {
            a.total_lines > b.total_lines
        } else {
            text::text_le(a.file, b.file)
        }
    }

    proof fn le_total(a: FileOwnershipModel, b: FileOwnershipModel) {
        text::text_le_total(a.file, b.file);
    }

    proof fn le_transitive(a: FileOwnershipModel, b: FileOwnershipModel, c: FileOwnershipModel) {
        if text::text_le(a.file, b.file) && text::text_le(b.file, c.file) {
            text::text_le_transitive(a.file, b.file, c.file);
        }
    }

    fn not_after(&self, other: &FileOwnership) -> (r: bool) {
        if self.bus_factor != other.bus_factor {
            self.bus_factor < other.bus_factor
        } else if self.total_lines != other.total_lines {
            self.total_lines > other.total_lines
        } else {
            text::text_not_after(self.file.as_str(), other.file.as_str())
        }
    }
}

/// The author with the most lines, the first by name of those that tie.
pub open spec fn top_author(t: Seq<(Seq<char>, u64)>) -> Seq<char> {
    if t.len() == 0 {
        Seq::empty()
    } else {
        t[tally::leader(t)].0
    }
}

pub open spec fn owned(file: Seq<char>, t: Seq<(Seq<char>, u64)>) -> FileOwnershipModel {
    FileOwnershipModel {
        file,
        total_authors: t.len() as int,
        bus_factor: tally::bus_factor(table::values(t), tally::sum(t)),
        top_author: top_author(t),
        total_lines: tally::sum(t) as int,
    }
}

pub open spec fn all_owned(m: tally::Groups) -> Seq<FileOwnershipModel> {
    Seq::new(m.len(), |i: int| owned(m[i].0, m[i].1))
}

pub open spec fn ownership_columns() -> Seq<Seq<char>> {
    seq!["total_authors"@, "bus_factor"@, "top_author"@, "total_lines"@]
}

pub open spec fn ownership_report(rows: Seq<AuthorLinesModel>) -> ResultModel {
    types::report_of(
        "ownership"@,
        ownership_columns(),
        report::entries_of::<FileOwnership>(
            report::top_ranked::<FileOwnership>(
                all_owned(lines_by_file(rows)),
                MAX_OWNERSHIP_ROWS as int,
            ),
        ),
    )
}

/// Who added how many lines to each source file.
pub fn collect_lines(rows: &[AuthorLines]) -> (r: TextMap<TextMap<u64>>)
    requires
        fold::total(order::models(rows@), lines_added()) <= u64::MAX,
    ensures
        r@ == lines_by_file(order::models(rows@)),
        tally::in_order(r@),
        tally::grand_sum(r@) <= u64::MAX,
{
    let ghost all = order::models(rows@);
    let mut files: TextMap<TextMap<u64>> = TextMap::new();
    let n: usize = rows.len();
    let mut i: usize = 0;
    while i < n
        invariant
            n == rows@.len(),
            i <= n,
            all == order::models(rows@),
            fold::total(all, lines_added()) <= u64::MAX,
            files@ == lines_by_file(all.take(i as int)),
            tally::in_order(files@),
            tally::grand_sum(files@) <= fold::total(all.take(i as int), lines_added()),
        decreases n - i,
    {
        proof {
            fold::lemma_total_step(all, lines_added(), i as int);
            assert(all.take(i + 1).drop_last() =~= all.take(i as int));
        }
        let row = &rows[i];
        if is_source_file(row.file.as_str()) {
            proof {
                tally::amount_within_grand_sum(files@, row.file@, row.email@);
            }
            tally::credit_in(&mut files, row.file.as_str(), row.email.as_str(), row.added);
        }
        i += 1;
    }
    proof {
        assert(all.take(n as int) =~= all);
    }
    files
}

fn own(file: &String, t: &TextMap<u64>) -> (r: FileOwnership)
    requires
        tally::sum(t@) <= u64::MAX,
    ensures
        r@ == owned(file@, t@),
{
    let total_lines = tally::sum_of(t);
    let top = if t.len() == 0 {
        String::new()
    } else {
        let k = tally::leader_of(t);
        t.key_at(k).clone()
    };
    FileOwnership {
        file: file.clone(),
        total_authors: t.len() as u64,
        bus_factor: compute_bus_factor(t, total_lines),
        top_author: top,
        total_lines,
    }
}

impl Row for FileOwnership {
    open spec fn entry(f: FileOwnershipModel) -> EntryModel {
        EntryModel {
            key: f.file,
            values: Map::empty().insert(
                "total_authors"@,
                ValueModel::Count(f.total_authors),
            ).insert("bus_factor"@, ValueModel::Count(f.bus_factor)).insert(
                "top_author"@,
                ValueModel::Text(f.top_author),
            ).insert("total_lines"@, ValueModel::Count(f.total_lines)),
        }
    }

    fn to_entry(self) -> (r: MetricEntry) {
        let mut values = Values::new();
        values.insert("total_authors", MetricValue::Count(self.total_authors));
        values.insert("bus_factor", MetricValue::Count(self.bus_factor));
        values.insert("top_author", MetricValue::Text(self.top_author));
        values.insert("total_lines", MetricValue::Count(self.total_lines));
        MetricEntry { key: self.file, values }
    }
}

pub struct OwnershipCollector;

impl Default for OwnershipCollector {
    fn default() -> (r: Self)
        ensures
            r == (OwnershipCollector {  }),
    {
        OwnershipCollector::new()
    }
}

impl OwnershipCollector {
    pub fn new() -> (r: Self)
        ensures
            r == (OwnershipCollector {  }),
    {
        OwnershipCollector
    }

    pub fn name(&self) -> (r: &str)
        ensures
            r@ == "ownership"@,
    {
        "ownership"
    }

    /// The report without any rows to draw on.
    pub fn finalize(&mut self) -> (r: MetricResult)
        ensures
            r@ == types::empty_report("ownership"@),
    {
        MetricResult::empty("ownership")
    }

    /// The report, given the lines each author added to each file. All lines
    /// together number at most `u64::MAX`.
    pub fn finalize_from_rows(&mut self, rows: &[AuthorLines]) -> (r: MetricResult)
        requires
            fold::total(order::models(rows@), lines_added()) <= u64::MAX,
        ensures
            r@ == ownership_report(order::models(rows@)),
    {
        let ghost all = order::models(rows@);
        let files = collect_lines(rows);
        let n: usize = files.len();
        let mut owners: Vec<FileOwnership> = Vec::new();
        let mut i: usize = 0;
        while i < n
            invariant
                n == files@.len(),
                i <= n,
                tally::grand_sum(files@) <= u64::MAX,
                order::models(owners@) == all_owned(files@).take(i as int),
            decreases n - i,
        {
            proof {
                tally::group_within_grand_sum(files@, i as int);
            }
            let ghost before = order::models(owners@);
            let f = own(files.key_at(i), files.value_at(i));
            owners.push(f);
            proof {
                assert(order::models(owners@) =~= before.push(f@));
                assert(all_owned(files@).take(i + 1) =~= before.push(f@));
            }
            i += 1;
        }
        proof {
            assert(all_owned(files@).take(n as int) =~= all_owned(files@));
        }
        let entries = report::ranked_entries(owners, MAX_OWNERSHIP_ROWS);
        let columns = ["total_authors", "bus_factor", "top_author", "total_lines"];
        proof {
            assert(types::str_views(columns@) =~= ownership_columns());
        }
        MetricResult::report("ownership", &columns, entries)
    }
}

/// The lines that an author added to a source file.
pub open spec fn lines_by(file: Seq<char>, email: Seq<char>) -> spec_fn(AuthorLinesModel) -> nat {
    |r: AuthorLinesModel|
        if r.file == file && r.email == email && source_filter::is_source(r.file) {
            r.added
        } else {
            0
        }
}

/// What an author is credited with in a file is all the lines that they added to
/// it, in source files only.
pub proof fn authors_get_what_they_added(
    rows: Seq<AuthorLinesModel>,
    file: Seq<char>,
    email: Seq<char>,
)
    requires
        fold::total(rows, lines_added()) <= u64::MAX,
    ensures
        tally::amount(tally::group(lines_by_file(rows), file), email) == fold::total(
            rows,
            lines_by(file, email),
        ),
        fold::total(rows, lines_by(file, email)) <= fold::total(rows, lines_added()),
        tally::in_order(lines_by_file(rows)),
    decreases rows.len(),
{
    if rows.len() > 0 {
        let front = rows.drop_last();
        let r = rows.last();
        let head = lines_by_file(front);
        authors_get_what_they_added(front, file, email);
        authors_get_what_they_added(front, r.file, r.email);
        if source_filter::is_source(r.file) {
            tally::amount_of_credited_in(head, r.file, r.email, r.added, file, email);
            tally::grand_sum_of_credited(head, r.file, r.email, r.added);
        }
    }
}

/// The top author of a file added the most lines, and is the first by name of
/// those who added as many.
pub proof fn the_top_author_added_most(t: Seq<(Seq<char>, u64)>)
    requires
        t.len() > 0,
    ensures
        exists|l: int|
            0 <= l < t.len() && (#[trigger] t[l]).0 == top_author(t) && (forall|i: int|
                0 <= i < t.len() ==> (#[trigger] t[i]).1 <= t[l].1) && (forall|i: int|
                0 <= i < l ==> (#[trigger] t[i]).1 < t[l].1),
{
    tally::leader_leads(t);
    assert(t[tally::leader(t)].0 == top_author(t));
}

/// Every source file is shown with its authors, unless there are more than the
/// report holds.
pub proof fn every_file_is_shown(rows: Seq<AuthorLinesModel>, m: tally::Groups, k: int)
    requires
        m == lines_by_file(rows),
        0 <= k < m.len(),
        m.len() <= 500,
    ensures
        exists|i: int|
            0 <= i < ownership_report(rows).entries.len() && ({
                let e = #[trigger] ownership_report(rows).entries[i];
                let r = m[k];
                &&& e.key == r.0
                &&& e.values["total_authors"@] == ValueModel::Count(r.1.len() as int)
                &&& e.values["bus_factor"@] == ValueModel::Count(tally::bus_factor(table::values(r.1), tally::sum(r.1)))
                &&& e.values["top_author"@] == ValueModel::Text(top_author(r.1))
                &&& e.values["total_lines"@] == ValueModel::Count(tally::sum(r.1) as int)
            }),
{
    let s = all_owned(m);
    let x = owned(m[k].0, m[k].1);
    let ranked = report::top_ranked::<FileOwnership>(all_owned(m), 500);
    assert(s[k] == x);
    report::top_ranked_members::<FileOwnership>(all_owned(m), 500);
    report::top_ranked_len::<FileOwnership>(all_owned(m), 500);
    assert(s.contains(x));
    assert(ranked.contains(x));
    let i = choose|i: int| 0 <= i < ranked.len() && ranked[i] == x;
    assert(ownership_report(rows).entries[i] == FileOwnership::entry(x));
    reveal_strlit("total_authors");
    reveal_strlit("bus_factor");
    reveal_strlit("top_author");
    reveal_strlit("total_lines");
    assert("total_authors"@.len() != "bus_factor"@.len());
    assert("total_authors"@.len() != "top_author"@.len());
    assert("total_authors"@.len() != "total_lines"@.len());
    assert("bus_factor"@[0] != "top_author"@[0]);
    assert("bus_factor"@.len() != "total_lines"@.len());
    assert("top_author"@.len() != "total_lines"@.len());
}

/// Whatever is shown is a source file with its authors, and there are at most five
/// hundred.
pub proof fn only_files_are_shown(rows: Seq<AuthorLinesModel>, m: tally::Groups, i: int)
    requires
        m == lines_by_file(rows),
        0 <= i < ownership_report(rows).entries.len(),
    ensures
        ownership_report(rows).entries.len() <= 500,
        exists|k: int|
            0 <= k < m.len() && ({
                let e = ownership_report(rows).entries[i];
                let r = #[trigger] m[k];
                &&& e.key == r.0
                &&& e.values["total_authors"@] == ValueModel::Count(r.1.len() as int)
                &&& e.values["bus_factor"@] == ValueModel::Count(tally::bus_factor(table::values(r.1), tally::sum(r.1)))
                &&& e.values["top_author"@] == ValueModel::Text(top_author(r.1))
                &&& e.values["total_lines"@] == ValueModel::Count(tally::sum(r.1) as int)
            }),
{
    let s = all_owned(m);
    let ranked = report::top_ranked::<FileOwnership>(all_owned(m), 500);
    let x = ranked[i];
    report::top_ranked_members::<FileOwnership>(all_owned(m), 500);
    report::top_ranked_len::<FileOwnership>(all_owned(m), 500);
    assert(ranked.contains(x));
    assert(s.contains(x));
    assert(ownership_report(rows).entries[i] == FileOwnership::entry(x));
    let k = choose|k: int| 0 <= k < s.len() && s[k] == x;
    assert(m[k] == m[k]);
    reveal_strlit("total_authors");
    reveal_strlit("bus_factor");
    reveal_strlit("top_author");
    reveal_strlit("total_lines");
    assert("total_authors"@.len() != "bus_factor"@.len());
    assert("total_authors"@.len() != "top_author"@.len());
    assert("total_authors"@.len() != "total_lines"@.len());
    assert("bus_factor"@[0] != "top_author"@[0]);
    assert("bus_factor"@.len() != "total_lines"@.len());
    assert("top_author"@.len() != "total_lines"@.len());
}

/// The files that fewest authors know stand first, of those the longest.
pub proof fn fewest_authors_first(rows: Seq<AuthorLinesModel>, m: tally::Groups, i: int, j: int)
    requires
        m == lines_by_file(rows),
        0 <= i < j < ownership_report(rows).entries.len(),
    ensures
        ({
            let a = ownership_report(rows).entries[i].values;
            let b = ownership_report(rows).entries[j].values;
            ({
                ||| a["bus_factor"@]->Count_0 < b["bus_factor"@]->Count_0
                ||| a["bus_factor"@] == b["bus_factor"@] && a["total_lines"@]->Count_0
                    >= b["total_lines"@]->Count_0
            })
        }),
{
    let ranked = report::top_ranked::<FileOwnership>(all_owned(m), 500);
    report::top_ranked_leads::<FileOwnership>(all_owned(m), 500);
    assert(ownership_report(rows).entries[i] == FileOwnership::entry(ranked[i]));
    assert(ownership_report(rows).entries[j] == FileOwnership::entry(ranked[j]));
    assert(FileOwnership::le(ranked[i], ranked[j]));
    reveal_strlit("total_authors");
    reveal_strlit("bus_factor");
    reveal_strlit("top_author");
    reveal_strlit("total_lines");
    assert("total_authors"@.len() != "bus_factor"@.len());
    assert("total_authors"@.len() != "top_author"@.len());
    assert("total_authors"@.len() != "total_lines"@.len());
    assert("bus_factor"@[0] != "top_author"@[0]);
    assert("bus_factor"@.len() != "total_lines"@.len());
    assert("top_author"@.len() != "total_lines"@.len());
}

/// The report has these columns, in this order.
pub proof fn the_columns_are_these(rows: Seq<AuthorLinesModel>)
    ensures
        ownership_report(rows).name == "ownership"@,
        ownership_report(rows).columns.len() == 4,
        ownership_report(rows).columns[0].value == "total_authors"@,
        ownership_report(rows).columns[1].value == "bus_factor"@,
        ownership_report(rows).columns[2].value == "top_author"@,
        ownership_report(rows).columns[3].value == "total_lines"@,
{
}

/// The limits that hold here.
pub proof fn the_limits_are_these()
    ensures
        MAX_OWNERSHIP_ROWS == 500,
{
}

} // verus!
