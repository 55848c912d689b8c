//! Reports as comma-separated values.

use vstd::prelude::*;

use crate::i18n::Catalog;
use crate::output::cells;
use crate::output::cells::{count_shown, get_columns, push_cells, slug_of};
use crate::table;
use crate::text;
use crate::types;
use crate::types::{EntryModel, GroupModel, MetricResult, ResultModel};

verus! {

pub struct CsvWriter;

/// The texts of a table.
pub open spec fn rows(s: Seq<Vec<String>>) -> Seq<Seq<Seq<char>>> {
    Seq::new(s.len(), |i: int| text::views(s[i]@))
}

/// The rows of entries, each with `lead` in front.
pub open spec fn entry_rows(
    catalog: Seq<(Seq<char>, Seq<char>)>,
    lead: Seq<Seq<char>>,
    entries: Seq<EntryModel>,
    columns: Seq<Seq<char>>,
) -> Seq<Seq<Seq<char>>> {
    Seq::new(
        entries.len(),
        |i: int| lead.push(entries[i].key) + cells::cells(catalog, entries[i], columns),
    )
}

/// The rows of the first `n` groups.
pub open spec fn group_rows(
    catalog: Seq<(Seq<char>, Seq<char>)>,
    groups: Seq<GroupModel>,
    columns: Seq<Seq<char>>,
    n: int,
) -> Seq<Seq<Seq<char>>>
    decreases n,
{
    if n <= 0 {
        Seq::empty()
    } else {
        group_rows(catalog, groups, columns, n - 1) + entry_rows(
            catalog,
            seq![groups[n - 1].name],
            groups[n - 1].entries,
            columns,
        )
    }
}

/// A report as a table with a header. Groups are shown in full, each row with
/// the name of its group.
pub open spec fn records(
    catalog: Seq<(Seq<char>, Seq<char>)>,
    r: ResultModel,
    top: Option<usize>,
) -> Seq<Seq<Seq<char>>> {
    let columns = cells::columns_of(r);
    if r.groups.len() == 0 {
        seq![seq!["name"@] + columns] + entry_rows(
            catalog,
            Seq::empty(),
            r.entries.take(cells::shown_count(r.entries.len() as int, top)),
            columns,
        )
    } else {
        seq![seq!["group"@, "name"@] + columns] + group_rows(
            catalog,
            r.groups,
            columns,
            r.groups.len() as int,
        )
    }
}

/// The bytes that `csv::Writer` makes of a record.
pub uninterp spec fn csv_record(fields: Seq<Seq<char>>) -> Seq<u8>;

/// `csv::Writer::write_record` into memory: what it writes of a record, with
/// quotes where they are needed and the end of the line, depends on the fields
/// alone.
#[verifier::external_body]
fn encode_record(fields: &[String]) -> (r: Vec<u8>)
    ensures
        r@ == csv_record(text::views(fields@)),
{
    let mut writer = csv::Writer::from_writer(Vec::new());
    match writer.write_record(fields) {
        Ok(()) => writer.into_inner().unwrap_or_default(),
        Err(_) => Vec::new(),
    }
}

/// The bytes of the records, one after the other.
pub open spec fn csv_bytes(table: Seq<Seq<Seq<char>>>) -> Seq<u8>
    decreases table.len(),
{
    if table.len() == 0 {
        Seq::empty()
    } else {
        csv_bytes(table.drop_last()) + csv_record(table.last())
    }
}

/// The name of the file for one of several reports.
pub open spec fn report_file(stem: Seq<char>, ext: Option<Seq<char>>, slug: Seq<char>) -> Seq<
    char,
> {
    stem + "_"@ + slug + "."@ + match ext {
        Some(e) => e,
        None => "csv"@,
    }
}

fn header_row(lead: &[&str], columns: &[String]) -> (r: Vec<String>)
    ensures
        text::views(r@) == text::str_texts(lead@) + text::views(columns@),
{
    let mut out: Vec<String> = Vec::new();
    let m: usize = lead.len();
    let n: usize = columns.len();
    let ghost want = text::str_texts(lead@) + text::views(columns@);
    let mut i: usize = 0;
    while i < m
        invariant
            m == lead@.len(),
            i <= m,
            want == text::str_texts(lead@) + text::views(columns@),
            out@.len() == i,
            forall|k: int| 0 <= k < i ==> (#[trigger] out@[k])@ == want[k],
        decreases m - i,
    {
        out.push(text::copy_text(lead[i]));
        i += 1;
    }
    let mut j: usize = 0;
    while j < n
        invariant
            m == lead@.len(),
            n == columns@.len(),
            j <= n,
            want == text::str_texts(lead@) + text::views(columns@),
            out@.len() == m + j,
            forall|k: int| 0 <= k < m + j ==> (#[trigger] out@[k])@ == want[k],
        decreases n - j,
    {
        out.push(text::copy_text(columns[j].as_str()));
        j += 1;
    }
    proof {
        assert(text::views(out@) =~= want);
    }
    out
}

fn push_entries(
    out: &mut Vec<Vec<String>>,
    catalog: &Catalog,
    lead: Option<&String>,
    entries: &[types::MetricEntry],
    count: usize,
    columns: &[String],
)
    requires
        table::ascending(catalog@),
        count <= entries@.len(),
    ensures
        rows(final(out)@) == rows(old(out)@) + entry_rows(
            catalog@,
            match lead {
                Some(s) => seq![s@],
                None => Seq::empty(),
            },
            types::entry_models(entries@).take(count as int),
            text::views(columns@),
        ),
{
    let ghost before = rows(out@);
    let ghost head: Seq<Seq<char>> = match lead {
        Some(s) => seq![s@],
        None => Seq::empty(),
    };
    let ghost want = entry_rows(
        catalog@,
        head,
        types::entry_models(entries@).take(count as int),
        text::views(columns@),
    );
    let mut i: usize = 0;
    proof {
        assert(before + want.take(0) =~= before);
    }
    while i < count
        invariant
            table::ascending(catalog@),
            count <= entries@.len(),
            i <= count,
            head == (match lead {
                Some(s) => seq![s@],
                None => Seq::empty(),
            }),
            want == entry_rows(
                catalog@,
                head,
                types::entry_models(entries@).take(count as int),
                text::views(columns@),
            ),
            rows(out@) == before + want.take(i as int),
        decreases count - i,
    {
        let ghost now = rows(out@);
        let mut row: Vec<String> = Vec::new();
        if let Some(s) = lead {
            row.push(text::copy_text(s.as_str()));
        }
        row.push(text::copy_text(entries[i].key.as_str()));
        proof {
            assert(text::views(row@) =~= head.push(entries@[i as int].key@));
        }
        push_cells(&mut row, catalog, &entries[i], columns);
        proof {
            assert(text::views(row@) == want[i as int]);
        }
        out.push(row);
        proof {
            assert(rows(out@) =~= now.push(want[i as int]));
            assert(before + want.take(i + 1) =~= now.push(want[i as int]));
        }
        i += 1;
    }
    proof {
        assert(want.take(count as int) =~= want);
    }
}

impl CsvWriter {
    /// A report as a table with a header.
    pub fn records(catalog: &Catalog, result: &MetricResult, top: Option<usize>) -> (r: Vec<
        Vec<String>,
    >)
        requires
            table::ascending(catalog@),
        ensures
            rows(r@) == records(catalog@, result@, top),
    {
        let columns = get_columns(result);
        let mut out: Vec<Vec<String>> = Vec::new();
        let g: usize = result.entry_groups.len();
        let n: usize = result.entries.len();
        if g == 0 {
            let lead = ["name"];
            out.push(header_row(&lead, &columns));
            proof {
                assert(text::str_texts(lead@) =~= seq!["name"@]);
                assert(rows(out@) =~= seq![seq!["name"@] + cells::columns_of(result@)]);
            }
            let count = count_shown(n, top);
            push_entries(&mut out, catalog, None, &result.entries, count, &columns);
        } else {
            let lead = ["group", "name"];
            out.push(header_row(&lead, &columns));
            let ghost head = seq![seq!["group"@, "name"@] + cells::columns_of(result@)];
            proof {
                assert(text::str_texts(lead@) =~= seq!["group"@, "name"@]);
                assert(rows(out@) =~= head);
                assert(rows(out@) =~= head + group_rows(
                    catalog@,
                    result@.groups,
                    cells::columns_of(result@),
                    0,
                ));
            }
            let mut i: usize = 0;
            while i < g
                invariant
                    table::ascending(catalog@),
                    g == result.entry_groups@.len(),
                    text::views(columns@) == cells::columns_of(result@),
                    i <= g,
                    rows(out@) == head + group_rows(
                        catalog@,
                        result@.groups,
                        cells::columns_of(result@),
                        i as int,
                    ),
                decreases g - i,
            {
                let ghost now = rows(out@);
                let group = &result.entry_groups[i];
                let m: usize = group.entries.len();
                push_entries(&mut out, catalog, Some(&group.name), &group.entries, m, &columns);
                proof {
                    let models = types::entry_models(group.entries@);
                    assert(models.take(m as int) =~= models);
                    assert(result@.groups[i as int] == group@);
                    assert(rows(out@) =~= head + group_rows(
                        catalog@,
                        result@.groups,
                        cells::columns_of(result@),
                        i + 1,
                    ));
                }
                i += 1;
            }
        }
        out
    }

    /// The bytes of a table.
    pub fn encode(table: &[Vec<String>]) -> (r: Vec<u8>)
        ensures
            r@ == csv_bytes(rows(table@)),
    {
        let ghost all = rows(table@);
        let mut out: Vec<u8> = Vec::new();
        let n: usize = table.len();
        let mut i: usize = 0;
        proof {
            assert(all.take(0).len() == 0);
            assert(out@ =~= Seq::empty());
        }
        while i < n
            invariant
                n == table@.len(),
                all == rows(table@),
                i <= n,
                out@ == csv_bytes(all.take(i as int)),
            decreases n - i,
        {
            proof {
                assert(all.take(i + 1).drop_last() =~= all.take(i as int));
                assert(all.take(i + 1).last() == text::views(table@[i as int]@));
            }
            let mut bytes = encode_record(&table[i]);
            out.append(&mut bytes);
            i += 1;
        }
        proof {
            assert(all.take(n as int) =~= all);
        }
        out
    }

    /// The bytes of a report.
    pub fn render(catalog: &Catalog, result: &MetricResult, top: Option<usize>) -> (r: Vec<u8>)
        requires
            table::ascending(catalog@),
        ensures
            r@ == csv_bytes(records(catalog@, result@, top)),
    {
        let table = CsvWriter::records(catalog, result, top);
        CsvWriter::encode(&table)
    }

    /// The name of the file for one of several reports, such as
    /// `report_authors.csv`, given the stem and the extension of the file that
    /// was asked for.
    pub fn multi_report_file(stem: &str, ext: Option<&str>, report_name: &str) -> (r: String)
        ensures
            r@ == report_file(
                stem@,
                match ext {
                    Some(e) => Some(e@),
                    None => None,
                },
                cells::slug(report_name@),
            ),
    {
        let name = slug_of(report_name);
        let head = text::cat3(stem, "_", name.as_str());
        let tail = match ext {
            Some(e) => e,
            None => "csv",
        };
        text::cat3(head.as_str(), ".", tail)
    }
}

proof fn lemma_group_rows_len(
    catalog: Seq<(Seq<char>, Seq<char>)>,
    groups: Seq<GroupModel>,
    columns: Seq<Seq<char>>,
    n: int,
    i: int,
)
    requires
        0 <= i < group_rows(catalog, groups, columns, n).len(),
    ensures
        group_rows(catalog, groups, columns, n)[i].len() == 2 + columns.len(),
    decreases n,
{
    if n > 0 {
        let before = group_rows(catalog, groups, columns, n - 1);
        if i < before.len() {
            lemma_group_rows_len(catalog, groups, columns, n - 1, i);
        }
    }
}

/// All records of a report have as many fields as its header.
pub proof fn records_are_even(
    catalog: Seq<(Seq<char>, Seq<char>)>,
    r: ResultModel,
    top: Option<usize>,
    i: int,
)
    requires
        0 <= i < records(catalog, r, top).len(),
    ensures
        records(catalog, r, top)[i].len() == records(catalog, r, top)[0].len(),
{
    if r.groups.len() > 0 && i > 0 {
        lemma_group_rows_len(
            catalog,
            r.groups,
            cells::columns_of(r),
            r.groups.len() as int,
            i - 1,
        );
    }
}

/// A table starts with its header. Each row of a report without groups follows
/// under it, in its order, up to the limit: its name, then a cell for each
/// column.
pub proof fn tables_show_rows(catalog: Seq<(Seq<char>, Seq<char>)>, r: ResultModel, top: Option<usize>, i: int)
    requires
        r.groups.len() == 0,
        0 <= i < r.entries.len(),
        top matches Some(n) ==> i < n,
    ensures
        ({
            let t = records(catalog, r, top);
            let columns = cells::columns_of(r);
            &&& t[0] == seq!["name"@] + columns
            &&& top is None ==> t.len() == r.entries.len() + 1
            &&& top matches Some(n) ==> t.len() <= n + 1
            &&& t[i + 1].len() == columns.len() + 1
            &&& t[i + 1][0] == r.entries[i].key
            &&& forall|c: int|
                0 <= c < columns.len() ==> #[trigger] t[i + 1][c + 1] == cells::cell(
                    catalog,
                    r.entries[i],
                    columns[c],
                )
        }),
{
    let columns = cells::columns_of(r);
    let shown = r.entries.take(cells::shown_count(r.entries.len() as int, top));
    let rows = entry_rows(catalog, Seq::empty(), shown, columns);
    let t = records(catalog, r, top);
    assert(t[i + 1] == rows[i]);
    assert(shown[i] == r.entries[i]);
}

/// One more group adds its rows behind those of the others, each with the name of
/// the group in front.
pub proof fn groups_are_shown_in_full(
    catalog: Seq<(Seq<char>, Seq<char>)>,
    groups: Seq<GroupModel>,
    columns: Seq<Seq<char>>,
    n: int,
    i: int,
)
    requires
        0 <= n < groups.len(),
        0 <= i < groups[n].entries.len(),
    ensures
        ({
            let was = group_rows(catalog, groups, columns, n);
            let is = group_rows(catalog, groups, columns, n + 1);
            let row = is[was.len() + i];
            &&& is.len() == was.len() + groups[n].entries.len()
            &&& is.take(was.len() as int) == was
            &&& row[0] == groups[n].name
            &&& row[1] == groups[n].entries[i].key
            &&& row.len() == columns.len() + 2
            &&& forall|c: int|
                0 <= c < columns.len() ==> #[trigger] row[c + 2] == cells::cell(
                    catalog,
                    groups[n].entries[i],
                    columns[c],
                )
        }),
{
    let was = group_rows(catalog, groups, columns, n);
    let is = group_rows(catalog, groups, columns, n + 1);
    let more = entry_rows(catalog, seq![groups[n].name], groups[n].entries, columns);
    assert(is.take(was.len() as int) =~= was);
    assert(is[was.len() + i] == more[i]);
}

/// A table with groups starts with a header that names the group first.
pub proof fn grouped_tables_name_the_group(catalog: Seq<(Seq<char>, Seq<char>)>, r: ResultModel, top: Option<usize>)
    requires
        r.groups.len() > 0,
    ensures
        records(catalog, r, top)[0] == seq!["group"@, "name"@] + cells::columns_of(r),
        records(catalog, r, top).skip(1) == group_rows(
            catalog,
            r.groups,
            cells::columns_of(r),
            r.groups.len() as int,
        ),
{
    let rows = group_rows(catalog, r.groups, cells::columns_of(r), r.groups.len() as int);
    assert(records(catalog, r, top).skip(1) =~= rows);
}

/// The bytes of a table are those of its records, one after the other.
pub proof fn records_follow_each_other(a: Seq<Seq<Seq<char>>>, row: Seq<Seq<char>>)
    ensures
        csv_bytes(a.push(row)) == csv_bytes(a) + csv_record(row),
        csv_bytes(Seq::empty()).len() == 0,
{
    assert(a.push(row).drop_last() =~= a);
}

/// A file is named after its report; without an extension it gets one.
pub proof fn files_are_named_after_reports(stem: Seq<char>, ext: Seq<char>, slug: Seq<char>)
    ensures
        report_file(stem, Some(ext), slug) == stem + "_"@ + slug + "."@ + ext,
        report_file(stem, None, slug) == stem + "_"@ + slug + "."@ + "csv"@,
{
}

} // verus!
