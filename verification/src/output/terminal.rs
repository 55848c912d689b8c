//! Reports as tables for the terminal.

use vstd::prelude::*;

use crate::i18n;
use crate::i18n::Catalog;
use crate::output::cells;
use crate::output::cells::{count_shown, get_columns, push_cells};
use crate::output::csv_output;
use crate::table;
use crate::text;
use crate::types;
use crate::types::{
    humanize, Column, ColumnModel, EntryGroup, EntryModel, GroupModel, MetricEntry, MetricResult,
    ResultModel,
};

verus! {

pub struct TerminalWriter;

/// A table: its header, its rows, and a remark where rows are hidden.
#[derive(Debug)]
pub struct TerminalTable {
    pub header: Vec<String>,
    pub rows: Vec<Vec<String>>,
    pub note: Option<String>,
}

pub struct TableModel {
    pub header: Seq<Seq<char>>,
    pub rows: Seq<Seq<Seq<char>>>,
    pub note: Option<Seq<char>>,
}

impl View for TerminalTable {
    type V = TableModel;

    open spec fn view(&self) -> TableModel {
        TableModel {
            header: text::views(self.header@),
            rows: csv_output::rows(self.rows@),
            note: match self.note {
                Some(s) => Some(s@),
                None => None,
            },
        }
    }
}

/// What stands below the title of a report.
#[derive(Debug)]
pub enum TerminalBody {
    /// There is nothing to show.
    NoData,
    Table(TerminalTable),
    /// Tables, each under a heading.
    Groups(Vec<(String, TerminalTable)>),
}

pub enum BodyModel {
    NoData,
    Table(TableModel),
    Groups(Seq<(Seq<char>, TableModel)>),
}

pub open spec fn heading_models(s: Seq<(String, TerminalTable)>) -> Seq<(Seq<char>, TableModel)> {
    Seq::new(s.len(), |i: int| (s[i].0@, s[i].1@))
}

impl View for TerminalBody {
    type V = BodyModel;

    open spec fn view(&self) -> BodyModel {
        match self {
            TerminalBody::NoData => BodyModel::NoData,
            TerminalBody::Table(t) => BodyModel::Table(t@),
            TerminalBody::Groups(s) => BodyModel::Groups(heading_models(s@)),
        }
    }
}

/// The title of a report: its name in words, or plain where there are none.
pub open spec fn title(catalog: Seq<(Seq<char>, Seq<char>)>, r: ResultModel) -> Seq<char> {
    let t = i18n::translated(catalog, r.display_name);
    if t == r.display_name.code {
        r.name
    } else {
        t
    }
}

/// The description of a report, where there is one in words.
pub open spec fn description(catalog: Seq<(Seq<char>, Seq<char>)>, r: ResultModel) -> Option<
    Seq<char>,
> {
    let d = i18n::translated(catalog, r.description);
    if d == r.description.code || d.len() == 0 {
        None
    } else {
        Some(d)
    }
}

/// The label of a column in words, or made from the name of its cells.
pub open spec fn label(catalog: Seq<(Seq<char>, Seq<char>)>, c: ColumnModel) -> Seq<char> {
    let l = i18n::translated(catalog, c.label);
    if l == c.label.code {
        types::humanized(c.value)
    } else {
        l
    }
}

/// The columns of a report: its own or, where it has none, those of its first
/// row.
pub open spec fn columns_shown(r: ResultModel) -> Seq<ColumnModel> {
    if r.columns.len() > 0 {
        r.columns
    } else {
        types::columns_in(r.name, cells::columns_of(r))
    }
}

pub open spec fn header(catalog: Seq<(Seq<char>, Seq<char>)>, columns: Seq<ColumnModel>) -> Seq<
    Seq<char>,
> {
    Seq::new(
        columns.len() + 1,
        |i: int|
            if i == 0 {
                "Name"@
            } else {
                label(catalog, columns[i - 1])
            },
    )
}

/// What tells of hidden rows.
pub open spec fn note(total: int, top: Option<usize>) -> Option<Seq<char>> {
    match top {
        Some(n) => if n < total {
            Some(
                "  ("@ + text::decimal(n as nat) + " of "@ + text::decimal(total as nat)
                    + " shown; re-run without `--top` to see all)"@,
            )
        } else {
            None
        },
        None => None,
    }
}

pub open spec fn table_of(
    catalog: Seq<(Seq<char>, Seq<char>)>,
    entries: Seq<EntryModel>,
    r: ResultModel,
    top: Option<usize>,
) -> TableModel {
    TableModel {
        header: header(catalog, columns_shown(r)),
        rows: csv_output::entry_rows(
            catalog,
            Seq::empty(),
            entries.take(cells::shown_count(entries.len() as int, top)),
            cells::columns_of(r),
        ),
        note: note(entries.len() as int, top),
    }
}

/// The heading of a group, with the number of its rows.
pub open spec fn heading(catalog: Seq<(Seq<char>, Seq<char>)>, g: GroupModel) -> Seq<char> {
    "  -- "@ + i18n::translated_code(catalog, g.label) + " ("@ + text::decimal(g.entries.len())
        + " entries) --"@
}

pub open spec fn body(
    catalog: Seq<(Seq<char>, Seq<char>)>,
    r: ResultModel,
    top: Option<usize>,
) -> BodyModel {
    if r.groups.len() > 0 {
        BodyModel::Groups(
            Seq::new(
                r.groups.len(),
                |i: int|
                    (
                        heading(catalog, r.groups[i]),
                        table_of(catalog, r.groups[i].entries, r, top),
                    ),
            ),
        )
    } else if r.columns.len() == 0 && r.entries.len() == 0 {
        BodyModel::NoData
    } else {
        BodyModel::Table(table_of(catalog, r.entries, r, top))
    }
}

/// The rows hidden by a limit are told of, and no others are hidden.
pub proof fn hidden_rows_are_told(
    catalog: Seq<(Seq<char>, Seq<char>)>,
    entries: Seq<EntryModel>,
    r: ResultModel,
    top: Option<usize>,
)
    ensures
        table_of(catalog, entries, r, top).note is None <==> table_of(
            catalog,
            entries,
            r,
            top,
        ).rows.len() == entries.len(),
{
}

fn label_text(catalog: &Catalog, column: &Column) -> (r: String)
    requires
        table::ascending(catalog@),
    ensures
        r@ == label(catalog@, column@),
{
    let l = catalog.translate(&column.label);
    if text::same(l.as_str(), column.label.code.as_str()) {
        humanize(column.value.as_str())
    } else {
        l
    }
}

fn header_texts(catalog: &Catalog, result: &MetricResult, values: &[String]) -> (r: Vec<String>)
    requires
        table::ascending(catalog@),
        text::views(values@) == cells::columns_of(result@),
    ensures
        text::views(r@) == header(catalog@, columns_shown(result@)),
{
    let ghost want = header(catalog@, columns_shown(result@));
    let mut out: Vec<String> = Vec::new();
    out.push(text::copy_text("Name"));
    let own: usize = result.columns.len();
    let n: usize = values.len();
    proof {
        assert(values@.len() == text::views(values@).len());
    }
    let mut i: usize = 0;
    while i < n
        invariant
            table::ascending(catalog@),
            own == result.columns@.len(),
            n == values@.len(),
            n == columns_shown(result@).len(),
            own > 0 ==> own == n,
            text::views(values@) == cells::columns_of(result@),
            want == header(catalog@, columns_shown(result@)),
            i <= n,
            out@.len() == i + 1,
            forall|k: int| 0 <= k <= i ==> (#[trigger] out@[k])@ == want[k],
        decreases n - i,
    {
        if own > 0 {
            proof {
                assert(columns_shown(result@)[i as int] == result.columns@[i as int]@);
            }
            out.push(label_text(catalog, &result.columns[i]));
        } else {
            proof {
                assert(text::views(values@)[i as int] == values@[i as int]@);
            }
            let column = Column::in_report(result.name.as_str(), values[i].as_str());
            out.push(label_text(catalog, &column));
        }
        i += 1;
    }
    proof {
        assert(text::views(out@) =~= want);
    }
    out
}

fn note_text(total: usize, top: Option<usize>) -> (r: Option<String>)
    ensures
        match r {
            Some(s) => note(total as int, top) == Some(s@),
            None => note(total as int, top) is None,
        },
{
    match top {
        Some(n) => if n < total {
            let a = text::decimal_text(n as u64);
            let b = text::decimal_text(total as u64);
            let head = text::cat3("  (", a.as_str(), " of ");
            Some(
                text::cat3(
                    head.as_str(),
                    b.as_str(),
                    " shown; re-run without `--top` to see all)",
                ),
            )
        } else {
            None
        },
        None => None,
    }
}

fn make_table(
    catalog: &Catalog,
    entries: &[MetricEntry],
    result: &MetricResult,
    values: &[String],
    top: Option<usize>,
) -> (r: TerminalTable)
    requires
        table::ascending(catalog@),
        text::views(values@) == cells::columns_of(result@),
    ensures
        r@ == table_of(catalog@, types::entry_models(entries@), result@, top),
{
    let total: usize = entries.len();
    let count = count_shown(total, top);
    let ghost want = table_of(catalog@, types::entry_models(entries@), result@, top).rows;
    let mut rows: Vec<Vec<String>> = Vec::new();
    let mut i: usize = 0;
    while i < count
        invariant
            table::ascending(catalog@),
            text::views(values@) == cells::columns_of(result@),
            total == entries@.len(),
            count == cells::shown_count(total as int, top),
            count <= total,
            want == table_of(catalog@, types::entry_models(entries@), result@, top).rows,
            i <= count,
            rows@.len() == i,
            forall|k: int| 0 <= k < i ==> text::views((#[trigger] rows@[k])@) == want[k],
        decreases count - i,
    {
        let mut row: Vec<String> = Vec::new();
        row.push(text::copy_text(entries[i].key.as_str()));
        proof {
            assert(text::views(row@) =~= Seq::empty().push(entries@[i as int].key@));
        }
        push_cells(&mut row, catalog, &entries[i], values);
        rows.push(row);
        i += 1;
    }
    proof {
        assert(csv_output::rows(rows@) =~= want);
    }
    TerminalTable {
        header: header_texts(catalog, result, values),
        rows,
        note: note_text(total, top),
    }
}

fn heading_text(catalog: &Catalog, group: &EntryGroup) -> (r: String)
    requires
        table::ascending(catalog@),
    ensures
        r@ == heading(catalog@, group@),
{
    let name = catalog.translate_code(group.label.as_str());
    let count = text::decimal_text(group.entries.len() as u64);
    let head = text::cat3("  -- ", name.as_str(), " (");
    text::cat3(head.as_str(), count.as_str(), " entries) --")
}

impl TerminalWriter {
    /// The title of a report.
    pub fn title(catalog: &Catalog, result: &MetricResult) -> (r: String)
        requires
            table::ascending(catalog@),
        ensures
            r@ == title(catalog@, result@),
    {
        let t = catalog.translate(&result.display_name);
        if text::same(t.as_str(), result.display_name.code.as_str()) {
            text::copy_text(result.name.as_str())
        } else {
            t
        }
    }

    /// The description of a report, if there is one.
    pub fn description(catalog: &Catalog, result: &MetricResult) -> (r: Option<String>)
        requires
            table::ascending(catalog@),
        ensures
            match r {
                Some(s) => description(catalog@, result@) == Some(s@),
                None => description(catalog@, result@) is None,
            },
    {
        let d = catalog.translate(&result.description);
        if text::same(d.as_str(), result.description.code.as_str()) || text::to_chars(
            d.as_str(),
        ).len() == 0 {
            None
        } else {
            Some(d)
        }
    }

    /// What stands below the title of a report.
    pub fn body(catalog: &Catalog, result: &MetricResult, top: Option<usize>) -> (r: TerminalBody)
        requires
            table::ascending(catalog@),
        ensures
            r@ == body(catalog@, result@, top),
    {
        let values = get_columns(result);
        let g: usize = result.entry_groups.len();
        if g == 0 {
            if result.columns.len() == 0 && result.entries.len() == 0 {
                return TerminalBody::NoData;
            }
            return TerminalBody::Table(make_table(catalog, &result.entries, result, &values, top));
        }
        let ghost want = body(catalog@, result@, top)->Groups_0;
        let mut out: Vec<(String, TerminalTable)> = Vec::new();
        let mut i: usize = 0;
        while i < g
            invariant
                table::ascending(catalog@),
                g == result.entry_groups@.len(),
                g > 0,
                text::views(values@) == cells::columns_of(result@),
                body(catalog@, result@, top) == BodyModel::Groups(want),
                want.len() == g,
                i <= g,
                out@.len() == i,
                forall|k: int|
                    0 <= k < i ==> ((#[trigger] out@[k]).0@, out@[k].1@) == want[k],
            decreases g - i,
        {
            let group = &result.entry_groups[i];
            proof {
                assert(result@.groups[i as int] == group@);
            }
            let head = heading_text(catalog, group);
            let made = make_table(catalog, &group.entries, result, &values, top);
            out.push((head, made));
            i += 1;
        }
        proof {
            assert(heading_models(out@) =~= want);
        }
        TerminalBody::Groups(out)
    }
}

/// A report is headed by its name in words, or by its plain name where there are
/// none; a description is shown only in words.
pub proof fn headings_are_in_words(catalog: Seq<(Seq<char>, Seq<char>)>, r: ResultModel)
    ensures
        table::lookup(catalog, r.display_name.code) is None ==> title(catalog, r) == r.name,
        i18n::translated(catalog, r.display_name) != r.display_name.code ==> title(catalog, r)
            == i18n::translated(catalog, r.display_name),
        table::lookup(catalog, r.description.code) is None ==> description(catalog, r) is None,
        description(catalog, r) matches Some(d) ==> d == i18n::translated(catalog, r.description)
            && d.len() > 0,
        i18n::translated(catalog, r.description) != r.description.code && i18n::translated(
            catalog,
            r.description,
        ).len() > 0 ==> description(catalog, r) is Some,
{
}

/// A column is labelled in words, or by the name of its cells made readable.
pub proof fn columns_are_labelled(catalog: Seq<(Seq<char>, Seq<char>)>, c: ColumnModel)
    ensures
        table::lookup(catalog, c.label.code) is None ==> label(catalog, c) == types::humanized(
            c.value,
        ),
        i18n::translated(catalog, c.label) != c.label.code ==> label(catalog, c)
            == i18n::translated(catalog, c.label),
{
}

/// A table has a name and a label for each column in its header, and under it its
/// rows, up to the limit, each with its name first.
pub proof fn tables_show_their_rows(
    catalog: Seq<(Seq<char>, Seq<char>)>,
    entries: Seq<EntryModel>,
    r: ResultModel,
    top: Option<usize>,
    i: int,
)
    requires
        0 <= i < entries.len(),
        top matches Some(n) ==> i < n,
    ensures
        ({
            let t = table_of(catalog, entries, r, top);
            let columns = cells::columns_of(r);
            &&& t.header[0] == "Name"@
            &&& t.header.len() == columns_shown(r).len() + 1
            &&& forall|c: int|
                0 <= c < columns_shown(r).len() ==> #[trigger] t.header[c + 1] == label(
                    catalog,
                    columns_shown(r)[c],
                )
            &&& top is None ==> t.rows.len() == entries.len()
            &&& top matches Some(n) ==> t.rows.len() <= n
            &&& t.rows[i][0] == entries[i].key
            &&& forall|c: int|
                0 <= c < columns.len() ==> #[trigger] t.rows[i][c + 1] == cells::cell(
                    catalog,
                    entries[i],
                    columns[c],
                )
        }),
{
    let shown = entries.take(cells::shown_count(entries.len() as int, top));
    assert(shown[i] == entries[i]);
}

/// What tells of hidden rows says how many are shown and how many there are.
pub proof fn notes_tell_both_numbers(total: int, n: usize)
    requires
        0 <= total,
    ensures
        note(total, None) is None,
        n >= total ==> note(total, Some(n)) is None,
        n < total ==> note(total, Some(n)) == Some(
            "  ("@ + text::decimal(n as nat) + " of "@ + text::decimal(total as nat)
                + " shown; re-run without `--top` to see all)"@,
        ),
{
}

/// Groups are shown one by one under a heading with the number of their rows, a
/// report without rows or columns as one without data, any other as a table.
pub proof fn reports_are_shown_by_kind(catalog: Seq<(Seq<char>, Seq<char>)>, r: ResultModel, top: Option<usize>, i: int)
    ensures
        r.groups.len() > 0 ==> {
            let g = body(catalog, r, top)->Groups_0;
            &&& body(catalog, r, top) is Groups
            &&& g.len() == r.groups.len()
            &&& 0 <= i < r.groups.len() ==> g[i].0 == "  -- "@ + i18n::translated_code(
                catalog,
                r.groups[i].label,
            ) + " ("@ + text::decimal(r.groups[i].entries.len()) + " entries) --"@ && g[i].1
                == table_of(catalog, r.groups[i].entries, r, top)
        },
        r.groups.len() == 0 && r.columns.len() == 0 && r.entries.len() == 0 ==> body(
            catalog,
            r,
            top,
        ) is NoData,
        r.groups.len() == 0 && (r.columns.len() > 0 || r.entries.len() > 0) ==> body(
            catalog,
            r,
            top,
        ) == BodyModel::Table(table_of(catalog, r.entries, r, top)),
{
}

} // verus!
