//! Cells and columns as text.

use vstd::prelude::*;

use crate::calendar;
use crate::calendar::date_text;
use crate::double;
use crate::double::Double;
use crate::i18n;
use crate::i18n::Catalog;
use crate::table;
use crate::text;
use crate::types::{EntryModel, MessageModel, MetricEntry, MetricResult, MetricValue, ResultModel, ValueModel, Values};

verus! {

/// A cell without translation.
pub open spec fn plain(v: ValueModel) -> Seq<char>
    decreases v, 0nat,
{
    match v {
        ValueModel::Count(n) => text::decimal_int(n),
        ValueModel::Signed(n) => text::decimal_int(n),
        ValueModel::Ratio(num, den) => double::two_places(double::share(num, den)),
        ValueModel::Percent(num, den) => double::two_places(double::percentage(num, den)),
        ValueModel::PerYear(count, days) => double::two_places(double::per_year(count, days)),
        ValueModel::Text(s) => s,
        ValueModel::Date(d) => calendar::date_shown(d),
        ValueModel::Message(m) => m.code,
        ValueModel::List(items) => listed(plains(items, items.len())),
    }
}

/// The first `n` cells without translation.
pub open spec fn plains(items: Seq<ValueModel>, n: nat) -> Seq<Seq<char>>
    decreases items, n,
{
    if n == 0 || n > items.len() {
        Seq::empty()
    } else {
        plains(items, (n - 1) as nat).push(plain(items[n - 1]))
    }
}

/// Texts as a list in brackets.
pub open spec fn listed(parts: Seq<Seq<char>>) -> Seq<char> {
    "["@ + text::join(parts, ", "@) + "]"@
}

/// A cell in words.
pub open spec fn shown(catalog: Seq<(Seq<char>, Seq<char>)>, v: ValueModel) -> Seq<char> {
    match v {
        ValueModel::Message(m) => i18n::translated(catalog, m),
        _ => plain(v),
    }
}

fn plain_text(v: &MetricValue) -> (r: String)
    ensures
        r@ == plain(v@),
    decreases v,
{
    match v {
        MetricValue::Count(n) => text::decimal_text(*n),
        MetricValue::SignedCount(n) => text::decimal_signed(*n),
        MetricValue::Ratio { num, den } => Double::share(*num, *den).with_two_places(),
        MetricValue::Percent { num, den } => Double::percentage(*num, *den).with_two_places(),
        MetricValue::PerYear { count, days } => Double::per_year(*count, *days).with_two_places(),
        MetricValue::Text(s) => text::copy_text(s.as_str()),
        MetricValue::Date(d) => date_text(*d),
        MetricValue::Message(m) => text::copy_text(m.code.as_str()),
        MetricValue::List(items) => {
            let ghost models = v@->List_0;
            let mut parts: Vec<String> = Vec::new();
            let n: usize = items.len();
            let mut i: usize = 0;
            proof {
                assert(text::views(parts@) =~= Seq::empty());
            }
            while i < n
                invariant
                    n == items@.len(),
                    *v == MetricValue::List(*items),
                    models == v@->List_0,
                    models.len() == n,
                    i <= n,
                    text::views(parts@) == plains(models, i as nat),
                decreases n - i,
            {
                let ghost before = text::views(parts@);
                proof {
                    assert(decreases_to!(*v => v->List_0));
                    assert(decreases_to!(*items => items@));
                    assert(decreases_to!(items@ => items@[i as int]));
                    assert(models[i as int] == items@[i as int]@);
                }
                parts.push(plain_text(&items[i]));
                i += 1;
                proof {
                    assert(text::views(parts@) =~= before.push(plain(models[i - 1])));
                }
            }
            let joined = text::join_texts(&parts, ", ");
            text::cat3("[", joined.as_str(), "]")
        },
    }
}

/// A cell in words.
pub fn format_value(catalog: &Catalog, value: &MetricValue) -> (r: String)
    requires
        table::ascending(catalog@),
    ensures
        r@ == shown(catalog@, value@),
{
    match value {
        MetricValue::Message(m) => catalog.translate(m),
        _ => plain_text(value),
    }
}

// ---------------------------------------------------------------------------
// Columns
// ---------------------------------------------------------------------------

/// The keys of a row in order.
pub open spec fn is_listing(s: Seq<Seq<char>>, m: Map<Seq<char>, ValueModel>) -> bool {
    &&& forall|k: Seq<char>| #[trigger] s.contains(k) <==> m.dom().contains(k)
    &&& forall|i: int, j: int|
        0 <= i < j < s.len() ==> text::text_le(#[trigger] s[i], #[trigger] s[j]) && s[i] != s[j]
}

/// The keys of a row in order; there is only one such list.
pub open spec fn listing(m: Map<Seq<char>, ValueModel>) -> Seq<Seq<char>> {
    choose|s: Seq<Seq<char>>| is_listing(s, m)
}

/// Two lists of the same keys in order are the same.
pub proof fn listings_agree(
    a: Seq<Seq<char>>,
    b: Seq<Seq<char>>,
    m: Map<Seq<char>, ValueModel>,
)
    requires
        is_listing(a, m),
        is_listing(b, m),
    ensures
        a == b,
    decreases a.len(),
{
    if a.len() == 0 {
        if b.len() > 0 {
            assert(b.contains(b[0]));
            assert(a.contains(b[0]));
        }
        assert(a =~= b);
    } else {
        assert(a.contains(a[0]));
        assert(b.contains(a[0]));
        let last = a.last();
        assert(a.contains(last));
        assert(b.contains(last));
        assert(b.contains(b.last()));
        assert(a.contains(b.last()));
        let i = choose|i: int| 0 <= i < a.len() && a[i] == b.last();
        let j = choose|j: int| 0 <= j < b.len() && b[j] == last;
        if i < a.len() - 1 && j < b.len() - 1 {
            assert(text::text_le(a[i], a[a.len() - 1]));
            assert(text::text_le(b[j], b[b.len() - 1]));
            text::text_le_antisymmetric(last, b.last());
        }
        assert(last == b.last());
        let rest = m.remove(last);
        lemma_listing_rest(a, m);
        lemma_listing_rest(b, m);
        listings_agree(a.drop_last(), b.drop_last(), rest);
        assert(a =~= a.drop_last().push(last));
        assert(b =~= b.drop_last().push(last));
    }
}

proof fn lemma_listing_rest(a: Seq<Seq<char>>, m: Map<Seq<char>, ValueModel>)
    requires
        is_listing(a, m),
        a.len() > 0,
    ensures
        is_listing(a.drop_last(), m.remove(a.last())),
{
    let init = a.drop_last();
    assert forall|k: Seq<char>| #[trigger] init.contains(k) <==> m.remove(
        a.last(),
    ).dom().contains(k) by {
        if init.contains(k) {
            let i = choose|i: int| 0 <= i < init.len() && init[i] == k;
            assert(a[i] == k);
            assert(a.contains(k));
            assert(a[i] != a[a.len() - 1]);
        }
        if m.remove(a.last()).dom().contains(k) {
            assert(a.contains(k));
            let i = choose|i: int| 0 <= i < a.len() && a[i] == k;
            assert(init[i] == k);
        }
    }
    assert forall|i: int, j: int| 0 <= i < j < init.len() implies text::text_le(
        #[trigger] init[i],
        #[trigger] init[j],
    ) && init[i] != init[j] by {
        assert(text::text_le(a[i], a[j]) && a[i] != a[j]);
    }
}

/// The keys of a row in order.
pub fn keys_of(values: &Values) -> (r: Vec<String>)
    ensures
        text::views(r@) == listing(values@),
        is_listing(text::views(r@), values@),
{
    let r = values.sorted_keys();
    proof {
        let s = text::views(r@);
        assert forall|i: int, j: int| 0 <= i < j < s.len() implies text::text_le(
            #[trigger] s[i],
            #[trigger] s[j],
        ) && s[i] != s[j] by {
            assert(text::text_le(r@[i]@, r@[j]@) && r@[i]@ != r@[j]@);
        }
        assert(is_listing(s, values@));
        listings_agree(s, listing(values@), values@);
    }
    r
}

/// The cells that are shown of each row: the report's columns or, where it has
/// none, the keys of its first row.
pub open spec fn columns_of(r: ResultModel) -> Seq<Seq<char>> {
    if r.columns.len() > 0 {
        Seq::new(r.columns.len(), |i: int| r.columns[i].value)
    } else if r.entries.len() > 0 {
        listing(r.entries[0].values)
    } else {
        Seq::empty()
    }
}

/// The cells that are shown of each row.
pub fn get_columns(result: &MetricResult) -> (r: Vec<String>)
    ensures
        text::views(r@) == columns_of(result@),
{
    let mut out: Vec<String> = Vec::new();
    let n: usize = result.columns.len();
    if n > 0 {
        let mut i: usize = 0;
        while i < n
            invariant
                n == result.columns@.len(),
                i <= n,
                out@.len() == i,
                forall|k: int| 0 <= k < i ==> (#[trigger] out@[k])@ == result@.columns[k].value,
            decreases n - i,
        {
            out.push(text::copy_text(result.columns[i].value.as_str()));
            i += 1;
        }
        proof {
            assert(text::views(out@) =~= columns_of(result@));
        }
        out
    } else if result.entries.len() > 0 {
        proof {
            assert(result@.entries[0] == result.entries@[0]@);
        }
        keys_of(&result.entries[0].values)
    } else {
        proof {
            assert(text::views(out@) =~= Seq::empty());
        }
        out
    }
}

/// The cell of a row, in words; nothing where the row has no such cell.
pub open spec fn cell(
    catalog: Seq<(Seq<char>, Seq<char>)>,
    e: EntryModel,
    column: Seq<char>,
) -> Seq<char> {
    if e.values.dom().contains(column) {
        shown(catalog, e.values[column])
    } else {
        Seq::empty()
    }
}

/// The cells of a row, in words.
pub open spec fn cells(
    catalog: Seq<(Seq<char>, Seq<char>)>,
    e: EntryModel,
    columns: Seq<Seq<char>>,
) -> Seq<Seq<char>> {
    Seq::new(columns.len(), |i: int| cell(catalog, e, columns[i]))
}

/// Adds the cells of a row, in words.
pub fn push_cells(
    row: &mut Vec<String>,
    catalog: &Catalog,
    entry: &MetricEntry,
    columns: &[String],
)
    requires
        table::ascending(catalog@),
    ensures
        text::views(final(row)@) == text::views(old(row)@) + cells(
            catalog@,
            entry@,
            text::views(columns@),
        ),
{
    let ghost before = text::views(row@);
    let ghost want = cells(catalog@, entry@, text::views(columns@));
    let n: usize = columns.len();
    let mut i: usize = 0;
    proof {
        assert(before + want.take(0) =~= before);
    }
    while i < n
        invariant
            n == columns@.len(),
            i <= n,
            table::ascending(catalog@),
            want == cells(catalog@, entry@, text::views(columns@)),
            text::views(row@) == before + want.take(i as int),
        decreases n - i,
    {
        let ghost now = text::views(row@);
        let s = match entry.values.get(columns[i].as_str()) {
            Some(v) => format_value(catalog, v),
            None => String::new(),
        };
        proof {
            assert(s@ =~= want[i as int]);
        }
        row.push(s);
        proof {
            assert(text::views(row@) =~= now.push(want[i as int]));
            assert(before + want.take(i + 1) =~= now.push(want[i as int]));
        }
        i += 1;
    }
    proof {
        assert(want.take(n as int) =~= want);
    }
}

/// How many rows are shown.
pub open spec fn shown_count(total: int, top: Option<usize>) -> int {
    match top {
        Some(n) => if n < total {
            n as int
        } else {
            total
        },
        None => total,
    }
}

/// How many rows are shown.
pub fn count_shown(total: usize, top: Option<usize>) -> (r: usize)
    ensures
        r == shown_count(total as int, top),
        r <= total,
{
    match top {
        Some(n) => if n < total {
            n
        } else {
            total
        },
        None => total,
    }
}

/// What `str::to_lowercase` makes of a text.
pub uninterp spec fn lower_text(s: Seq<char>) -> Seq<char>;

/// `str::to_lowercase`: what it makes of a text depends on the text alone.
#[verifier::external_body]
fn to_lower(s: &str) -> (r: String)
    ensures
        r@ == lower_text(s@),
{
    s.to_lowercase()
}

/// The name of a report as a key: in lower case, without spaces.
pub open spec fn slug(name: Seq<char>) -> Seq<char> {
    text::replace(lower_text(name), " "@, "_"@)
}

/// The name of a report as a key.
pub fn slug_of(name: &str) -> (r: String)
    ensures
        r@ == slug(name@),
{
    let lower = to_lower(name);
    spaces_filled(lower.as_str())
}

/// A text with an underscore for each space.
pub fn spaces_filled(s: &str) -> (r: String)
    ensures
        r@ == text::replace(s@, " "@, "_"@),
{
    text::replaced(s, " ", "_")
}

/// A cell shows as its digits, its text, its day, or with two digits after the
/// point.
pub proof fn cells_show_their_values(n: int, d: int, s: Seq<char>, m: MessageModel)
    ensures
        plain(ValueModel::Count(n)) == text::decimal_int(n),
        plain(ValueModel::Signed(n)) == text::decimal_int(n),
        plain(ValueModel::Text(s)) == s,
        plain(ValueModel::Date(n)) == calendar::date_shown(n),
        plain(ValueModel::Message(m)) == m.code,
        plain(ValueModel::Ratio(n, d)) == double::two_places(double::share(n, d)),
        plain(ValueModel::Percent(n, d)) == double::two_places(
            double::times(double::share(n, d), double::of(100)),
        ),
        plain(ValueModel::PerYear(n, d)) == double::two_places(double::per_year(n, d)),
{
}

/// One more item of a list stands behind the others.
pub proof fn lists_show_their_items(items: Seq<ValueModel>, n: nat)
    requires
        n <= items.len(),
    ensures
        plains(items, n).len() == n,
        forall|k: int| 0 <= k < n ==> #[trigger] plains(items, n)[k] == plain(items[k]),
        plain(ValueModel::List(items)) == "["@ + text::join(
            plains(items, items.len()),
            ", "@,
        ) + "]"@,
    decreases n,
{
    if n > 0 {
        lists_show_their_items(items, (n - 1) as nat);
        assert forall|k: int| 0 <= k < n implies #[trigger] plains(items, n)[k] == plain(
            items[k],
        ) by {
            if k < n - 1 {
                assert(plains(items, n)[k] == plains(items, (n - 1) as nat)[k]);
            }
        }
    }
}

/// In words a message is translated, and any other cell shows as it is.
pub proof fn messages_are_translated(catalog: Seq<(Seq<char>, Seq<char>)>, v: ValueModel)
    ensures
        v matches ValueModel::Message(m) ==> shown(catalog, v) == i18n::translated(catalog, m),
        !(v is Message) ==> shown(catalog, v) == plain(v),
{
}

/// A row has a cell for each column: what the row holds there, or nothing.
pub proof fn rows_have_a_cell_for_each_column(
    catalog: Seq<(Seq<char>, Seq<char>)>,
    e: EntryModel,
    columns: Seq<Seq<char>>,
    i: int,
)
    requires
        0 <= i < columns.len(),
    ensures
        cells(catalog, e, columns).len() == columns.len(),
        e.values.dom().contains(columns[i]) ==> cells(catalog, e, columns)[i] == shown(
            catalog,
            e.values[columns[i]],
        ),
        !e.values.dom().contains(columns[i]) ==> cells(catalog, e, columns)[i].len() == 0,
{
}

/// The columns are those that the report names; one that names none shows what
/// its first row holds.
pub proof fn columns_come_from_the_report(r: ResultModel, i: int)
    ensures
        r.columns.len() > 0 ==> columns_of(r).len() == r.columns.len(),
        0 <= i < r.columns.len() ==> columns_of(r)[i] == r.columns[i].value,
        r.columns.len() == 0 && r.entries.len() > 0 ==> columns_of(r) == listing(
            r.entries[0].values,
        ),
        r.columns.len() == 0 && r.entries.len() == 0 ==> columns_of(r).len() == 0,
{
}

/// As many rows are shown as are asked for, as far as there are so many, and all
/// of them without a limit.
pub proof fn limits_hold(total: int, n: usize)
    requires
        0 <= total,
    ensures
        shown_count(total, None) == total,
        shown_count(total, Some(n)) <= n,
        shown_count(total, Some(n)) <= total,
        shown_count(total, Some(n)) == n || shown_count(total, Some(n)) == total,
{
}

/// The name of a report as a key is in lower case, each space an underscore.
pub proof fn slugs_have_no_spaces(name: Seq<char>)
    ensures
        !text::contains(lower_text(name), " "@) ==> slug(name) == lower_text(name),
{
    reveal_strlit(" ");
    if !text::contains(lower_text(name), " "@) {
        text::absent_texts_are_not_replaced(lower_text(name), " "@, "_"@);
    }
}

} // verus!
