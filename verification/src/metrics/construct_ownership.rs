//! Who owns the functions, classes and methods.

use vstd::prelude::*;

use crate::analysis::source_filter;
use crate::analysis::source_filter::is_source_file;
use crate::busiest;
use crate::busiest::Active;
use crate::fold;
use crate::order;
use crate::order::Ranked;
use crate::report;
use crate::report::Row;
use crate::table;
use crate::table::TextMap;
use crate::tally;
use crate::text;
use crate::types;
use crate::types::{EntryModel, MetricEntry, MetricResult, MetricValue, ResultModel, ValueModel, Values};

pub use crate::tally::compute_bus_factor;

verus! {

/// Only the constructs that were touched most are looked at.
pub const TOP_CONSTRUCTS: usize = 500;

/// How often one author touched one construct.
#[derive(Debug)]
pub struct ConstructTouches {
    pub file: String,
    pub qualified_name: String,
    pub kind: String,
    pub email: String,
    pub touches: u64,
}

pub struct ConstructTouchesModel {
    pub file: Seq<char>,
    pub qualified_name: Seq<char>,
    pub kind: Seq<char>,
    pub email: Seq<char>,
    pub touches: nat,
}

impl View for ConstructTouches {
    type V = ConstructTouchesModel;

    open spec fn view(&self) -> ConstructTouchesModel {
        ConstructTouchesModel {
            file: self.file@,
            qualified_name: self.qualified_name@,
            kind: self.kind@,
            email: self.email@,
            touches: self.touches as nat,
        }
    }
}

/// A character of a guarded text.
pub open spec fn guarded_char(c: char) -> Seq<char> {
    if c == '\0' {
        seq!['\0', '\x01']
    } else {
        seq![c]
    }
}

/// A text in which no two zero characters stand side by side.
pub open spec fn guarded(s: Seq<char>) -> Seq<char>
    decreases s.len(),
{
    if s.len() == 0 {
        Seq::empty()
    } else {
        guarded_char(s[0]) + guarded(s.skip(1))
    }
}

/// What ends a guarded text.
pub open spec fn text_end() -> Seq<char> {
    seq!['\0', '\0']
}

/// The file, the name and the kind of a construct in one text.
pub open spec fn construct_place(r: ConstructTouchesModel) -> Seq<char> {
    guarded(r.file) + text_end() + (guarded(r.qualified_name) + text_end() + r.kind)
}

proof fn lemma_guarded_push(s: Seq<char>, c: char)
    ensures
        guarded(s.push(c)) == guarded(s) + guarded_char(c),
    decreases s.len(),
{
    let t = s.push(c);
    if s.len() == 0 {
        assert(t.skip(1) =~= s);
        assert(guarded(t) =~= guarded_char(c));
        assert(guarded(s) + guarded_char(c) =~= guarded_char(c));
    } else {
        assert(t.skip(1) =~= s.skip(1).push(c));
        lemma_guarded_push(s.skip(1), c);
        assert(guarded(t) =~= guarded(s) + guarded_char(c));
    }
}

proof fn lemma_guarded_apart(a: Seq<char>, x: Seq<char>, b: Seq<char>, y: Seq<char>)
    requires
        guarded(a) + text_end() + x == guarded(b) + text_end() + y,
    ensures
        a == b,
        x == y,
    decreases a.len(),
{
    let l = guarded(a) + text_end() + x;
    let r = guarded(b) + text_end() + y;
    if a.len() == 0 && b.len() == 0 {
        assert(l.skip(2) =~= x);
        assert(r.skip(2) =~= y);
        assert(a =~= b);
    } else if a.len() == 0 {
        assert(l[0] == '\0' && l[1] == '\0');
        assert(r[0] == guarded_char(b[0])[0]);
        assert(b[0] == '\0' ==> r[1] == '\x01');
        assert(false);
    } else if b.len() == 0 {
        assert(r[0] == '\0' && r[1] == '\0');
        assert(l[0] == guarded_char(a[0])[0]);
        assert(a[0] == '\0' ==> l[1] == '\x01');
        assert(false);
    } else {
        assert(l[0] == guarded_char(a[0])[0]);
        assert(r[0] == guarded_char(b[0])[0]);
        assert(a[0] == b[0]);
        let n = guarded_char(a[0]).len() as int;
        assert(l.skip(n) =~= guarded(a.skip(1)) + text_end() + x);
        assert(r.skip(n) =~= guarded(b.skip(1)) + text_end() + y);
        lemma_guarded_apart(a.skip(1), x, b.skip(1), y);
        assert(a =~= seq![a[0]] + a.skip(1));
        assert(b =~= seq![b[0]] + b.skip(1));
    }
}

/// Constructs are told apart by their file, their name and their kind.
pub proof fn places_tell_constructs_apart(a: ConstructTouchesModel, b: ConstructTouchesModel)
    ensures
        (ConstructTouches::place(a) == ConstructTouches::place(b)) == (a.file == b.file
            && a.qualified_name == b.qualified_name && a.kind == b.kind),
{
    if construct_place(a) == construct_place(b) {
        lemma_guarded_apart(
            a.file,
            guarded(a.qualified_name) + text_end() + a.kind,
            b.file,
            guarded(b.qualified_name) + text_end() + b.kind,
        );
        lemma_guarded_apart(a.qualified_name, a.kind, b.qualified_name, b.kind);
    }
}

fn guard(s: &str) -> (r: String)
    ensures
        r@ == guarded(s@) + text_end(),
{
    let v = text::to_chars(s);
    let n: usize = v.len();
    let mut out = String::new();
    let mut i: usize = 0;
    proof {
        assert(out@ =~= guarded(s@.take(0)));
    }
    while i < n
        invariant
            v@ == s@,
            n == v@.len(),
            i <= n,
            out@ == guarded(s@.take(i as int)),
        decreases n - i,
    {
        proof {
            lemma_guarded_push(s@.take(i as int), s@[i as int]);
            assert(s@.take(i + 1) =~= s@.take(i as int).push(s@[i as int]));
        }
        let ghost before = out@;
        out.push(v[i]);
        if v[i] == '\0' {
            out.push('\x01');
        }
        proof {
            assert(out@ =~= before + guarded_char(s@[i as int]));
        }
        i += 1;
    }
    proof {
        assert(s@.take(n as int) =~= s@);
    }
    let ghost whole = out@;
    out.push('\0');
    out.push('\0');
    proof {
        assert(out@ =~= whole + text_end());
    }
    out
}

/// What happens at a construct of a kind is that it is touched.
impl Active for ConstructTouches {
    open spec fn place(r: ConstructTouchesModel) -> Seq<char> {
        construct_place(r)
    }

    open spec fn amount(r: ConstructTouchesModel) -> nat {
        r.touches
    }

    fn place_name(&self) -> (r: String) {
        let rest = text::cat(guard(self.qualified_name.as_str()).as_str(), self.kind.as_str());
        text::cat(guard(self.file.as_str()).as_str(), rest.as_str())
    }

    fn amount_here(&self) -> (r: u64) {
        self.touches
    }
}

proof fn lemma_touches_within_weight(s: Seq<ConstructTouchesModel>)
    ensures
        fold::total(s, busiest::amounts::<ConstructTouches>()) <= fold::total(s, weight()),
    decreases s.len(),
{
    if s.len() > 0 {
        lemma_touches_within_weight(s.drop_last());
    }
}

/// A touch counts at least once.
pub open spec fn weight() -> spec_fn(ConstructTouchesModel) -> nat {
    |r: ConstructTouchesModel|
        if r.touches > 0 {
            r.touches
        } else {
            1
        }
}

/// The key of a construct: its file and its name in it.
pub open spec fn construct_key(r: ConstructTouchesModel) -> Seq<char> {
    r.file + "::"@ + r.qualified_name
}

/// Where a construct stands, what it is, and who touched it how often.
#[derive(Debug)]
pub struct Construct {
    pub file: String,
    pub kind: String,
    pub by_author: TextMap<u64>,
}

pub struct ConstructModel {
    pub file: Seq<char>,
    pub kind: Seq<char>,
    pub by_author: Seq<(Seq<char>, u64)>,
}

impl View for Construct {
    type V = ConstructModel;

    open spec fn view(&self) -> ConstructModel {
        ConstructModel { file: self.file@, kind: self.kind@, by_author: self.by_author@ }
    }
}

pub open spec fn fresh(r: ConstructTouchesModel) -> ConstructModel {
    ConstructModel { file: r.file, kind: r.kind, by_author: Seq::empty() }
}

pub open spec fn touched(c: ConstructModel, r: ConstructTouchesModel) -> ConstructModel {
    ConstructModel {
        file: c.file,
        kind: c.kind,
        by_author: tally::credited(c.by_author, r.email, weight()(r)),
    }
}

/// The constructs of the source files, by their keys.
pub open spec fn constructs(rows: Seq<ConstructTouchesModel>) -> Seq<(Seq<char>, ConstructModel)>
    decreases rows.len(),
{
    if rows.len() == 0 {
        Seq::empty()
    } else {
        let head = constructs(rows.drop_last());
        let r = rows.last();
        if source_filter::is_source(r.file) {
            table::put(head, construct_key(r), touched(known(head, r), r))
        } else {
            head
        }
    }
}

/// The construct that a row speaks of, as far as it is known.
pub open spec fn known(m: Seq<(Seq<char>, ConstructModel)>, r: ConstructTouchesModel) ->
    ConstructModel {
    match table::lookup(m, construct_key(r)) {
        Some(c) => c,
        None => fresh(r),
    }
}

pub open spec fn construct_sum() -> spec_fn((Seq<char>, ConstructModel)) -> nat {
    |p: (Seq<char>, ConstructModel)| tally::sum(p.1.by_author)
}

/// Keys and authors stand in ascending order.
pub open spec fn in_order(m: Seq<(Seq<char>, ConstructModel)>) -> bool {
    &&& table::ascending(m)
    &&& forall|i: int| 0 <= i < m.len() ==> table::ascending((#[trigger] m[i]).1.by_author)
}

/// Who owns a construct.
pub struct ConstructOwner {
    pub key: String,
    pub kind: String,
    pub file: String,
    pub top_author: String,
    pub top_pct: u64,
    pub total_authors: u64,
    pub bus_factor: u64,
    pub touches: u64,
}

pub struct ConstructOwnerModel {
    pub key: Seq<char>,
    pub kind: Seq<char>,
    pub file: Seq<char>,
    pub top_author: Seq<char>,
    pub top_pct: int,
    pub total_authors: int,
    pub bus_factor: int,
    pub touches: int,
}

impl View for ConstructOwner {
    type V = ConstructOwnerModel;

    open spec fn view(&self) -> ConstructOwnerModel {
        ConstructOwnerModel {
            key: self.key@,
            kind: self.kind@,
            file: self.file@,
            top_author: self.top_author@,
            top_pct: self.top_pct as int,
            total_authors: self.total_authors as int,
            bus_factor: self.bus_factor as int,
            touches: self.touches as int,
        }
    }
}

/// The share of the top author in percent, rounded down, at most 100.
pub open spec fn top_share(top: int, total: int) -> int {
    let scaled = if top * 100 > u64::MAX {
        u64::MAX as int
    } else {
        top * 100
    };
    if total == 0 {
        0
    } else if scaled / total > 100 {
        100
    } else {
        scaled / total
    }
}

pub open spec fn owner_of(key: Seq<char>, c: ConstructModel) -> ConstructOwnerModel {
    let t = c.by_author;
    let all = tally::sum(t) as int;
    let l = tally::leader(t);
    ConstructOwnerModel {
        key,
        kind: c.kind,
        file: c.file,
        top_author: if t.len() == 0 {
            "<unknown>"@
        } else {
            t[l].0
        },
        top_pct: top_share(
            if t.len() == 0 {
                0
            } else {
                t[l].1 as int
            },
            all,
        ),
        total_authors: t.len() as int,
        bus_factor: tally::bus_factor(table::values(t), all as nat),
        touches: all,
    }
}

pub open spec fn owners(m: Seq<(Seq<char>, ConstructModel)>) -> Seq<ConstructOwnerModel> {
    Seq::new(m.len(), |i: int| owner_of(m[i].0, m[i].1))
}

/// The lowest bus factor first; of those that tie, the most touched.
impl Ranked for ConstructOwner {
    open spec fn le(a: ConstructOwnerModel, b: ConstructOwnerModel) -> bool {
        if a.bus_factor != b.bus_factor {
            a.bus_factor < b.bus_factor
        } else {
            a.touches >= b.touches
        }
    }

    proof fn le_total(a: ConstructOwnerModel, b: ConstructOwnerModel) {
    }

    proof fn le_transitive(a: ConstructOwnerModel, b: ConstructOwnerModel, c: ConstructOwnerModel) {
    }

    fn not_after(&self, other: &ConstructOwner) -> (r: bool) {
        if self.bus_factor != other.bus_factor {
            self.bus_factor < other.bus_factor
        } else {
            self.touches >= other.touches
        }
    }
}

impl Row for ConstructOwner {
    open spec fn entry(o: ConstructOwnerModel) -> EntryModel {
        EntryModel {
            key: o.key,
            values: Map::empty().insert("kind"@, ValueModel::Text(o.kind)).insert(
                "file"@,
                ValueModel::Text(o.file),
            ).insert("top_author"@, ValueModel::Text(o.top_author)).insert(
                "top_pct"@,
                ValueModel::Count(o.top_pct),
            ).insert("total_authors"@, ValueModel::Count(o.total_authors)).insert(
                "bus_factor"@,
                ValueModel::Count(o.bus_factor),
            ).insert("touches"@, ValueModel::Count(o.touches)),
        }
    }

    fn to_entry(self) -> (r: MetricEntry) {
        let mut values = Values::new();
        values.insert("kind", MetricValue::Text(self.kind));
        values.insert("file", MetricValue::Text(self.file));
        values.insert("top_author", MetricValue::Text(self.top_author));
        values.insert("top_pct", MetricValue::Count(self.top_pct));
        values.insert("total_authors", MetricValue::Count(self.total_authors));
        values.insert("bus_factor", MetricValue::Count(self.bus_factor));
        values.insert("touches", MetricValue::Count(self.touches));
        MetricEntry { key: self.key, values }
    }
}

pub open spec fn construct_columns() -> Seq<Seq<char>> {
    seq![
        "kind"@,
        "file"@,
        "top_author"@,
        "top_pct"@,
        "total_authors"@,
        "bus_factor"@,
        "touches"@,
    ]
}

pub open spec fn construct_ownership_report(rows: Seq<ConstructTouchesModel>) -> ResultModel {
    types::report_of(
        "construct_ownership"@,
        construct_columns(),
        report::entries_of::<ConstructOwner>(
            order::sort_ranked::<ConstructOwner>(
                owners(
                    constructs(busiest::busiest::<ConstructTouches>(rows, TOP_CONSTRUCTS as int)),
                ),
            ),
        ),
    )
}

fn touch(m: &mut TextMap<Construct>, row: &ConstructTouches)
    requires
        in_order(old(m)@),
        fold::total(old(m)@, construct_sum()) + weight()(row@) <= u64::MAX,
    ensures
        final(m)@ == table::put(
            old(m)@,
            construct_key(row@),
            touched(known(old(m)@, row@), row@),
        ),
        in_order(final(m)@),
        fold::total(final(m)@, construct_sum()) == fold::total(old(m)@, construct_sum())
            + weight()(row@),
{
    let ghost before = m@;
    let head = text::cat3(row.file.as_str(), "::", row.qualified_name.as_str());
    let ghost key = construct_key(row@);
    let ghost c = known(before, row@);
    let ghost goal = table::put(before, key, touched(c, row@));
    let n: u64 = if row.touches > 0 {
        row.touches
    } else {
        1
    };
    let k = m.slot(
        head.as_str(),
        Construct { file: row.file.clone(), kind: row.kind.clone(), by_author: TextMap::new() },
    );
    let ghost held = m@;
    proof {
        if table::lookup(before, key) is None {
            table::lookup_of_put(before, key, fresh(row@), key);
            table::put_twice(before, key, fresh(row@), touched(c, row@));
        } else {
            table::lemma_lookup_at(before, k as int);
        }
        table::lemma_lookup_at(held, k as int);
        assert(held[k as int].1 == c);
        assert(table::ascending(c.by_author)) by {
            if table::lookup(before, key) is Some {
                assert(table::ascending(before[k as int].1.by_author));
            }
        }
        table::lookup_within_total(before, key, construct_sum());
        tally::amount_within_sum(c.by_author, row.email@);
        tally::sum_of_credited(c.by_author, row.email@, n as nat);
    }
    let slot = m.value_mut(k);
    tally::credit(&mut slot.by_author, row.email.as_str(), n);
    proof {
        table::lemma_update_is_put(held, k as int, touched(c, row@));
        table::put_ascends(before, key, touched(c, row@));
        table::total_of_put(before, key, touched(c, row@), construct_sum());
        assert forall|i: int| 0 <= i < goal.len() implies table::ascending(
            (#[trigger] goal[i]).1.by_author,
        ) by {
            table::lemma_put_members(before, key, touched(c, row@), i);
            if goal[i] != (key, touched(c, row@)) {
                let j = choose|j: int| 0 <= j < before.len() && before[j] == goal[i];
                assert(table::ascending(before[j].1.by_author));
            }
        }
    }
}

fn collect_constructs(rows: &[ConstructTouches]) -> (r: TextMap<Construct>)
    requires
        fold::total(order::models(rows@), weight()) <= u64::MAX,
    ensures
        r@ == constructs(order::models(rows@)),
        fold::total(r@, construct_sum()) <= u64::MAX,
{
    let ghost all = order::models(rows@);
    let mut found: TextMap<Construct> = TextMap::new();
    let n: usize = rows.len();
    let mut i: usize = 0;
    while i < n
        invariant
            n == rows@.len(),
            i <= n,
            all == order::models(rows@),
            fold::total(all, weight()) <= u64::MAX,
            found@ == constructs(all.take(i as int)),
            in_order(found@),
            fold::total(found@, construct_sum()) <= fold::total(all.take(i as int), weight()),
        decreases n - i,
    {
        proof {
            fold::lemma_total_step(all, weight(), i as int);
            assert(all.take(i + 1).drop_last() =~= all.take(i as int));
        }
        let row = &rows[i];
        if is_source_file(row.file.as_str()) {
            touch(&mut found, row);
        }
        i += 1;
    }
    proof {
        assert(all.take(n as int) =~= all);
    }
    found
}

fn percent_capped(top: u64, total: u64) -> (r: u64)
    ensures
        r == top_share(top as int, total as int),
{
    if total == 0 {
        return 0;
    }
    let wide: u128 = top as u128 * 100;
    let scaled: u64 = if wide > u64::MAX as u128 {
        u64::MAX
    } else {
        wide as u64
    };
    let p: u64 = scaled / total;
    if p > 100 {
        100
    } else {
        p
    }
}

fn own(key: &String, c: &Construct) -> (r: ConstructOwner)
    requires
        tally::sum(c.by_author@) <= u64::MAX,
    ensures
        r@ == owner_of(key@, c@),
{
    let total = tally::sum_of(&c.by_author);
    let mut top_author = text::copy_text("<unknown>");
    let mut top: u64 = 0;
    if c.by_author.len() > 0 {
        let l = tally::leader_of(&c.by_author);
        top_author = c.by_author.key_at(l).clone();
        top = *c.by_author.value_at(l);
    }
    ConstructOwner {
        key: key.clone(),
        kind: c.kind.clone(),
        file: c.file.clone(),
        top_author,
        top_pct: percent_capped(top, total),
        total_authors: c.by_author.len() as u64,
        bus_factor: compute_bus_factor(&c.by_author, total),
        touches: total,
    }
}

pub struct ConstructOwnershipCollector;

impl Default for ConstructOwnershipCollector {
    fn default() -> (r: Self)
        ensures
            r == (ConstructOwnershipCollector {  }),
    {
        ConstructOwnershipCollector::new()
    }
}

impl ConstructOwnershipCollector {
    pub fn new() -> (r: Self)
        ensures
            r == (ConstructOwnershipCollector {  }),
    {
        ConstructOwnershipCollector
    }

    pub fn name(&self) -> (r: &str)
        ensures
            r@ == "construct_ownership"@,
    {
        "construct_ownership"
    }

    /// The report without any rows to draw on.
    pub fn finalize(&mut self) -> (r: MetricResult)
        ensures
            r@ == types::empty_report("construct_ownership"@),
    {
        MetricResult::empty("construct_ownership")
    }

    /// The report, given how often each author touched each construct. All
    /// touches together number at most `u64::MAX`.
    pub fn finalize_from_rows(&mut self, rows: Vec<ConstructTouches>) -> (r: MetricResult)
        requires
            fold::total(order::models(rows@), weight()) <= u64::MAX,
        ensures
            r@ == construct_ownership_report(order::models(rows@)),
    {
        proof {
            let s = order::models(rows@);
            lemma_touches_within_weight(s);
            busiest::listed_total::<ConstructTouches>(
                s,
                busiest::leading::<ConstructTouches>(s, TOP_CONSTRUCTS as int),
                weight(),
            );
        }
        let kept = busiest::keep_busiest(rows, TOP_CONSTRUCTS);
        let found = collect_constructs(kept.as_slice());
        let n: usize = found.len();
        let mut list: Vec<ConstructOwner> = Vec::new();
        let mut i: usize = 0;
        while i < n
            invariant
                n == found@.len(),
                i <= n,
                fold::total(found@, construct_sum()) <= u64::MAX,
                order::models(list@) == owners(found@).take(i as int),
            decreases n - i,
        {
            proof {
                fold::lemma_total_member(found@, construct_sum(), i as int);
            }
            let ghost before = order::models(list@);
            let o = own(found.key_at(i), found.value_at(i));
            list.push(o);
            proof {
                assert(order::models(list@) =~= before.push(o@));
                assert(owners(found@).take(i + 1) =~= before.push(o@));
            }
            i += 1;
        }
        proof {
            assert(owners(found@).take(n as int) =~= owners(found@));
        }
        let entries = report::to_entries(order::sort_rows(list));
        let columns = [
            "kind",
            "file",
            "top_author",
            "top_pct",
            "total_authors",
            "bus_factor",
            "touches",
        ];
        proof {
            assert(types::str_views(columns@) =~= construct_columns());
        }
        MetricResult::report("construct_ownership", &columns, entries)
    }
}

/// The share of the top author is rounded down; it never exceeds the whole.
pub proof fn top_share_is_rounded_down(top: int, total: int)
    requires
        0 <= top <= total,
        0 < total,
        top * 100 <= u64::MAX,
    ensures
        top_share(top, total) * total <= top * 100 < (top_share(top, total) + 1) * total,
        0 <= top_share(top, total) <= 100,
        top_share(total, total) == 100 || total * 100 > u64::MAX,
{
    let p = top * 100;
    let q = p / total;
    assert(q * total <= p < (q + 1) * total) by (nonlinear_arith)
        requires
            total > 0,
            q == p / total,
    ;
    assert(0 <= q <= 100) by (nonlinear_arith)
        requires
            q * total <= p < (q + 1) * total,
            0 <= p <= total * 100,
            total > 0,
    ;
    assert((total * 100) / total == 100) by (nonlinear_arith)
        requires
            total > 0,
    ;
}

/// The touches that an author made on the construct with a key, each row
/// counting at least once.
pub open spec fn touches_by(key: Seq<char>, email: Seq<char>) -> spec_fn(
    ConstructTouchesModel,
) -> nat {
    |r: ConstructTouchesModel|
        if source_filter::is_source(r.file) && r.file + "::"@ + r.qualified_name == key && r.email
            == email {
            if r.touches >= 1 {
                r.touches
            } else {
                1
            }
        } else {
            0
        }
}

/// The construct at a key, with nobody who touched it where there is none.
pub open spec fn touchers(rows: Seq<ConstructTouchesModel>, key: Seq<char>) -> Seq<
    (Seq<char>, u64),
> {
    match table::lookup(constructs(rows), key) {
        Some(c) => c.by_author,
        None => Seq::empty(),
    }
}

/// What an author is credited with at a construct is all that they touched
/// there, in source files only.
pub proof fn authors_get_what_they_touched(
    rows: Seq<ConstructTouchesModel>,
    key: Seq<char>,
    email: Seq<char>,
)
    requires
        fold::total(rows, weight()) <= u64::MAX,
    ensures
        tally::amount(touchers(rows, key), email) == fold::total(rows, touches_by(key, email)),
        fold::total(rows, touches_by(key, email)) <= fold::total(rows, weight()),
        in_order(constructs(rows)),
    decreases rows.len(),
{
    if rows.len() > 0 {
        let front = rows.drop_last();
        let r = rows.last();
        let head = constructs(front);
        authors_get_what_they_touched(front, key, email);
        authors_get_what_they_touched(front, construct_key(r), r.email);
        if source_filter::is_source(r.file) {
            let at = construct_key(r);
            let c = known(head, r);
            let t = c.by_author;
            assert(t == touchers(front, at));
            assert(table::ascending(t)) by {
                match table::lookup(head, at) {
                    Some(w) => {
                        table::lemma_lookup_some(head, at);
                        let k = choose|k: int| 0 <= k < table::keys(head).len() && table::keys(head)[k] == at;
                        table::lemma_lookup_at(head, k);
                    },
                    None => {},
                }
            }
            tally::amount_of_credited(t, r.email, weight()(r), email);
            tally::sum_of_credited(t, r.email, weight()(r));
            table::lookup_of_put(head, at, touched(c, r), key);
            table::put_ascends(head, at, touched(c, r));
            assert forall|i: int| 0 <= i < constructs(rows).len() implies table::ascending(
                (#[trigger] constructs(rows)[i]).1.by_author,
            ) by {
                table::lemma_put_members(head, at, touched(c, r), i);
            }
        }
    }
}

/// The owner of a construct is the one who touched it most.
pub proof fn the_owner_touched_most(key: Seq<char>, c: ConstructModel, i: int)
    requires
        table::ascending(c.by_author),
        0 <= i < c.by_author.len(),
    ensures
        ({
            let o = owner_of(key, c);
            &&& o.key == key
            &&& o.file == c.file
            &&& o.kind == c.kind
            &&& o.total_authors == c.by_author.len()
            &&& o.touches == tally::sum(c.by_author)
            &&& c.by_author[i].1 <= tally::amount(c.by_author, o.top_author)
            &&& table::keys(c.by_author).contains(o.top_author)
            &&& tally::sum(c.by_author) * 100 <= u64::MAX && o.touches > 0 ==> o.top_pct
                * o.touches <= 100 * tally::amount(c.by_author, o.top_author) < (o.top_pct + 1)
                * o.touches
        }),
{
    let t = c.by_author;
    tally::leader_leads(t);
    let l = tally::leader(t);
    table::lemma_lookup_at(t, l);
    assert(table::keys(t)[l] == t[l].0);
    fold::lemma_total_member(t, tally::pair_amount(), l);
    if tally::sum(t) > 0 && tally::sum(t) * 100 <= u64::MAX {
        top_share_is_rounded_down(t[l].1 as int, tally::sum(t) as int);
    }
}

/// Every construct that is looked at is shown with its owner.
pub proof fn every_construct_is_shown(m: Seq<(Seq<char>, ConstructModel)>, rows: Seq<ConstructTouchesModel>, k: int)
    requires
        m == constructs(busiest::busiest::<ConstructTouches>(rows, 500)),
        0 <= k < m.len(),
    ensures
        exists|i: int|
            0 <= i < construct_ownership_report(rows).entries.len() && ({
                let e = #[trigger] construct_ownership_report(rows).entries[i];
                let r = m[k];
                &&& e.key == owner_of(r.0, r.1).key
                &&& e.values["kind"@] == ValueModel::Text(r.1.kind)
                &&& e.values["file"@] == ValueModel::Text(r.1.file)
                &&& e.values["top_author"@] == ValueModel::Text(owner_of(r.0, r.1).top_author)
                &&& e.values["top_pct"@] == ValueModel::Count(owner_of(r.0, r.1).top_pct)
                &&& e.values["total_authors"@] == ValueModel::Count(r.1.by_author.len() as int)
                &&& e.values["bus_factor"@] == ValueModel::Count(tally::bus_factor(table::values(r.1.by_author), tally::sum(r.1.by_author)))
                &&& e.values["touches"@] == ValueModel::Count(tally::sum(r.1.by_author) as int)
            }),
{
    let s = owners(m);
    let x = owner_of(m[k].0, m[k].1);
    let ranked = order::sort_ranked::<ConstructOwner>(owners(m));
    assert(s[k] == x);
    order::sort_same_members::<ConstructOwner>(owners(m));
    order::sort_keeps_elements::<ConstructOwner>(owners(m));
    assert(s.contains(x));
    assert(ranked.contains(x));
    let i = choose|i: int| 0 <= i < ranked.len() && ranked[i] == x;
    assert(construct_ownership_report(rows).entries[i] == ConstructOwner::entry(x));
    reveal_strlit("kind");
    reveal_strlit("file");
    reveal_strlit("top_author");
    reveal_strlit("top_pct");
    reveal_strlit("total_authors");
    reveal_strlit("bus_factor");
    reveal_strlit("touches");
    assert("kind"@[0] != "file"@[0]);
    assert("kind"@.len() != "top_author"@.len());
    assert("kind"@.len() != "top_pct"@.len());
    assert("kind"@.len() != "total_authors"@.len());
    assert("kind"@.len() != "bus_factor"@.len());
    assert("kind"@.len() != "touches"@.len());
    assert("file"@.len() != "top_author"@.len());
    assert("file"@.len() != "top_pct"@.len());
    assert("file"@.len() != "total_authors"@.len());
    assert("file"@.len() != "bus_factor"@.len());
    assert("file"@.len() != "touches"@.len());
    assert("top_author"@.len() != "top_pct"@.len());
    assert("top_author"@.len() != "total_authors"@.len());
    assert("top_author"@[0] != "bus_factor"@[0]);
    assert("top_author"@.len() != "touches"@.len());
    assert("top_pct"@.len() != "total_authors"@.len());
    assert("top_pct"@.len() != "bus_factor"@.len());
    assert("top_pct"@[2] != "touches"@[2]);
    assert("total_authors"@.len() != "bus_factor"@.len());
    assert("total_authors"@.len() != "touches"@.len());
    assert("bus_factor"@.len() != "touches"@.len());
}

/// Whatever is shown is a construct that was looked at.
pub proof fn only_constructs_are_shown(m: Seq<(Seq<char>, ConstructModel)>, rows: Seq<ConstructTouchesModel>, i: int)
    requires
        m == constructs(busiest::busiest::<ConstructTouches>(rows, 500)),
        0 <= i < construct_ownership_report(rows).entries.len(),
    ensures
        exists|k: int|
            0 <= k < m.len() && ({
                let e = construct_ownership_report(rows).entries[i];
                let r = #[trigger] m[k];
                &&& e.key == owner_of(r.0, r.1).key
                &&& e.values["kind"@] == ValueModel::Text(r.1.kind)
                &&& e.values["file"@] == ValueModel::Text(r.1.file)
                &&& e.values["top_author"@] == ValueModel::Text(owner_of(r.0, r.1).top_author)
                &&& e.values["top_pct"@] == ValueModel::Count(owner_of(r.0, r.1).top_pct)
                &&& e.values["total_authors"@] == ValueModel::Count(r.1.by_author.len() as int)
                &&& e.values["bus_factor"@] == ValueModel::Count(tally::bus_factor(table::values(r.1.by_author), tally::sum(r.1.by_author)))
                &&& e.values["touches"@] == ValueModel::Count(tally::sum(r.1.by_author) as int)
            }),
{
    let s = owners(m);
    let ranked = order::sort_ranked::<ConstructOwner>(owners(m));
    let x = ranked[i];
    order::sort_same_members::<ConstructOwner>(owners(m));
    order::sort_keeps_elements::<ConstructOwner>(owners(m));
    assert(ranked.contains(x));
    assert(s.contains(x));
    assert(construct_ownership_report(rows).entries[i] == ConstructOwner::entry(x));
    let k = choose|k: int| 0 <= k < s.len() && s[k] == x;
    assert(m[k] == m[k]);
    reveal_strlit("kind");
    reveal_strlit("file");
    reveal_strlit("top_author");
    reveal_strlit("top_pct");
    reveal_strlit("total_authors");
    reveal_strlit("bus_factor");
    reveal_strlit("touches");
    assert("kind"@[0] != "file"@[0]);
    assert("kind"@.len() != "top_author"@.len());
    assert("kind"@.len() != "top_pct"@.len());
    assert("kind"@.len() != "total_authors"@.len());
    assert("kind"@.len() != "bus_factor"@.len());
    assert("kind"@.len() != "touches"@.len());
    assert("file"@.len() != "top_author"@.len());
    assert("file"@.len() != "top_pct"@.len());
    assert("file"@.len() != "total_authors"@.len());
    assert("file"@.len() != "bus_factor"@.len());
    assert("file"@.len() != "touches"@.len());
    assert("top_author"@.len() != "top_pct"@.len());
    assert("top_author"@.len() != "total_authors"@.len());
    assert("top_author"@[0] != "bus_factor"@[0]);
    assert("top_author"@.len() != "touches"@.len());
    assert("top_pct"@.len() != "total_authors"@.len());
    assert("top_pct"@.len() != "bus_factor"@.len());
    assert("top_pct"@[2] != "touches"@[2]);
    assert("total_authors"@.len() != "bus_factor"@.len());
    assert("total_authors"@.len() != "touches"@.len());
    assert("bus_factor"@.len() != "touches"@.len());
}

/// The constructs that fewest authors know stand first, of those the most
/// touched.
pub proof fn fewest_hands_first(m: Seq<(Seq<char>, ConstructModel)>, rows: Seq<ConstructTouchesModel>, i: int, j: int)
    requires
        m == constructs(busiest::busiest::<ConstructTouches>(rows, 500)),
        0 <= i < j < construct_ownership_report(rows).entries.len(),
    ensures
        ({
            let a = construct_ownership_report(rows).entries[i].values;
            let b = construct_ownership_report(rows).entries[j].values;
            ({
                ||| a["bus_factor"@]->Count_0 < b["bus_factor"@]->Count_0
                ||| a["bus_factor"@] == b["bus_factor"@] && a["touches"@]->Count_0
                    >= b["touches"@]->Count_0
            })
        }),
{
    let ranked = order::sort_ranked::<ConstructOwner>(owners(m));
    order::sort_orders::<ConstructOwner>(owners(m));
    assert(construct_ownership_report(rows).entries[i] == ConstructOwner::entry(ranked[i]));
    assert(construct_ownership_report(rows).entries[j] == ConstructOwner::entry(ranked[j]));
    assert(ConstructOwner::le(ranked[i], ranked[j]));
    reveal_strlit("kind");
    reveal_strlit("file");
    reveal_strlit("top_author");
    reveal_strlit("top_pct");
    reveal_strlit("total_authors");
    reveal_strlit("bus_factor");
    reveal_strlit("touches");
    assert("kind"@[0] != "file"@[0]);
    assert("kind"@.len() != "top_author"@.len());
    assert("kind"@.len() != "top_pct"@.len());
    assert("kind"@.len() != "total_authors"@.len());
    assert("kind"@.len() != "bus_factor"@.len());
    assert("kind"@.len() != "touches"@.len());
    assert("file"@.len() != "top_author"@.len());
    assert("file"@.len() != "top_pct"@.len());
    assert("file"@.len() != "total_authors"@.len());
    assert("file"@.len() != "bus_factor"@.len());
    assert("file"@.len() != "touches"@.len());
    assert("top_author"@.len() != "top_pct"@.len());
    assert("top_author"@.len() != "total_authors"@.len());
    assert("top_author"@[0] != "bus_factor"@[0]);
    assert("top_author"@.len() != "touches"@.len());
    assert("top_pct"@.len() != "total_authors"@.len());
    assert("top_pct"@.len() != "bus_factor"@.len());
    assert("top_pct"@[2] != "touches"@[2]);
    assert("total_authors"@.len() != "bus_factor"@.len());
    assert("total_authors"@.len() != "touches"@.len());
    assert("bus_factor"@.len() != "touches"@.len());
}

/// The report has these columns, in this order.
pub proof fn the_columns_are_these(rows: Seq<ConstructTouchesModel>)
    ensures
        construct_ownership_report(rows).name == "construct_ownership"@,
        construct_ownership_report(rows).columns.len() == 7,
        construct_ownership_report(rows).columns[0].value == "kind"@,
        construct_ownership_report(rows).columns[1].value == "file"@,
        construct_ownership_report(rows).columns[2].value == "top_author"@,
        construct_ownership_report(rows).columns[3].value == "top_pct"@,
        construct_ownership_report(rows).columns[4].value == "total_authors"@,
        construct_ownership_report(rows).columns[5].value == "bus_factor"@,
        construct_ownership_report(rows).columns[6].value == "touches"@,
{
}

/// The limits that hold here.
pub proof fn the_limits_are_these()
    ensures
        TOP_CONSTRUCTS == 500,
{
}

/// Constructs are looked at by how often they were touched.
pub proof fn constructs_are_chosen_by_activity(r: ConstructTouchesModel)
    ensures
        ConstructTouches::amount(r) == r.touches,
{
}

} // verus!
