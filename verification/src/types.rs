//! The data every report is made of, each type with the mathematical value
//! that the contracts speak of.

use vstd::prelude::*;

use crate::text;
use crate::text::{cat, cat3, copy_text, same, text_not_after, to_chars};

verus! {

// ---------------------------------------------------------------------------
// Messages
// ---------------------------------------------------------------------------

/// How serious a message is.
#[derive(Debug, Clone, Copy, PartialEq, Eq, Structural)]
pub enum Severity {
    Info,
    Warning,
    Error,
    Critical,
}

/// The value of a message parameter.
#[derive(Debug, Clone)]
pub enum ParamValue {
    Null,
    Bool(bool),
    Unsigned(u64),
    Signed(i64),
    Text(String),
}

/// What a parameter stands for.
pub enum ParamModel {
    Null,
    Bool(bool),
    Number(int),
    Text(Seq<char>),
}

impl View for ParamValue {
    type V = ParamModel;

    open spec fn view(&self) -> ParamModel {
        match self {
            ParamValue::Null => ParamModel::Null,
            ParamValue::Bool(b) => ParamModel::Bool(*b),
            ParamValue::Unsigned(n) => ParamModel::Number(*n as int),
            ParamValue::Signed(n) => ParamModel::Number(*n as int),
            ParamValue::Text(s) => ParamModel::Text(s@),
        }
    }
}

/// Values that can be attached to a message.
pub trait ToParam: Sized {
    spec fn param(self) -> ParamModel;

    fn to_param(self) -> (r: ParamValue)
        ensures
            r@ == self.param(),
    ;
}

impl ToParam for u64 {
    open spec fn param(self) -> ParamModel {
        ParamModel::Number(self as int)
    }

    fn to_param(self) -> (r: ParamValue) {
        ParamValue::Unsigned(self)
    }
}

impl ToParam for u32 {
    open spec fn param(self) -> ParamModel {
        ParamModel::Number(self as int)
    }

    fn to_param(self) -> (r: ParamValue) {
        ParamValue::Unsigned(self as u64)
    }
}

impl ToParam for i64 {
    open spec fn param(self) -> ParamModel {
        ParamModel::Number(self as int)
    }

    fn to_param(self) -> (r: ParamValue) {
        ParamValue::Signed(self)
    }
}

impl ToParam for &str {
    open spec fn param(self) -> ParamModel {
        ParamModel::Text(self@)
    }

    fn to_param(self) -> (r: ParamValue) {
        ParamValue::Text(copy_text(self))
    }
}

impl ToParam for String {
    open spec fn param(self) -> ParamModel {
        ParamModel::Text(self@)
    }

    fn to_param(self) -> (r: ParamValue) {
        ParamValue::Text(self)
    }
}

/// A translatable message: a stable code, how serious it is, and the
/// parameters its template may mention.
#[derive(Debug, Clone)]
pub struct LocalizedMessage {
    pub code: String,
    pub severity: Option<Severity>,
    pub params: Vec<(String, ParamValue)>,
}

pub struct MessageModel {
    pub code: Seq<char>,
    pub severity: Option<Severity>,
    pub params: Seq<(Seq<char>, ParamModel)>,
}

/// The parameters with one set: in its place if it is there, else at the end.
pub open spec fn params_with(
    s: Seq<(Seq<char>, ParamModel)>,
    name: Seq<char>,
    value: ParamModel,
) -> Seq<(Seq<char>, ParamModel)>
    decreases s.len(),
{
    if s.len() == 0 {
        seq![(name, value)]
    } else if s[0].0 == name {
        seq![(name, value)] + s.skip(1)
    } else {
        seq![s[0]] + params_with(s.skip(1), name, value)
    }
}

proof fn lemma_params_with(
    s: Seq<(Seq<char>, ParamModel)>,
    name: Seq<char>,
    value: ParamModel,
    i: int,
)
    requires
        0 <= i <= s.len(),
        forall|k: int| 0 <= k < i ==> (#[trigger] s[k]).0 != name,
        i < s.len() ==> s[i].0 == name,
    ensures
        params_with(s, name, value) == (if i < s.len() {
            s.update(i, (name, value))
        } else {
            s.push((name, value))
        }),
    decreases s.len(),
{
    if s.len() > 0 && i > 0 {
        assert(s[0].0 != name);
        assert forall|k: int| 0 <= k < i - 1 implies (#[trigger] s.skip(1)[k]).0 != name by {
            assert(s[k + 1].0 != name);
        }
        lemma_params_with(s.skip(1), name, value, i - 1);
    }
    assert(params_with(s, name, value) =~= (if i < s.len() {
        s.update(i, (name, value))
    } else {
        s.push((name, value))
    }));
}

pub open spec fn param_models(s: Seq<(String, ParamValue)>) -> Seq<(Seq<char>, ParamModel)> {
    Seq::new(s.len(), |i: int| (s[i].0@, s[i].1@))
}

impl View for LocalizedMessage {
    type V = MessageModel;

    open spec fn view(&self) -> MessageModel {
        MessageModel {
            code: self.code@,
            severity: self.severity,
            params: param_models(self.params@),
        }
    }
}

impl MessageModel {
    /// A message with nothing but a code.
    pub open spec fn of(code: Seq<char>) -> MessageModel {
        MessageModel { code, severity: None, params: Seq::empty() }
    }

    pub open spec fn severe(self, s: Severity) -> MessageModel {
        MessageModel { code: self.code, severity: Some(s), params: self.params }
    }

    /// The message with a parameter set, whatever it was before.
    pub open spec fn with(self, name: Seq<char>, value: ParamModel) -> MessageModel {
        MessageModel {
            code: self.code,
            severity: self.severity,
            params: params_with(self.params, name, value),
        }
    }

    pub open spec fn with_number(self, name: Seq<char>, n: int) -> MessageModel {
        self.with(name, ParamModel::Number(n))
    }
}

impl LocalizedMessage {
    /// A message with nothing but a code.
    pub fn code(code: &str) -> (r: LocalizedMessage)
        ensures
            r@ == MessageModel::of(code@),
    {
        let r = LocalizedMessage { code: copy_text(code), severity: None, params: Vec::new() };
        proof {
            assert(param_models(r.params@) =~= Seq::empty());
        }
        r
    }

    /// The same message with its severity set.
    pub fn with_severity(self, severity: Severity) -> (r: LocalizedMessage)
        ensures
            r@ == self@.severe(severity),
    {
        LocalizedMessage { code: self.code, severity: Some(severity), params: self.params }
    }

    /// The same message with a parameter set.
    pub fn with_param<T: ToParam>(self, name: &str, value: T) -> (r: LocalizedMessage)
        ensures
            r@ == self@.with(name@, value.param()),
    {
        let ghost before = param_models(self.params@);
        let mut params = self.params;
        let n: usize = params.len();
        let mut i: usize = 0;
        while i < n && !same(params[i].0.as_str(), name)
            invariant
                n == params@.len(),
                i <= n,
                before == param_models(params@),
                forall|k: int| 0 <= k < i ==> (#[trigger] before[k]).0 != name@,
            decreases n - i,
        {
            i += 1;
        }
        proof {
            lemma_params_with(before, name@, value.param(), i as int);
        }
        let fresh = (copy_text(name), value.to_param());
        if i < n {
            params.set(i, fresh);
            proof {
                assert(param_models(params@) =~= before.update(i as int, (name@, value.param())));
            }
        } else {
            params.push(fresh);
            proof {
                assert(param_models(params@) =~= before.push((name@, value.param())));
            }
        }
        LocalizedMessage { code: self.code, severity: self.severity, params }
    }

    /// A copy of the message.
    pub fn duplicate(&self) -> (r: LocalizedMessage)
        ensures
            r@ == self@,
    {
        let mut params: Vec<(String, ParamValue)> = Vec::new();
        let mut i: usize = 0;
        while i < self.params.len()
            invariant
                i <= self.params@.len(),
                params@.len() == i,
                param_models(params@) == param_models(self.params@).take(i as int),
            decreases self.params@.len() - i,
        {
            let ghost before = param_models(params@);
            let (name, value) = &self.params[i];
            let copied = match value {
                ParamValue::Null => ParamValue::Null,
                ParamValue::Bool(b) => ParamValue::Bool(*b),
                ParamValue::Unsigned(n) => ParamValue::Unsigned(*n),
                ParamValue::Signed(n) => ParamValue::Signed(*n),
                ParamValue::Text(s) => ParamValue::Text(s.clone()),
            };
            params.push((name.clone(), copied));
            proof {
                assert(param_models(params@) =~= before.push((name@, value@)));
                assert(param_models(self.params@).take(i + 1) =~= before.push((name@, value@)));
            }
            i += 1;
        }
        proof {
            assert(param_models(self.params@).take(self.params@.len() as int) =~= param_models(
                self.params@,
            ));
        }
        LocalizedMessage { code: self.code.clone(), severity: self.severity, params }
    }
}

/// The code of a report's display name.
pub open spec fn display_code(name: Seq<char>) -> Seq<char> {
    "report."@ + name + ".display_name"@
}

/// The code of a report's description.
pub open spec fn description_code(name: Seq<char>) -> Seq<char> {
    "report."@ + name + ".description"@
}

/// The message that names a report.
pub fn report_display(name: &str) -> (r: LocalizedMessage)
    ensures
        r@ == MessageModel::of(display_code(name@)),
{
    let code = cat3("report.", name, ".display_name");
    LocalizedMessage::code(code.as_str())
}

/// The message that describes a report.
pub fn report_description(name: &str) -> (r: LocalizedMessage)
    ensures
        r@ == MessageModel::of(description_code(name@)),
{
    let code = cat3("report.", name, ".description");
    LocalizedMessage::code(code.as_str())
}

// ---------------------------------------------------------------------------
// Values
// ---------------------------------------------------------------------------

/// A calendar day, counted from 1970-01-01.
#[derive(Debug, Clone, Copy, PartialEq, Eq, Structural)]
pub struct Date {
    pub days: i64,
}

/// The first and the last second that fall on a day of the calendar (years
/// -262143 to 262142).
pub const FIRST_SECOND: i64 = -8334601315200;

pub const LAST_SECOND: i64 = 8210266876799;

/// The day on which a Unix timestamp falls; 1970-01-01 for one that is off the
/// calendar.
pub open spec fn day_of(ts: int) -> int {
    if FIRST_SECOND <= ts <= LAST_SECOND {
        ts / 86400
    } else {
        0
    }
}

/// The day on which a Unix timestamp falls; 1970-01-01 for one that is off the
/// calendar.
pub fn ts_to_date(ts: i64) -> (r: Date)
    ensures
        r.days == day_of(ts as int),
        -96465293 <= r.days <= 95026236,
{
    if ts < FIRST_SECOND || ts > LAST_SECOND {
        return Date { days: 0 };
    }
    let q: i64 = ts / 86400;
    let rem: i64 = ts % 86400;
    if ts < 0 && rem != 0 {
        Date { days: q - 1 }
    } else {
        Date { days: q }
    }
}

/// Whole days from `a` to `b`, none when `a` is later.
pub open spec fn days_from(a: int, b: int) -> int {
    if b > a {
        b - a
    } else {
        0
    }
}

/// Whole days from one day to a later one; none when it is not later.
pub fn days_since(a: Date, b: Date) -> (r: u64)
    ensures
        r == days_from(a.days as int, b.days as int),
{
    if b.days > a.days {
        (b.days as i128 - a.days as i128) as u64
    } else {
        0
    }
}

/// One cell of a report. Quotients stay exact: `Ratio` is `num / den`,
/// `Percent` is `num / den * 100`; both are 0 when `den` is 0. `PerYear` is
/// `count` over `days` in years of 365.25 days, and `count` when there are no
/// days.
#[derive(Debug)]
pub enum MetricValue {
    Count(u64),
    SignedCount(i64),
    Ratio { num: u64, den: u64 },
    Percent { num: u64, den: u64 },
    PerYear { count: u64, days: u64 },
    Text(String),
    Date(Date),
    Message(LocalizedMessage),
    List(Vec<MetricValue>),
}

/// What a cell says.
pub enum ValueModel {
    Count(int),
    Signed(int),
    Ratio(int, int),
    Percent(int, int),
    PerYear(int, int),
    Text(Seq<char>),
    Date(int),
    Message(MessageModel),
    List(Seq<ValueModel>),
}

impl MetricValue {
    pub open spec fn model(self) -> ValueModel
        decreases self,
    {
        match self {
            MetricValue::Count(n) => ValueModel::Count(n as int),
            MetricValue::SignedCount(n) => ValueModel::Signed(n as int),
            MetricValue::Ratio { num, den } => ValueModel::Ratio(num as int, den as int),
            MetricValue::Percent { num, den } => ValueModel::Percent(num as int, den as int),
            MetricValue::PerYear { count, days } => ValueModel::PerYear(count as int, days as int),
            MetricValue::Text(s) => ValueModel::Text(s@),
            MetricValue::Date(d) => ValueModel::Date(d.days as int),
            MetricValue::Message(m) => ValueModel::Message(m@),
            MetricValue::List(items) => ValueModel::List(
                Seq::new(
                    items@.len(),
                    |i: int|
                        if 0 <= i < items@.len() {
                            items@[i].model()
                        } else {
                            ValueModel::Count(0)
                        },
                ),
            ),
        }
    }
}

impl View for MetricValue {
    type V = ValueModel;

    open spec fn view(&self) -> ValueModel {
        self.model()
    }
}

/// The named cells of a row.
#[derive(Debug)]
pub struct Values {
    items: Vec<(String, MetricValue)>,
}

spec fn items_map(s: Seq<(String, MetricValue)>) -> Map<Seq<char>, ValueModel>
    decreases s.len(),
{
    if s.len() == 0 {
        Map::empty()
    } else {
        items_map(s.drop_last()).insert(s.last().0@, s.last().1@)
    }
}

proof fn lemma_items_map(s: Seq<(String, MetricValue)>, i: int, key: Seq<char>)
    requires
        0 <= i <= s.len(),
        forall|j: int| i <= j < s.len() ==> (#[trigger] s[j]).0@ != key,
    ensures
        items_map(s).dom().contains(key) <==> items_map(s.take(i)).dom().contains(key),
        items_map(s)[key] == items_map(s.take(i))[key],
    decreases s.len() - i,
{
    if i < s.len() {
        lemma_items_map(s.drop_last(), i, key);
        assert(s.drop_last().take(i) =~= s.take(i));
        assert(s[s.len() - 1].0@ != key);
    } else {
        assert(s.take(i) =~= s);
    }
}

impl View for Values {
    type V = Map<Seq<char>, ValueModel>;

    closed spec fn view(&self) -> Map<Seq<char>, ValueModel> {
        items_map(self.items@)
    }
}

impl Values {
    /// A row without cells.
    pub fn new() -> (r: Values)
        ensures
            r@ == Map::<Seq<char>, ValueModel>::empty(),
    {
        Values { items: Vec::new() }
    }

    /// Sets the cell `key`, whatever it held before.
    pub fn insert(&mut self, key: &str, value: MetricValue)
        ensures
            final(self)@ == old(self)@.insert(key@, value@),
    {
        let ghost before = self.items@;
        self.items.push((copy_text(key), value));
        proof {
            assert(self.items@.drop_last() =~= before);
        }
    }

    /// The cell `key`, if it was set.
    pub fn get(&self, key: &str) -> (r: Option<&MetricValue>)
        ensures
            match r {
                Some(v) => self@.dom().contains(key@) && self@[key@] == v@,
                None => !self@.dom().contains(key@),
            },
    {
        let mut i: usize = self.items.len();
        while i > 0
            invariant
                i <= self.items@.len(),
                forall|j: int| i <= j < self.items@.len() ==> (#[trigger] self.items@[j]).0@ != key@,
            decreases i,
        {
            if same(self.items[i - 1].0.as_str(), key) {
                proof {
                    lemma_items_map(self.items@, i as int, key@);
                    assert(self.items@.take(i as int).last() == self.items@[i - 1]);
                }
                return Some(&self.items[i - 1].1);
            }
            i -= 1;
        }
        proof {
            lemma_items_map(self.items@, 0, key@);
            assert(self.items@.take(0).len() == 0);
        }
        None
    }

    /// The names of the cells, in lexicographic order.
    pub fn sorted_keys(&self) -> (r: Vec<String>)
        ensures
            forall|k: Seq<char>| #[trigger] text::views(r@).contains(k) <==> self@.dom().contains(k),
            forall|i: int, j: int|
                0 <= i < j < r@.len() ==> text::text_le((#[trigger] r@[i])@, (#[trigger] r@[j])@)
                    && r@[i]@ != r@[j]@,
    {
        let mut out: Vec<String> = Vec::new();
        let mut n: usize = 0;
        proof {
            assert(self.items@.take(0).len() == 0);
        }
        while n < self.items.len()
            invariant
                n <= self.items@.len(),
                forall|k: Seq<char>| #[trigger]
                    text::views(out@).contains(k) <==> items_map(
                        self.items@.take(n as int),
                    ).dom().contains(k),
                forall|i: int, j: int|
                    0 <= i < j < out@.len() ==> text::text_le((#[trigger] out@[i])@, (#[trigger] out@[j])@)
                        && out@[i]@ != out@[j]@,
            decreases self.items@.len() - n,
        {
            let key = self.items[n].0.as_str();
            let ghost given = out@;
            let ghost m0 = items_map(self.items@.take(n as int));
            let ghost m1 = items_map(self.items@.take(n + 1));
            proof {
                assert(self.items@.take(n + 1).drop_last() =~= self.items@.take(n as int));
                assert(m1 == m0.insert(key@, self.items@[n as int].1@));
            }
            let mut p: usize = out.len();
            while p > 0 && text_not_after(key, out[p - 1].as_str())
                invariant
                    p <= out@.len(),
                    forall|j: int| p <= j < out@.len() ==> text::text_le(key@, (#[trigger] out@[j])@),
                decreases p,
            {
                p -= 1;
            }
            if p < out.len() && same(out[p].as_str(), key) {
                proof {
                    assert(text::views(out@)[p as int] == key@);
                    assert forall|k: Seq<char>| #[trigger] text::views(out@).contains(k) <==> m1.dom().contains(
                        k,
                    ) by {}
                }
            } else {
                let copied = copy_text(key);
                out.insert(p, copied);
                proof {
                    lemma_insert_key(given, out@, p as int, key@);
                    assert forall|k: Seq<char>| #[trigger] text::views(out@).contains(k) <==> m1.dom().contains(
                        k,
                    ) by {
                        assert(text::views(out@).contains(k) <==> text::views(given).contains(k) || k == key@);
                    }
                }
            }
            n += 1;
        }
        proof {
            assert(self.items@.take(self.items@.len() as int) =~= self.items@);
        }
        out
    }
}

proof fn lemma_insert_key(before: Seq<String>, after: Seq<String>, p: int, key: Seq<char>)
    requires
        0 <= p <= before.len(),
        after.len() == before.len() + 1,
        after[p]@ == key,
        forall|i: int| 0 <= i < p ==> after[i] == before[i],
        forall|i: int| p < i < after.len() ==> after[i] == before[i - 1],
        forall|i: int, j: int|
            0 <= i < j < before.len() ==> text::text_le((#[trigger] before[i])@, (#[trigger] before[j])@)
                && before[i]@ != before[j]@,
        forall|j: int| p <= j < before.len() ==> text::text_le(key, (#[trigger] before[j])@),
        p > 0 ==> !text::text_le(key, before[p - 1]@),
        p < before.len() ==> before[p]@ != key,
    ensures
        forall|k: Seq<char>| #[trigger]
            text::views(after).contains(k) <==> text::views(before).contains(k) || k == key,
        forall|i: int, j: int|
            0 <= i < j < after.len() ==> text::text_le((#[trigger] after[i])@, (#[trigger] after[j])@)
                && after[i]@ != after[j]@,
{
    assert forall|k: Seq<char>| #[trigger] text::views(after).contains(k) <==> text::views(before).contains(k)
        || k == key by {
        if text::views(after).contains(k) {
            let i = choose|i: int| 0 <= i < text::views(after).len() && text::views(after)[i] == k;
            if i < p {
                assert(text::views(before)[i] == k);
            } else if i > p {
                assert(text::views(before)[i - 1] == k);
            }
        }
        if text::views(before).contains(k) {
            let i = choose|i: int| 0 <= i < text::views(before).len() && text::views(before)[i] == k;
            if i < p {
                assert(text::views(after)[i] == k);
            } else {
                assert(text::views(after)[i + 1] == k);
            }
        }
        if k == key {
            assert(text::views(after)[p] == k);
        }
    }
    if p > 0 {
        text::text_le_total(key, before[p - 1]@);
    }
    assert forall|i: int, j: int| 0 <= i < j < after.len() implies text::text_le(
        (#[trigger] after[i])@,
        (#[trigger] after[j])@,
    ) && after[i]@ != after[j]@ by {
        if j == p {
            if i < p - 1 {
                text::text_le_transitive(before[i]@, before[p - 1]@, key);
            }
            if after[i]@ == key {
                assert(text::text_le(before[i]@, before[p - 1]@) || i == p - 1);
            }
        } else if i == p {
            if after[j]@ == key {
                if j - 1 > p {
                    assert(text::text_le(before[p]@, before[j - 1]@));
                    text::text_le_antisymmetric(before[p]@, key);
                }
            }
        }
    }
}

/// One row of a report.
#[derive(Debug)]
pub struct MetricEntry {
    pub key: String,
    pub values: Values,
}

pub struct EntryModel {
    pub key: Seq<char>,
    pub values: Map<Seq<char>, ValueModel>,
}

impl View for MetricEntry {
    type V = EntryModel;

    open spec fn view(&self) -> EntryModel {
        EntryModel { key: self.key@, values: self.values@ }
    }
}

pub open spec fn entry_models(s: Seq<MetricEntry>) -> Seq<EntryModel> {
    Seq::new(s.len(), |i: int| s[i]@)
}

/// Rows that belong together under a heading.
#[derive(Debug)]
pub struct EntryGroup {
    pub name: String,
    pub label: String,
    pub entries: Vec<MetricEntry>,
}

pub struct GroupModel {
    pub name: Seq<char>,
    pub label: Seq<char>,
    pub entries: Seq<EntryModel>,
}

impl View for EntryGroup {
    type V = GroupModel;

    open spec fn view(&self) -> GroupModel {
        GroupModel { name: self.name@, label: self.label@, entries: entry_models(self.entries@) }
    }
}

impl EntryGroup {
    pub fn of(name: &str, label: &str, entries: Vec<MetricEntry>) -> (r: EntryGroup)
        ensures
            r@ == (GroupModel { name: name@, label: label@, entries: entry_models(entries@) }),
    {
        EntryGroup { name: copy_text(name), label: copy_text(label), entries }
    }
}

pub open spec fn group_models(s: Seq<EntryGroup>) -> Seq<GroupModel> {
    Seq::new(s.len(), |i: int| s[i]@)
}

/// A column: the cell it shows and the message that labels it.
#[derive(Debug, Clone)]
pub struct Column {
    pub value: String,
    pub label: LocalizedMessage,
}

pub struct ColumnModel {
    pub value: Seq<char>,
    pub label: MessageModel,
}

impl View for Column {
    type V = ColumnModel;

    open spec fn view(&self) -> ColumnModel {
        ColumnModel { value: self.value@, label: self.label@ }
    }
}

pub open spec fn column_models(s: Seq<Column>) -> Seq<ColumnModel> {
    Seq::new(s.len(), |i: int| s[i]@)
}

/// The code that labels the column `value` of `report`.
pub open spec fn column_code(report: Seq<char>, value: Seq<char>) -> Seq<char> {
    "report."@ + report + ".column."@ + value
}

pub open spec fn column_in(report: Seq<char>, value: Seq<char>) -> ColumnModel {
    ColumnModel { value, label: MessageModel::of(column_code(report, value)) }
}

/// The columns `values` of `report`.
pub open spec fn columns_in(report: Seq<char>, values: Seq<Seq<char>>) -> Seq<ColumnModel> {
    Seq::new(values.len(), |i: int| column_in(report, values[i]))
}

impl Column {
    /// The column `value` of `report`, labelled by the code that belongs to it.
    pub fn in_report(report: &str, value: &str) -> (r: Column)
        ensures
            r@ == column_in(report@, value@),
    {
        let head = cat3("report.", report, ".column.");
        let code = cat(head.as_str(), value);
        Column { value: copy_text(value), label: LocalizedMessage::code(code.as_str()) }
    }
}

/// The texts of a slice of string slices.
pub open spec fn str_views(s: Seq<&str>) -> Seq<Seq<char>> {
    Seq::new(s.len(), |i: int| s[i]@)
}

/// The columns `values` of `report`, in that order.
pub fn report_columns(report: &str, values: &[&str]) -> (r: Vec<Column>)
    ensures
        column_models(r@) == columns_in(report@, str_views(values@)),
{
    let mut out: Vec<Column> = Vec::new();
    let mut i: usize = 0;
    while i < values.len()
        invariant
            i <= values@.len(),
            out@.len() == i,
            forall|k: int| 0 <= k < i ==> (#[trigger] out@[k])@ == column_in(report@, values@[k]@),
        decreases values@.len() - i,
    {
        out.push(Column::in_report(report, values[i]));
        i += 1;
    }
    proof {
        assert(column_models(out@) =~= columns_in(report@, str_views(values@)));
    }
    out
}

/// A finished report.
#[derive(Debug)]
pub struct MetricResult {
    pub name: String,
    pub display_name: LocalizedMessage,
    pub description: LocalizedMessage,
    pub columns: Vec<Column>,
    pub entries: Vec<MetricEntry>,
    pub entry_groups: Vec<EntryGroup>,
}

pub struct ResultModel {
    pub name: Seq<char>,
    pub display_name: MessageModel,
    pub description: MessageModel,
    pub columns: Seq<ColumnModel>,
    pub entries: Seq<EntryModel>,
    pub groups: Seq<GroupModel>,
}

impl View for MetricResult {
    type V = ResultModel;

    open spec fn view(&self) -> ResultModel {
        ResultModel {
            name: self.name@,
            display_name: self.display_name@,
            description: self.description@,
            columns: column_models(self.columns@),
            entries: entry_models(self.entries@),
            groups: group_models(self.entry_groups@),
        }
    }
}

/// The report `name` with the given columns and rows.
pub open spec fn report_of(
    name: Seq<char>,
    columns: Seq<Seq<char>>,
    entries: Seq<EntryModel>,
) -> ResultModel {
    ResultModel {
        name,
        display_name: MessageModel::of(display_code(name)),
        description: MessageModel::of(description_code(name)),
        columns: columns_in(name, columns),
        entries,
        groups: Seq::empty(),
    }
}

/// The report `name` with the given columns and groups of rows.
pub open spec fn grouped_report_of(
    name: Seq<char>,
    columns: Seq<Seq<char>>,
    groups: Seq<GroupModel>,
) -> ResultModel {
    ResultModel {
        name,
        display_name: MessageModel::of(display_code(name)),
        description: MessageModel::of(description_code(name)),
        columns: columns_in(name, columns),
        entries: Seq::empty(),
        groups,
    }
}

/// The report `name` whose title and description are given in full and whose
/// columns are labelled by their cells.
pub open spec fn plain_report_of(
    name: Seq<char>,
    title: Seq<char>,
    description: Seq<char>,
    columns: Seq<Seq<char>>,
    entries: Seq<EntryModel>,
) -> ResultModel {
    ResultModel {
        name,
        display_name: MessageModel::of(title),
        description: MessageModel::of(description),
        columns: Seq::new(
            columns.len(),
            |i: int| ColumnModel { value: columns[i], label: MessageModel::of(columns[i]) },
        ),
        entries,
        groups: Seq::empty(),
    }
}

/// The report with another description.
pub open spec fn described(r: ResultModel, description: MessageModel) -> ResultModel {
    ResultModel {
        name: r.name,
        display_name: r.display_name,
        description,
        columns: r.columns,
        entries: r.entries,
        groups: r.groups,
    }
}

/// The report `name` with nothing in it.
pub open spec fn empty_report(name: Seq<char>) -> ResultModel {
    report_of(name, Seq::empty(), Seq::empty())
}

impl MetricResult {
    /// The report `name` with the given columns and rows.
    pub fn report(name: &str, columns: &[&str], entries: Vec<MetricEntry>) -> (r: MetricResult)
        ensures
            r@ == report_of(name@, str_views(columns@), entry_models(entries@)),
    {
        let r = MetricResult {
            name: copy_text(name),
            display_name: report_display(name),
            description: report_description(name),
            columns: report_columns(name, columns),
            entries,
            entry_groups: Vec::new(),
        };
        proof {
            assert(group_models(r.entry_groups@) =~= Seq::empty());
        }
        r
    }

    /// The report `name` whose title and description are given in full and
    /// whose columns are labelled by their cells.
    pub fn plain(
        name: &str,
        title: &str,
        description: &str,
        columns: &[&str],
        entries: Vec<MetricEntry>,
    ) -> (r: MetricResult)
        ensures
            r@ == plain_report_of(
                name@,
                title@,
                description@,
                str_views(columns@),
                entry_models(entries@),
            ),
    {
        let mut list: Vec<Column> = Vec::new();
        let mut i: usize = 0;
        while i < columns.len()
            invariant
                i <= columns@.len(),
                list@.len() == i,
                forall|k: int|
                    0 <= k < i ==> (#[trigger] list@[k])@ == (ColumnModel {
                        value: columns@[k]@,
                        label: MessageModel::of(columns@[k]@),
                    }),
            decreases columns@.len() - i,
        {
            list.push(
                Column {
                    value: copy_text(columns[i]),
                    label: LocalizedMessage::code(columns[i]),
                },
            );
            i += 1;
        }
        let r = MetricResult {
            name: copy_text(name),
            display_name: LocalizedMessage::code(title),
            description: LocalizedMessage::code(description),
            columns: list,
            entries,
            entry_groups: Vec::new(),
        };
        proof {
            assert(group_models(r.entry_groups@) =~= Seq::empty());
            assert(column_models(r.columns@) =~= plain_report_of(
                name@,
                title@,
                description@,
                str_views(columns@),
                entry_models(entries@),
            ).columns);
        }
        r
    }

    /// The report `name` with the given columns and groups of rows.
    pub fn grouped(name: &str, columns: &[&str], groups: Vec<EntryGroup>) -> (r: MetricResult)
        ensures
            r@ == grouped_report_of(name@, str_views(columns@), group_models(groups@)),
    {
        let r = MetricResult {
            name: copy_text(name),
            display_name: report_display(name),
            description: report_description(name),
            columns: report_columns(name, columns),
            entries: Vec::new(),
            entry_groups: groups,
        };
        proof {
            assert(entry_models(r.entries@) =~= Seq::empty());
        }
        r
    }

    /// The report `name` with nothing in it.
    pub fn empty(name: &str) -> (r: MetricResult)
        ensures
            r@ == empty_report(name@),
    {
        let r = MetricResult {
            name: copy_text(name),
            display_name: report_display(name),
            description: report_description(name),
            columns: Vec::new(),
            entries: Vec::new(),
            entry_groups: Vec::new(),
        };
        proof {
            assert(group_models(r.entry_groups@) =~= Seq::empty());
            assert(entry_models(r.entries@) =~= Seq::empty());
            assert(column_models(r.columns@) =~= columns_in(name@, Seq::empty()));
        }
        r
    }
}

/// A snake-case name in words: each `_` becomes a space and each word starts
/// with a capital.
pub open spec fn humanized(s: Seq<char>) -> Seq<char> {
    Seq::new(
        s.len(),
        |i: int|
            if s[i] == '_' {
                ' '
            } else if i == 0 || s[i - 1] == '_' {
                text::upper_char(s[i])
            } else {
                s[i]
            },
    )
}

/// A snake-case name in words.
pub fn humanize(s: &str) -> (r: String)
    ensures
        r@ == humanized(s@),
{
    let v = to_chars(s);
    let up_text = text::to_upper_ascii(s);
    let up = to_chars(up_text.as_str());
    let mut out = String::new();
    let mut i: usize = 0;
    while i < v.len()
        invariant
            v@ == s@,
            up@ == text::upper_ascii(s@),
            i <= v@.len(),
            out@ == humanized(s@).take(i as int),
        decreases v@.len() - i,
    {
        let c = if v[i] == '_' {
            ' '
        } else if i == 0 || v[i - 1] == '_' {
            up[i]
        } else {
            v[i]
        };
        out.push(c);
        proof {
            assert(humanized(s@).take(i + 1) =~= humanized(s@).take(i as int).push(c));
        }
        i += 1;
    }
    proof {
        assert(humanized(s@).take(s@.len() as int) =~= humanized(s@));
    }
    out
}

// ---------------------------------------------------------------------------
// What is asked for
// ---------------------------------------------------------------------------

/// The reports.
#[derive(Debug, Clone, Copy, PartialEq, Eq, Structural)]
pub enum ReportKind {
    Health,
    Composition,
    Authors,
    Hotspots,
    Churn,
    Ownership,
    Coupling,
    Patterns,
    Age,
    Bloat,
    Outliers,
    Quality,
    Complexity,
    ConstructChurn,
    DebtMarkers,
    LargeSources,
    HalfLife,
    Succession,
    KnowledgeSilos,
    FanInOut,
    ModuleCoupling,
    ChurnPareto,
    ConstructOwnership,
    Branches,
    Clones,
    CommitSize,
    CommitVelocity,
    DeadCode,
    DocCoverage,
    TestRatio,
}

/// The name of a report.
pub open spec fn kind_name(k: ReportKind) -> Seq<char> {
    match k {
        ReportKind::Health => "health"@,
        ReportKind::Composition => "composition"@,
        ReportKind::Authors => "authors"@,
        ReportKind::Hotspots => "hotspots"@,
        ReportKind::Churn => "churn"@,
        ReportKind::Ownership => "ownership"@,
        ReportKind::Coupling => "coupling"@,
        ReportKind::Patterns => "patterns"@,
        ReportKind::Age => "age"@,
        ReportKind::Bloat => "bloat"@,
        ReportKind::Outliers => "outliers"@,
        ReportKind::Quality => "quality"@,
        ReportKind::Complexity => "complexity"@,
        ReportKind::ConstructChurn => "construct_churn"@,
        ReportKind::DebtMarkers => "debt_markers"@,
        ReportKind::LargeSources => "large_sources"@,
        ReportKind::HalfLife => "half_life"@,
        ReportKind::Succession => "succession"@,
        ReportKind::KnowledgeSilos => "knowledge_silos"@,
        ReportKind::FanInOut => "fan_in_out"@,
        ReportKind::ModuleCoupling => "module_coupling"@,
        ReportKind::ChurnPareto => "churn_pareto"@,
        ReportKind::ConstructOwnership => "construct_ownership"@,
        ReportKind::Branches => "branches"@,
        ReportKind::Clones => "clones"@,
        ReportKind::CommitSize => "commit_size"@,
        ReportKind::CommitVelocity => "commit_velocity"@,
        ReportKind::DeadCode => "dead_code"@,
        ReportKind::DocCoverage => "doc_coverage"@,
        ReportKind::TestRatio => "test_ratio"@,
    }
}

/// The report of that name.
pub open spec fn kind_named(s: Seq<char>) -> Option<ReportKind> {
    if s == "health"@ {
        Some(ReportKind::Health)
    } else if s == "composition"@ {
        Some(ReportKind::Composition)
    } else if s == "authors"@ {
        Some(ReportKind::Authors)
    } else if s == "hotspots"@ {
        Some(ReportKind::Hotspots)
    } else if s == "churn"@ {
        Some(ReportKind::Churn)
    } else if s == "ownership"@ {
        Some(ReportKind::Ownership)
    } else if s == "coupling"@ {
        Some(ReportKind::Coupling)
    } else if s == "patterns"@ {
        Some(ReportKind::Patterns)
    } else if s == "age"@ {
        Some(ReportKind::Age)
    } else if s == "bloat"@ {
        Some(ReportKind::Bloat)
    } else if s == "outliers"@ {
        Some(ReportKind::Outliers)
    } else if s == "quality"@ {
        Some(ReportKind::Quality)
    } else if s == "complexity"@ {
        Some(ReportKind::Complexity)
    } else if s == "construct_churn"@ {
        Some(ReportKind::ConstructChurn)
    } else if s == "debt_markers"@ {
        Some(ReportKind::DebtMarkers)
    } else if s == "large_sources"@ {
        Some(ReportKind::LargeSources)
    } else if s == "half_life"@ {
        Some(ReportKind::HalfLife)
    } else if s == "succession"@ {
        Some(ReportKind::Succession)
    } else if s == "knowledge_silos"@ {
        Some(ReportKind::KnowledgeSilos)
    } else if s == "fan_in_out"@ {
        Some(ReportKind::FanInOut)
    } else if s == "module_coupling"@ {
        Some(ReportKind::ModuleCoupling)
    } else if s == "churn_pareto"@ {
        Some(ReportKind::ChurnPareto)
    } else if s == "construct_ownership"@ {
        Some(ReportKind::ConstructOwnership)
    } else if s == "branches"@ {
        Some(ReportKind::Branches)
    } else if s == "clones"@ {
        Some(ReportKind::Clones)
    } else if s == "commit_size"@ {
        Some(ReportKind::CommitSize)
    } else if s == "commit_velocity"@ {
        Some(ReportKind::CommitVelocity)
    } else if s == "dead_code"@ {
        Some(ReportKind::DeadCode)
    } else if s == "doc_coverage"@ {
        Some(ReportKind::DocCoverage)
    } else if s == "test_ratio"@ {
        Some(ReportKind::TestRatio)
    } else {
        None
    }
}

/// The reports that are made when none is asked for: all but the costly one.
pub open spec fn default_kinds() -> Seq<ReportKind> {
    seq![
        ReportKind::Health,
        ReportKind::Composition,
        ReportKind::Authors,
        ReportKind::Hotspots,
        ReportKind::Churn,
        ReportKind::Ownership,
        ReportKind::Coupling,
        ReportKind::Patterns,
        ReportKind::Age,
        ReportKind::Bloat,
        ReportKind::Outliers,
        ReportKind::Quality,
        ReportKind::Complexity,
        ReportKind::ConstructChurn,
        ReportKind::DebtMarkers,
        ReportKind::LargeSources,
        ReportKind::Succession,
        ReportKind::KnowledgeSilos,
        ReportKind::FanInOut,
        ReportKind::ModuleCoupling,
        ReportKind::ChurnPareto,
        ReportKind::ConstructOwnership,
        ReportKind::Branches,
        ReportKind::Clones,
        ReportKind::CommitSize,
        ReportKind::CommitVelocity,
        ReportKind::DeadCode,
        ReportKind::DocCoverage,
        ReportKind::TestRatio,
    ]
}

impl ReportKind {
    pub fn name(self) -> (r: &'static str)
        ensures
            r@ == kind_name(self),
    {
        match self {
            ReportKind::Health => "health",
            ReportKind::Composition => "composition",
            ReportKind::Authors => "authors",
            ReportKind::Hotspots => "hotspots",
            ReportKind::Churn => "churn",
            ReportKind::Ownership => "ownership",
            ReportKind::Coupling => "coupling",
            ReportKind::Patterns => "patterns",
            ReportKind::Age => "age",
            ReportKind::Bloat => "bloat",
            ReportKind::Outliers => "outliers",
            ReportKind::Quality => "quality",
            ReportKind::Complexity => "complexity",
            ReportKind::ConstructChurn => "construct_churn",
            ReportKind::DebtMarkers => "debt_markers",
            ReportKind::LargeSources => "large_sources",
            ReportKind::HalfLife => "half_life",
            ReportKind::Succession => "succession",
            ReportKind::KnowledgeSilos => "knowledge_silos",
            ReportKind::FanInOut => "fan_in_out",
            ReportKind::ModuleCoupling => "module_coupling",
            ReportKind::ChurnPareto => "churn_pareto",
            ReportKind::ConstructOwnership => "construct_ownership",
            ReportKind::Branches => "branches",
            ReportKind::Clones => "clones",
            ReportKind::CommitSize => "commit_size",
            ReportKind::CommitVelocity => "commit_velocity",
            ReportKind::DeadCode => "dead_code",
            ReportKind::DocCoverage => "doc_coverage",
            ReportKind::TestRatio => "test_ratio",
        }
    }

    /// The report of that name.
    pub fn parse(s: &str) -> (r: Option<ReportKind>)
        ensures
            r == kind_named(s@),
    {
        if same(s, "health") {
            Some(ReportKind::Health)
        } else if same(s, "composition") {
            Some(ReportKind::Composition)
        } else if same(s, "authors") {
            Some(ReportKind::Authors)
        } else if same(s, "hotspots") {
            Some(ReportKind::Hotspots)
        } else if same(s, "churn") {
            Some(ReportKind::Churn)
        } else if same(s, "ownership") {
            Some(ReportKind::Ownership)
        } else if same(s, "coupling") {
            Some(ReportKind::Coupling)
        } else if same(s, "patterns") {
            Some(ReportKind::Patterns)
        } else if same(s, "age") {
            Some(ReportKind::Age)
        } else if same(s, "bloat") {
            Some(ReportKind::Bloat)
        } else if same(s, "outliers") {
            Some(ReportKind::Outliers)
        } else if same(s, "quality") {
            Some(ReportKind::Quality)
        } else if same(s, "complexity") {
            Some(ReportKind::Complexity)
        } else if same(s, "construct_churn") {
            Some(ReportKind::ConstructChurn)
        } else if same(s, "debt_markers") {
            Some(ReportKind::DebtMarkers)
        } else if same(s, "large_sources") {
            Some(ReportKind::LargeSources)
        } else if same(s, "half_life") {
            Some(ReportKind::HalfLife)
        } else if same(s, "succession") {
            Some(ReportKind::Succession)
        } else if same(s, "knowledge_silos") {
            Some(ReportKind::KnowledgeSilos)
        } else if same(s, "fan_in_out") {
            Some(ReportKind::FanInOut)
        } else if same(s, "module_coupling") {
            Some(ReportKind::ModuleCoupling)
        } else if same(s, "churn_pareto") {
            Some(ReportKind::ChurnPareto)
        } else if same(s, "construct_ownership") {
            Some(ReportKind::ConstructOwnership)
        } else if same(s, "branches") {
            Some(ReportKind::Branches)
        } else if same(s, "clones") {
            Some(ReportKind::Clones)
        } else if same(s, "commit_size") {
            Some(ReportKind::CommitSize)
        } else if same(s, "commit_velocity") {
            Some(ReportKind::CommitVelocity)
        } else if same(s, "dead_code") {
            Some(ReportKind::DeadCode)
        } else if same(s, "doc_coverage") {
            Some(ReportKind::DocCoverage)
        } else if same(s, "test_ratio") {
            Some(ReportKind::TestRatio)
        } else {
            None
        }
    }

    /// The reports that are made when none is asked for.
    pub fn default_set() -> (r: Vec<ReportKind>)
        ensures
            r@ == default_kinds(),
    {
        let mut out: Vec<ReportKind> = Vec::new();
        out.push(ReportKind::Health);
        out.push(ReportKind::Composition);
        out.push(ReportKind::Authors);
        out.push(ReportKind::Hotspots);
        out.push(ReportKind::Churn);
        out.push(ReportKind::Ownership);
        out.push(ReportKind::Coupling);
        out.push(ReportKind::Patterns);
        out.push(ReportKind::Age);
        out.push(ReportKind::Bloat);
        out.push(ReportKind::Outliers);
        out.push(ReportKind::Quality);
        out.push(ReportKind::Complexity);
        out.push(ReportKind::ConstructChurn);
        out.push(ReportKind::DebtMarkers);
        out.push(ReportKind::LargeSources);
        out.push(ReportKind::Succession);
        out.push(ReportKind::KnowledgeSilos);
        out.push(ReportKind::FanInOut);
        out.push(ReportKind::ModuleCoupling);
        out.push(ReportKind::ChurnPareto);
        out.push(ReportKind::ConstructOwnership);
        out.push(ReportKind::Branches);
        out.push(ReportKind::Clones);
        out.push(ReportKind::CommitSize);
        out.push(ReportKind::CommitVelocity);
        out.push(ReportKind::DeadCode);
        out.push(ReportKind::DocCoverage);
        out.push(ReportKind::TestRatio);
        proof {
            assert(out@ =~= default_kinds());
        }
        out
    }
}

/// Every report is found by its name.
pub proof fn parse_undoes_name(k: ReportKind)
    ensures
        kind_named(kind_name(k)) == Some(k),
{
    reveal_strlit("health");
    reveal_strlit("composition");
    reveal_strlit("authors");
    reveal_strlit("hotspots");
    reveal_strlit("churn");
    reveal_strlit("ownership");
    reveal_strlit("coupling");
    reveal_strlit("patterns");
    reveal_strlit("age");
    reveal_strlit("bloat");
    reveal_strlit("outliers");
    reveal_strlit("quality");
    reveal_strlit("complexity");
    reveal_strlit("construct_churn");
    reveal_strlit("debt_markers");
    reveal_strlit("large_sources");
    reveal_strlit("half_life");
    reveal_strlit("succession");
    reveal_strlit("knowledge_silos");
    reveal_strlit("fan_in_out");
    reveal_strlit("module_coupling");
    reveal_strlit("churn_pareto");
    reveal_strlit("construct_ownership");
    reveal_strlit("branches");
    reveal_strlit("clones");
    reveal_strlit("commit_size");
    reveal_strlit("commit_velocity");
    reveal_strlit("dead_code");
    reveal_strlit("doc_coverage");
    reveal_strlit("test_ratio");
    assert("health"@.len() == 6);
    assert("composition"@.len() == 11);
    assert("authors"@.len() == 7);
    assert("hotspots"@.len() == 8);
    assert("churn"@.len() == 5);
    assert("ownership"@.len() == 9);
    assert("coupling"@.len() == 8);
    assert("patterns"@.len() == 8);
    assert("age"@.len() == 3);
    assert("bloat"@.len() == 5);
    assert("outliers"@.len() == 8);
    assert("quality"@.len() == 7);
    assert("complexity"@.len() == 10);
    assert("construct_churn"@.len() == 15);
    assert("debt_markers"@.len() == 12);
    assert("large_sources"@.len() == 13);
    assert("half_life"@.len() == 9);
    assert("succession"@.len() == 10);
    assert("knowledge_silos"@.len() == 15);
    assert("fan_in_out"@.len() == 10);
    assert("module_coupling"@.len() == 15);
    assert("churn_pareto"@.len() == 12);
    assert("construct_ownership"@.len() == 19);
    assert("branches"@.len() == 8);
    assert("clones"@.len() == 6);
    assert("commit_size"@.len() == 11);
    assert("commit_velocity"@.len() == 15);
    assert("dead_code"@.len() == 9);
    assert("doc_coverage"@.len() == 12);
    assert("test_ratio"@.len() == 10);
    match k {
        ReportKind::Health => {
        },
        ReportKind::Composition => {
        },
        ReportKind::Authors => {
        },
        ReportKind::Hotspots => {
        },
        ReportKind::Churn => {
        },
        ReportKind::Ownership => {
        },
        ReportKind::Coupling => {
            assert("hotspots"@[0] != "coupling"@[0]);
        },
        ReportKind::Patterns => {
            assert("hotspots"@[0] != "patterns"@[0]);
            assert("coupling"@[0] != "patterns"@[0]);
        },
        ReportKind::Age => {
        },
        ReportKind::Bloat => {
            assert("churn"@[0] != "bloat"@[0]);
        },
        ReportKind::Outliers => {
            assert("hotspots"@[0] != "outliers"@[0]);
            assert("coupling"@[0] != "outliers"@[0]);
            assert("patterns"@[0] != "outliers"@[0]);
        },
        ReportKind::Quality => {
            assert("authors"@[0] != "quality"@[0]);
        },
        ReportKind::Complexity => {
        },
        ReportKind::ConstructChurn => {
        },
        ReportKind::DebtMarkers => {
        },
        ReportKind::LargeSources => {
        },
        ReportKind::HalfLife => {
            assert("ownership"@[0] != "half_life"@[0]);
        },
        ReportKind::Succession => {
            assert("complexity"@[0] != "succession"@[0]);
        },
        ReportKind::KnowledgeSilos => {
            assert("construct_churn"@[0] != "knowledge_silos"@[0]);
        },
        ReportKind::FanInOut => {
            assert("complexity"@[0] != "fan_in_out"@[0]);
            assert("succession"@[0] != "fan_in_out"@[0]);
        },
        ReportKind::ModuleCoupling => {
            assert("construct_churn"@[0] != "module_coupling"@[0]);
            assert("knowledge_silos"@[0] != "module_coupling"@[0]);
        },
        ReportKind::ChurnPareto => {
            assert("debt_markers"@[0] != "churn_pareto"@[0]);
        },
        ReportKind::ConstructOwnership => {
        },
        ReportKind::Branches => {
            assert("hotspots"@[0] != "branches"@[0]);
            assert("coupling"@[0] != "branches"@[0]);
            assert("patterns"@[0] != "branches"@[0]);
            assert("outliers"@[0] != "branches"@[0]);
        },
        ReportKind::Clones => {
            assert("health"@[0] != "clones"@[0]);
        },
        ReportKind::CommitSize => {
            assert("composition"@[3] != "commit_size"@[3]);
        },
        ReportKind::CommitVelocity => {
            assert("construct_churn"@[2] != "commit_velocity"@[2]);
            assert("knowledge_silos"@[0] != "commit_velocity"@[0]);
            assert("module_coupling"@[0] != "commit_velocity"@[0]);
        },
        ReportKind::DeadCode => {
            assert("ownership"@[0] != "dead_code"@[0]);
            assert("half_life"@[0] != "dead_code"@[0]);
        },
        ReportKind::DocCoverage => {
            assert("debt_markers"@[1] != "doc_coverage"@[1]);
            assert("churn_pareto"@[0] != "doc_coverage"@[0]);
        },
        ReportKind::TestRatio => {
            assert("complexity"@[0] != "test_ratio"@[0]);
            assert("succession"@[0] != "test_ratio"@[0]);
            assert("fan_in_out"@[0] != "test_ratio"@[0]);
        },
    }
}

/// Only what takes long is left out when nothing is asked for.
pub proof fn default_set_is_all_but_half_life(k: ReportKind)
    ensures
        default_kinds().contains(k) <==> k != ReportKind::HalfLife,
        default_kinds().no_duplicates(),
{
    let d = default_kinds();
    match k {
        ReportKind::Health => {
            assert(d[0] == k);
        },
        ReportKind::Composition => {
            assert(d[1] == k);
        },
        ReportKind::Authors => {
            assert(d[2] == k);
        },
        ReportKind::Hotspots => {
            assert(d[3] == k);
        },
        ReportKind::Churn => {
            assert(d[4] == k);
        },
        ReportKind::Ownership => {
            assert(d[5] == k);
        },
        ReportKind::Coupling => {
            assert(d[6] == k);
        },
        ReportKind::Patterns => {
            assert(d[7] == k);
        },
        ReportKind::Age => {
            assert(d[8] == k);
        },
        ReportKind::Bloat => {
            assert(d[9] == k);
        },
        ReportKind::Outliers => {
            assert(d[10] == k);
        },
        ReportKind::Quality => {
            assert(d[11] == k);
        },
        ReportKind::Complexity => {
            assert(d[12] == k);
        },
        ReportKind::ConstructChurn => {
            assert(d[13] == k);
        },
        ReportKind::DebtMarkers => {
            assert(d[14] == k);
        },
        ReportKind::LargeSources => {
            assert(d[15] == k);
        },
        ReportKind::HalfLife => {},
        ReportKind::Succession => {
            assert(d[16] == k);
        },
        ReportKind::KnowledgeSilos => {
            assert(d[17] == k);
        },
        ReportKind::FanInOut => {
            assert(d[18] == k);
        },
        ReportKind::ModuleCoupling => {
            assert(d[19] == k);
        },
        ReportKind::ChurnPareto => {
            assert(d[20] == k);
        },
        ReportKind::ConstructOwnership => {
            assert(d[21] == k);
        },
        ReportKind::Branches => {
            assert(d[22] == k);
        },
        ReportKind::Clones => {
            assert(d[23] == k);
        },
        ReportKind::CommitSize => {
            assert(d[24] == k);
        },
        ReportKind::CommitVelocity => {
            assert(d[25] == k);
        },
        ReportKind::DeadCode => {
            assert(d[26] == k);
        },
        ReportKind::DocCoverage => {
            assert(d[27] == k);
        },
        ReportKind::TestRatio => {
            assert(d[28] == k);
        },
    }
}

/// The form in which reports are written.
#[derive(Debug, Clone, Copy, PartialEq, Eq, Structural)]
pub enum OutputFormat {
    Table,
    Json,
    Csv,
    Html,
}

/// How reports are written.
#[derive(Debug)]
pub struct OutputConfig {
    pub format: OutputFormat,
    pub output_path: Option<String>,
    pub top: Option<usize>,
    pub quiet: bool,
    pub locale: String,
}

/// A span of whole days.
#[derive(Debug, Clone, Copy, PartialEq, Eq, Structural)]
pub struct Duration {
    pub days: i64,
}

impl Duration {
    pub fn num_days(&self) -> (r: i64)
        ensures
            r == self.days,
    {
        self.days
    }
}

/// The commits that are looked at.
#[derive(Debug, Clone, Copy, PartialEq, Eq, Structural)]
pub enum TimeRange {
    All,
    Since(Duration),
    Between { from: Date, to: Date },
}

/// A second within the calendar falls on the day that holds it.
pub proof fn a_day_holds_its_seconds(ts: int)
    requires
        -8334601315200 <= ts <= 8210266876799,
    ensures
        day_of(ts) * 86400 <= ts < (day_of(ts) + 1) * 86400,
{
}

/// Off the calendar every second counts as the first day.
pub proof fn off_the_calendar_is_day_zero(ts: int)
    requires
        ts < -8334601315200 || ts > 8210266876799,
    ensures
        day_of(ts) == 0,
{
}

/// The days between two days lead from the one to the other; there are none
/// back in time.
pub proof fn days_lead_on(a: int, b: int)
    ensures
        a <= b ==> a + days_from(a, b) == b,
        a >= b ==> days_from(a, b) == 0,
{
}

/// A parameter that is set is there, and the others stay as they were.
pub proof fn a_parameter_is_what_was_set(
    s: Seq<(Seq<char>, ParamModel)>,
    name: Seq<char>,
    value: ParamModel,
)
    ensures
        params_with(s, name, value).contains((name, value)),
        forall|p: (Seq<char>, ParamModel)|
            p.0 != name ==> (#[trigger] params_with(s, name, value).contains(p) <==> s.contains(p)),
    decreases s.len(),
{
    let t = params_with(s, name, value);
    if s.len() == 0 {
        assert(t[0] == (name, value));
    } else if s[0].0 == name {
        assert(t[0] == (name, value));
        assert forall|p: (Seq<char>, ParamModel)| p.0 != name implies (#[trigger] t.contains(p)
            <==> s.contains(p)) by {
            if t.contains(p) {
                let i = choose|i: int| 0 <= i < t.len() && t[i] == p;
                assert(s[i] == p);
            }
            if s.contains(p) {
                let i = choose|i: int| 0 <= i < s.len() && s[i] == p;
                assert(t[i] == p);
            }
        }
    } else {
        let rest = params_with(s.skip(1), name, value);
        a_parameter_is_what_was_set(s.skip(1), name, value);
        let at = choose|i: int| 0 <= i < rest.len() && rest[i] == (name, value);
        assert(t[at + 1] == (name, value));
        assert forall|p: (Seq<char>, ParamModel)| p.0 != name implies (#[trigger] t.contains(p)
            <==> s.contains(p)) by {
            if t.contains(p) {
                let i = choose|i: int| 0 <= i < t.len() && t[i] == p;
                if i > 0 {
                    assert(rest[i - 1] == p);
                    assert(rest.contains(p));
                    let k = choose|k: int| 0 <= k < s.skip(1).len() && s.skip(1)[k] == p;
                    assert(s[k + 1] == p);
                } else {
                    assert(s[0] == p);
                }
            }
            if s.contains(p) {
                let i = choose|i: int| 0 <= i < s.len() && s[i] == p;
                if i > 0 {
                    assert(s.skip(1)[i - 1] == p);
                    assert(rest.contains(p));
                    let k = choose|k: int| 0 <= k < rest.len() && rest[k] == p;
                    assert(t[k + 1] == p);
                } else {
                    assert(t[0] == p);
                }
            }
        }
    }
}

/// A severity and a parameter change nothing else of a message.
pub proof fn messages_keep_their_code(m: MessageModel, s: Severity, name: Seq<char>, v: ParamModel)
    ensures
        m.severe(s).severity == Some(s),
        m.severe(s).code == m.code,
        m.severe(s).params == m.params,
        m.with(name, v).code == m.code,
        m.with(name, v).severity == m.severity,
        m.with(name, v).params.contains((name, v)),
{
    a_parameter_is_what_was_set(m.params, name, v);
}

/// A name in words has as many characters, no underscore, and capitals only
/// where a word begins.
pub proof fn humanized_words(s: Seq<char>, i: int)
    requires
        0 <= i < s.len(),
    ensures
        humanized(s).len() == s.len(),
        s[i] == '_' ==> humanized(s)[i] == ' ',
        s[i] != '_' && (i == 0 || s[i - 1] == '_') ==> humanized(s)[i] == text::upper_char(s[i]),
        s[i] != '_' && i > 0 && s[i - 1] != '_' ==> humanized(s)[i] == s[i],
{
}

/// A report is named and described by codes of its own, and so is each of its
/// columns.
pub proof fn reports_carry_their_codes(
    name: Seq<char>,
    columns: Seq<Seq<char>>,
    entries: Seq<EntryModel>,
    i: int,
)
    requires
        0 <= i < columns.len(),
    ensures
        ({
            let r = report_of(name, columns, entries);
            &&& r.name == name
            &&& r.entries == entries
            &&& r.groups.len() == 0
            &&& r.display_name.code == "report."@ + name + ".display_name"@
            &&& r.description.code == "report."@ + name + ".description"@
            &&& r.columns.len() == columns.len()
            &&& r.columns[i].value == columns[i]
            &&& r.columns[i].label.code == "report."@ + name + ".column."@ + columns[i]
        }),
{
}

/// A report in groups has its codes, its groups and no rows of its own; one whose
/// words are given has those; an empty one has neither columns nor rows.
pub proof fn other_reports_carry_what_they_are_given(
    name: Seq<char>,
    title: Seq<char>,
    words: Seq<char>,
    columns: Seq<Seq<char>>,
    entries: Seq<EntryModel>,
    groups: Seq<GroupModel>,
    m: MessageModel,
    i: int,
)
    requires
        0 <= i < columns.len(),
    ensures
        ({
            let r = grouped_report_of(name, columns, groups);
            &&& r.name == name
            &&& r.groups == groups
            &&& r.entries.len() == 0
            &&& r.display_name.code == "report."@ + name + ".display_name"@
            &&& r.description.code == "report."@ + name + ".description"@
            &&& r.columns.len() == columns.len()
            &&& r.columns[i].value == columns[i]
            &&& r.columns[i].label.code == "report."@ + name + ".column."@ + columns[i]
        }),
        ({
            let r = plain_report_of(name, title, words, columns, entries);
            &&& r.name == name
            &&& r.entries == entries
            &&& r.groups.len() == 0
            &&& r.display_name.code == title
            &&& r.description.code == words
            &&& r.columns.len() == columns.len()
            &&& r.columns[i].value == columns[i]
            &&& r.columns[i].label.code == columns[i]
        }),
        ({
            let r = described(report_of(name, columns, entries), m);
            &&& r.description == m
            &&& r.name == name
            &&& r.entries == entries
            &&& r.display_name.code == "report."@ + name + ".display_name"@
        }),
        empty_report(name).name == name,
        empty_report(name).columns.len() == 0,
        empty_report(name).entries.len() == 0,
        empty_report(name).groups.len() == 0,
{
}

/// Each value stands for what it holds.
pub proof fn values_stand_for_what_they_hold(
    n: u64,
    d: u64,
    z: i64,
    s: String,
    day: Date,
    m: LocalizedMessage,
)
    ensures
        MetricValue::Count(n)@ == ValueModel::Count(n as int),
        MetricValue::SignedCount(z)@ == ValueModel::Signed(z as int),
        (MetricValue::Ratio { num: n, den: d })@ == ValueModel::Ratio(n as int, d as int),
        (MetricValue::Percent { num: n, den: d })@ == ValueModel::Percent(n as int, d as int),
        (MetricValue::PerYear { count: n, days: d })@ == ValueModel::PerYear(n as int, d as int),
        MetricValue::Text(s)@ == ValueModel::Text(s@),
        MetricValue::Date(day)@ == ValueModel::Date(day.days as int),
        MetricValue::Message(m)@ == ValueModel::Message(m@),
{
}

} // verus!
