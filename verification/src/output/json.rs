//! Reports as JSON.

use vstd::prelude::*;

use crate::calendar;
use crate::calendar::date_text;
use crate::output::cells;
use crate::output::cells::{count_shown, keys_of, slug_of};
use crate::text;
use crate::types;
use crate::types::{
    EntryModel, GroupModel, LocalizedMessage, MessageModel, MetricEntry, MetricResult, MetricValue,
    ParamModel, ParamValue, ResultModel, Severity, ValueModel,
};

verus! {

pub struct JsonWriter;

/// A JSON value. Quotients stay exact, as in [`MetricValue`]. Of two fields of
/// an object with one name, the later counts.
#[derive(Debug)]
pub enum Json {
    Null,
    Bool(bool),
    Unsigned(u64),
    Signed(i64),
    Ratio { num: u64, den: u64 },
    Percent { num: u64, den: u64 },
    PerYear { count: u64, days: u64 },
    Text(String),
    Array(Vec<Json>),
    Object(Vec<(String, Json)>),
}

pub enum JsonModel {
    Null,
    Bool(bool),
    Number(int),
    Ratio(int, int),
    Percent(int, int),
    PerYear(int, int),
    Text(Seq<char>),
    Array(Seq<JsonModel>),
    Object(Seq<(Seq<char>, JsonModel)>),
}

impl Json {
    pub open spec fn model(self) -> JsonModel
        decreases self, 0nat,
    {
        match self {
            Json::Null => JsonModel::Null,
            Json::Bool(b) => JsonModel::Bool(b),
            Json::Unsigned(n) => JsonModel::Number(n as int),
            Json::Signed(n) => JsonModel::Number(n as int),
            Json::Ratio { num, den } => JsonModel::Ratio(num as int, den as int),
            Json::Percent { num, den } => JsonModel::Percent(num as int, den as int),
            Json::PerYear { count, days } => JsonModel::PerYear(count as int, days as int),
            Json::Text(s) => JsonModel::Text(s@),
            Json::Array(items) => JsonModel::Array(array_models(items@, items@.len())),
            Json::Object(fields) => JsonModel::Object(field_models(fields@, fields@.len())),
        }
    }
}

pub open spec fn array_models(s: Seq<Json>, n: nat) -> Seq<JsonModel>
    decreases s, n,
{
    if n == 0 || n > s.len() {
        Seq::empty()
    } else {
        array_models(s, (n - 1) as nat).push(s[n - 1].model())
    }
}

pub open spec fn field_models(s: Seq<(String, Json)>, n: nat) -> Seq<(Seq<char>, JsonModel)>
    decreases s, n,
{
    if n == 0 || n > s.len() {
        Seq::empty()
    } else {
        field_models(s, (n - 1) as nat).push((s[n - 1].0@, s[n - 1].1.model()))
    }
}

impl View for Json {
    type V = JsonModel;

    open spec fn view(&self) -> JsonModel {
        self.model()
    }
}

pub proof fn lemma_array_models(s: Seq<Json>, n: nat)
    requires
        n <= s.len(),
    ensures
        array_models(s, n).len() == n,
        forall|k: int| 0 <= k < n ==> #[trigger] array_models(s, n)[k] == s[k]@,
    decreases n,
{
    if n > 0 {
        lemma_array_models(s, (n - 1) as nat);
    }
}

pub proof fn lemma_field_models(s: Seq<(String, Json)>, n: nat)
    requires
        n <= s.len(),
    ensures
        field_models(s, n).len() == n,
        forall|k: int| 0 <= k < n ==> #[trigger] field_models(s, n)[k] == (s[k].0@, s[k].1@),
    decreases n,
{
    if n > 0 {
        lemma_field_models(s, (n - 1) as nat);
    }
}

pub fn json_text(s: &str) -> (r: Json)
    ensures
        r@ == JsonModel::Text(s@),
{
    Json::Text(text::copy_text(s))
}

/// The array of the values.
pub fn json_array(items: Vec<Json>) -> (r: Json)
    ensures
        match r@ {
            JsonModel::Array(models) => models.len() == items@.len() && forall|k: int|
                0 <= k < models.len() ==> #[trigger] models[k] == items@[k]@,
            _ => false,
        },
{
    proof {
        lemma_array_models(items@, items@.len());
    }
    Json::Array(items)
}

/// The object of the fields.
pub fn json_object(fields: Vec<(String, Json)>) -> (r: Json)
    ensures
        match r@ {
            JsonModel::Object(models) => models.len() == fields@.len() && forall|k: int|
                0 <= k < models.len() ==> #[trigger] models[k] == (fields@[k].0@, fields@[k].1@),
            _ => false,
        },
{
    proof {
        lemma_field_models(fields@, fields@.len());
    }
    Json::Object(fields)
}

/// One field of an object.
pub fn field(name: &str, value: Json) -> (r: (String, Json))
    ensures
        r.0@ == name@,
        r.1@ == value@,
{
    (text::copy_text(name), value)
}

// ---------------------------------------------------------------------------
// Messages and cells
// ---------------------------------------------------------------------------

pub open spec fn severity_name(s: Severity) -> Seq<char> {
    match s {
        Severity::Info => "info"@,
        Severity::Warning => "warning"@,
        Severity::Error => "error"@,
        Severity::Critical => "critical"@,
    }
}

pub open spec fn param_json(p: ParamModel) -> JsonModel {
    match p {
        ParamModel::Null => JsonModel::Null,
        ParamModel::Bool(b) => JsonModel::Bool(b),
        ParamModel::Number(n) => JsonModel::Number(n),
        ParamModel::Text(s) => JsonModel::Text(s),
    }
}

pub open spec fn params_json(s: Seq<(Seq<char>, ParamModel)>) -> Seq<(Seq<char>, JsonModel)> {
    Seq::new(s.len(), |i: int| (s[i].0, param_json(s[i].1)))
}

/// A message: its code and, where it has more, an object of its code, its
/// severity and its parameters.
pub open spec fn message_json(m: MessageModel) -> JsonModel {
    if m.severity is None && m.params.len() == 0 {
        JsonModel::Text(m.code)
    } else {
        JsonModel::Object(
            seq![
                ("code"@, JsonModel::Text(m.code)),
                (
                    "severity"@,
                    match m.severity {
                        Some(s) => JsonModel::Text(severity_name(s)),
                        None => JsonModel::Null,
                    },
                ),
                ("params"@, JsonModel::Object(params_json(m.params))),
            ],
        )
    }
}

/// A cell.
pub open spec fn value_json(v: ValueModel) -> JsonModel
    decreases v, 0nat,
{
    match v {
        ValueModel::Count(n) => JsonModel::Number(n),
        ValueModel::Signed(n) => JsonModel::Number(n),
        ValueModel::Ratio(num, den) => JsonModel::Ratio(num, den),
        ValueModel::Percent(num, den) => JsonModel::Percent(num, den),
        ValueModel::PerYear(count, days) => JsonModel::PerYear(count, days),
        ValueModel::Text(s) => JsonModel::Text(s),
        ValueModel::Date(d) => JsonModel::Text(calendar::date_shown(d)),
        ValueModel::Message(m) => message_json(m),
        ValueModel::List(items) => JsonModel::Array(values_json(items, items.len())),
    }
}

/// The first `n` cells.
pub open spec fn values_json(items: Seq<ValueModel>, n: nat) -> Seq<JsonModel>
    decreases items, n,
{
    if n == 0 || n > items.len() {
        Seq::empty()
    } else {
        values_json(items, (n - 1) as nat).push(value_json(items[n - 1]))
    }
}

fn param_to_json(p: &ParamValue) -> (r: Json)
    ensures
        r@ == param_json(p@),
{
    match p {
        ParamValue::Null => Json::Null,
        ParamValue::Bool(b) => Json::Bool(*b),
        ParamValue::Unsigned(n) => Json::Unsigned(*n),
        ParamValue::Signed(n) => Json::Signed(*n),
        ParamValue::Text(s) => json_text(s.as_str()),
    }
}

fn severity_text(s: Severity) -> (r: &'static str)
    ensures
        r@ == severity_name(s),
{
    match s {
        Severity::Info => "info",
        Severity::Warning => "warning",
        Severity::Error => "error",
        Severity::Critical => "critical",
    }
}

/// A message.
pub fn message_to_json(m: &LocalizedMessage) -> (r: Json)
    ensures
        r@ == message_json(m@),
{
    let n: usize = m.params.len();
    if m.severity.is_none() && n == 0 {
        return json_text(m.code.as_str());
    }
    let mut params: Vec<(String, Json)> = Vec::new();
    let mut i: usize = 0;
    while i < n
        invariant
            n == m.params@.len(),
            i <= n,
            params@.len() == i,
            forall|k: int|
                0 <= k < i ==> ((#[trigger] params@[k]).0@, params@[k].1@) == params_json(
                    m@.params,
                )[k],
        decreases n - i,
    {
        params.push(field(m.params[i].0.as_str(), param_to_json(&m.params[i].1)));
        i += 1;
    }
    let listed = json_object(params);
    proof {
        assert(listed@->Object_0 =~= params_json(m@.params));
    }
    let severity = match m.severity {
        Some(s) => json_text(severity_text(s)),
        None => Json::Null,
    };
    let mut fields: Vec<(String, Json)> = Vec::new();
    fields.push(field("code", json_text(m.code.as_str())));
    fields.push(field("severity", severity));
    fields.push(field("params", listed));
    let r = json_object(fields);
    proof {
        assert(r@->Object_0 =~= message_json(m@)->Object_0);
    }
    r
}

/// A cell.
pub fn metric_value_to_json(v: &MetricValue) -> (r: Json)
    ensures
        r@ == value_json(v@),
    decreases v,
{
    match v {
        MetricValue::Count(n) => Json::Unsigned(*n),
        MetricValue::SignedCount(n) => Json::Signed(*n),
        MetricValue::Ratio { num, den } => Json::Ratio { num: *num, den: *den },
        MetricValue::Percent { num, den } => Json::Percent { num: *num, den: *den },
        MetricValue::PerYear { count, days } => Json::PerYear { count: *count, days: *days },
        MetricValue::Text(s) => json_text(s.as_str()),
        MetricValue::Date(d) => Json::Text(date_text(*d)),
        MetricValue::Message(m) => message_to_json(m),
        MetricValue::List(items) => {
            let ghost models = v@->List_0;
            let mut out: Vec<Json> = Vec::new();
            let n: usize = items.len();
            let mut i: usize = 0;
            let ghost mut done: Seq<JsonModel> = Seq::empty();
            while i < n
                invariant
                    n == items@.len(),
                    *v == MetricValue::List(*items),
                    models == v@->List_0,
                    models.len() == n,
                    i <= n,
                    out@.len() == i,
                    done == values_json(models, i as nat),
                    done.len() == i,
                    forall|k: int| 0 <= k < i ==> (#[trigger] out@[k])@ == done[k],
                decreases n - i,
            {
                proof {
                    assert(decreases_to!(*v => v->List_0));
                    assert(decreases_to!(*items => items@));
                    assert(decreases_to!(items@ => items@[i as int]));
                    assert(models[i as int] == items@[i as int]@);
                }
                out.push(metric_value_to_json(&items[i]));
                proof {
                    done = done.push(value_json(models[i as int]));
                }
                i += 1;
            }
            let r = json_array(out);
            proof {
                assert(r@->Array_0 =~= done);
            }
            r
        },
    }
}

// ---------------------------------------------------------------------------
// Reports
// ---------------------------------------------------------------------------

/// The fields of a row: its name, then its cells in order.
pub open spec fn entry_json(e: EntryModel) -> JsonModel {
    let keys = cells::listing(e.values);
    JsonModel::Object(
        seq![("name"@, JsonModel::Text(e.key))] + Seq::new(
            keys.len(),
            |i: int| (keys[i], value_json(e.values[keys[i]])),
        ),
    )
}

pub open spec fn entries_json(s: Seq<EntryModel>) -> JsonModel {
    JsonModel::Array(Seq::new(s.len(), |i: int| entry_json(s[i])))
}

pub open spec fn group_json(g: GroupModel) -> JsonModel {
    JsonModel::Object(
        seq![
            ("name"@, JsonModel::Text(g.name)),
            ("label"@, JsonModel::Text(g.label)),
            ("entries"@, entries_json(g.entries)),
        ],
    )
}

/// The number of rows in the first `n` groups.
pub open spec fn grouped_rows(s: Seq<GroupModel>, n: int) -> int
    decreases n,
{
    if n <= 0 {
        0
    } else {
        grouped_rows(s, n - 1) + s[n - 1].entries.len()
    }
}

pub open spec fn report_head(r: ResultModel) -> Seq<(Seq<char>, JsonModel)> {
    seq![
        ("name"@, JsonModel::Text(r.name)),
        ("display_name"@, message_json(r.display_name)),
        ("description"@, message_json(r.description)),
        (
            "columns"@,
            JsonModel::Array(
                Seq::new(r.columns.len(), |i: int| JsonModel::Text(r.columns[i].value)),
            ),
        ),
        (
            "column_labels"@,
            JsonModel::Array(Seq::new(r.columns.len(), |i: int| message_json(r.columns[i].label))),
        ),
    ]
}

/// A report. A limit holds for its rows, and the number of all rows is told;
/// groups are shown in full.
pub open spec fn report_json(r: ResultModel, top: Option<usize>) -> JsonModel {
    if r.groups.len() == 0 {
        let shown = cells::shown_count(r.entries.len() as int, top);
        JsonModel::Object(
            report_head(r) + seq![
                ("total_entries"@, JsonModel::Number(r.entries.len() as int)),
                ("shown_entries"@, JsonModel::Number(shown)),
                ("entries"@, entries_json(r.entries.take(shown))),
            ],
        )
    } else {
        let total = grouped_rows(r.groups, r.groups.len() as int);
        JsonModel::Object(
            report_head(r) + seq![
                ("total_entries"@, JsonModel::Number(total)),
                ("shown_entries"@, JsonModel::Number(total)),
                (
                    "entry_groups"@,
                    JsonModel::Array(Seq::new(r.groups.len(), |i: int| group_json(r.groups[i]))),
                ),
            ],
        )
    }
}

/// All reports, each under its name as a key, and when they were made.
pub open spec fn document(results: Seq<ResultModel>, top: Option<usize>, now: Seq<char>) ->
    JsonModel {
    JsonModel::Object(
        seq![
            ("generated_at"@, JsonModel::Text(now)),
            (
                "reports"@,
                JsonModel::Object(
                    Seq::new(
                        results.len(),
                        |i: int| (cells::slug(results[i].name), report_json(results[i], top)),
                    ),
                ),
            ),
        ],
    )
}

pub open spec fn result_models(s: Seq<MetricResult>) -> Seq<ResultModel> {
    Seq::new(s.len(), |i: int| s[i]@)
}

fn entry_to_json(e: &MetricEntry) -> (r: Json)
    ensures
        r@ == entry_json(e@),
{
    let keys = keys_of(&e.values);
    let ghost want = entry_json(e@)->Object_0;
    let mut fields: Vec<(String, Json)> = Vec::new();
    fields.push(field("name", json_text(e.key.as_str())));
    let n: usize = keys.len();
    proof {
        assert(keys@.len() == text::views(keys@).len());
    }
    let mut i: usize = 0;
    while i < n
        invariant
            n == keys@.len(),
            text::views(keys@) == cells::listing(e@.values),
            cells::is_listing(text::views(keys@), e@.values),
            want == entry_json(e@)->Object_0,
            want.len() == n + 1,
            i <= n,
            fields@.len() == i + 1,
            forall|k: int|
                0 <= k <= i ==> ((#[trigger] fields@[k]).0@, fields@[k].1@) == want[k],
        decreases n - i,
    {
        proof {
            assert(text::views(keys@)[i as int] == keys@[i as int]@);
            assert(text::views(keys@).contains(keys@[i as int]@));
        }
        if let Some(v) = e.values.get(keys[i].as_str()) {
            fields.push(field(keys[i].as_str(), metric_value_to_json(v)));
        }
        i += 1;
    }
    let r = json_object(fields);
    proof {
        assert(r@->Object_0 =~= want);
    }
    r
}

fn entries_to_json(entries: &[MetricEntry], count: usize) -> (r: Json)
    requires
        count <= entries@.len(),
    ensures
        r@ == entries_json(types::entry_models(entries@).take(count as int)),
{
    let ghost models = types::entry_models(entries@).take(count as int);
    let mut out: Vec<Json> = Vec::new();
    let mut i: usize = 0;
    while i < count
        invariant
            count <= entries@.len(),
            models == types::entry_models(entries@).take(count as int),
            i <= count,
            out@.len() == i,
            forall|k: int| 0 <= k < i ==> (#[trigger] out@[k])@ == entry_json(models[k]),
        decreases count - i,
    {
        out.push(entry_to_json(&entries[i]));
        i += 1;
    }
    let r = json_array(out);
    proof {
        assert(r@->Array_0 =~= entries_json(models)->Array_0);
    }
    r
}

fn group_to_json(g: &types::EntryGroup) -> (r: Json)
    ensures
        r@ == group_json(g@),
{
    let n: usize = g.entries.len();
    let entries = entries_to_json(&g.entries, n);
    proof {
        let models = types::entry_models(g.entries@);
        assert(models.take(n as int) =~= models);
    }
    let mut fields: Vec<(String, Json)> = Vec::new();
    fields.push(field("name", json_text(g.name.as_str())));
    fields.push(field("label", json_text(g.label.as_str())));
    fields.push(field("entries", entries));
    let r = json_object(fields);
    proof {
        assert(r@->Object_0 =~= group_json(g@)->Object_0);
    }
    r
}

fn head_fields(result: &MetricResult) -> (r: Vec<(String, Json)>)
    ensures
        r@.len() == 5,
        forall|k: int|
            0 <= k < 5 ==> ((#[trigger] r@[k]).0@, r@[k].1@) == report_head(result@)[k],
{
    let mut values: Vec<Json> = Vec::new();
    let mut labels: Vec<Json> = Vec::new();
    let n: usize = result.columns.len();
    let mut i: usize = 0;
    while i < n
        invariant
            n == result.columns@.len(),
            i <= n,
            values@.len() == i,
            labels@.len() == i,
            forall|k: int|
                0 <= k < i ==> (#[trigger] values@[k])@ == JsonModel::Text(
                    result@.columns[k].value,
                ),
            forall|k: int|
                0 <= k < i ==> (#[trigger] labels@[k])@ == message_json(result@.columns[k].label),
        decreases n - i,
    {
        values.push(json_text(result.columns[i].value.as_str()));
        labels.push(message_to_json(&result.columns[i].label));
        i += 1;
    }
    let columns = json_array(values);
    let column_labels = json_array(labels);
    proof {
        assert(columns@->Array_0 =~= report_head(result@)[3].1->Array_0);
        assert(column_labels@->Array_0 =~= report_head(result@)[4].1->Array_0);
    }
    let mut fields: Vec<(String, Json)> = Vec::new();
    fields.push(field("name", json_text(result.name.as_str())));
    fields.push(field("display_name", message_to_json(&result.display_name)));
    fields.push(field("description", message_to_json(&result.description)));
    fields.push(field("columns", columns));
    fields.push(field("column_labels", column_labels));
    fields
}

impl JsonWriter {
    /// A report.
    pub fn result_to_json(result: &MetricResult, top: Option<usize>) -> (r: Json)
        requires
            grouped_rows(result@.groups, result@.groups.len() as int) <= u64::MAX,
        ensures
            r@ == report_json(result@, top),
    {
        let mut fields = head_fields(result);
        let g: usize = result.entry_groups.len();
        let n: usize = result.entries.len();
        if g == 0 {
            let count = count_shown(n, top);
            fields.push(field("total_entries", Json::Unsigned(n as u64)));
            fields.push(field("shown_entries", Json::Unsigned(count as u64)));
            fields.push(field("entries", entries_to_json(&result.entries, count)));
        } else {
            let ghost all = result@.groups;
            let mut total: u64 = 0;
            let mut groups: Vec<Json> = Vec::new();
            let mut i: usize = 0;
            while i < g
                invariant
                    g == result.entry_groups@.len(),
                    all == result@.groups,
                    grouped_rows(all, all.len() as int) <= u64::MAX,
                    i <= g,
                    total == grouped_rows(all, i as int),
                    groups@.len() == i,
                    forall|k: int| 0 <= k < i ==> (#[trigger] groups@[k])@ == group_json(all[k]),
                decreases g - i,
            {
                let group = &result.entry_groups[i];
                proof {
                    assert(all[i as int] == group@);
                    lemma_grouped_rows(all, i + 1, all.len() as int);
                }
                total += group.entries.len() as u64;
                groups.push(group_to_json(group));
                i += 1;
            }
            let listed = json_array(groups);
            proof {
                assert(listed@->Array_0 =~= Seq::new(all.len(), |i: int| group_json(all[i])));
            }
            fields.push(field("total_entries", Json::Unsigned(total)));
            fields.push(field("shown_entries", Json::Unsigned(total)));
            fields.push(field("entry_groups", listed));
        }
        let r = json_object(fields);
        proof {
            assert(r@->Object_0 =~= report_json(result@, top)->Object_0);
        }
        r
    }

    /// All reports, and when they were made.
    pub fn document(results: &[MetricResult], top: Option<usize>, now: &str) -> (r: Json)
        requires
            forall|i: int|
                0 <= i < results@.len() ==> grouped_rows(
                    (#[trigger] results@[i])@.groups,
                    results@[i]@.groups.len() as int,
                ) <= u64::MAX,
        ensures
            r@ == document(result_models(results@), top, now@),
    {
        let ghost all = result_models(results@);
        let ghost want = Seq::new(
            all.len(),
            |i: int| (cells::slug(all[i].name), report_json(all[i], top)),
        );
        let mut reports: Vec<(String, Json)> = Vec::new();
        let n: usize = results.len();
        let mut i: usize = 0;
        while i < n
            invariant
                n == results@.len(),
                forall|i: int|
                    0 <= i < results@.len() ==> grouped_rows(
                        (#[trigger] results@[i])@.groups,
                        results@[i]@.groups.len() as int,
                    ) <= u64::MAX,
                all == result_models(results@),
                want == Seq::new(
                    all.len(),
                    |i: int| (cells::slug(all[i].name), report_json(all[i], top)),
                ),
                i <= n,
                reports@.len() == i,
                forall|k: int|
                    0 <= k < i ==> ((#[trigger] reports@[k]).0@, reports@[k].1@) == want[k],
            decreases n - i,
        {
            let key = slug_of(results[i].name.as_str());
            reports.push((key, JsonWriter::result_to_json(&results[i], top)));
            i += 1;
        }
        let listed = json_object(reports);
        proof {
            assert(listed@->Object_0 =~= want);
        }
        let mut fields: Vec<(String, Json)> = Vec::new();
        fields.push(field("generated_at", json_text(now)));
        fields.push(field("reports", listed));
        let r = json_object(fields);
        proof {
            assert(r@->Object_0 =~= document(all, top, now@)->Object_0);
        }
        r
    }
}

proof fn lemma_grouped_rows(s: Seq<GroupModel>, i: int, n: int)
    requires
        0 <= i <= n,
    ensures
        grouped_rows(s, i) <= grouped_rows(s, n),
    decreases n - i,
{
    if i < n {
        lemma_grouped_rows(s, i, n - 1);
    }
}

/// A message is its code alone, or an object where it has a severity or
/// parameters; nothing of it is lost.
pub proof fn messages_are_told_in_full(m: MessageModel, i: int)
    ensures
        m.severity is None && m.params.len() == 0 ==> message_json(m) == JsonModel::Text(m.code),
        m.severity is Some || m.params.len() > 0 ==> {
            let f = message_json(m)->Object_0;
            &&& message_json(m) is Object
            &&& f.len() == 3
            &&& f[0] == ("code"@, JsonModel::Text(m.code))
            &&& f[1].0 == "severity"@
            &&& m.severity == Some(Severity::Info) ==> f[1].1 == JsonModel::Text("info"@)
            &&& m.severity == Some(Severity::Warning) ==> f[1].1 == JsonModel::Text("warning"@)
            &&& m.severity == Some(Severity::Error) ==> f[1].1 == JsonModel::Text("error"@)
            &&& m.severity == Some(Severity::Critical) ==> f[1].1 == JsonModel::Text("critical"@)
            &&& m.severity is None ==> f[1].1 is Null
            &&& f[2].0 == "params"@
            &&& f[2].1 is Object
            &&& f[2].1->Object_0.len() == m.params.len()
            &&& 0 <= i < m.params.len() ==> f[2].1->Object_0[i] == (
                m.params[i].0,
                param_json(m.params[i].1),
            )
        },
{
}

/// A parameter and a cell are told as what they are.
pub proof fn values_are_told_as_they_are(n: int, d: int, s: Seq<char>, b: bool, m: MessageModel)
    ensures
        param_json(ParamModel::Number(n)) == JsonModel::Number(n),
        param_json(ParamModel::Text(s)) == JsonModel::Text(s),
        param_json(ParamModel::Bool(b)) == JsonModel::Bool(b),
        param_json(ParamModel::Null) is Null,
        value_json(ValueModel::Count(n)) == JsonModel::Number(n),
        value_json(ValueModel::Signed(n)) == JsonModel::Number(n),
        value_json(ValueModel::Ratio(n, d)) == JsonModel::Ratio(n, d),
        value_json(ValueModel::Percent(n, d)) == JsonModel::Percent(n, d),
        value_json(ValueModel::PerYear(n, d)) == JsonModel::PerYear(n, d),
        value_json(ValueModel::Text(s)) == JsonModel::Text(s),
        value_json(ValueModel::Date(n)) == JsonModel::Text(calendar::date_shown(n)),
        value_json(ValueModel::Message(m)) == message_json(m),
{
}

/// The items of a list are told in their order.
pub proof fn lists_are_told_in_order(items: Seq<ValueModel>, n: nat)
    requires
        n <= items.len(),
    ensures
        values_json(items, n).len() == n,
        forall|k: int| 0 <= k < n ==> #[trigger] values_json(items, n)[k] == value_json(items[k]),
        value_json(ValueModel::List(items)) == JsonModel::Array(
            values_json(items, items.len()),
        ),
    decreases n,
{
    if n > 0 {
        lists_are_told_in_order(items, (n - 1) as nat);
        assert forall|k: int| 0 <= k < n implies #[trigger] values_json(items, n)[k] == value_json(
            items[k],
        ) by {
            if k < n - 1 {
                assert(values_json(items, n)[k] == values_json(items, (n - 1) as nat)[k]);
            }
        }
    }
}

/// A row is an object that starts with its name; then come its cells by key.
pub proof fn rows_are_told_by_key(e: EntryModel, i: int)
    ensures
        ({
            let keys = cells::listing(e.values);
            let f = entry_json(e)->Object_0;
            &&& entry_json(e) is Object
            &&& f.len() == keys.len() + 1
            &&& f[0] == ("name"@, JsonModel::Text(e.key))
            &&& 0 <= i < keys.len() ==> f[i + 1] == (keys[i], value_json(e.values[keys[i]]))
        }),
{
}

/// A report without groups tells how many rows it has, how many it shows, and
/// those: the first ones, up to the limit.
pub proof fn limits_are_told(r: ResultModel, top: Option<usize>, i: int)
    requires
        r.groups.len() == 0,
    ensures
        ({
            let f = report_json(r, top)->Object_0;
            let rows = f[7].1->Array_0;
            &&& report_json(r, top) is Object
            &&& f.len() == 8
            &&& f[0] == ("name"@, JsonModel::Text(r.name))
            &&& f[1] == ("display_name"@, message_json(r.display_name))
            &&& f[2] == ("description"@, message_json(r.description))
            &&& f[5] == ("total_entries"@, JsonModel::Number(r.entries.len() as int))
            &&& f[6] == ("shown_entries"@, JsonModel::Number(rows.len() as int))
            &&& f[7].0 == "entries"@
            &&& top is None ==> rows.len() == r.entries.len()
            &&& top matches Some(n) ==> rows.len() <= n && (rows.len() == n || rows.len()
                == r.entries.len())
            &&& 0 <= i < rows.len() ==> rows[i] == entry_json(r.entries[i])
        }),
{
}

/// A report with groups tells all of them, and as many rows as they have together.
pub proof fn groups_are_told_in_full(r: ResultModel, top: Option<usize>, i: int)
    requires
        r.groups.len() > 0,
    ensures
        ({
            let f = report_json(r, top)->Object_0;
            let total = grouped_rows(r.groups, r.groups.len() as int);
            &&& f.len() == 8
            &&& f[5] == ("total_entries"@, JsonModel::Number(total))
            &&& f[6] == ("shown_entries"@, JsonModel::Number(total))
            &&& f[7].0 == "entry_groups"@
            &&& f[7].1->Array_0.len() == r.groups.len()
            &&& 0 <= i < r.groups.len() ==> f[7].1->Array_0[i] == JsonModel::Object(
                seq![
                    ("name"@, JsonModel::Text(r.groups[i].name)),
                    ("label"@, JsonModel::Text(r.groups[i].label)),
                    ("entries"@, entries_json(r.groups[i].entries)),
                ],
            )
        }),
        0 <= i < r.groups.len() ==> grouped_rows(r.groups, i + 1) == grouped_rows(r.groups, i)
            + r.groups[i].entries.len(),
{
}

/// The columns of a report are told by their cells and by their labels.
pub proof fn columns_are_told_twice(r: ResultModel, top: Option<usize>, i: int)
    requires
        0 <= i < r.columns.len(),
    ensures
        ({
            let f = report_json(r, top)->Object_0;
            &&& f[3].0 == "columns"@
            &&& f[3].1->Array_0.len() == r.columns.len()
            &&& f[3].1->Array_0[i] == JsonModel::Text(r.columns[i].value)
            &&& f[4].0 == "column_labels"@
            &&& f[4].1->Array_0.len() == r.columns.len()
            &&& f[4].1->Array_0[i] == message_json(r.columns[i].label)
        }),
{
}

/// A document tells when it was made, and each report under its name as a key.
pub proof fn documents_hold_all_reports(
    results: Seq<ResultModel>,
    top: Option<usize>,
    now: Seq<char>,
    i: int,
)
    ensures
        ({
            let f = document(results, top, now)->Object_0;
            &&& f.len() == 2
            &&& f[0] == ("generated_at"@, JsonModel::Text(now))
            &&& f[1].0 == "reports"@
            &&& f[1].1->Object_0.len() == results.len()
            &&& 0 <= i < results.len() ==> f[1].1->Object_0[i] == (
                cells::slug(results[i].name),
                report_json(results[i], top),
            )
        }),
{
}

} // verus!
