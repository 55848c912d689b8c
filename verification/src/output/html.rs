//! Reports as a page of HTML.

use vstd::prelude::*;

use crate::i18n;
use crate::i18n::Catalog;
use crate::output::cells;
use crate::output::cells::keys_of;
use crate::output::json;
use crate::output::json::{
    field, json_array, json_object, json_text, metric_value_to_json, Json, JsonModel,
};
use crate::table;
use crate::text;
use crate::types;
use crate::types::{
    EntryGroup, EntryModel, GroupModel, MetricEntry, MetricResult, MetricValue, ResultModel,
    ValueModel,
};

verus! {

pub struct HtmlWriter;

/// What gives way to the time.
pub const GENERATED_AT_MARKER: &'static str = "{{GENERATED_AT}}";

/// What gives way to the reports.
pub const REPORT_DATA_MARKER: &'static str = "{{REPORT_DATA_JSON}}";

// ---------------------------------------------------------------------------
// Escaping
// ---------------------------------------------------------------------------

/// A character as it stands in HTML.
pub open spec fn escaped_char(c: char) -> Seq<char> {
    if c == '&' {
        "&amp;"@
    } else if c == '<' {
        "&lt;"@
    } else if c == '>' {
        "&gt;"@
    } else if c == '"' {
        "&quot;"@
    } else if c == '\'' {
        "&#x27;"@
    } else {
        seq![c]
    }
}

/// A text as it stands in HTML.
pub open spec fn escaped(s: Seq<char>) -> Seq<char>
    decreases s.len(),
{
    if s.len() == 0 {
        Seq::empty()
    } else {
        escaped(s.drop_last()) + escaped_char(s.last())
    }
}

/// A text as it stands in HTML.
pub fn escape_html(s: &str) -> (r: String)
    ensures
        r@ == escaped(s@),
{
    let v = text::to_chars(s);
    let n: usize = v.len();
    let mut out = String::new();
    let mut i: usize = 0;
    proof {
        assert(s@.take(0).len() == 0);
        assert(out@ =~= Seq::empty());
    }
    while i < n
        invariant
            n == v@.len(),
            v@ == s@,
            i <= n,
            out@ == escaped(s@.take(i as int)),
        decreases n - i,
    {
        let ghost before = out@;
        let c = v[i];
        proof {
            assert(s@.take(i + 1).drop_last() =~= s@.take(i as int));
            assert(s@.take(i + 1).last() == c);
        }
        if c == '&' {
            out.append("&amp;");
        } else if c == '<' {
            out.append("&lt;");
        } else if c == '>' {
            out.append("&gt;");
        } else if c == '"' {
            out.append("&quot;");
        } else if c == '\'' {
            out.append("&#x27;");
        } else {
            out.push(c);
        }
        proof {
            assert(out@ =~= before + escaped_char(c));
        }
        i += 1;
    }
    proof {
        assert(s@.take(n as int) =~= s@);
    }
    out
}

pub open spec fn is_markup(c: char) -> bool {
    c == '<' || c == '>' || c == '"' || c == '\''
}

/// What is escaped holds no markup.
pub proof fn escaped_is_inert(s: Seq<char>, i: int)
    requires
        0 <= i < escaped(s).len(),
    ensures
        !is_markup(escaped(s)[i]),
    decreases s.len(),
{
    let init = escaped(s.drop_last());
    if i < init.len() {
        escaped_is_inert(s.drop_last(), i);
    } else {
        reveal_strlit("&amp;");
        reveal_strlit("&lt;");
        reveal_strlit("&gt;");
        reveal_strlit("&quot;");
        reveal_strlit("&#x27;");
        let k = i - init.len();
        let e = escaped_char(s.last());
        assert(escaped(s)[i] == e[k]);
        assert("&amp;"@ =~= seq!['&', 'a', 'm', 'p', ';']);
        assert("&lt;"@ =~= seq!['&', 'l', 't', ';']);
        assert("&gt;"@ =~= seq!['&', 'g', 't', ';']);
        assert("&quot;"@ =~= seq!['&', 'q', 'u', 'o', 't', ';']);
        assert("&#x27;"@ =~= seq!['&', '#', 'x', '2', '7', ';']);
    }
}

// ---------------------------------------------------------------------------
// Scripts
// ---------------------------------------------------------------------------

/// The bytes with each `</` as `<\/`, so that nothing in them ends a script.
pub open spec fn script_escaped(s: Seq<u8>) -> Seq<u8>
    decreases s.len(),
{
    if s.len() == 0 {
        Seq::empty()
    } else if s.len() >= 2 && s[s.len() - 2] == 0x3c && s.last() == 0x2f {
        script_escaped(s.take(s.len() - 2)) + seq![0x3cu8, 0x5cu8, 0x2fu8]
    } else {
        script_escaped(s.drop_last()).push(s.last())
    }
}

/// Escapes bytes that come in pieces: a `<` at the end of a piece waits for
/// what follows.
#[derive(Debug)]
pub struct ScriptEscapeWriter {
    pub out: Vec<u8>,
    pub pending_lt: bool,
}

pub struct EscapeModel {
    pub out: Seq<u8>,
    pub pending: bool,
}

impl View for ScriptEscapeWriter {
    type V = EscapeModel;

    open spec fn view(&self) -> EscapeModel {
        EscapeModel { out: self.out@, pending: self.pending_lt }
    }
}

impl EscapeModel {
    pub open spec fn fresh() -> EscapeModel {
        EscapeModel { out: Seq::empty(), pending: false }
    }

    /// After one more byte.
    pub open spec fn fed(self, b: u8) -> EscapeModel {
        if self.pending && b == 0x2f {
            EscapeModel { out: self.out + seq![0x3cu8, 0x5cu8, 0x2fu8], pending: false }
        } else {
            let out = if self.pending {
                self.out.push(0x3c)
            } else {
                self.out
            };
            if b == 0x3c {
                EscapeModel { out, pending: true }
            } else {
                EscapeModel { out: out.push(b), pending: false }
            }
        }
    }

    /// After a piece.
    pub open spec fn fed_all(self, s: Seq<u8>) -> EscapeModel
        decreases s.len(),
    {
        if s.len() == 0 {
            self
        } else {
            self.fed_all(s.drop_last()).fed(s.last())
        }
    }

    /// What has been written once nothing follows.
    pub open spec fn finished(self) -> Seq<u8> {
        if self.pending {
            self.out.push(0x3c)
        } else {
            self.out
        }
    }
}

/// How the bytes are cut into pieces does not matter.
pub proof fn pieces_do_not_matter(m: EscapeModel, a: Seq<u8>, b: Seq<u8>)
    ensures
        m.fed_all(a).fed_all(b) == m.fed_all(a + b),
    decreases b.len(),
{
    if b.len() == 0 {
        assert(a + b =~= a);
    } else {
        pieces_do_not_matter(m, a, b.drop_last());
        assert((a + b).drop_last() =~= a + b.drop_last());
        assert((a + b).last() == b.last());
    }
}

proof fn lemma_fed_state(s: Seq<u8>)
    ensures
        EscapeModel::fresh().fed_all(s).pending <==> s.len() > 0 && s.last() == 0x3c,
        EscapeModel::fresh().fed_all(s).finished() == script_escaped(s),
    decreases s.len(),
{
    if s.len() > 0 {
        let init = s.drop_last();
        let m = EscapeModel::fresh().fed_all(init);
        lemma_fed_state(init);
        if init.len() > 0 {
            assert(init.last() == s[s.len() - 2]);
        }
        if m.pending && s.last() == 0x2f {
            assert(s.take(s.len() - 2) =~= init.drop_last());
            assert(script_escaped(init) == script_escaped(init.drop_last()).push(0x3c));
            assert(m.out.push(0x3c) == script_escaped(init.drop_last()).push(0x3c));
            assert(m.out =~= m.out.push(0x3c).drop_last());
            assert(script_escaped(init.drop_last()) =~= script_escaped(init.drop_last()).push(
                0x3c,
            ).drop_last());
        }
    }
}

/// What is written, in whatever pieces, is the escaped bytes.
pub proof fn writer_escapes(s: Seq<u8>)
    ensures
        EscapeModel::fresh().fed_all(s).finished() == script_escaped(s),
{
    lemma_fed_state(s);
}

/// Nothing that is escaped ends a script: no `<` stands before a `/`.
pub proof fn no_closing_tag(s: Seq<u8>, i: int)
    requires
        0 <= i < script_escaped(s).len() - 1,
    ensures
        !(script_escaped(s)[i] == 0x3c && script_escaped(s)[i + 1] == 0x2f),
    decreases s.len(),
{
    if s.len() >= 2 && s[s.len() - 2] == 0x3c && s.last() == 0x2f {
        let init = script_escaped(s.take(s.len() - 2));
        if i < init.len() - 1 {
            no_closing_tag(s.take(s.len() - 2), i);
        }
    } else {
        let init = script_escaped(s.drop_last());
        if i < init.len() - 1 {
            no_closing_tag(s.drop_last(), i);
        } else {
            lemma_last_lt(s.drop_last());
            if init.last() == 0x3c {
                assert(s.drop_last().last() == s[s.len() - 2]);
            }
        }
    }
}

proof fn lemma_last_lt(s: Seq<u8>)
    ensures
        s.len() > 0 <==> script_escaped(s).len() > 0,
        script_escaped(s).len() > 0 && script_escaped(s).last() == 0x3c ==> s.last() == 0x3c,
{
}

impl ScriptEscapeWriter {
    pub fn new() -> (r: ScriptEscapeWriter)
        ensures
            r@ == EscapeModel::fresh(),
    {
        let out: Vec<u8> = Vec::new();
        proof {
            assert(out@ =~= Seq::empty());
        }
        ScriptEscapeWriter { out, pending_lt: false }
    }

    /// Takes a piece.
    pub fn write(&mut self, buf: &[u8])
        ensures
            final(self)@ == old(self)@.fed_all(buf@),
    {
        let n: usize = buf.len();
        let mut i: usize = 0;
        let ghost start = self@;
        proof {
            assert(buf@.take(0).len() == 0);
        }
        while i < n
            invariant
                n == buf@.len(),
                i <= n,
                start == old(self)@,
                self@ == start.fed_all(buf@.take(i as int)),
            decreases n - i,
        {
            let ghost before = self@;
            let b = buf[i];
            proof {
                assert(buf@.take(i + 1).drop_last() =~= buf@.take(i as int));
                assert(buf@.take(i + 1).last() == b);
            }
            if self.pending_lt && b == 0x2f {
                self.out.push(0x3c);
                self.out.push(0x5c);
                self.out.push(0x2f);
                self.pending_lt = false;
                proof {
                    assert(self.out@ =~= before.out + seq![0x3cu8, 0x5cu8, 0x2fu8]);
                }
            } else {
                if self.pending_lt {
                    self.out.push(0x3c);
                }
                if b == 0x3c {
                    self.pending_lt = true;
                } else {
                    self.out.push(b);
                    self.pending_lt = false;
                }
            }
            i += 1;
        }
        proof {
            assert(buf@.take(n as int) =~= buf@);
        }
    }

    /// What has been written, now that nothing follows.
    pub fn finish(self) -> (r: Vec<u8>)
        ensures
            r@ == self@.finished(),
    {
        let mut out = self.out;
        if self.pending_lt {
            out.push(0x3c);
        }
        out
    }
}

// ---------------------------------------------------------------------------
// The page
// ---------------------------------------------------------------------------

/// A piece of the page.
#[derive(Debug)]
pub enum Segment {
    Literal(String),
    GeneratedAt,
    ReportData,
}

pub enum SegmentModel {
    Literal(Seq<char>),
    GeneratedAt,
    ReportData,
}

impl View for Segment {
    type V = SegmentModel;

    open spec fn view(&self) -> SegmentModel {
        match self {
            Segment::Literal(s) => SegmentModel::Literal(s@),
            Segment::GeneratedAt => SegmentModel::GeneratedAt,
            Segment::ReportData => SegmentModel::ReportData,
        }
    }
}

pub open spec fn segment_models(s: Seq<Segment>) -> Seq<SegmentModel> {
    Seq::new(s.len(), |i: int| s[i]@)
}

pub open spec fn literal(s: Seq<char>) -> Seq<SegmentModel> {
    if s.len() == 0 {
        Seq::empty()
    } else {
        seq![SegmentModel::Literal(s)]
    }
}

/// Where the marker first stands; the length of the text where it does not.
pub open spec fn place(s: Seq<char>, marker: Seq<char>) -> int {
    text::before_first(s, marker).len() as int
}

/// The pieces of a template: the markers, and what stands between them.
pub open spec fn segments(s: Seq<char>) -> Seq<SegmentModel>
    decreases s.len(),
{
    let g = place(s, GENERATED_AT_MARKER@);
    let d = place(s, REPORT_DATA_MARKER@);
    if s.len() == 0 {
        Seq::empty()
    } else if g >= s.len() && d >= s.len() {
        seq![SegmentModel::Literal(s)]
    } else if g < d {
        proof {
            lemma_place(s, GENERATED_AT_MARKER@);
            reveal_strlit("{{GENERATED_AT}}");
        }
        literal(s.take(g)) + seq![SegmentModel::GeneratedAt] + segments(
            s.skip(g + GENERATED_AT_MARKER@.len()),
        )
    } else {
        proof {
            lemma_place(s, REPORT_DATA_MARKER@);
            reveal_strlit("{{REPORT_DATA_JSON}}");
        }
        literal(s.take(d)) + seq![SegmentModel::ReportData] + segments(
            s.skip(d + REPORT_DATA_MARKER@.len()),
        )
    }
}

pub proof fn lemma_place(s: Seq<char>, marker: Seq<char>)
    ensures
        0 <= place(s, marker) <= s.len(),
        place(s, marker) < s.len() ==> text::contains(s, marker) && place(s, marker) + marker.len()
            <= s.len() && text::occurs_at(s, marker, place(s, marker)),
        text::before_first(s, marker) == s.take(place(s, marker)),
{
    if text::contains(s, marker) {
        text::lemma_before_first_shorter(s, marker);
        let i = choose|i: int| text::is_first_from(s, marker, 0, i);
        text::lemma_first(s, marker);
        text::lemma_before_first(s, marker, i);
    } else {
        assert(s.take(s.len() as int) =~= s);
    }
}

/// A piece of the template as it stood there.
pub open spec fn source_text(g: SegmentModel) -> Seq<char> {
    match g {
        SegmentModel::Literal(s) => s,
        SegmentModel::GeneratedAt => GENERATED_AT_MARKER@,
        SegmentModel::ReportData => REPORT_DATA_MARKER@,
    }
}

pub open spec fn rejoined(s: Seq<SegmentModel>) -> Seq<char>
    decreases s.len(),
{
    if s.len() == 0 {
        Seq::empty()
    } else {
        source_text(s[0]) + rejoined(s.skip(1))
    }
}

proof fn lemma_rejoin(a: Seq<SegmentModel>, b: Seq<SegmentModel>)
    ensures
        rejoined(a + b) == rejoined(a) + rejoined(b),
    decreases a.len(),
{
    if a.len() == 0 {
        assert(a + b =~= b);
        assert(rejoined(a) + rejoined(b) =~= rejoined(b));
    } else {
        lemma_rejoin(a.skip(1), b);
        assert((a + b).skip(1) =~= a.skip(1) + b);
        assert((a + b)[0] == a[0]);
        assert(rejoined(a + b) =~= rejoined(a) + rejoined(b));
    }
}

proof fn lemma_rejoin_one(g: SegmentModel)
    ensures
        rejoined(seq![g]) == source_text(g),
{
    assert(seq![g].skip(1).len() == 0);
    assert(rejoined(seq![g].skip(1)) == Seq::<char>::empty());
    assert(rejoined(seq![g]) =~= source_text(g));
}

/// The pieces put back together are the template.
pub proof fn splitting_loses_nothing(s: Seq<char>)
    ensures
        rejoined(segments(s)) == s,
    decreases s.len(),
{
    let g = place(s, GENERATED_AT_MARKER@);
    let d = place(s, REPORT_DATA_MARKER@);
    lemma_place(s, GENERATED_AT_MARKER@);
    lemma_place(s, REPORT_DATA_MARKER@);
    reveal_strlit("{{GENERATED_AT}}");
    reveal_strlit("{{REPORT_DATA_JSON}}");
    if s.len() == 0 {
        assert(rejoined(segments(s)) =~= s);
    } else if g >= s.len() && d >= s.len() {
        lemma_rejoin_one(SegmentModel::Literal(s));
    } else {
        let (at, marker, seg) = if g < d {
            (g, GENERATED_AT_MARKER@, SegmentModel::GeneratedAt)
        } else {
            (d, REPORT_DATA_MARKER@, SegmentModel::ReportData)
        };
        let rest = s.skip(at + marker.len());
        splitting_loses_nothing(rest);
        lemma_rejoin_one(seg);
        let head = literal(s.take(at));
        if at > 0 {
            lemma_rejoin_one(SegmentModel::Literal(s.take(at)));
        }
        lemma_rejoin(head, seq![seg]);
        lemma_rejoin(head + seq![seg], segments(rest));
        assert(rejoined(head) =~= s.take(at));
        assert(s.subrange(at, at + marker.len()) == marker);
        assert(s.take(at) + marker + rest =~= s);
    }
}

/// The pieces of a template.
pub fn split_template(template: &str) -> (r: Vec<Segment>)
    ensures
        segment_models(r@) == segments(template@),
{
    let ghost goal = segments(template@);
    let mut out: Vec<Segment> = Vec::new();
    let mut rest = text::copy_text(template);
    proof {
        assert(segment_models(out@) =~= Seq::empty());
        assert(segment_models(out@) + segments(rest@) =~= goal);
        reveal_strlit("{{GENERATED_AT}}");
        reveal_strlit("{{REPORT_DATA_JSON}}");
    }
    loop
        invariant
            goal == segments(template@),
            segment_models(out@) + segments(rest@) == goal,
            GENERATED_AT_MARKER@.len() > 0,
            REPORT_DATA_MARKER@.len() > 0,
        decreases rest@.len(),
    {
        let ghost before = segment_models(out@);
        let chars = text::to_chars(rest.as_str());
        let n: usize = chars.len();
        if n == 0 {
            proof {
                assert(before + segments(rest@) =~= before);
            }
            return out;
        }
        let head_g = text::head_before_first(rest.as_str(), GENERATED_AT_MARKER);
        let head_d = text::head_before_first(rest.as_str(), REPORT_DATA_MARKER);
        let mark_g = text::to_chars(GENERATED_AT_MARKER);
        let mark_d = text::to_chars(REPORT_DATA_MARKER);
        let g: usize = text::to_chars(head_g.as_str()).len();
        let d: usize = text::to_chars(head_d.as_str()).len();
        proof {
            lemma_place(rest@, GENERATED_AT_MARKER@);
            lemma_place(rest@, REPORT_DATA_MARKER@);
        }
        if g >= n && d >= n {
            out.push(Segment::Literal(rest));
            proof {
                assert(segment_models(out@) =~= before + seq![SegmentModel::Literal(rest@)]);
            }
            return out;
        }
        let ghost here = rest@;
        let by_time = g < d;
        let skip: usize = if by_time {
            g + mark_g.len()
        } else {
            d + mark_d.len()
        };
        let head = if by_time {
            head_g
        } else {
            head_d
        };
        let ghost lead = literal(head@);
        if text::to_chars(head.as_str()).len() > 0 {
            out.push(Segment::Literal(head));
        }
        proof {
            assert(segment_models(out@) =~= before + lead);
        }
        if by_time {
            out.push(Segment::GeneratedAt);
            proof {
                assert(segment_models(out@) =~= before + lead + seq![SegmentModel::GeneratedAt]);
            }
        } else {
            out.push(Segment::ReportData);
            proof {
                assert(segment_models(out@) =~= before + lead + seq![SegmentModel::ReportData]);
            }
        }
        let tail = vstd::slice::slice_subrange(chars.as_slice(), skip, n);
        rest = text::to_text(tail);
        proof {
            assert(rest@ =~= here.skip(skip as int));
            assert(segment_models(out@) + segments(rest@) =~= before + segments(here));
        }
    }
}

/// The bytes of a piece of the page.
pub open spec fn segment_bytes(g: SegmentModel, now: Seq<char>, data: Seq<u8>) -> Seq<u8> {
    match g {
        SegmentModel::Literal(s) => vstd::utf8::encode_utf8(s),
        SegmentModel::GeneratedAt => vstd::utf8::encode_utf8(escaped(now)),
        SegmentModel::ReportData => script_escaped(data),
    }
}

/// The bytes of the page.
pub open spec fn page_bytes(s: Seq<SegmentModel>, now: Seq<char>, data: Seq<u8>) -> Seq<u8>
    decreases s.len(),
{
    if s.len() == 0 {
        Seq::empty()
    } else {
        page_bytes(s.drop_last(), now, data) + segment_bytes(s.last(), now, data)
    }
}

fn push_bytes(out: &mut Vec<u8>, bytes: &[u8])
    ensures
        final(out)@ == old(out)@ + bytes@,
{
    let ghost before = out@;
    out.extend_from_slice(bytes);
    proof {
        assert(out@ =~= before + bytes@);
    }
}

// ---------------------------------------------------------------------------
// The reports
// ---------------------------------------------------------------------------

/// A cell, with messages in words.
pub open spec fn value_html(catalog: Seq<(Seq<char>, Seq<char>)>, v: ValueModel) -> JsonModel
    decreases v, 0nat,
{
    match v {
        ValueModel::Message(m) => JsonModel::Text(i18n::translated(catalog, m)),
        ValueModel::List(items) => JsonModel::Array(values_html(catalog, items, items.len())),
        _ => json::value_json(v),
    }
}

/// The first `n` cells, with messages in words.
pub open spec fn values_html(
    catalog: Seq<(Seq<char>, Seq<char>)>,
    items: Seq<ValueModel>,
    n: nat,
) -> Seq<JsonModel>
    decreases items, n,
{
    if n == 0 || n > items.len() {
        Seq::empty()
    } else {
        values_html(catalog, items, (n - 1) as nat).push(value_html(catalog, items[n - 1]))
    }
}

pub open spec fn entry_html(catalog: Seq<(Seq<char>, Seq<char>)>, e: EntryModel) -> JsonModel {
    let keys = cells::listing(e.values);
    JsonModel::Object(
        seq![
            ("key"@, JsonModel::Text(e.key)),
            (
                "values"@,
                JsonModel::Object(
                    Seq::new(
                        keys.len(),
                        |i: int| (keys[i], value_html(catalog, e.values[keys[i]])),
                    ),
                ),
            ),
        ],
    )
}

pub open spec fn entries_html(catalog: Seq<(Seq<char>, Seq<char>)>, s: Seq<EntryModel>) ->
    JsonModel {
    JsonModel::Array(Seq::new(s.len(), |i: int| entry_html(catalog, s[i])))
}

pub open spec fn group_html(catalog: Seq<(Seq<char>, Seq<char>)>, g: GroupModel) -> JsonModel {
    JsonModel::Object(
        seq![
            ("name"@, JsonModel::Text(g.name)),
            ("label"@, JsonModel::Text(i18n::translated_code(catalog, g.label))),
            ("entries"@, entries_html(catalog, g.entries)),
        ],
    )
}

/// A report, in words.
pub open spec fn report_html(catalog: Seq<(Seq<char>, Seq<char>)>, r: ResultModel) -> JsonModel {
    JsonModel::Object(
        seq![
            ("name"@, JsonModel::Text(r.name)),
            ("display_name"@, JsonModel::Text(i18n::translated(catalog, r.display_name))),
            ("description"@, JsonModel::Text(i18n::translated(catalog, r.description))),
            (
                "columns"@,
                JsonModel::Array(
                    Seq::new(r.columns.len(), |i: int| JsonModel::Text(r.columns[i].value)),
                ),
            ),
            (
                "column_labels"@,
                JsonModel::Array(
                    Seq::new(
                        r.columns.len(),
                        |i: int| JsonModel::Text(i18n::translated(catalog, r.columns[i].label)),
                    ),
                ),
            ),
            if r.groups.len() == 0 {
                ("entries"@, entries_html(catalog, r.entries))
            } else {
                (
                    "entry_groups"@,
                    JsonModel::Array(
                        Seq::new(r.groups.len(), |i: int| group_html(catalog, r.groups[i])),
                    ),
                )
            },
        ],
    )
}

pub open spec fn reports_html(
    catalog: Seq<(Seq<char>, Seq<char>)>,
    results: Seq<ResultModel>,
) -> JsonModel {
    JsonModel::Array(Seq::new(results.len(), |i: int| report_html(catalog, results[i])))
}

fn translate_metric_value(v: &MetricValue, catalog: &Catalog) -> (r: Json)
    requires
        table::ascending(catalog@),
    ensures
        r@ == value_html(catalog@, v@),
    decreases v,
{
    match v {
        MetricValue::Message(m) => Json::Text(catalog.translate(m)),
        MetricValue::List(items) => {
            let ghost models = v@->List_0;
            let mut out: Vec<Json> = Vec::new();
            let n: usize = items.len();
            let mut i: usize = 0;
            let ghost mut done: Seq<JsonModel> = Seq::empty();
            while i < n
                invariant
                    table::ascending(catalog@),
                    n == items@.len(),
                    *v == MetricValue::List(*items),
                    models == v@->List_0,
                    models.len() == n,
                    i <= n,
                    out@.len() == i,
                    done == values_html(catalog@, models, i as nat),
                    done.len() == i,
                    forall|k: int| 0 <= k < i ==> (#[trigger] out@[k])@ == done[k],
                decreases n - i,
            {
                proof {
                    assert(decreases_to!(*v => v->List_0));
                    assert(decreases_to!(*items => items@));
                    assert(decreases_to!(items@ => items@[i as int]));
                    assert(models[i as int] == items@[i as int]@);
                }
                out.push(translate_metric_value(&items[i], catalog));
                proof {
                    done = done.push(value_html(catalog@, models[i as int]));
                }
                i += 1;
            }
            let r = json_array(out);
            proof {
                assert(r@->Array_0 =~= done);
            }
            r
        },
        _ => metric_value_to_json(v),
    }
}

fn build_entry(e: &MetricEntry, catalog: &Catalog) -> (r: Json)
    requires
        table::ascending(catalog@),
    ensures
        r@ == entry_html(catalog@, e@),
{
    let keys = keys_of(&e.values);
    let ghost listing = cells::listing(e@.values);
    let ghost want = Seq::new(
        listing.len(),
        |i: int| (listing[i], value_html(catalog@, e@.values[listing[i]])),
    );
    let mut values: Vec<(String, Json)> = Vec::new();
    let n: usize = keys.len();
    proof {
        assert(keys@.len() == text::views(keys@).len());
    }
    let mut i: usize = 0;
    while i < n
        invariant
            table::ascending(catalog@),
            n == keys@.len(),
            text::views(keys@) == listing,
            cells::is_listing(text::views(keys@), e@.values),
            want == Seq::new(
                listing.len(),
                |i: int| (listing[i], value_html(catalog@, e@.values[listing[i]])),
            ),
            want.len() == n,
            i <= n,
            values@.len() == i,
            forall|k: int| 0 <= k < i ==> ((#[trigger] values@[k]).0@, values@[k].1@) == want[k],
        decreases n - i,
    {
        proof {
            assert(text::views(keys@)[i as int] == keys@[i as int]@);
            assert(text::views(keys@).contains(keys@[i as int]@));
        }
        if let Some(v) = e.values.get(keys[i].as_str()) {
            values.push(field(keys[i].as_str(), translate_metric_value(v, catalog)));
        }
        i += 1;
    }
    let listed = json_object(values);
    proof {
        assert(listed@->Object_0 =~= want);
    }
    let mut fields: Vec<(String, Json)> = Vec::new();
    fields.push(field("key", json_text(e.key.as_str())));
    fields.push(field("values", listed));
    let r = json_object(fields);
    proof {
        assert(r@->Object_0 =~= entry_html(catalog@, e@)->Object_0);
    }
    r
}

fn build_entries(entries: &[MetricEntry], catalog: &Catalog) -> (r: Json)
    requires
        table::ascending(catalog@),
    ensures
        r@ == entries_html(catalog@, types::entry_models(entries@)),
{
    let ghost models = types::entry_models(entries@);
    let mut out: Vec<Json> = Vec::new();
    let n: usize = entries.len();
    let mut i: usize = 0;
    while i < n
        invariant
            table::ascending(catalog@),
            n == entries@.len(),
            models == types::entry_models(entries@),
            i <= n,
            out@.len() == i,
            forall|k: int| 0 <= k < i ==> (#[trigger] out@[k])@ == entry_html(catalog@, models[k]),
        decreases n - i,
    {
        out.push(build_entry(&entries[i], catalog));
        i += 1;
    }
    let r = json_array(out);
    proof {
        assert(r@->Array_0 =~= entries_html(catalog@, models)->Array_0);
    }
    r
}

fn build_group(g: &EntryGroup, catalog: &Catalog) -> (r: Json)
    requires
        table::ascending(catalog@),
    ensures
        r@ == group_html(catalog@, g@),
{
    let label = catalog.translate_code(g.label.as_str());
    let mut fields: Vec<(String, Json)> = Vec::new();
    fields.push(field("name", json_text(g.name.as_str())));
    fields.push(field("label", Json::Text(label)));
    fields.push(field("entries", build_entries(&g.entries, catalog)));
    let r = json_object(fields);
    proof {
        assert(r@->Object_0 =~= group_html(catalog@, g@)->Object_0);
    }
    r
}

fn build_one_report(result: &MetricResult, catalog: &Catalog) -> (r: Json)
    requires
        table::ascending(catalog@),
    ensures
        r@ == report_html(catalog@, result@),
{
    let ghost want = report_html(catalog@, result@)->Object_0;
    let mut values: Vec<Json> = Vec::new();
    let mut labels: Vec<Json> = Vec::new();
    let n: usize = result.columns.len();
    let mut i: usize = 0;
    while i < n
        invariant
            table::ascending(catalog@),
            n == result.columns@.len(),
            i <= n,
            values@.len() == i,
            labels@.len() == i,
            forall|k: int|
                0 <= k < i ==> (#[trigger] values@[k])@ == JsonModel::Text(
                    result@.columns[k].value,
                ),
            forall|k: int|
                0 <= k < i ==> (#[trigger] labels@[k])@ == JsonModel::Text(
                    i18n::translated(catalog@, result@.columns[k].label),
                ),
        decreases n - i,
    {
        values.push(json_text(result.columns[i].value.as_str()));
        labels.push(Json::Text(catalog.translate(&result.columns[i].label)));
        i += 1;
    }
    let columns = json_array(values);
    let column_labels = json_array(labels);
    proof {
        assert(columns@->Array_0 =~= want[3].1->Array_0);
        assert(column_labels@->Array_0 =~= want[4].1->Array_0);
    }
    let mut fields: Vec<(String, Json)> = Vec::new();
    fields.push(field("name", json_text(result.name.as_str())));
    fields.push(field("display_name", Json::Text(catalog.translate(&result.display_name))));
    fields.push(field("description", Json::Text(catalog.translate(&result.description))));
    fields.push(field("columns", columns));
    fields.push(field("column_labels", column_labels));
    let g: usize = result.entry_groups.len();
    if g == 0 {
        fields.push(field("entries", build_entries(&result.entries, catalog)));
    } else {
        let mut groups: Vec<Json> = Vec::new();
        let mut j: usize = 0;
        while j < g
            invariant
                table::ascending(catalog@),
                g == result.entry_groups@.len(),
                j <= g,
                groups@.len() == j,
                forall|k: int|
                    0 <= k < j ==> (#[trigger] groups@[k])@ == group_html(
                        catalog@,
                        result@.groups[k],
                    ),
            decreases g - j,
        {
            groups.push(build_group(&result.entry_groups[j], catalog));
            j += 1;
        }
        let listed = json_array(groups);
        proof {
            assert(listed@->Array_0 =~= want[5].1->Array_0);
        }
        fields.push(field("entry_groups", listed));
    }
    let r = json_object(fields);
    proof {
        assert(r@->Object_0 =~= want);
    }
    r
}

impl HtmlWriter {
    /// The reports in words, for the script of the page.
    pub fn build_report_json(results: &[MetricResult], catalog: &Catalog) -> (r: Json)
        requires
            table::ascending(catalog@),
        ensures
            r@ == reports_html(catalog@, json::result_models(results@)),
    {
        let ghost models = json::result_models(results@);
        let mut out: Vec<Json> = Vec::new();
        let n: usize = results.len();
        let mut i: usize = 0;
        while i < n
            invariant
                table::ascending(catalog@),
                n == results@.len(),
                models == json::result_models(results@),
                i <= n,
                out@.len() == i,
                forall|k: int|
                    0 <= k < i ==> (#[trigger] out@[k])@ == report_html(catalog@, models[k]),
            decreases n - i,
        {
            out.push(build_one_report(&results[i], catalog));
            i += 1;
        }
        let r = json_array(out);
        proof {
            assert(r@->Array_0 =~= reports_html(catalog@, models)->Array_0);
        }
        r
    }

    /// The page: the template with the time and the reports, given as bytes of
    /// JSON, in place of the markers.
    pub fn render(template: &str, now: &str, data: &[u8]) -> (r: Vec<u8>)
        ensures
            r@ == page_bytes(segments(template@), now@, data@),
    {
        let pieces = split_template(template);
        let ghost all = segment_models(pieces@);
        let time = escape_html(now);
        let mut writer = ScriptEscapeWriter::new();
        writer.write(data);
        let script = writer.finish();
        proof {
            writer_escapes(data@);
        }
        let mut out: Vec<u8> = Vec::new();
        let n: usize = pieces.len();
        let mut i: usize = 0;
        proof {
            assert(all.take(0).len() == 0);
            assert(out@ =~= Seq::empty());
        }
        while i < n
            invariant
                n == pieces@.len(),
                all == segment_models(pieces@),
                time@ == escaped(now@),
                script@ == script_escaped(data@),
                i <= n,
                out@ == page_bytes(all.take(i as int), now@, data@),
            decreases n - i,
        {
            proof {
                assert(all.take(i + 1).drop_last() =~= all.take(i as int));
                assert(all.take(i + 1).last() == pieces@[i as int]@);
            }
            match &pieces[i] {
                Segment::Literal(s) => push_bytes(&mut out, s.as_str().as_bytes()),
                Segment::GeneratedAt => push_bytes(&mut out, time.as_str().as_bytes()),
                Segment::ReportData => push_bytes(&mut out, &script),
            }
            i += 1;
        }
        proof {
            assert(all.take(n as int) =~= all);
        }
        out
    }
}

/// Each character is escaped on its own: these five give way, and no other does.
pub proof fn characters_are_escaped_alone(s: Seq<char>, c: char)
    ensures
        escaped(s.push(c)) == escaped(s) + escaped(seq![c]),
        escaped(seq!['&']) == "&amp;"@,
        escaped(seq!['<']) == "&lt;"@,
        escaped(seq!['>']) == "&gt;"@,
        escaped(seq!['"']) == "&quot;"@,
        escaped(seq!['\'']) == "&#x27;"@,
        c != '&' && c != '<' && c != '>' && c != '"' && c != '\'' ==> escaped(seq![c]) == seq![c],
{
    assert(s.push(c).drop_last() =~= s);
    lemma_escaped_one(c);
    lemma_escaped_one('&');
    lemma_escaped_one('<');
    lemma_escaped_one('>');
    lemma_escaped_one('"');
    lemma_escaped_one('\'');
}

proof fn lemma_escaped_one(c: char)
    ensures
        escaped(seq![c]) == escaped_char(c),
{
    assert(seq![c].drop_last() =~= Seq::<char>::empty());
    assert(seq![c].last() == c);
    reveal_with_fuel(escaped, 2);
    assert(Seq::<char>::empty() + escaped_char(c) =~= escaped_char(c));
}

/// Bytes in which nothing closes a tag are written as they are.
pub proof fn other_bytes_are_kept(s: Seq<u8>)
    requires
        forall|i: int| 0 <= i < s.len() - 1 ==> !(#[trigger] s[i] == 0x3c && s[i + 1] == 0x2f),
    ensures
        script_escaped(s) == s,
    decreases s.len(),
{
    if s.len() > 0 {
        let front = s.drop_last();
        assert forall|i: int| 0 <= i < front.len() - 1 implies !(#[trigger] front[i] == 0x3c
            && front[i + 1] == 0x2f) by {
            assert(front[i] == s[i] && front[i + 1] == s[i + 1]);
        }
        other_bytes_are_kept(front);
        if s.len() >= 2 {
            assert(!(s[s.len() - 2] == 0x3c && s[s.len() - 2 + 1] == 0x2f));
        }
        assert(front.push(s.last()) =~= s);
    }
}

/// What closes a tag gets a backslash between its two bytes, and what stands
/// before it is escaped on its own.
pub proof fn closing_tags_are_broken(s: Seq<u8>)
    ensures
        script_escaped(s + seq![0x3cu8, 0x2fu8]) == script_escaped(s) + seq![
            0x3cu8,
            0x5cu8,
            0x2fu8,
        ],
{
    let t = s + seq![0x3cu8, 0x2fu8];
    assert(t.take(t.len() - 2) =~= s);
}

/// A page is its pieces one after the other: text as it is, the time escaped for
/// the page and the data for a script.
pub proof fn pages_are_their_pieces(
    s: Seq<SegmentModel>,
    t: Seq<char>,
    now: Seq<char>,
    data: Seq<u8>,
)
    ensures
        page_bytes(s.push(SegmentModel::Literal(t)), now, data) == page_bytes(s, now, data)
            + vstd::utf8::encode_utf8(t),
        page_bytes(s.push(SegmentModel::GeneratedAt), now, data) == page_bytes(s, now, data)
            + vstd::utf8::encode_utf8(escaped(now)),
        page_bytes(s.push(SegmentModel::ReportData), now, data) == page_bytes(s, now, data)
            + script_escaped(data),
        page_bytes(Seq::empty(), now, data).len() == 0,
{
    assert(s.push(SegmentModel::Literal(t)).drop_last() =~= s);
    assert(s.push(SegmentModel::GeneratedAt).drop_last() =~= s);
    assert(s.push(SegmentModel::ReportData).drop_last() =~= s);
}

/// In a page messages are in words, in lists too; other cells are told as they
/// are.
pub proof fn page_cells_are_in_words(catalog: Seq<(Seq<char>, Seq<char>)>, m: types::MessageModel, items: Seq<ValueModel>, v: ValueModel)
    ensures
        value_html(catalog, ValueModel::Message(m)) == JsonModel::Text(
            i18n::translated(catalog, m),
        ),
        value_html(catalog, ValueModel::List(items)) == JsonModel::Array(
            values_html(catalog, items, items.len()),
        ),
        !(v is Message) && !(v is List) ==> value_html(catalog, v) == json::value_json(v),
{
}

/// The items of a list stand in a page in their order.
pub proof fn page_lists_keep_order(catalog: Seq<(Seq<char>, Seq<char>)>, items: Seq<ValueModel>, n: nat)
    requires
        n <= items.len(),
    ensures
        values_html(catalog, items, n).len() == n,
        forall|k: int|
            0 <= k < n ==> #[trigger] values_html(catalog, items, n)[k] == value_html(
                catalog,
                items[k],
            ),
    decreases n,
{
    if n > 0 {
        page_lists_keep_order(catalog, items, (n - 1) as nat);
        assert forall|k: int| 0 <= k < n implies #[trigger] values_html(catalog, items, n)[k]
            == value_html(catalog, items[k]) by {
            if k < n - 1 {
                assert(values_html(catalog, items, n)[k] == values_html(
                    catalog,
                    items,
                    (n - 1) as nat,
                )[k]);
            }
        }
    }
}

/// A page holds each report with its name, its words, its columns and all of its
/// rows or groups.
pub proof fn pages_hold_all_reports(catalog: Seq<(Seq<char>, Seq<char>)>, results: Seq<ResultModel>, i: int)
    requires
        0 <= i < results.len(),
    ensures
        ({
            let r = results[i];
            let all = reports_html(catalog, results)->Array_0;
            let f = all[i]->Object_0;
            &&& all.len() == results.len()
            &&& f.len() == 6
            &&& f[0] == ("name"@, JsonModel::Text(r.name))
            &&& f[1] == ("display_name"@, JsonModel::Text(i18n::translated(catalog, r.display_name)))
            &&& f[2] == ("description"@, JsonModel::Text(i18n::translated(catalog, r.description)))
            &&& f[3].0 == "columns"@
            &&& f[4].0 == "column_labels"@
            &&& f[3].1->Array_0.len() == r.columns.len()
            &&& f[4].1->Array_0.len() == r.columns.len()
            &&& forall|c: int|
                0 <= c < r.columns.len() ==> #[trigger] f[3].1->Array_0[c] == JsonModel::Text(
                    r.columns[c].value,
                )
            &&& forall|c: int|
                0 <= c < r.columns.len() ==> #[trigger] f[4].1->Array_0[c] == JsonModel::Text(
                    i18n::translated(catalog, r.columns[c].label),
                )
            &&& r.groups.len() == 0 ==> f[5].0 == "entries"@ && f[5].1->Array_0.len()
                == r.entries.len() && forall|k: int|
                0 <= k < r.entries.len() ==> #[trigger] f[5].1->Array_0[k] == entry_html(
                    catalog,
                    r.entries[k],
                )
            &&& r.groups.len() > 0 ==> f[5].0 == "entry_groups"@ && f[5].1->Array_0.len()
                == r.groups.len() && forall|k: int|
                0 <= k < r.groups.len() ==> #[trigger] f[5].1->Array_0[k] == group_html(
                    catalog,
                    r.groups[k],
                )
        }),
{
}

/// A row of a page has its name and its cells by key, a group its name, its label
/// in words and its rows.
pub proof fn page_rows_hold_their_cells(catalog: Seq<(Seq<char>, Seq<char>)>, e: EntryModel, g: GroupModel, i: int)
    ensures
        ({
            let keys = cells::listing(e.values);
            let f = entry_html(catalog, e)->Object_0;
            &&& f.len() == 2
            &&& f[0] == ("key"@, JsonModel::Text(e.key))
            &&& f[1].0 == "values"@
            &&& f[1].1->Object_0.len() == keys.len()
            &&& 0 <= i < keys.len() ==> f[1].1->Object_0[i] == (
                keys[i],
                value_html(catalog, e.values[keys[i]]),
            )
        }),
        ({
            let f = group_html(catalog, g)->Object_0;
            &&& f.len() == 3
            &&& f[0] == ("name"@, JsonModel::Text(g.name))
            &&& f[1] == ("label"@, JsonModel::Text(i18n::translated_code(catalog, g.label)))
            &&& f[2].0 == "entries"@
            &&& f[2].1->Array_0.len() == g.entries.len()
            &&& 0 <= i < g.entries.len() ==> f[2].1->Array_0[i] == entry_html(catalog, g.entries[i])
        }),
{
}

/// A template without markers is one piece.
pub proof fn plain_templates_are_one_piece(s: Seq<char>)
    requires
        s.len() > 0,
        !text::contains(s, "{{GENERATED_AT}}"@),
        !text::contains(s, "{{REPORT_DATA_JSON}}"@),
    ensures
        segments(s) == seq![SegmentModel::Literal(s)],
{
}

/// The first marker of a template splits it: what stands before is text, and what
/// stands behind is split on its own.
pub proof fn the_first_marker_splits(a: Seq<char>, b: Seq<char>)
    ensures
        ({
            let s = a + "{{GENERATED_AT}}"@ + b;
            text::is_first_from(s, "{{GENERATED_AT}}"@, 0, a.len() as int) && place(
                s,
                "{{REPORT_DATA_JSON}}"@,
            ) > a.len() ==> segments(s) == literal(a) + seq![SegmentModel::GeneratedAt] + segments(b)
        }),
        ({
            let s = a + "{{REPORT_DATA_JSON}}"@ + b;
            text::is_first_from(s, "{{REPORT_DATA_JSON}}"@, 0, a.len() as int) && place(
                s,
                "{{GENERATED_AT}}"@,
            ) > a.len() ==> segments(s) == literal(a) + seq![SegmentModel::ReportData] + segments(b)
        }),
{
    reveal_strlit("{{GENERATED_AT}}");
    reveal_strlit("{{REPORT_DATA_JSON}}");
    let g = "{{GENERATED_AT}}"@;
    let d = "{{REPORT_DATA_JSON}}"@;
    let s = a + g + b;
    if text::is_first_from(s, g, 0, a.len() as int) {
        text::lemma_before_first(s, g, a.len() as int);
        assert(s.take(a.len() as int) =~= a);
        assert(s.skip(a.len() as int + g.len()) =~= b);
    }
    let t = a + d + b;
    if text::is_first_from(t, d, 0, a.len() as int) {
        text::lemma_before_first(t, d, a.len() as int);
        assert(t.take(a.len() as int) =~= a);
        assert(t.skip(a.len() as int + d.len()) =~= b);
    }
}

} // verus!
