//! Messages in words.
//!
//! A catalog maps message codes to templates. A template may hold placeholders
//! such as `{{name}}`, each of which gives way to the message's parameter of
//! that name. A message whose code is not in the catalog shows as its code.

use vstd::prelude::*;

use crate::english::EN_JSON;
use crate::table;
use crate::table::TextMap;
use crate::text;
use crate::types::{LocalizedMessage, MessageModel, ParamModel, ParamValue};

verus! {

/// The pairs that `serde_json::from_str` reads from a text that is an object of
/// texts, ordered by key; none where the text is no such object.
pub uninterp spec fn json_texts(raw: Seq<char>) -> Option<Seq<(Seq<char>, Seq<char>)>>;

pub open spec fn pair_models(s: Seq<(String, String)>) -> Seq<(Seq<char>, Seq<char>)> {
    Seq::new(s.len(), |i: int| (s[i].0@, s[i].1@))
}

/// `serde_json::from_str` into an ordered map of texts: what it reads depends on
/// the text alone.
#[verifier::external_body]
fn read_texts(raw: &str) -> (r: Option<Vec<(String, String)>>)
    ensures
        match r {
            Some(v) => json_texts(raw@) == Some(pair_models(v@)),
            None => json_texts(raw@) is None,
        },
{
    let read: Result<std::collections::BTreeMap<String, String>, _> = serde_json::from_str(raw);
    read.ok().map(|m| m.into_iter().collect())
}

/// The templates of one language, by message code.
#[derive(Debug)]
pub struct Catalog {
    pub entries: TextMap<String>,
}

impl View for Catalog {
    type V = Seq<(Seq<char>, Seq<char>)>;

    open spec fn view(&self) -> Seq<(Seq<char>, Seq<char>)> {
        self.entries@
    }
}

/// The catalog that holds the pairs; of two with one code, the later.
pub open spec fn catalog_of(pairs: Seq<(Seq<char>, Seq<char>)>) -> Seq<(Seq<char>, Seq<char>)>
    decreases pairs.len(),
{
    if pairs.len() == 0 {
        Seq::empty()
    } else {
        table::put(catalog_of(pairs.drop_last()), pairs.last().0, pairs.last().1)
    }
}

/// The catalog that a text holds; an empty one where it holds none.
pub open spec fn catalog_in(raw: Seq<char>) -> Seq<(Seq<char>, Seq<char>)> {
    match json_texts(raw) {
        Some(pairs) => catalog_of(pairs),
        None => Seq::empty(),
    }
}

/// What a parameter shows as.
pub open spec fn rendered(p: ParamModel) -> Seq<char> {
    match p {
        ParamModel::Null => Seq::empty(),
        ParamModel::Bool(b) => if b {
            "true"@
        } else {
            "false"@
        },
        ParamModel::Number(n) => text::decimal_int(n),
        ParamModel::Text(s) => s,
    }
}

pub open spec fn placeholder(name: Seq<char>) -> Seq<char> {
    "{{"@ + name + "}}"@
}

/// The template with the placeholders of the parameters filled in, one
/// parameter after the other.
pub open spec fn filled(template: Seq<char>, params: Seq<(Seq<char>, ParamModel)>) -> Seq<char>
    decreases params.len(),
{
    if params.len() == 0 {
        template
    } else {
        text::replace(
            filled(template, params.drop_last()),
            placeholder(params.last().0),
            rendered(params.last().1),
        )
    }
}

/// A message in words.
pub open spec fn translated(catalog: Seq<(Seq<char>, Seq<char>)>, m: MessageModel) -> Seq<char> {
    match table::lookup(catalog, m.code) {
        Some(template) => filled(template, m.params),
        None => m.code,
    }
}

/// A code in words.
pub open spec fn translated_code(catalog: Seq<(Seq<char>, Seq<char>)>, code: Seq<char>) -> Seq<
    char,
> {
    match table::lookup(catalog, code) {
        Some(template) => template,
        None => code,
    }
}

fn render_param(value: &ParamValue) -> (r: String)
    ensures
        r@ == rendered(value@),
{
    match value {
        ParamValue::Null => {
            let empty = String::new();
            proof {
                assert(empty@ =~= Seq::empty());
            }
            empty
        },
        ParamValue::Bool(b) => if *b {
            text::copy_text("true")
        } else {
            text::copy_text("false")
        },
        ParamValue::Unsigned(n) => text::decimal_text(*n),
        ParamValue::Signed(n) => text::decimal_signed(*n),
        ParamValue::Text(s) => text::copy_text(s.as_str()),
    }
}

impl Catalog {
    /// The catalog of a language. English is the one there is, and stands in
    /// for every other.
    pub fn load(locale: &str) -> (r: Catalog)
        ensures
            r@ == catalog_in(EN_JSON@),
            table::ascending(r@),
    {
        Catalog::read(EN_JSON)
    }

    /// The catalog that a text holds; an empty one where it holds none.
    pub fn read(raw: &str) -> (r: Catalog)
        ensures
            r@ == catalog_in(raw@),
            table::ascending(r@),
    {
        match read_texts(raw) {
            Some(pairs) => Catalog::of_pairs(pairs),
            None => Catalog { entries: TextMap::new() },
        }
    }

    /// The catalog that holds the pairs.
    pub fn of_pairs(pairs: Vec<(String, String)>) -> (r: Catalog)
        ensures
            r@ == catalog_of(pair_models(pairs@)),
            table::ascending(r@),
    {
        let ghost all = pair_models(pairs@);
        let mut entries: TextMap<String> = TextMap::new();
        proof {
            assert(all.take(0).len() == 0);
        }
        for pair in it: pairs
            invariant
                it.seq() == pairs@,
                all == pair_models(pairs@),
                table::ascending(entries@),
                entries@ == catalog_of(all.take(it.index() as int)),
        {
            let ghost i = it.index() as int;
            let ghost before = entries@;
            proof {
                assert(all.take(i + 1).drop_last() =~= all.take(i));
                assert(all.take(i + 1).last() == (pair.0@, pair.1@));
                table::put_ascends(before, pair.0@, pair.1@);
            }
            entries.insert(pair.0, pair.1);
        }
        proof {
            assert(all.take(pairs@.len() as int) =~= all);
        }
        Catalog { entries }
    }

    /// The message in words.
    pub fn translate(&self, msg: &LocalizedMessage) -> (r: String)
        requires
            table::ascending(self@),
        ensures
            r@ == translated(self@, msg@),
    {
        let mut out = match self.entries.get(msg.code.as_str()) {
            Some(s) => text::copy_text(s.as_str()),
            None => {
                return text::copy_text(msg.code.as_str());
            },
        };
        let ghost template = out@;
        let ghost params = msg@.params;
        let n: usize = msg.params.len();
        let mut i: usize = 0;
        proof {
            assert(params.take(0).len() == 0);
        }
        while i < n
            invariant
                n == msg.params@.len(),
                params == msg@.params,
                i <= n,
                out@ == filled(template, params.take(i as int)),
            decreases n - i,
        {
            proof {
                assert(params.take(i + 1).drop_last() =~= params.take(i as int));
                assert(params.take(i + 1).last() == (msg.params@[i as int].0@, msg.params@[i as int].1@));
            }
            let mark = text::cat3("{{", msg.params[i].0.as_str(), "}}");
            let shown = render_param(&msg.params[i].1);
            out = text::replaced(out.as_str(), mark.as_str(), shown.as_str());
            i += 1;
        }
        proof {
            assert(params.take(n as int) =~= params);
        }
        out
    }

    /// The code in words.
    pub fn translate_code(&self, code: &str) -> (r: String)
        requires
            table::ascending(self@),
        ensures
            r@ == translated_code(self@, code@),
    {
        match self.entries.get(code) {
            Some(s) => text::copy_text(s.as_str()),
            None => text::copy_text(code),
        }
    }
}

/// What is not in the catalog shows as its code, and what has no parameters as
/// its template.
pub proof fn codes_show_through(catalog: Seq<(Seq<char>, Seq<char>)>, m: MessageModel)
    ensures
        table::lookup(catalog, m.code) is None ==> translated(catalog, m) == m.code,
        m.params.len() == 0 ==> translated(catalog, m) == translated_code(catalog, m.code),
{
}

/// Of two pairs with one code the later holds.
pub proof fn the_last_text_holds(pairs: Seq<(Seq<char>, Seq<char>)>, k: int, code: Seq<char>)
    requires
        0 <= k < pairs.len(),
        forall|j: int| k < j < pairs.len() ==> (#[trigger] pairs[j]).0 != pairs[k].0,
    ensures
        table::ascending(catalog_of(pairs)),
        table::lookup(catalog_of(pairs), pairs[k].0) == Some(pairs[k].1),
        (forall|j: int| 0 <= j < pairs.len() ==> (#[trigger] pairs[j]).0 != code) ==> table::lookup(
            catalog_of(pairs),
            code,
        ) is None,
{
    lemma_catalog(pairs, pairs[k].0);
    lemma_catalog(pairs, code);
}

proof fn lemma_catalog(pairs: Seq<(Seq<char>, Seq<char>)>, code: Seq<char>)
    ensures
        table::ascending(catalog_of(pairs)),
        (forall|j: int| 0 <= j < pairs.len() ==> (#[trigger] pairs[j]).0 != code) ==> table::lookup(
            catalog_of(pairs),
            code,
        ) is None,
        forall|k: int|
            0 <= k < pairs.len() && (#[trigger] pairs[k]).0 == code && (forall|j: int|
                k < j < pairs.len() ==> (#[trigger] pairs[j]).0 != code) ==> table::lookup(
                catalog_of(pairs),
                code,
            ) == Some(pairs[k].1),
    decreases pairs.len(),
{
    if pairs.len() > 0 {
        let front = pairs.drop_last();
        let last = pairs.last();
        lemma_catalog(front, code);
        table::put_ascends(catalog_of(front), last.0, last.1);
        table::lookup_of_put(catalog_of(front), last.0, last.1, code);
        assert(pairs[pairs.len() - 1] == last);
        assert(forall|j: int| 0 <= j < front.len() ==> front[j] == pairs[j]);
        assert forall|k: int|
            0 <= k < pairs.len() && (#[trigger] pairs[k]).0 == code && (forall|j: int|
                k < j < pairs.len() ==> (#[trigger] pairs[j]).0 != code) implies table::lookup(
            catalog_of(pairs),
            code,
        ) == Some(pairs[k].1) by {
            if k < front.len() {
                assert(pairs[pairs.len() - 1].0 != code);
                assert(front[k].0 == code);
            }
        }
    }
}

/// A placeholder in a template gives way to what its parameter shows.
pub proof fn placeholders_are_filled(
    catalog: Seq<(Seq<char>, Seq<char>)>,
    m: MessageModel,
    a: Seq<char>,
    b: Seq<char>,
    name: Seq<char>,
    value: ParamModel,
)
    requires
        table::lookup(catalog, m.code) == Some(a + ("{{"@ + name + "}}"@) + b),
        m.params == seq![(name, value)],
        text::is_first_from(a + ("{{"@ + name + "}}"@) + b, "{{"@ + name + "}}"@, 0, a.len() as int),
        !text::contains(b, "{{"@ + name + "}}"@),
    ensures
        translated(catalog, m) == a + rendered(value) + b,
{
    let p = "{{"@ + name + "}}"@;
    reveal_strlit("{{");
    text::the_first_occurrence_gives_way(a, p, b, rendered(value));
    text::absent_texts_are_not_replaced(b, p, rendered(value));
    assert(m.params.drop_last() =~= Seq::empty());
    reveal_with_fuel(filled, 2);
}

/// A parameter shows as its text, its digits or its truth.
pub proof fn parameters_show_as_they_are(n: int, s: Seq<char>)
    ensures
        rendered(ParamModel::Text(s)) == s,
        rendered(ParamModel::Number(n)) == text::decimal_int(n),
        rendered(ParamModel::Bool(true)) == "true"@,
        rendered(ParamModel::Bool(false)) == "false"@,
        rendered(ParamModel::Null).len() == 0,
{
}

} // verus!
