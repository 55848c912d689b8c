//! The languages of a directory, by their lines of code.

use vstd::prelude::*;

use crate::order;
use crate::order::Ranked;
use crate::output::cells;
use crate::output::json;
use crate::output::json::{Json, JsonModel};
use crate::table;
use crate::table::TextMap;
use crate::text;

use super::test_ratio;

verus! {

/// Directories that are not looked into.
pub open spec fn skipped_dirs() -> Seq<&'static str> {
    seq![
        ".git", "node_modules", "target", "dist", "build", "venv", ".venv", "__pycache__", "vendor",
        ".idea", ".vscode", ".vs",
    ]
}

/// Whether a directory of this name is left out.
pub fn is_skipped_dir(name: &str) -> (r: bool)
    ensures
        r == text::str_texts(skipped_dirs()).contains(name@),
{
    let list: [&'static str; 12] = [
        ".git", "node_modules", "target", "dist", "build", "venv", ".venv", "__pycache__", "vendor",
        ".idea", ".vscode", ".vs",
    ];
    proof {
        assert(list@ =~= skipped_dirs());
    }
    text::is_one_of(name, &list)
}

/// The files of a language and their lines of code.
#[derive(Debug, Clone, Copy)]
pub struct Lines {
    pub files: u64,
    pub code: u64,
}

impl View for Lines {
    type V = Lines;

    open spec fn view(&self) -> Lines {
        *self
    }
}

/// A sum that stays at the largest number once it gets there.
pub open spec fn capped(n: int) -> u64 {
    if n > u64::MAX {
        u64::MAX
    } else {
        n as u64
    }
}

pub open spec fn lines_of(m: Seq<(Seq<char>, Lines)>, name: Seq<char>) -> Lines {
    match table::lookup(m, name) {
        Some(l) => l,
        None => Lines { files: 0, code: 0 },
    }
}

/// The counts after one more file. Only text files of source code in a known
/// language count.
pub open spec fn inspected(m: Seq<(Seq<char>, Lines)>, path: Seq<char>, data: Seq<u8>) -> Seq<
    (Seq<char>, Lines),
> {
    match test_ratio::measured(path, data) {
        None => m,
        Some((name, code)) => table::put(
            m,
            name,
            Lines {
                files: capped(lines_of(m, name).files + 1),
                code: capped(lines_of(m, name).code + code),
            },
        ),
    }
}

/// The lines of code of all languages.
pub open spec fn all_code(m: Seq<(Seq<char>, Lines)>) -> int
    decreases m.len(),
{
    if m.len() == 0 {
        0
    } else {
        all_code(m.drop_last()) + m.last().1.code
    }
}

/// A language, its files and its lines of code.
pub struct LangLines {
    pub language: String,
    pub files: u64,
    pub code: u64,
}

pub struct LangLinesModel {
    pub language: Seq<char>,
    pub files: u64,
    pub code: u64,
}

impl View for LangLines {
    type V = LangLinesModel;

    open spec fn view(&self) -> LangLinesModel {
        LangLinesModel { language: self.language@, files: self.files, code: self.code }
    }
}

/// The language with more code first.
impl Ranked for LangLines {
    open spec fn le(a: LangLinesModel, b: LangLinesModel) -> bool {
        a.code >= b.code
    }

    proof fn le_total(a: LangLinesModel, b: LangLinesModel) {
    }

    proof fn le_transitive(a: LangLinesModel, b: LangLinesModel, c: LangLinesModel) {
    }

    fn not_after(&self, other: &LangLines) -> (r: bool) {
        self.code >= other.code
    }
}

pub open spec fn rows_of(m: Seq<(Seq<char>, Lines)>) -> Seq<LangLinesModel> {
    Seq::new(
        m.len(),
        |i: int| LangLinesModel { language: m[i].0, files: m[i].1.files, code: m[i].1.code },
    )
}

/// The share of `part` in `whole` in hundredths of a percent, rounded, half up;
/// nothing of nothing.
pub open spec fn hundredths(part: int, whole: int) -> int {
    if whole <= 0 {
        0
    } else {
        (part * 20000 + whole) / (2 * whole)
    }
}

/// What is shown of a language: its share in all code in percent, its lines of
/// code and its files.
pub open spec fn language_json(r: LangLinesModel, all: int) -> JsonModel {
    JsonModel::Object(
        seq![
            ("language"@, JsonModel::Text(r.language)),
            ("percentage"@, JsonModel::Ratio(hundredths(r.code as int, all), 100)),
            ("code_lines"@, JsonModel::Number(r.code as int)),
            ("files"@, JsonModel::Number(r.files as int)),
        ],
    )
}

/// The languages, those with the most code first, at most `top` of them.
pub open spec fn languages_json(m: Seq<(Seq<char>, Lines)>, top: Option<usize>) -> JsonModel {
    let rows = order::sort_ranked::<LangLines>(rows_of(m));
    let shown = rows.take(cells::shown_count(rows.len() as int, top));
    JsonModel::Array(Seq::new(shown.len(), |i: int| language_json(shown[i], capped(all_code(m)) as int)))
}

/// A share is at most the whole, and the whole is all of it.
pub proof fn share_is_a_part(part: int, whole: int)
    requires
        0 <= part <= whole,
    ensures
        0 <= hundredths(part, whole) <= 10000,
        whole > 0 ==> hundredths(whole, whole) == 10000,
{
    if whole > 0 {
        assert((part * 20000 + whole) / (2 * whole) <= 10000) by (nonlinear_arith)
            requires
                0 <= part <= whole,
                whole > 0,
        ;
        assert((part * 20000 + whole) / (2 * whole) >= 0) by (nonlinear_arith)
            requires
                0 <= part,
                whole > 0,
        ;
        assert((whole * 20000 + whole) / (2 * whole) == 10000) by (nonlinear_arith)
            requires
                whole > 0,
        ;
    }
}

proof fn lemma_code_within_all(m: Seq<(Seq<char>, Lines)>)
    ensures
        all_code(m) >= 0,
        forall|i: int| 0 <= i < m.len() ==> (#[trigger] m[i]).1.code <= all_code(m),
    decreases m.len(),
{
    if m.len() > 0 {
        let init = m.drop_last();
        lemma_code_within_all(init);
        assert forall|i: int| 0 <= i < m.len() implies (#[trigger] m[i]).1.code <= all_code(m) by {
            if i < init.len() {
                assert(init[i] == m[i]);
            }
        }
    }
}

fn to_hundredths(part: u64, whole: u64) -> (r: u64)
    requires
        part <= whole,
    ensures
        r == hundredths(part as int, whole as int),
{
    if whole == 0 {
        0
    } else {
        proof {
            share_is_a_part(part as int, whole as int);
        }
        let whole = whole as u128;
        ((part as u128 * 20000 + whole) / (2 * whole)) as u64
    }
}

/// Counts the languages of files.
pub struct QuickComposition {
    pub lines: TextMap<Lines>,
}

impl Default for QuickComposition {
    fn default() -> (r: Self)
        ensures
            r.lines@.len() == 0,
    {
        QuickComposition::new()
    }
}

impl QuickComposition {
    pub fn new() -> (r: Self)
        ensures
            r.lines@.len() == 0,
    {
        QuickComposition { lines: TextMap::new() }
    }

    /// Counts a file.
    pub fn inspect_blob(&mut self, path: &str, data: &[u8])
        requires
            table::ascending(old(self).lines@),
        ensures
            final(self).lines@ == inspected(old(self).lines@, path@, data@),
            table::ascending(final(self).lines@),
    {
        if let Some((name, code)) = test_ratio::measure(path, data) {
            let held = match self.lines.get(name.as_str()) {
                Some(l) => *l,
                None => Lines { files: 0, code: 0 },
            };
            let more = Lines {
                files: held.files.saturating_add(1),
                code: held.code.saturating_add(code),
            };
            self.lines.insert(name, more);
        }
    }

    /// The languages found, those with the most code first, at most `top` of
    /// them.
    pub fn finish(&self, top: Option<usize>) -> (r: Json)
        ensures
            r@ == languages_json(self.lines@, top),
    {
        let ghost m = self.lines@;
        let n: usize = self.lines.len();
        let mut all: u64 = 0;
        let mut list: Vec<LangLines> = Vec::new();
        let mut i: usize = 0;
        proof {
            assert(m.take(0).len() == 0);
        }
        while i < n
            invariant
                n == m.len(),
                m == self.lines@,
                i <= n,
                all == capped(all_code(m.take(i as int))),
                all_code(m.take(i as int)) >= 0,
                list@.len() == i,
                forall|k: int| 0 <= k < i ==> (#[trigger] list@[k])@ == rows_of(m)[k],
            decreases n - i,
        {
            let l = *self.lines.value_at(i);
            proof {
                assert(m.take(i + 1).drop_last() =~= m.take(i as int));
            }
            list.push(
                LangLines {
                    language: self.lines.key_at(i).clone(),
                    files: l.files,
                    code: l.code,
                },
            );
            all = all.saturating_add(l.code);
            i += 1;
        }
        proof {
            assert(m.take(n as int) =~= m);
            assert(order::models(list@) =~= rows_of(m));
        }
        let sorted = order::sort_rows(list);
        let shown = cells::count_shown(sorted.len(), top);
        let ghost rows = order::sort_ranked::<LangLines>(rows_of(m));
        let mut out: Vec<Json> = Vec::new();
        let mut j: usize = 0;
        while j < shown
            invariant
                order::models(sorted@) == rows,
                rows == order::sort_ranked::<LangLines>(rows_of(m)),
                shown <= sorted@.len(),
                j <= shown,
                all == capped(all_code(m)),
                out@.len() == j,
                forall|k: int| 0 <= k < j ==> (#[trigger] out@[k])@ == language_json(rows[k], all as int),
            decreases shown - j,
        {
            let row = &sorted[j];
            proof {
                assert(rows[j as int] == row@);
                order::sort_same_members::<LangLines>(rows_of(m));
                assert(rows.contains(row@));
                let k = choose|k: int| 0 <= k < rows_of(m).len() && rows_of(m)[k] == row@;
                lemma_code_within_all(m);
                assert(m[k].1.code <= all_code(m));
            }
            let share = Json::Ratio { num: to_hundredths(row.code, all), den: 100 };
            let mut fields: Vec<(String, Json)> = Vec::new();
            fields.push(json::field("language", json::json_text(row.language.as_str())));
            fields.push(json::field("percentage", share));
            fields.push(json::field("code_lines", Json::Unsigned(row.code)));
            fields.push(json::field("files", Json::Unsigned(row.files)));
            let o = json::json_object(fields);
            proof {
                assert(o@ == language_json(row@, all as int)) by {
                    match o@ {
                        JsonModel::Object(fs) => {
                            assert(fs =~= seq![
                                ("language"@, JsonModel::Text(row@.language)),
                                (
                                    "percentage"@,
                                    JsonModel::Ratio(hundredths(row.code as int, all as int), 100),
                                ),
                                ("code_lines"@, JsonModel::Number(row.code as int)),
                                ("files"@, JsonModel::Number(row.files as int)),
                            ]);
                        },
                        _ => {},
                    }
                }
            }
            out.push(o);
            j += 1;
        }
        let r = json::json_array(out);
        proof {
            match (r@, languages_json(m, top)) {
                (JsonModel::Array(a), JsonModel::Array(b)) => {
                    assert(a =~= b);
                },
                _ => {},
            }
        }
        r
    }
}

/// A share is rounded to the nearest hundredth of a percent, halves upwards.
pub proof fn shares_are_rounded(part: int, whole: int)
    requires
        0 <= part,
        0 < whole,
    ensures
        (2 * hundredths(part, whole) - 1) * whole <= 20000 * part < (2 * hundredths(part, whole)
            + 1) * whole,
        hundredths(part, 0) == 0,
{
    let n = part * 20000 + whole;
    let d = 2 * whole;
    let h = n / d;
    assert(h * d <= n < (h + 1) * d) by (nonlinear_arith)
        requires
            d > 0,
            h == n / d,
    ;
    assert((2 * h - 1) * whole <= 20000 * part < (2 * h + 1) * whole) by (nonlinear_arith)
        requires
            h * d <= n < (h + 1) * d,
            d == 2 * whole,
            n == part * 20000 + whole,
    ;
}

/// A measured file adds itself and its lines of code to its language, and other
/// languages stay as they were.
pub proof fn a_file_counts_under_its_language(
    m: Seq<(Seq<char>, Lines)>,
    path: Seq<char>,
    data: Seq<u8>,
    q: Seq<char>,
)
    requires
        table::ascending(m),
    ensures
        match test_ratio::measured(path, data) {
            None => inspected(m, path, data) == m,
            Some((name, code)) => {
                let was = lines_of(m, q);
                let is = lines_of(inspected(m, path, data), q);
                &&& q != name ==> is == was
                &&& q == name && was.files < u64::MAX ==> is.files == was.files + 1
                &&& q == name && 0 <= was.code + code <= u64::MAX ==> is.code == was.code + code
            },
        },
{
    match test_ratio::measured(path, data) {
        None => {},
        Some((name, code)) => {
            table::lookup_of_put(
                m,
                name,
                Lines {
                    files: capped(lines_of(m, name).files + 1),
                    code: capped(lines_of(m, name).code + code),
                },
                q,
            );
        },
    }
}

/// The languages with the most code are shown first, as many as are asked for,
/// each with its share in all code, its lines and its files.
pub proof fn most_code_is_shown_first(m: Seq<(Seq<char>, Lines)>, top: Option<usize>, i: int)
    requires
        languages_json(m, top) is Array,
        0 <= i < languages_json(m, top)->Array_0.len(),
        all_code(m) <= u64::MAX,
    ensures
        ({
            let shown = languages_json(m, top)->Array_0;
            let rows = order::sort_ranked::<LangLines>(rows_of(m));
            &&& top is None ==> shown.len() == m.len()
            &&& top matches Some(n) ==> shown.len() <= n && (n >= m.len() ==> shown.len() == m.len())
            &&& rows_of(m).contains(rows[i])
            &&& i > 0 ==> rows[i - 1].code >= rows[i].code
            &&& shown[i] == JsonModel::Object(
                seq![
                    ("language"@, JsonModel::Text(rows[i].language)),
                    (
                        "percentage"@,
                        JsonModel::Ratio(hundredths(rows[i].code as int, all_code(m)), 100),
                    ),
                    ("code_lines"@, JsonModel::Number(rows[i].code as int)),
                    ("files"@, JsonModel::Number(rows[i].files as int)),
                ],
            )
        }),
{
    let s = rows_of(m);
    let rows = order::sort_ranked::<LangLines>(s);
    order::sort_orders::<LangLines>(s);
    order::sort_keeps_elements::<LangLines>(s);
    order::sort_same_members::<LangLines>(s);
    assert(rows.contains(rows[i]));
    if i > 0 {
        assert(LangLines::le(rows[i - 1], rows[i]));
    }
    lemma_code_is_counted(m);
}

proof fn lemma_code_is_counted(m: Seq<(Seq<char>, Lines)>)
    ensures
        all_code(m) >= 0,
    decreases m.len(),
{
    if m.len() > 0 {
        lemma_code_is_counted(m.drop_last());
    }
}

/// All code is that of the languages together.
pub proof fn all_code_adds_up(m: Seq<(Seq<char>, Lines)>, name: Seq<char>, l: Lines)
    ensures
        all_code(m.push((name, l))) == all_code(m) + l.code,
        all_code(Seq::empty()) == 0,
{
    assert(m.push((name, l)).drop_last() =~= m);
}

/// These directories are not looked into.
pub proof fn skipped_directories_are_these(name: Seq<char>)
    ensures
        text::str_texts(skipped_dirs()).contains(name) <==> name == ".git"@
            || name == "node_modules"@
            || name == "target"@
            || name == "dist"@
            || name == "build"@
            || name == "venv"@
            || name == ".venv"@
            || name == "__pycache__"@
            || name == "vendor"@
            || name == ".idea"@
            || name == ".vscode"@
            || name == ".vs"@,
{
    assert(text::str_texts(skipped_dirs())[0] == ".git"@);
    assert(text::str_texts(skipped_dirs())[1] == "node_modules"@);
    assert(text::str_texts(skipped_dirs())[2] == "target"@);
    assert(text::str_texts(skipped_dirs())[3] == "dist"@);
    assert(text::str_texts(skipped_dirs())[4] == "build"@);
    assert(text::str_texts(skipped_dirs())[5] == "venv"@);
    assert(text::str_texts(skipped_dirs())[6] == ".venv"@);
    assert(text::str_texts(skipped_dirs())[7] == "__pycache__"@);
    assert(text::str_texts(skipped_dirs())[8] == "vendor"@);
    assert(text::str_texts(skipped_dirs())[9] == ".idea"@);
    assert(text::str_texts(skipped_dirs())[10] == ".vscode"@);
    assert(text::str_texts(skipped_dirs())[11] == ".vs"@);
}

} // verus!
