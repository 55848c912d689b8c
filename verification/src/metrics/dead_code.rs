//! Files that nothing imports.
//!
//! A source file may be dead if no file of the repository imports it, it is no
//! entry point and no test. Only languages whose imports can be read are judged.

use vstd::prelude::*;

use crate::analysis::source_filter;
use crate::analysis::source_filter::is_source_file;
use crate::metrics::fan_in_out;
use crate::metrics::fan_in_out::{detect_lang, find_links};
use crate::order;
use crate::order::Ranked;
use crate::report;
use crate::report::Row;
use crate::table;
use crate::table::TextMap;
use crate::text;
use crate::types;
use crate::types::{EntryModel, MetricEntry, MetricResult, MetricValue, ResultModel, ValueModel, Values};

verus! {

/// Larger files are not searched for imports.
pub const MAX_BLOB_BYTES: u64 = fan_in_out::MAX_BLOB_BYTES;

pub const MAX_ORPHANS: usize = 200;

/// Names of files that are not meant to be imported.
pub open spec fn entry_points() -> Seq<Seq<char>> {
    seq![
        "main.rs"@,
        "lib.rs"@,
        "build.rs"@,
        "__main__.py"@,
        "__init__.py"@,
        "conftest.py"@,
        "setup.py"@,
        "index.ts"@,
        "index.tsx"@,
        "index.js"@,
        "index.jsx"@,
        "index.mjs"@,
        "index.cjs"@,
        "main.ts"@,
        "main.js"@,
        "main.tsx"@,
        "main.jsx"@,
        "server.ts"@,
        "server.js"@,
        "main.go"@,
        "Main.java"@,
        "Main.kt"@,
        "main.kt"@,
        "main.dart"@,
    ]
}

pub fn is_entry_point(path: &str) -> (r: bool)
    ensures
        r == entry_points().contains(text::after_last(path@, '/')),
{
    let name = text::tail_after(path, '/');
    let known = [
        "main.rs",
        "lib.rs",
        "build.rs",
        "__main__.py",
        "__init__.py",
        "conftest.py",
        "setup.py",
        "index.ts",
        "index.tsx",
        "index.js",
        "index.jsx",
        "index.mjs",
        "index.cjs",
        "main.ts",
        "main.js",
        "main.tsx",
        "main.jsx",
        "server.ts",
        "server.js",
        "main.go",
        "Main.java",
        "Main.kt",
        "main.kt",
        "main.dart",
    ];
    proof {
        assert(text::str_texts(known@) =~= entry_points());
    }
    text::is_one_of(name.as_str(), &known)
}

/// A directory on the path holds tests, or the file is named like a test.
pub open spec fn looks_like_test(path: Seq<char>) -> bool {
    let guarded = "/"@ + path;
    let name = text::after_last(path, '/');
    ||| text::contains(guarded, "/tests/"@)
    ||| text::contains(guarded, "/__tests__/"@)
    ||| text::contains(guarded, "/spec/"@)
    ||| text::contains(guarded, "/__mocks__/"@)
    ||| text::contains(guarded, "/e2e/"@)
    ||| text::contains(guarded, "/test/"@)
    ||| text::contains(name, "_test."@)
    ||| text::contains(name, ".test."@)
    ||| text::contains(name, ".spec."@)
    ||| "test_"@.is_prefix_of(name)
    ||| "Test.java"@.is_suffix_of(name)
    ||| "Tests.java"@.is_suffix_of(name)
    ||| "Spec.kt"@.is_suffix_of(name)
    ||| "Test.kt"@.is_suffix_of(name)
}

pub fn is_test_path(path: &str) -> (r: bool)
    ensures
        r == looks_like_test(path@),
{
    let guarded_text = text::cat("/", path);
    let guarded = guarded_text.as_str();
    if text::has(guarded, "/tests/") || text::has(guarded, "/__tests__/") || text::has(
        guarded,
        "/spec/",
    ) || text::has(guarded, "/__mocks__/") || text::has(guarded, "/e2e/") || text::has(
        guarded,
        "/test/",
    ) {
        return true;
    }
    let name_text = text::tail_after(path, '/');
    let name = name_text.as_str();
    text::has(name, "_test.") || text::has(name, ".test.") || text::has(name, ".spec.")
        || text::starts_with(name, "test_") || text::ends_with(name, "Test.java")
        || text::ends_with(name, "Tests.java") || text::ends_with(name, "Spec.kt")
        || text::ends_with(name, "Test.kt")
}

/// The file may be dead: it is judged at all, and nothing imports it.
pub open spec fn is_orphan(path: Seq<char>, imported: Seq<(Seq<char>, bool)>) -> bool {
    &&& source_filter::is_source(path)
    &&& fan_in_out::lang_of(path) is Some
    &&& !entry_points().contains(text::after_last(path, '/'))
    &&& !looks_like_test(path)
    &&& !fan_in_out::is_known(imported, path)
}

/// The imported files with those that one more file imports.
pub open spec fn with_targets(imported: Seq<(Seq<char>, bool)>, ts: Seq<Seq<char>>, n: int) -> Seq<
    (Seq<char>, bool),
>
    decreases n,
{
    if n <= 0 {
        imported
    } else {
        table::put(with_targets(imported, ts, n - 1), ts[n - 1], true)
    }
}

/// What is imported before is imported after, and each target is.
pub proof fn targets_are_imported(
    imported: Seq<(Seq<char>, bool)>,
    ts: Seq<Seq<char>>,
    n: int,
    p: Seq<char>,
)
    requires
        table::ascending(imported),
        0 <= n <= ts.len(),
    ensures
        table::ascending(with_targets(imported, ts, n)),
        fan_in_out::is_known(with_targets(imported, ts, n), p) <==> fan_in_out::is_known(
            imported,
            p,
        ) || ts.take(n).contains(p),
    decreases n,
{
    if n > 0 {
        targets_are_imported(imported, ts, n - 1, p);
        let before = with_targets(imported, ts, n - 1);
        table::put_ascends(before, ts[n - 1], true);
        table::lookup_of_put(before, ts[n - 1], true, p);
        table::lemma_lookup_some(before, p);
        table::lemma_lookup_some(with_targets(imported, ts, n), p);
        assert(ts.take(n) =~= ts.take(n - 1).push(ts[n - 1]));
        vstd::seq_lib::lemma_seq_contains_after_push(ts.take(n - 1), ts[n - 1], p);
    }
}

/// The files among the first `n` that may be dead.
pub open spec fn orphans_among(
    all: Seq<Seq<char>>,
    imported: Seq<(Seq<char>, bool)>,
    n: int,
) -> Seq<Seq<char>>
    decreases n,
{
    if n <= 0 {
        Seq::empty()
    } else if is_orphan(all[n - 1], imported) {
        orphans_among(all, imported, n - 1).push(all[n - 1])
    } else {
        orphans_among(all, imported, n - 1)
    }
}

/// A file that may be dead.
pub struct Orphan {
    pub path: String,
}

impl View for Orphan {
    type V = Seq<char>;

    open spec fn view(&self) -> Seq<char> {
        self.path@
    }
}

/// In lexicographic order.
impl Ranked for Orphan {
    open spec fn le(a: Seq<char>, b: Seq<char>) -> bool {
        text::text_le(a, b)
    }

    proof fn le_total(a: Seq<char>, b: Seq<char>) {
        text::text_le_total(a, b);
    }

    proof fn le_transitive(a: Seq<char>, b: Seq<char>, c: Seq<char>) {
        text::text_le_transitive(a, b, c);
    }

    fn not_after(&self, other: &Orphan) -> (r: bool) {
        text::text_not_after(self.path.as_str(), other.path.as_str())
    }
}

impl Row for Orphan {
    open spec fn entry(path: Seq<char>) -> EntryModel {
        EntryModel {
            key: path,
            values: Map::empty().insert(
                "extension"@,
                ValueModel::Text(text::after_last(path, '.')),
            ),
        }
    }

    fn to_entry(self) -> (r: MetricEntry) {
        let mut values = Values::new();
        values.insert("extension", MetricValue::Text(text::tail_after(self.path.as_str(), '.')));
        MetricEntry { key: self.path, values }
    }
}

pub open spec fn dead_code_columns() -> Seq<Seq<char>> {
    seq!["extension"@]
}

pub open spec fn dead_code_report(orphans: Seq<Seq<char>>) -> ResultModel {
    types::report_of(
        "dead_code"@,
        dead_code_columns(),
        report::entries_of::<Orphan>(report::top_ranked::<Orphan>(orphans, MAX_ORPHANS as int)),
    )
}

pub struct DeadCodeCollector {
    pub orphans: Vec<String>,
    /// The files that were found to be imported.
    pub imported: TextMap<bool>,
}

impl Default for DeadCodeCollector {
    fn default() -> (r: Self)
        ensures
            r.orphans@.len() == 0,
            r.imported@ == Seq::<(Seq<char>, bool)>::empty(),
    {
        DeadCodeCollector::new()
    }
}

impl DeadCodeCollector {
    pub fn new() -> (r: Self)
        ensures
            r.orphans@.len() == 0,
            r.imported@ == Seq::<(Seq<char>, bool)>::empty(),
    {
        DeadCodeCollector { orphans: Vec::new(), imported: TextMap::new() }
    }

    pub fn name(&self) -> (r: &str)
        ensures
            r@ == "dead_code"@,
    {
        "dead_code"
    }

    /// Records what a file imports, given where its imports lead.
    pub fn link(&mut self, ts: &[String])
        requires
            table::ascending(old(self).imported@),
        ensures
            final(self).imported@ == with_targets(
                old(self).imported@,
                text::views(ts@),
                ts@.len() as int,
            ),
            table::ascending(final(self).imported@),
            final(self).orphans == old(self).orphans,
    {
        let ghost given = self.imported@;
        let ghost all = text::views(ts@);
        let ghost kept = self.orphans;
        let n: usize = ts.len();
        let mut i: usize = 0;
        while i < n
            invariant
                n == ts@.len(),
                all == text::views(ts@),
                i <= n,
                self.orphans == kept,
                table::ascending(self.imported@),
                self.imported@ == with_targets(given, all, i as int),
            decreases n - i,
        {
            proof {
                assert(all[i as int] == ts@[i as int]@);
            }
            self.imported.insert(ts[i].clone(), true);
            i += 1;
        }
    }

    /// Records what a file of the tree imports.
    pub fn inspect_blob(&mut self, path: &str, data: &[u8], paths: &TextMap<bool>)
        requires
            table::ascending(old(self).imported@),
            table::ascending(paths@),
        ensures
            final(self).imported@ == (match fan_in_out::links(path@, data@, paths@) {
                Some(ts) => with_targets(old(self).imported@, ts, ts.len() as int),
                None => old(self).imported@,
            }),
            table::ascending(final(self).imported@),
            final(self).orphans == old(self).orphans,
    {
        if let Some(ts) = find_links(path, data, paths) {
            proof {
                assert(text::views(ts@).len() == ts@.len());
            }
            self.link(&ts);
        }
    }

    /// Records the files among `all` that may be dead, once every file was
    /// looked at.
    pub fn judge(&mut self, all: &[String])
        requires
            table::ascending(old(self).imported@),
        ensures
            text::views(final(self).orphans@) == text::views(old(self).orphans@) + orphans_among(
                text::views(all@),
                old(self).imported@,
                all@.len() as int,
            ),
            final(self).imported@ == old(self).imported@,
    {
        let ghost given = text::views(self.orphans@);
        let ghost paths = text::views(all@);
        let ghost known = self.imported@;
        let n: usize = all.len();
        let mut i: usize = 0;
        proof {
            assert(given + Seq::<Seq<char>>::empty() =~= given);
        }
        while i < n
            invariant
                n == all@.len(),
                paths == text::views(all@),
                i <= n,
                self.imported@ == known,
                table::ascending(known),
                text::views(self.orphans@) == given + orphans_among(paths, known, i as int),
            decreases n - i,
        {
            let ghost before = text::views(self.orphans@);
            let path = all[i].as_str();
            proof {
                assert(paths[i as int] == path@);
                table::lemma_lookup_some(known, path@);
            }
            if is_source_file(path) && detect_lang(path).is_some() && !is_entry_point(path)
                && !is_test_path(path) && self.imported.get(path).is_none() {
                let one = text::copy_text(path);
                self.orphans.push(one);
                proof {
                    assert(text::views(self.orphans@) =~= before.push(one@));
                    assert(before.push(one@) =~= given + orphans_among(
                        paths,
                        known,
                        i as int,
                    ).push(one@));
                }
            }
            i += 1;
        }
    }

    /// Reports the recorded files and forgets them.
    pub fn finalize(&mut self) -> (r: MetricResult)
        ensures
            r@ == dead_code_report(text::views(old(self).orphans@)),
            final(self).orphans@.len() == 0,
    {
        let ghost all = text::views(self.orphans@);
        let mut paths: Vec<String> = Vec::new();
        std::mem::swap(&mut paths, &mut self.orphans);
        let mut list: Vec<Orphan> = Vec::new();
        for path in it: paths
            invariant
                text::views(it.seq()) == all,
                list@.len() == it.index(),
                forall|k: int| 0 <= k < list@.len() ==> (#[trigger] list@[k])@ == all[k],
        {
            proof {
                assert(text::views(it.seq())[it.index() as int] == path@);
            }
            list.push(Orphan { path });
        }
        proof {
            assert(order::models(list@) =~= all);
        }
        let entries = report::ranked_entries(list, MAX_ORPHANS);
        let columns = [
            "extension",
        ];
        proof {
            assert(types::str_views(columns@) =~= dead_code_columns());
        }
        MetricResult::report("dead_code", &columns, entries)
    }
}

proof fn lemma_orphans(all: Seq<Seq<char>>, imported: Seq<(Seq<char>, bool)>, x: Seq<char>)
    ensures
        orphans_among(all, imported, all.len() as int).contains(x) <==> exists|k: int|
            0 <= k < all.len() && is_orphan((#[trigger] all[k]), imported) && x == all[k],
        orphans_among(all, imported, all.len() as int).len() <= all.len(),
    decreases all.len(),
{
    if all.len() > 0 {
        let front = all.drop_last();
        let last = all.last();
        let was = orphans_among(front, imported, front.len() as int);
        let is = orphans_among(all, imported, all.len() as int);
        lemma_orphans(front, imported, x);
        lemma_orphans_of_front(all, imported, front.len() as int);
        assert(all[all.len() - 1] == last);
        assert(forall|k: int| 0 <= k < front.len() ==> front[k] == all[k]);
        if is.contains(x) {
            let i = choose|i: int| 0 <= i < is.len() && is[i] == x;
            if i < was.len() {
                assert(was[i] == x);
                let k = choose|k: int|
                    0 <= k < front.len() && is_orphan((#[trigger] front[k]), imported) && x == front[k];
                assert(all[k] == front[k]);
            }
        }
        if exists|k: int| 0 <= k < all.len() && is_orphan((#[trigger] all[k]), imported) && x == all[k] {
            let k = choose|k: int|
                0 <= k < all.len() && is_orphan((#[trigger] all[k]), imported) && x == all[k];
            if k < front.len() {
                assert(front[k] == all[k]);
                let i = choose|i: int| 0 <= i < was.len() && was[i] == x;
                assert(is[i] == x);
            } else {
                assert(is[is.len() - 1] == x);
            }
        }
    }
}

proof fn lemma_orphans_of_front(all: Seq<Seq<char>>, imported: Seq<(Seq<char>, bool)>, n: int)
    requires
        0 <= n < all.len(),
    ensures
        orphans_among(all.drop_last(), imported, n) == orphans_among(all, imported, n),
    decreases n,
{
    if n > 0 {
        lemma_orphans_of_front(all, imported, n - 1);
    }
}

/// What may be dead are the files that are judged and not imported: every such
/// file is found, and no other.
pub proof fn every_orphan_is_found(
    all: Seq<Seq<char>>,
    imported: Seq<(Seq<char>, bool)>,
    path: Seq<char>,
)
    ensures
        orphans_among(all, imported, all.len() as int).contains(path) <==> all.contains(path)
            && is_orphan(path, imported),
{
    lemma_orphans(all, imported, path);
    if all.contains(path) && is_orphan(path, imported) {
        let k = choose|k: int| 0 <= k < all.len() && all[k] == path;
        assert(is_orphan(all[k], imported));
    }
}

/// A file that is imported, is no source file or has no imports to read is never
/// dead, nor is a test or the start of a program.
pub proof fn what_is_never_dead(path: Seq<char>, imported: Seq<(Seq<char>, bool)>)
    ensures
        fan_in_out::is_known(imported, path) ==> !is_orphan(path, imported),
        !source_filter::is_source(path) ==> !is_orphan(path, imported),
        fan_in_out::lang_of(path) is None ==> !is_orphan(path, imported),
        ({
            let name = text::after_last(path, '/');
            name == "main.rs"@
                || name == "lib.rs"@
                || name == "build.rs"@
                || name == "__main__.py"@
                || name == "__init__.py"@
                || name == "conftest.py"@
                || name == "setup.py"@
                || name == "index.ts"@
                || name == "index.tsx"@
                || name == "index.js"@
                || name == "index.jsx"@
                || name == "index.mjs"@
                || name == "index.cjs"@
                || name == "main.ts"@
                || name == "main.js"@
                || name == "main.tsx"@
                || name == "main.jsx"@
                || name == "server.ts"@
                || name == "server.js"@
                || name == "main.go"@
                || name == "Main.java"@
                || name == "Main.kt"@
                || name == "main.kt"@
                || name == "main.dart"@ ==> !is_orphan(path, imported)
        }),
        text::contains("/"@ + path, "/tests/"@) ==> !is_orphan(path, imported),
        text::contains("/"@ + path, "/__tests__/"@) ==> !is_orphan(path, imported),
        text::contains("/"@ + path, "/spec/"@) ==> !is_orphan(path, imported),
        text::contains("/"@ + path, "/__mocks__/"@) ==> !is_orphan(path, imported),
        text::contains("/"@ + path, "/e2e/"@) ==> !is_orphan(path, imported),
        text::contains("/"@ + path, "/test/"@) ==> !is_orphan(path, imported),
        text::contains(text::after_last(path, '/'), "_test."@) ==> !is_orphan(path, imported),
        text::contains(text::after_last(path, '/'), ".test."@) ==> !is_orphan(path, imported),
        text::contains(text::after_last(path, '/'), ".spec."@) ==> !is_orphan(path, imported),
        "test_"@.is_prefix_of(text::after_last(path, '/')) ==> !is_orphan(path, imported),
        "Test.java"@.is_suffix_of(text::after_last(path, '/')) ==> !is_orphan(path, imported),
        "Tests.java"@.is_suffix_of(text::after_last(path, '/')) ==> !is_orphan(path, imported),
        "Spec.kt"@.is_suffix_of(text::after_last(path, '/')) ==> !is_orphan(path, imported),
        "Test.kt"@.is_suffix_of(text::after_last(path, '/')) ==> !is_orphan(path, imported),
        entry_points().len() == 24,
{
    assert(entry_points()[0] == "main.rs"@);
    assert(entry_points()[1] == "lib.rs"@);
    assert(entry_points()[2] == "build.rs"@);
    assert(entry_points()[3] == "__main__.py"@);
    assert(entry_points()[4] == "__init__.py"@);
    assert(entry_points()[5] == "conftest.py"@);
    assert(entry_points()[6] == "setup.py"@);
    assert(entry_points()[7] == "index.ts"@);
    assert(entry_points()[8] == "index.tsx"@);
    assert(entry_points()[9] == "index.js"@);
    assert(entry_points()[10] == "index.jsx"@);
    assert(entry_points()[11] == "index.mjs"@);
    assert(entry_points()[12] == "index.cjs"@);
    assert(entry_points()[13] == "main.ts"@);
    assert(entry_points()[14] == "main.js"@);
    assert(entry_points()[15] == "main.tsx"@);
    assert(entry_points()[16] == "main.jsx"@);
    assert(entry_points()[17] == "server.ts"@);
    assert(entry_points()[18] == "server.js"@);
    assert(entry_points()[19] == "main.go"@);
    assert(entry_points()[20] == "Main.java"@);
    assert(entry_points()[21] == "Main.kt"@);
    assert(entry_points()[22] == "main.kt"@);
    assert(entry_points()[23] == "main.dart"@);
}

/// Every file that may be dead is shown with its extension, unless there are
/// more than the report holds.
pub proof fn every_orphan_is_shown(orphans: Seq<Seq<char>>, k: int)
    requires
        0 <= k < orphans.len(),
        orphans.len() <= 200,
    ensures
        exists|i: int|
            0 <= i < dead_code_report(orphans).entries.len() && ({
                let e = #[trigger] dead_code_report(orphans).entries[i];
                let r = orphans[k];
                &&& e.key == r
                &&& e.values["extension"@] == ValueModel::Text(text::after_last(r, '.'))
            }),
{
    let s = orphans;
    let x = orphans[k];
    let ranked = report::top_ranked::<Orphan>(orphans, 200);
    assert(s[k] == x);
    report::top_ranked_members::<Orphan>(orphans, 200);
    report::top_ranked_len::<Orphan>(orphans, 200);
    assert(s.contains(x));
    assert(ranked.contains(x));
    let i = choose|i: int| 0 <= i < ranked.len() && ranked[i] == x;
    assert(dead_code_report(orphans).entries[i] == Orphan::entry(x));
    reveal_strlit("extension");
}

/// Whatever is shown may be dead, and there are at most two hundred.
pub proof fn only_orphans_are_shown(orphans: Seq<Seq<char>>, i: int)
    requires
        0 <= i < dead_code_report(orphans).entries.len(),
    ensures
        dead_code_report(orphans).entries.len() <= 200,
        exists|k: int|
            0 <= k < orphans.len() && ({
                let e = dead_code_report(orphans).entries[i];
                let r = #[trigger] orphans[k];
                &&& e.key == r
                &&& e.values["extension"@] == ValueModel::Text(text::after_last(r, '.'))
            }),
{
    let s = orphans;
    let ranked = report::top_ranked::<Orphan>(orphans, 200);
    let x = ranked[i];
    report::top_ranked_members::<Orphan>(orphans, 200);
    report::top_ranked_len::<Orphan>(orphans, 200);
    assert(ranked.contains(x));
    assert(s.contains(x));
    assert(dead_code_report(orphans).entries[i] == Orphan::entry(x));
    let k = choose|k: int| 0 <= k < s.len() && s[k] == x;
    assert(orphans[k] == orphans[k]);
    reveal_strlit("extension");
}

/// The files stand in the order of their paths.
pub proof fn orphans_ascend(orphans: Seq<Seq<char>>, i: int, j: int)
    requires
        0 <= i < j < dead_code_report(orphans).entries.len(),
    ensures
        text::text_le(
            dead_code_report(orphans).entries[i].key,
            dead_code_report(orphans).entries[j].key,
        ),
{
    let ranked = report::top_ranked::<Orphan>(orphans, 200);
    report::top_ranked_leads::<Orphan>(orphans, 200);
    assert(dead_code_report(orphans).entries[i] == Orphan::entry(ranked[i]));
    assert(dead_code_report(orphans).entries[j] == Orphan::entry(ranked[j]));
    assert(Orphan::le(ranked[i], ranked[j]));
}

/// The report has these columns, in this order.
pub proof fn the_columns_are_these(orphans: Seq<Seq<char>>)
    ensures
        dead_code_report(orphans).name == "dead_code"@,
        dead_code_report(orphans).columns.len() == 1,
        dead_code_report(orphans).columns[0].value == "extension"@,
{
}

/// The limits that hold here.
pub proof fn the_limits_are_these()
    ensures
        MAX_ORPHANS == 200,
{
}

} // verus!
