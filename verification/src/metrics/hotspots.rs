//! Files and constructs with the most change activity.

use vstd::prelude::*;

use crate::analysis::source_filter;
use crate::messages;
use crate::order;
use crate::order::Ranked;
use crate::report;
use crate::report::{OfFile, Row};
use crate::text;
use crate::types;
use crate::types::{
    EntryModel, LocalizedMessage, MessageModel, MetricEntry, MetricResult, MetricValue, ResultModel,
    ValueModel, Values,
};

verus! {

pub const MAX_HOTSPOTS: usize = 500;

/// How often a file changed, and by how many authors.
#[derive(Debug)]
pub struct FileActivity {
    pub file: String,
    pub changes: u64,
    pub authors: u64,
}

pub struct FileActivityModel {
    pub file: Seq<char>,
    pub changes: int,
    pub authors: int,
}

impl View for FileActivity {
    type V = FileActivityModel;

    open spec fn view(&self) -> FileActivityModel {
        FileActivityModel {
            file: self.file@,
            changes: self.changes as int,
            authors: self.authors as int,
        }
    }
}

impl OfFile for FileActivity {
    open spec fn file_of(r: FileActivityModel) -> Seq<char> {
        r.file
    }

    fn file(&self) -> (r: &str) {
        self.file.as_str()
    }
}

/// How often a construct changed, and by how many authors.
#[derive(Debug)]
pub struct ConstructActivity {
    pub file: String,
    pub qualified_name: String,
    pub kind: String,
    pub changes: u64,
    pub authors: u64,
}

pub struct ConstructActivityModel {
    pub file: Seq<char>,
    pub qualified_name: Seq<char>,
    pub kind: Seq<char>,
    pub changes: int,
    pub authors: int,
}

impl View for ConstructActivity {
    type V = ConstructActivityModel;

    open spec fn view(&self) -> ConstructActivityModel {
        ConstructActivityModel {
            file: self.file@,
            qualified_name: self.qualified_name@,
            kind: self.kind@,
            changes: self.changes as int,
            authors: self.authors as int,
        }
    }
}

impl OfFile for ConstructActivity {
    open spec fn file_of(r: ConstructActivityModel) -> Seq<char> {
        r.file
    }

    fn file(&self) -> (r: &str) {
        self.file.as_str()
    }
}

/// A file, or a construct of a certain kind in a file, with its score.
pub struct Hotspot {
    pub key: String,
    pub construct: Option<(String, String)>,
    pub changes: u64,
    pub authors: u64,
    pub score: u64,
}

pub struct HotspotModel {
    pub key: Seq<char>,
    pub construct: Option<(Seq<char>, Seq<char>)>,
    pub changes: int,
    pub authors: int,
    pub score: int,
}

impl View for Hotspot {
    type V = HotspotModel;

    open spec fn view(&self) -> HotspotModel {
        HotspotModel {
            key: self.key@,
            construct: match self.construct {
                Some((kind, file)) => Some((kind@, file@)),
                None => None,
            },
            changes: self.changes as int,
            authors: self.authors as int,
            score: self.score as int,
        }
    }
}

pub open spec fn file_spot(r: FileActivityModel) -> HotspotModel {
    HotspotModel {
        key: r.file,
        construct: None,
        changes: r.changes,
        authors: r.authors,
        score: r.changes * r.authors,
    }
}

pub open spec fn construct_spot(r: ConstructActivityModel) -> HotspotModel {
    HotspotModel {
        key: r.file + "::"@ + r.qualified_name,
        construct: Some((r.kind, r.file)),
        changes: r.changes,
        authors: r.authors,
        score: r.changes * r.authors,
    }
}

/// The highest score first.
impl Ranked for Hotspot {
    open spec fn le(a: HotspotModel, b: HotspotModel) -> bool {
        a.score >= b.score
    }

    proof fn le_total(a: HotspotModel, b: HotspotModel) {
    }

    proof fn le_transitive(a: HotspotModel, b: HotspotModel, c: HotspotModel) {
    }

    fn not_after(&self, other: &Hotspot) -> (r: bool) {
        self.score >= other.score
    }
}

impl Row for Hotspot {
    open spec fn entry(h: HotspotModel) -> EntryModel {
        let head = match h.construct {
            None => Map::empty().insert(
                "level"@,
                ValueModel::Message(MessageModel::of(messages::HOTSPOT_LEVEL_FILE@)),
            ),
            Some((kind, file)) => Map::empty().insert(
                "level"@,
                ValueModel::Message(MessageModel::of(messages::HOTSPOT_LEVEL_CONSTRUCT@)),
            ).insert("kind"@, ValueModel::Text(kind)).insert("file"@, ValueModel::Text(file)),
        };
        EntryModel {
            key: h.key,
            values: head.insert("changes"@, ValueModel::Count(h.changes)).insert(
                "unique_authors"@,
                ValueModel::Count(h.authors),
            ).insert("score"@, ValueModel::Count(h.score)),
        }
    }

    fn to_entry(self) -> (r: MetricEntry) {
        let mut values = Values::new();
        match self.construct {
            None => {
                values.insert(
                    "level",
                    MetricValue::Message(LocalizedMessage::code(messages::HOTSPOT_LEVEL_FILE)),
                );
            },
            Some((kind, file)) => {
                values.insert(
                    "level",
                    MetricValue::Message(LocalizedMessage::code(messages::HOTSPOT_LEVEL_CONSTRUCT)),
                );
                values.insert("kind", MetricValue::Text(kind));
                values.insert("file", MetricValue::Text(file));
            },
        }
        values.insert("changes", MetricValue::Count(self.changes));
        values.insert("unique_authors", MetricValue::Count(self.authors));
        values.insert("score", MetricValue::Count(self.score));
        MetricEntry { key: self.key, values }
    }
}

/// The spots of source files: the files themselves and what stands in them.
pub open spec fn all_spots(files: Seq<FileActivityModel>, constructs: Seq<ConstructActivityModel>) ->
    Seq<HotspotModel> {
    let kept = report::source_only::<FileActivity>(files);
    let held = report::source_only::<ConstructActivity>(constructs);
    Seq::new(kept.len(), |i: int| file_spot(kept[i])) + Seq::new(
        held.len(),
        |i: int| construct_spot(held[i]),
    )
}

pub open spec fn hotspot_columns() -> Seq<Seq<char>> {
    seq!["level"@, "kind"@, "file"@, "changes"@, "unique_authors"@, "score"@]
}

pub open spec fn hotspot_report(
    files: Seq<FileActivityModel>,
    constructs: Seq<ConstructActivityModel>,
) -> ResultModel {
    types::report_of(
        "hotspots"@,
        hotspot_columns(),
        report::entries_of::<Hotspot>(
            report::top_ranked::<Hotspot>(all_spots(files, constructs), MAX_HOTSPOTS as int),
        ),
    )
}

/// Every score fits in 64 bits.
pub open spec fn scores_fit(
    files: Seq<FileActivityModel>,
    constructs: Seq<ConstructActivityModel>,
) -> bool {
    &&& forall|i: int| 0 <= i < files.len() ==> file_spot(#[trigger] files[i]).score <= u64::MAX
    &&& forall|i: int|
        0 <= i < constructs.len() ==> construct_spot(#[trigger] constructs[i]).score <= u64::MAX
}

/// No spot lies outside the source files.
pub proof fn spots_are_in_sources(
    files: Seq<FileActivityModel>,
    constructs: Seq<ConstructActivityModel>,
    i: int,
)
    requires
        0 <= i < all_spots(files, constructs).len(),
    ensures
        exists|file: Seq<char>| #[trigger]
            source_filter::is_source(file) && match all_spots(files, constructs)[i].construct {
                None => all_spots(files, constructs)[i].key == file,
                Some((_, place)) => place == file,
            },
{
    let kept = report::source_only::<FileActivity>(files);
    let held = report::source_only::<ConstructActivity>(constructs);
    report::source_only_keeps::<FileActivity>(files);
    report::source_only_keeps::<ConstructActivity>(constructs);
    if i < kept.len() {
        assert(kept.contains(kept[i]));
        assert(source_filter::is_source(kept[i].file));
    } else {
        assert(held.contains(held[i - kept.len()]));
        assert(source_filter::is_source(held[i - kept.len()].file));
    }
}

pub struct HotspotsCollector;

impl Default for HotspotsCollector {
    fn default() -> (r: Self)
        ensures
            r == (HotspotsCollector {  }),
    {
        HotspotsCollector::new()
    }
}

impl HotspotsCollector {
    pub fn new() -> (r: Self)
        ensures
            r == (HotspotsCollector {  }),
    {
        HotspotsCollector
    }

    pub fn name(&self) -> (r: &str)
        ensures
            r@ == "hotspots"@,
    {
        "hotspots"
    }

    /// The report without any rows to draw on.
    pub fn finalize(&mut self) -> (r: MetricResult)
        ensures
            r@ == types::empty_report("hotspots"@),
    {
        MetricResult::empty("hotspots")
    }

    /// The report, given the activity of the files and of the constructs.
    pub fn finalize_from_rows(
        &mut self,
        files: Vec<FileActivity>,
        constructs: Vec<ConstructActivity>,
    ) -> (r: MetricResult)
        requires
            scores_fit(order::models(files@), order::models(constructs@)),
        ensures
            r@ == hotspot_report(order::models(files@), order::models(constructs@)),
    {
        let ghost all = order::models(constructs@);
        let ghost fs = order::models(files@);
        let kept = report::keep_source(files);
        let ghost ks = order::models(kept@);
        let mut spots: Vec<Hotspot> = Vec::new();
        for f in it: kept
            invariant
                order::models(it.seq()) == ks,
                ks == report::source_only::<FileActivity>(fs),
                scores_fit(fs, all),
                spots@.len() == it.index(),
                forall|k: int| 0 <= k < spots@.len() ==> (#[trigger] spots@[k])@ == file_spot(ks[k]),
        {
            proof {
                assert(order::models(it.seq())[it.index() as int] == f@);
                report::source_only_keeps::<FileActivity>(fs);
                assert(ks.contains(f@));
                let k = choose|k: int| 0 <= k < fs.len() && fs[k] == f@;
                assert(file_spot(fs[k]).score <= u64::MAX);
                assert(0 <= f.changes * f.authors) by (nonlinear_arith);
            }
            let score: u64 = f.changes * f.authors;
            spots.push(
                Hotspot {
                    key: f.file,
                    construct: None,
                    changes: f.changes,
                    authors: f.authors,
                    score,
                },
            );
        }
        let ghost first = ks.len();
        let held = report::keep_source(constructs);
        let ghost hs = order::models(held@);
        for c in it: held
            invariant
                order::models(it.seq()) == hs,
                hs == report::source_only::<ConstructActivity>(all),
                scores_fit(fs, all),
                first == ks.len(),
                spots@.len() == first + it.index(),
                forall|k: int| 0 <= k < first ==> (#[trigger] spots@[k])@ == file_spot(ks[k]),
                forall|k: int|
                    first <= k < spots@.len() ==> (#[trigger] spots@[k])@ == construct_spot(
                        hs[k - first],
                    ),
        {
            proof {
                assert(order::models(it.seq())[it.index() as int] == c@);
                report::source_only_keeps::<ConstructActivity>(all);
                assert(hs.contains(c@));
                let k = choose|k: int| 0 <= k < all.len() && all[k] == c@;
                assert(construct_spot(all[k]).score <= u64::MAX);
                assert(0 <= c.changes * c.authors) by (nonlinear_arith);
            }
            let score: u64 = c.changes * c.authors;
            let key = text::cat3(c.file.as_str(), "::", c.qualified_name.as_str());
            spots.push(
                Hotspot {
                    key,
                    construct: Some((c.kind, c.file)),
                    changes: c.changes,
                    authors: c.authors,
                    score,
                },
            );
        }
        proof {
            assert(order::models(spots@) =~= all_spots(fs, all));
        }
        let entries = report::ranked_entries(spots, MAX_HOTSPOTS);
        let columns = ["level", "kind", "file", "changes", "unique_authors", "score"];
        proof {
            assert(types::str_views(columns@) =~= hotspot_columns());
        }
        MetricResult::report("hotspots", &columns, entries)
    }
}

proof fn lemma_file_spot(files: Seq<FileActivityModel>, constructs: Seq<ConstructActivityModel>, k: int)
    requires
        0 <= k < files.len(),
        source_filter::is_source(files[k].file),
    ensures
        all_spots(files, constructs).contains(file_spot(files[k])),
{
    report::source_only_keeps::<FileActivity>(files);
    let kept = report::source_only::<FileActivity>(files);
    assert(files.contains(files[k]));
    assert(kept.contains(files[k]));
    let i = choose|i: int| 0 <= i < kept.len() && kept[i] == files[k];
    assert(all_spots(files, constructs)[i] == file_spot(files[k]));
}

proof fn lemma_construct_spot(files: Seq<FileActivityModel>, constructs: Seq<ConstructActivityModel>, k: int)
    requires
        0 <= k < constructs.len(),
        source_filter::is_source(constructs[k].file),
    ensures
        all_spots(files, constructs).contains(construct_spot(constructs[k])),
{
    report::source_only_keeps::<ConstructActivity>(constructs);
    let kept = report::source_only::<FileActivity>(files);
    let held = report::source_only::<ConstructActivity>(constructs);
    assert(constructs.contains(constructs[k]));
    assert(held.contains(constructs[k]));
    let i = choose|i: int| 0 <= i < held.len() && held[i] == constructs[k];
    assert(all_spots(files, constructs)[kept.len() + i] == construct_spot(constructs[k]));
}

/// Every source file is shown with its score, unless there are more spots than
/// the report holds.
pub proof fn every_source_file_is_a_spot(files: Seq<FileActivityModel>, constructs: Seq<ConstructActivityModel>, k: int)
    requires
        0 <= k < files.len(),
        source_filter::is_source(files[k].file),
        all_spots(files, constructs).len() <= 500,
    ensures
        exists|i: int|
            0 <= i < hotspot_report(files, constructs).entries.len() && ({
                let e = #[trigger] hotspot_report(files, constructs).entries[i];
                let r = files[k];
                &&& e.key == r.file
                &&& e.values["level"@] == ValueModel::Message(MessageModel::of(messages::HOTSPOT_LEVEL_FILE@))
                &&& e.values["changes"@] == ValueModel::Count(r.changes)
                &&& e.values["unique_authors"@] == ValueModel::Count(r.authors)
                &&& e.values["score"@] == ValueModel::Count(r.changes * r.authors)
            }),
{
    let s = all_spots(files, constructs);
    let x = file_spot(files[k]);
    let ranked = report::top_ranked::<Hotspot>(all_spots(files, constructs), 500);
    lemma_file_spot(files, constructs, k);
    report::top_ranked_members::<Hotspot>(all_spots(files, constructs), 500);
    report::top_ranked_len::<Hotspot>(all_spots(files, constructs), 500);
    assert(s.contains(x));
    assert(ranked.contains(x));
    let i = choose|i: int| 0 <= i < ranked.len() && ranked[i] == x;
    assert(hotspot_report(files, constructs).entries[i] == Hotspot::entry(x));
    reveal_strlit("level");
    reveal_strlit("changes");
    reveal_strlit("unique_authors");
    reveal_strlit("score");
    assert("level"@.len() != "changes"@.len());
    assert("level"@.len() != "unique_authors"@.len());
    assert("level"@[0] != "score"@[0]);
    assert("changes"@.len() != "unique_authors"@.len());
    assert("changes"@.len() != "score"@.len());
    assert("unique_authors"@.len() != "score"@.len());
}

/// Every construct of a source file is shown with its score, unless there are
/// more spots than the report holds.
pub proof fn every_source_construct_is_a_spot(files: Seq<FileActivityModel>, constructs: Seq<ConstructActivityModel>, k: int)
    requires
        0 <= k < constructs.len(),
        source_filter::is_source(constructs[k].file),
        all_spots(files, constructs).len() <= 500,
    ensures
        exists|i: int|
            0 <= i < hotspot_report(files, constructs).entries.len() && ({
                let e = #[trigger] hotspot_report(files, constructs).entries[i];
                let r = constructs[k];
                &&& e.key == r.file + "::"@ + r.qualified_name
                &&& e.values["level"@] == ValueModel::Message(MessageModel::of(messages::HOTSPOT_LEVEL_CONSTRUCT@))
                &&& e.values["kind"@] == ValueModel::Text(r.kind)
                &&& e.values["file"@] == ValueModel::Text(r.file)
                &&& e.values["changes"@] == ValueModel::Count(r.changes)
                &&& e.values["unique_authors"@] == ValueModel::Count(r.authors)
                &&& e.values["score"@] == ValueModel::Count(r.changes * r.authors)
            }),
{
    let s = all_spots(files, constructs);
    let x = construct_spot(constructs[k]);
    let ranked = report::top_ranked::<Hotspot>(all_spots(files, constructs), 500);
    lemma_construct_spot(files, constructs, k);
    report::top_ranked_members::<Hotspot>(all_spots(files, constructs), 500);
    report::top_ranked_len::<Hotspot>(all_spots(files, constructs), 500);
    assert(s.contains(x));
    assert(ranked.contains(x));
    let i = choose|i: int| 0 <= i < ranked.len() && ranked[i] == x;
    assert(hotspot_report(files, constructs).entries[i] == Hotspot::entry(x));
    reveal_strlit("level");
    reveal_strlit("kind");
    reveal_strlit("file");
    reveal_strlit("changes");
    reveal_strlit("unique_authors");
    reveal_strlit("score");
    assert("level"@.len() != "kind"@.len());
    assert("level"@.len() != "file"@.len());
    assert("level"@.len() != "changes"@.len());
    assert("level"@.len() != "unique_authors"@.len());
    assert("level"@[0] != "score"@[0]);
    assert("kind"@[0] != "file"@[0]);
    assert("kind"@.len() != "changes"@.len());
    assert("kind"@.len() != "unique_authors"@.len());
    assert("kind"@.len() != "score"@.len());
    assert("file"@.len() != "changes"@.len());
    assert("file"@.len() != "unique_authors"@.len());
    assert("file"@.len() != "score"@.len());
    assert("changes"@.len() != "unique_authors"@.len());
    assert("changes"@.len() != "score"@.len());
    assert("unique_authors"@.len() != "score"@.len());
}

/// The spots with the highest scores stand first; a score is the number of
/// changes times the number of authors.
pub proof fn hottest_first(files: Seq<FileActivityModel>, constructs: Seq<ConstructActivityModel>, i: int, j: int)
    requires
        0 <= i < j < hotspot_report(files, constructs).entries.len(),
    ensures
        ({
            let a = hotspot_report(files, constructs).entries[i].values;
            let b = hotspot_report(files, constructs).entries[j].values;
            a["score"@]->Count_0 >= b["score"@]->Count_0 && a["score"@]->Count_0 == a["changes"@]->Count_0 * a["unique_authors"@]->Count_0
        }),
{
    let ranked = report::top_ranked::<Hotspot>(all_spots(files, constructs), 500);
    report::top_ranked_leads::<Hotspot>(all_spots(files, constructs), 500);
    lemma_scores(files, constructs);
    report::top_ranked_members::<Hotspot>(all_spots(files, constructs), 500);
    assert(all_spots(files, constructs).contains(ranked[i]));
    assert(hotspot_report(files, constructs).entries[i] == Hotspot::entry(ranked[i]));
    assert(hotspot_report(files, constructs).entries[j] == Hotspot::entry(ranked[j]));
    assert(Hotspot::le(ranked[i], ranked[j]));
    reveal_strlit("changes");
    reveal_strlit("unique_authors");
    reveal_strlit("score");
    reveal_strlit("level");
    reveal_strlit("kind");
    reveal_strlit("file");
    assert("changes"@.len() != "unique_authors"@.len());
    assert("changes"@.len() != "score"@.len());
    assert("changes"@.len() != "level"@.len());
    assert("changes"@.len() != "kind"@.len());
    assert("changes"@.len() != "file"@.len());
    assert("unique_authors"@.len() != "score"@.len());
    assert("unique_authors"@.len() != "level"@.len());
    assert("unique_authors"@.len() != "kind"@.len());
    assert("unique_authors"@.len() != "file"@.len());
    assert("score"@[0] != "level"@[0]);
    assert("score"@.len() != "kind"@.len());
    assert("score"@.len() != "file"@.len());
    assert("level"@.len() != "kind"@.len());
    assert("level"@.len() != "file"@.len());
    assert("kind"@[0] != "file"@[0]);
}

proof fn lemma_scores(files: Seq<FileActivityModel>, constructs: Seq<ConstructActivityModel>)
    ensures
        forall|x: HotspotModel| #[trigger]
            all_spots(files, constructs).contains(x) ==> x.score == x.changes * x.authors,
{
}

/// The report has these columns, in this order.
pub proof fn the_columns_are_these(files: Seq<FileActivityModel>, constructs: Seq<ConstructActivityModel>)
    ensures
        hotspot_report(files, constructs).name == "hotspots"@,
        hotspot_report(files, constructs).columns.len() == 6,
        hotspot_report(files, constructs).columns[0].value == "level"@,
        hotspot_report(files, constructs).columns[1].value == "kind"@,
        hotspot_report(files, constructs).columns[2].value == "file"@,
        hotspot_report(files, constructs).columns[3].value == "changes"@,
        hotspot_report(files, constructs).columns[4].value == "unique_authors"@,
        hotspot_report(files, constructs).columns[5].value == "score"@,
{
}

/// The limits that hold here.
pub proof fn the_limits_are_these()
    ensures
        MAX_HOTSPOTS == 500,
{
}

} // verus!
