//! Comments that mark work left undone.

use vstd::prelude::*;

use crate::analysis::line_classifier;
use crate::analysis::line_classifier::{classify_with, CommentState, LineType};
use crate::analysis::source_filter;
use crate::analysis::source_filter::is_source_file;
use crate::blob;
use crate::fold;
use crate::langs::data::Language;
use crate::langs::detection;
use crate::langs::detection::detect_language_info;
use crate::langs::scoring;
use crate::langs::scoring::language_matchers;
use crate::messages;
use crate::order;
use crate::order::Ranked;
use crate::pattern;
use crate::pattern::{Match, MatchModel, Searcher};
use crate::report;
use crate::report::Row;
use crate::table;
use crate::table::TextMap;
use crate::text;
use crate::types;
use crate::types::{EntryModel, LocalizedMessage, MessageModel, MetricEntry, MetricResult, MetricValue, ResultModel, Severity, ValueModel, Values};

verus! {

/// Larger files are not searched.
pub const MAX_BLOB_BYTES: u64 = 512_000;

/// At most this many markers are kept.
pub const MAX_MARKERS: usize = 200;

/// At most this many files are blamed.
pub const MAX_BLAME_FILES: usize = 150;

/// A marker in any case; group 1 is the marker, group 2 the owner given in
/// brackets, if any, and group 3 the text.
pub const MARKER: &'static str =
    "(?i)\\b(TODO|FIXME|HACK|XXX)\\b(?:\\(([^)]+)\\))?\\s*[:\\-]?\\s*(.*)";

/// Longer texts are cut to so many bytes.
pub const MAX_SNIPPET_BYTES: usize = 120;

/// The match of a marker in a line.
pub open spec fn marker_in(line: Seq<char>) -> Option<MatchModel> {
    pattern::found(MARKER@, line)
}

pub fn find_marker(line: &str) -> (r: Option<Match>)
    ensures
        pattern::opt_match(r) == marker_in(line@),
{
    Searcher::new(MARKER).find(line)
}

/// A marker in a file.
#[derive(Debug)]
pub struct MarkerHit {
    pub file: String,
    pub line: u32,
    pub marker: String,
    pub owner: Option<String>,
    pub text: String,
}

pub struct MarkerHitModel {
    pub file: Seq<char>,
    pub line: int,
    pub marker: Seq<char>,
    pub owner: Option<Seq<char>>,
    pub text: Seq<char>,
}

impl View for MarkerHit {
    type V = MarkerHitModel;

    open spec fn view(&self) -> MarkerHitModel {
        MarkerHitModel {
            file: self.file@,
            line: self.line as int,
            marker: self.marker@,
            owner: pattern::opt_text(self.owner),
            text: self.text@,
        }
    }
}

/// A comment of the language opens in the text.
pub open spec fn opens_comment(lang: Language, s: Seq<char>) -> bool {
    ||| exists|i: int|
        0 <= i < lang.line_comments@.len() && text::contains(
            s,
            (#[trigger] lang.line_comments@[i])@,
        )
    ||| exists|i: int|
        0 <= i < lang.block_comments@.len() && text::contains(
            s,
            (#[trigger] lang.block_comments@[i]).0@,
        )
}

fn has_comment_open(lang: &Language, s: &str) -> (r: bool)
    ensures
        r == opens_comment(*lang, s@),
{
    let lines = lang.line_comments;
    let n: usize = lines.len();
    let mut i: usize = 0;
    while i < n
        invariant
            lines@ == lang.line_comments@,
            n == lines@.len(),
            i <= n,
            forall|k: int|
                0 <= k < i ==> !text::contains(s@, (#[trigger] lang.line_comments@[k])@),
        decreases n - i,
    {
        if text::has(s, lines[i]) {
            return true;
        }
        i += 1;
    }
    let blocks = lang.block_comments;
    let m: usize = blocks.len();
    let mut j: usize = 0;
    while j < m
        invariant
            blocks@ == lang.block_comments@,
            m == blocks@.len(),
            j <= m,
            forall|k: int|
                0 <= k < lang.line_comments@.len() ==> !text::contains(
                    s@,
                    (#[trigger] lang.line_comments@[k])@,
                ),
            forall|k: int|
                0 <= k < j ==> !text::contains(s@, (#[trigger] lang.block_comments@[k]).0@),
        decreases m - j,
    {
        if text::has(s, blocks[j].0) {
            return true;
        }
        j += 1;
    }
    false
}

pub open spec fn or_empty(s: Option<Seq<char>>) -> Seq<char> {
    match s {
        Some(t) => t,
        None => Seq::empty(),
    }
}

/// What a match in line `line` of a file records: nothing, unless the line is a
/// comment or a comment opens before the match.
pub open spec fn hit_of(
    file: Seq<char>,
    line: int,
    kind: LineType,
    lang: Language,
    m: Option<MatchModel>,
) -> Option<MarkerHitModel> {
    match m {
        None => None,
        Some(m) => if kind == LineType::Comment || opens_comment(lang, m.before) {
            Some(
                MarkerHitModel {
                    file,
                    line,
                    marker: text::upper_ascii(or_empty(pattern::group(m, 1))),
                    owner: pattern::group(m, 2),
                    text: text::trim(or_empty(pattern::group(m, 3))),
                },
            )
        } else {
            None
        },
    }
}

fn text_or_empty(s: Option<&str>) -> (r: String)
    ensures
        r@ == or_empty(match s {
            Some(t) => Some(t@),
            None => None,
        }),
{
    match s {
        Some(t) => text::copy_text(t),
        None => String::new(),
    }
}

/// What a match in a line of a file records.
pub fn to_hit(file: &str, line: u32, kind: LineType, lang: &Language, m: Option<Match>) -> (r: Option<
    MarkerHit,
>)
    ensures
        match r {
            Some(h) => hit_of(file@, line as int, kind, *lang, pattern::opt_match(m)) == Some(h@),
            None => hit_of(file@, line as int, kind, *lang, pattern::opt_match(m)) is None,
        },
{
    match m {
        None => None,
        Some(m) => {
            if kind != LineType::Comment && !has_comment_open(lang, m.before.as_str()) {
                return None;
            }
            let word = text_or_empty(pattern::group_text(&m, 1));
            let owner = match pattern::group_text(&m, 2) {
                Some(t) => Some(text::copy_text(t)),
                None => None,
            };
            let rest = text_or_empty(pattern::group_text(&m, 3));
            Some(
                MarkerHit {
                    file: text::copy_text(file),
                    line,
                    marker: text::to_upper_ascii(word.as_str()),
                    owner,
                    text: text::trimmed(rest.as_str()),
                },
            )
        },
    }
}

/// The number of the line after `i` others; beyond the largest number there is
/// only that number.
pub open spec fn line_number(i: int) -> int {
    if i < u32::MAX {
        i + 1
    } else {
        u32::MAX as int
    }
}

/// The markers in the first `n` lines of a file.
pub open spec fn hits_in(file: Seq<char>, lines: Seq<Seq<char>>, lang: Language, n: int) -> Seq<
    MarkerHitModel,
>
    decreases n,
{
    if n <= 0 {
        Seq::empty()
    } else {
        let so_far = hits_in(file, lines, lang, n - 1);
        let kind = line_classifier::classified_lines(lines.take(n), Some(lang)).0[n - 1];
        match hit_of(file, line_number(n - 1), kind, lang, marker_in(lines[n - 1])) {
            Some(h) => so_far.push(h),
            None => so_far,
        }
    }
}

/// Adds the markers in the comments of a file.
pub fn scan_file(path: &str, content: &str, lang: &Language, hits: &mut Vec<MarkerHit>)
    requires
        scoring::well_marked(*lang),
    ensures
        ({
            let lines = text::lines_of(content@);
            order::models(final(hits)@) == order::models(old(hits)@) + hits_in(
                path@,
                lines,
                *lang,
                lines.len() as int,
            )
        }),
{
    let ghost given = order::models(hits@);
    let finder = Searcher::new(MARKER);
    let matchers = language_matchers(lang);
    let lines = text::lines(content);
    let ghost all = text::views(lines@);
    let n: usize = lines.len();
    let mut state = CommentState::new();
    let mut i: usize = 0;
    proof {
        assert(all.take(0).len() == 0);
        assert(given + Seq::<MarkerHitModel>::empty() =~= given);
    }
    while i < n
        invariant
            n == lines@.len(),
            all == text::views(lines@),
            scoring::well_marked(*lang),
            scoring::matchers_of(matchers, *lang),
            finder.is_for(MARKER@),
            i <= n,
            state@ == line_classifier::classified_lines(all.take(i as int), Some(*lang)).1,
            order::models(hits@) == given + hits_in(path@, all, *lang, i as int),
        decreases n - i,
    {
        let ghost before = order::models(hits@);
        let line = lines[i].as_str();
        proof {
            assert(all.take(i + 1).drop_last() =~= all.take(i as int));
            assert(all.take(i + 1).last() == line@);
            assert(all[i as int] == line@);
            line_classifier::one_kind_per_line(all.take(i as int), Some(*lang));
        }
        let kind = classify_with(line, lang, &matchers, &mut state, i == 0);
        let number: u32 = if i < u32::MAX as usize {
            i as u32 + 1
        } else {
            u32::MAX
        };
        if let Some(h) = to_hit(path, number, kind, lang, finder.find(line)) {
            hits.push(h);
            proof {
                assert(order::models(hits@) =~= before.push(h@));
                assert(before.push(h@) =~= given + hits_in(path@, all, *lang, i as int).push(h@));
            }
        }
        i += 1;
    }
}

/// The markers in a file of the tree: none, unless it is readable text in a
/// known language.
pub open spec fn markers_of(path: Seq<char>, data: Seq<u8>) -> Seq<MarkerHitModel> {
    match blob::readable(data, MAX_BLOB_BYTES as int) {
        None => Seq::empty(),
        Some(content) => match detection::detected(path, Some(content)) {
            None => Seq::empty(),
            Some(lang) => {
                let lines = text::lines_of(content);
                hits_in(path, lines, lang, lines.len() as int)
            },
        },
    }
}

// ---------------------------------------------------------------------------
// Who left a marker, and when
// ---------------------------------------------------------------------------

/// Lines of a file from `start` on, counted from 0, that one commit left: its
/// author and time, if they could be read.
#[derive(Debug)]
pub struct BlamedLines {
    pub start: u32,
    pub len: u32,
    pub author: Option<(String, i64)>,
}

pub struct BlamedLinesModel {
    pub start: int,
    pub len: int,
    pub author: Option<(Seq<char>, int)>,
}

impl View for BlamedLines {
    type V = BlamedLinesModel;

    open spec fn view(&self) -> BlamedLinesModel {
        BlamedLinesModel {
            start: self.start as int,
            len: self.len as int,
            author: match self.author {
                Some((email, t)) => Some((email@, t as int)),
                None => None,
            },
        }
    }
}

/// The first lines from `i` on that hold line `target`, counted from 0.
pub open spec fn lines_with(blame: Seq<BlamedLinesModel>, target: int, i: int) -> Option<int>
    decreases blame.len() - i,
{
    if i >= blame.len() {
        None
    } else if blame[i].start <= target < blame[i].start + blame[i].len {
        Some(i)
    } else {
        lines_with(blame, target, i + 1)
    }
}

/// The author of line `line`, counted from 1, and its age in days.
pub open spec fn author_and_age(blame: Seq<BlamedLinesModel>, line: int, now: int) -> Option<
    (Seq<char>, int),
> {
    let target = if line > 0 {
        line - 1
    } else {
        0
    };
    match lines_with(blame, target, 0) {
        None => None,
        Some(i) => match blame[i].author {
            None => None,
            Some((email, t)) => Some(
                (
                    email,
                    if now > t {
                        (now - t) / 86_400
                    } else {
                        0
                    },
                ),
            ),
        },
    }
}

pub fn blame_for_line(blame: &[BlamedLines], line: u32, now: i64) -> (r: Option<(String, i64)>)
    ensures
        match r {
            Some((email, age)) => author_and_age(order::models(blame@), line as int, now as int)
                == Some((email@, age as int)) && age >= 0,
            None => author_and_age(order::models(blame@), line as int, now as int) is None,
        },
{
    let ghost all = order::models(blame@);
    let target: u32 = if line > 0 {
        line - 1
    } else {
        0
    };
    let n: usize = blame.len();
    let mut i: usize = 0;
    while i < n
        invariant
            n == blame@.len(),
            all == order::models(blame@),
            target == (if line > 0 {
                line - 1
            } else {
                0
            }),
            i <= n,
            lines_with(all, target as int, 0) == lines_with(all, target as int, i as int),
        decreases n - i,
    {
        let b = &blame[i];
        proof {
            assert(all[i as int] == b@);
        }
        if b.start <= target && (target as u64) < b.start as u64 + b.len as u64 {
            return match &b.author {
                None => None,
                Some((email, t)) => {
                    let age: i64 = if now > *t {
                        ((now as i128 - *t as i128) / 86_400) as i64
                    } else {
                        0
                    };
                    Some((text::copy_text(email.as_str()), age))
                },
            };
        }
        i += 1;
    }
    None
}

/// A marker with its author and age; an age of -1 is not known.
#[derive(Debug)]
pub struct EnrichedMarker {
    pub hit: MarkerHit,
    pub author: String,
    pub age_days: i64,
}

pub struct EnrichedMarkerModel {
    pub hit: MarkerHitModel,
    pub author: Seq<char>,
    pub age_days: int,
}

impl View for EnrichedMarker {
    type V = EnrichedMarkerModel;

    open spec fn view(&self) -> EnrichedMarkerModel {
        EnrichedMarkerModel {
            hit: self.hit@,
            author: self.author@,
            age_days: self.age_days as int,
        }
    }
}

/// The oldest first; those of unknown age last.
impl Ranked for EnrichedMarker {
    open spec fn le(a: EnrichedMarkerModel, b: EnrichedMarkerModel) -> bool {
        b.age_days == -1 || (a.age_days != -1 && a.age_days >= b.age_days)
    }

    proof fn le_total(a: EnrichedMarkerModel, b: EnrichedMarkerModel) {
    }

    proof fn le_transitive(a: EnrichedMarkerModel, b: EnrichedMarkerModel, c: EnrichedMarkerModel) {
    }

    fn not_after(&self, other: &EnrichedMarker) -> (r: bool) {
        other.age_days == -1 || (self.age_days != -1 && self.age_days >= other.age_days)
    }
}

fn copy_hit(h: &MarkerHit) -> (r: MarkerHit)
    ensures
        r@ == h@,
{
    MarkerHit {
        file: text::copy_text(h.file.as_str()),
        line: h.line,
        marker: text::copy_text(h.marker.as_str()),
        owner: match &h.owner {
            Some(o) => Some(text::copy_text(o.as_str())),
            None => None,
        },
        text: text::copy_text(h.text.as_str()),
    }
}

/// A file and how many markers it holds.
pub struct MarkedFile {
    pub file: String,
    pub markers: u64,
}

pub struct MarkedFileModel {
    pub file: Seq<char>,
    pub markers: int,
}

impl View for MarkedFile {
    type V = MarkedFileModel;

    open spec fn view(&self) -> MarkedFileModel {
        MarkedFileModel { file: self.file@, markers: self.markers as int }
    }
}

/// The most markers first.
impl Ranked for MarkedFile {
    open spec fn le(a: MarkedFileModel, b: MarkedFileModel) -> bool {
        a.markers >= b.markers
    }

    proof fn le_total(a: MarkedFileModel, b: MarkedFileModel) {
    }

    proof fn le_transitive(a: MarkedFileModel, b: MarkedFileModel, c: MarkedFileModel) {
    }

    fn not_after(&self, other: &MarkedFile) -> (r: bool) {
        self.markers >= other.markers
    }
}

/// How many markers each file holds, the files in lexicographic order.
pub open spec fn marked(hits: Seq<MarkerHitModel>) -> Seq<(Seq<char>, u64)>
    decreases hits.len(),
{
    if hits.len() == 0 {
        Seq::empty()
    } else {
        crate::tally::credited(marked(hits.drop_last()), hits.last().file, 1)
    }
}

/// The files with the most markers, as far as they are source files: those that
/// are blamed. Files outside the source count toward the limit.
pub open spec fn files_to_blame(hits: Seq<MarkerHitModel>) -> Seq<Seq<char>> {
    let m = marked(hits);
    let all = Seq::new(m.len(), |i: int| MarkedFileModel { file: m[i].0, markers: m[i].1 as int });
    sources(report::top_ranked::<MarkedFile>(all, MAX_BLAME_FILES as int))
}

pub open spec fn sources(s: Seq<MarkedFileModel>) -> Seq<Seq<char>>
    decreases s.len(),
{
    if s.len() == 0 {
        Seq::empty()
    } else if source_filter::is_source(s.last().file) {
        sources(s.drop_last()).push(s.last().file)
    } else {
        sources(s.drop_last())
    }
}

/// A file's blame.
pub struct Blame {
    pub file: String,
    pub lines: Vec<BlamedLines>,
}

pub struct BlameModel {
    pub file: Seq<char>,
    pub lines: Seq<BlamedLinesModel>,
}

impl View for Blame {
    type V = BlameModel;

    open spec fn view(&self) -> BlameModel {
        BlameModel { file: self.file@, lines: order::models(self.lines@) }
    }
}

pub open spec fn blamed_hit(h: MarkerHitModel, lines: Seq<BlamedLinesModel>, now: int) ->
    EnrichedMarkerModel {
    match author_and_age(lines, h.line, now) {
        Some((author, age_days)) => EnrichedMarkerModel { hit: h, author, age_days },
        None => EnrichedMarkerModel { hit: h, author: "<unknown>"@, age_days: -1 },
    }
}

/// The first `n` markers, as far as they stand in the blamed file.
pub open spec fn enriched_file(
    hits: Seq<MarkerHitModel>,
    b: BlameModel,
    now: int,
    n: int,
) -> Seq<EnrichedMarkerModel>
    decreases n,
{
    if n <= 0 {
        Seq::empty()
    } else if hits[n - 1].file == b.file {
        enriched_file(hits, b, now, n - 1).push(blamed_hit(hits[n - 1], b.lines, now))
    } else {
        enriched_file(hits, b, now, n - 1)
    }
}

/// The markers of the first `n` blamed files, file by file.
pub open spec fn enriched_files(
    hits: Seq<MarkerHitModel>,
    blames: Seq<BlameModel>,
    now: int,
    n: int,
) -> Seq<EnrichedMarkerModel>
    decreases n,
{
    if n <= 0 {
        Seq::empty()
    } else {
        enriched_files(hits, blames, now, n - 1) + enriched_file(
            hits,
            blames[n - 1],
            now,
            hits.len() as int,
        )
    }
}

/// A marker stands at the same place.
pub open spec fn is_listed(s: Seq<EnrichedMarkerModel>, h: MarkerHitModel) -> bool {
    exists|i: int|
        0 <= i < s.len() && (#[trigger] s[i]).hit.file == h.file && s[i].hit.line == h.line
}

/// The list with those of the first `n` markers that are not in it yet.
pub open spec fn with_unblamed(
    s: Seq<EnrichedMarkerModel>,
    hits: Seq<MarkerHitModel>,
    n: int,
) -> Seq<EnrichedMarkerModel>
    decreases n,
{
    if n <= 0 {
        s
    } else {
        let so_far = with_unblamed(s, hits, n - 1);
        if is_listed(so_far, hits[n - 1]) {
            so_far
        } else {
            so_far.push(
                EnrichedMarkerModel { hit: hits[n - 1], author: "<not-blamed>"@, age_days: -1 },
            )
        }
    }
}

/// All markers with what is known of them, the oldest first, as many as are
/// kept.
pub open spec fn enriched(hits: Seq<MarkerHitModel>, blames: Seq<BlameModel>, now: int) -> Seq<
    EnrichedMarkerModel,
> {
    let blamed = enriched_files(hits, blames, now, blames.len() as int);
    report::top_ranked::<EnrichedMarker>(
        with_unblamed(blamed, hits, hits.len() as int),
        MAX_MARKERS as int,
    )
}

/// Every marker is in the list before it is cut, blamed or not.
pub proof fn no_marker_is_lost(s: Seq<EnrichedMarkerModel>, hits: Seq<MarkerHitModel>, n: int)
    requires
        0 <= n <= hits.len(),
    ensures
        forall|i: int| 0 <= i < n ==> is_listed(with_unblamed(s, hits, n), #[trigger] hits[i]),
    decreases n,
{
    if n > 0 {
        no_marker_is_lost(s, hits, n - 1);
        let before = with_unblamed(s, hits, n - 1);
        let after = with_unblamed(s, hits, n);
        assert forall|i: int| 0 <= i < n implies is_listed(after, #[trigger] hits[i]) by {
            if is_listed(before, hits[i]) {
                let k = choose|k: int|
                    0 <= k < before.len() && (#[trigger] before[k]).hit.file == hits[i].file
                        && before[k].hit.line == hits[i].line;
                assert(after[k] == before[k]);
            } else {
                assert(after[after.len() - 1].hit == hits[n - 1]);
            }
        }
    }
}

fn listed(s: &[EnrichedMarker], h: &MarkerHit) -> (r: bool)
    ensures
        r == is_listed(order::models(s@), h@),
{
    let ghost all = order::models(s@);
    let n: usize = s.len();
    let mut i: usize = 0;
    while i < n
        invariant
            n == s@.len(),
            all == order::models(s@),
            i <= n,
            forall|k: int|
                0 <= k < i ==> !((#[trigger] all[k]).hit.file == h@.file && all[k].hit.line
                    == h@.line),
        decreases n - i,
    {
        proof {
            assert(all[i as int] == s@[i as int]@);
        }
        if s[i].hit.line == h.line && text::same(s[i].hit.file.as_str(), h.file.as_str()) {
            return true;
        }
        i += 1;
    }
    false
}

/// What is said of a marker of that age.
pub open spec fn advice(age_days: int) -> MessageModel {
    let code = if age_days < 0 {
        messages::DEBT_MARKERS_RECOMMENDATION_AGE_UNKNOWN@
    } else if age_days < 30 {
        messages::DEBT_MARKERS_RECOMMENDATION_FRESH@
    } else if age_days < 180 {
        messages::DEBT_MARKERS_RECOMMENDATION_AGING@
    } else if age_days < 365 {
        messages::DEBT_MARKERS_RECOMMENDATION_STALE@
    } else {
        messages::DEBT_MARKERS_RECOMMENDATION_ROTTEN@
    };
    let told = MessageModel::of(code).with_number(
        "age_days"@,
        if age_days > 0 {
            age_days
        } else {
            0
        },
    );
    if age_days < 30 {
        told
    } else if age_days < 180 {
        told.severe(Severity::Info)
    } else if age_days < 365 {
        told.severe(Severity::Warning)
    } else {
        told.severe(Severity::Error)
    }
}

pub fn classify(age_days: i64) -> (r: LocalizedMessage)
    ensures
        r@ == advice(age_days as int),
{
    let (code, severity) = if age_days < 0 {
        (messages::DEBT_MARKERS_RECOMMENDATION_AGE_UNKNOWN, None)
    } else if age_days < 30 {
        (messages::DEBT_MARKERS_RECOMMENDATION_FRESH, None)
    } else if age_days < 180 {
        (messages::DEBT_MARKERS_RECOMMENDATION_AGING, Some(Severity::Info))
    } else if age_days < 365 {
        (messages::DEBT_MARKERS_RECOMMENDATION_STALE, Some(Severity::Warning))
    } else {
        (messages::DEBT_MARKERS_RECOMMENDATION_ROTTEN, Some(Severity::Error))
    };
    let age: i64 = if age_days > 0 {
        age_days
    } else {
        0
    };
    let msg = LocalizedMessage::code(code).with_param("age_days", age);
    match severity {
        Some(s) => msg.with_severity(s),
        None => msg,
    }
}

/// How many characters fit in `bytes` bytes of UTF-8.
pub open spec fn chars_within(s: Seq<char>, bytes: int) -> int
    decreases s.len(),
{
    if s.len() == 0 {
        0
    } else {
        let width = vstd::utf8::encode_scalar(s[0] as u32).len() as int;
        if width > bytes {
            0
        } else {
            1 + chars_within(s.skip(1), bytes - width)
        }
    }
}

/// The text, cut after the last character that fits where it is too long.
pub open spec fn snippet(s: Seq<char>) -> Seq<char> {
    if vstd::utf8::encode_utf8(s).len() <= MAX_SNIPPET_BYTES {
        s
    } else {
        s.take(chars_within(s, MAX_SNIPPET_BYTES as int)) + "…"@
    }
}

/// How many bytes a character takes in UTF-8.
fn width_of(c: char) -> (r: usize)
    ensures
        r == vstd::utf8::encode_scalar(c as u32).len(),
        1 <= r <= 4,
{
    let n: u32 = c as u32;
    if n <= 0x7f {
        1
    } else if n <= 0x7ff {
        2
    } else if n <= 0xffff {
        3
    } else {
        4
    }
}

proof fn lemma_chars_within(s: Seq<char>, bytes: int)
    ensures
        0 <= chars_within(s, bytes) <= s.len(),
    decreases s.len(),
{
    if s.len() > 0 {
        let width = vstd::utf8::encode_scalar(s[0] as u32).len() as int;
        lemma_chars_within(s.skip(1), bytes - width);
    }
}

/// A cut text fits, and with its next character it would not.
pub proof fn cut_is_tight(s: Seq<char>, bytes: int)
    requires
        bytes >= 0,
    ensures
        ({
            let n = chars_within(s, bytes);
            &&& 0 <= n <= s.len()
            &&& vstd::utf8::encode_utf8(s.take(n)).len() <= bytes
            &&& n < s.len() ==> vstd::utf8::encode_utf8(s.take(n + 1)).len() > bytes
        }),
    decreases s.len(),
{
    let n = chars_within(s, bytes);
    if s.len() > 0 {
        let width = vstd::utf8::encode_scalar(s[0] as u32).len() as int;
        let rest = s.skip(1);
        if width > bytes {
            assert(s.take(0).len() == 0);
            assert(s.take(1).drop_first() =~= Seq::empty());
            assert(s.take(1)[0] == s[0]);
        } else {
            cut_is_tight(rest, bytes - width);
            let m = chars_within(rest, bytes - width);
            assert(s.take(n).drop_first() =~= rest.take(m));
            assert(s.take(n)[0] == s[0]);
            if n < s.len() {
                assert(s.take(n + 1).drop_first() =~= rest.take(m + 1));
                assert(s.take(n + 1)[0] == s[0]);
            }
        }
    } else {
        assert(s.take(0).len() == 0);
    }
}

/// Cuts a long text at the end of a character, and marks the cut.
pub fn truncate_snippet(s: &str) -> (r: String)
    ensures
        r@ == snippet(s@),
{
    if s.as_bytes().len() <= MAX_SNIPPET_BYTES {
        return text::copy_text(s);
    }
    let v = text::to_chars(s);
    let n: usize = v.len();
    let mut left: usize = MAX_SNIPPET_BYTES;
    let mut i: usize = 0;
    proof {
        assert(s@.skip(0) =~= s@);
    }
    while i < n && width_of(v[i]) <= left
        invariant
            n == v@.len(),
            v@ == s@,
            i <= n,
            chars_within(s@, MAX_SNIPPET_BYTES as int) == i + chars_within(
                s@.skip(i as int),
                left as int,
            ),
        decreases n - i,
    {
        proof {
            assert(s@.skip(i as int).skip(1) =~= s@.skip(i + 1));
            assert(s@.skip(i as int)[0] == s@[i as int]);
        }
        left -= width_of(v[i]);
        i += 1;
    }
    let head = vstd::slice::slice_subrange(v.as_slice(), 0, i);
    proof {
        if i < n {
            assert(s@.skip(i as int)[0] == s@[i as int]);
        } else {
            assert(s@.skip(i as int).len() == 0);
        }
        assert(head@ =~= s@.take(i as int));
    }
    text::cat(text::to_text(head).as_str(), "…")
}

impl Row for EnrichedMarker {
    open spec fn entry(e: EnrichedMarkerModel) -> EntryModel {
        EntryModel {
            key: e.hit.file + ":"@ + text::decimal(e.hit.line as nat),
            values: Map::empty().insert("marker"@, ValueModel::Text(e.hit.marker)).insert(
                "age_days"@,
                if e.age_days < 0 {
                    ValueModel::Text("—"@)
                } else {
                    ValueModel::Count(e.age_days)
                },
            ).insert("author"@, ValueModel::Text(e.author)).insert(
                "owner"@,
                ValueModel::Text(or_empty(e.hit.owner)),
            ).insert("text"@, ValueModel::Text(snippet(e.hit.text))).insert(
                "recommendation"@,
                ValueModel::Message(advice(e.age_days)),
            ),
        }
    }

    fn to_entry(self) -> (r: MetricEntry) {
        let number = text::decimal_text(self.hit.line as u64);
        let key = text::cat3(self.hit.file.as_str(), ":", number.as_str());
        let mut values = Values::new();
        values.insert("marker", MetricValue::Text(self.hit.marker));
        values.insert(
            "age_days",
            if self.age_days < 0 {
                MetricValue::Text(text::copy_text("—"))
            } else {
                MetricValue::Count(self.age_days as u64)
            },
        );
        values.insert("author", MetricValue::Text(self.author));
        values.insert(
            "owner",
            MetricValue::Text(
                match self.hit.owner {
                    Some(o) => o,
                    None => String::new(),
                },
            ),
        );
        values.insert("text", MetricValue::Text(truncate_snippet(self.hit.text.as_str())));
        values.insert("recommendation", MetricValue::Message(classify(self.age_days)));
        MetricEntry { key, values }
    }
}

pub open spec fn marker_columns() -> Seq<Seq<char>> {
    seq![
        "marker"@,
        "age_days"@,
        "author"@,
        "owner"@,
        "text"@,
        "recommendation"@,
    ]
}

pub open spec fn marker_report(s: Seq<EnrichedMarkerModel>) -> ResultModel {
    types::report_of("debt_markers"@, marker_columns(), report::entries_of::<EnrichedMarker>(s))
}

proof fn lemma_marked(hits: Seq<MarkerHitModel>)
    ensures
        table::ascending(marked(hits)),
        hits.len() <= u64::MAX ==> crate::tally::sum(marked(hits)) == hits.len(),
    decreases hits.len(),
{
    if hits.len() > 0 {
        let before = marked(hits.drop_last());
        lemma_marked(hits.drop_last());
        crate::tally::amount_within_sum(before, hits.last().file);
        table::put_ascends(
            before,
            hits.last().file,
            (crate::tally::amount(before, hits.last().file) + 1) as u64,
        );
        if hits.len() <= u64::MAX {
            crate::tally::sum_of_credited(before, hits.last().file, 1);
        }
    }
}

fn count_by_file(hits: &[MarkerHit]) -> (r: TextMap<u64>)
    ensures
        r@ == marked(order::models(hits@)),
{
    let ghost all = order::models(hits@);
    let mut m: TextMap<u64> = TextMap::new();
    let n: usize = hits.len();
    let mut i: usize = 0;
    proof {
        assert(all.take(0).len() == 0);
    }
    while i < n
        invariant
            n == hits@.len(),
            all == order::models(hits@),
            i <= n,
            m@ == marked(all.take(i as int)),
        decreases n - i,
    {
        proof {
            assert(all.take(i + 1).drop_last() =~= all.take(i as int));
            assert(all.take(i + 1).last() == hits@[i as int]@);
            lemma_marked(all.take(i as int));
            crate::tally::amount_within_sum(m@, hits@[i as int].file@);
        }
        crate::tally::credit(&mut m, hits[i].file.as_str(), 1);
        i += 1;
    }
    proof {
        assert(all.take(n as int) =~= all);
    }
    m
}

#[derive(Debug)]
pub struct DebtMarkersCollector {
    pub hits: Vec<MarkerHit>,
    pub enriched: Vec<EnrichedMarker>,
}

impl Default for DebtMarkersCollector {
    fn default() -> (r: Self)
        ensures
            r.hits@.len() == 0,
            r.enriched@.len() == 0,
    {
        DebtMarkersCollector::new()
    }
}

impl DebtMarkersCollector {
    pub fn new() -> (r: Self)
        ensures
            r.hits@.len() == 0,
            r.enriched@.len() == 0,
    {
        DebtMarkersCollector { hits: Vec::new(), enriched: Vec::new() }
    }

    pub fn name(&self) -> (r: &str)
        ensures
            r@ == "debt_markers"@,
    {
        "debt_markers"
    }

    /// Records the markers in a file of the tree.
    pub fn inspect_blob(&mut self, path: &str, data: &[u8])
        ensures
            order::models(final(self).hits@) == order::models(old(self).hits@) + markers_of(
                path@,
                data@,
            ),
            final(self).enriched == old(self).enriched,
    {
        let ghost given = order::models(self.hits@);
        proof {
            assert(given + Seq::<MarkerHitModel>::empty() =~= given);
        }
        if let Some(content) = blob::readable_text(data, MAX_BLOB_BYTES) {
            if let Some(lang) = detect_language_info(path, Some(content)) {
                scan_file(path, content, &lang, &mut self.hits);
            }
        }
    }

    /// The files whose blame is wanted, in the order in which it is.
    pub fn wanted_files(&self) -> (r: Vec<String>)
        ensures
            text::views(r@) == files_to_blame(order::models(self.hits@)),
    {
        let m = count_by_file(self.hits.as_slice());
        let ghost all = Seq::new(
            m@.len(),
            |i: int| MarkedFileModel { file: m@[i].0, markers: m@[i].1 as int },
        );
        let n: usize = m.len();
        let mut list: Vec<MarkedFile> = Vec::new();
        let mut i: usize = 0;
        while i < n
            invariant
                n == m@.len(),
                all == Seq::new(
                    m@.len(),
                    |i: int| MarkedFileModel { file: m@[i].0, markers: m@[i].1 as int },
                ),
                i <= n,
                list@.len() == i,
                forall|k: int| 0 <= k < i ==> (#[trigger] list@[k])@ == all[k],
            decreases n - i,
        {
            list.push(MarkedFile { file: m.key_at(i).clone(), markers: *m.value_at(i) });
            i += 1;
        }
        proof {
            assert(order::models(list@) =~= all);
        }
        let sorted = order::sort_rows(list);
        proof {
            order::models_of_first_n(sorted@, MAX_BLAME_FILES as int);
        }
        let top = order::keep_first(sorted, MAX_BLAME_FILES);
        let ghost chosen = order::models(top@);
        let mut out: Vec<String> = Vec::new();
        proof {
            assert(chosen.take(0).len() == 0);
            assert(text::views(out@) =~= Seq::empty());
        }
        for f in it: top
            invariant
                order::models(it.seq()) == chosen,
                text::views(out@) == sources(chosen.take(it.index() as int)),
        {
            let ghost before = text::views(out@);
            let ghost j = it.index() as int;
            proof {
                assert(order::models(it.seq())[j] == f@);
                assert(chosen.take(j + 1).drop_last() =~= chosen.take(j));
                assert(chosen.take(j + 1).last() == f@);
            }
            if is_source_file(f.file.as_str()) {
                out.push(f.file);
                proof {
                    assert(text::views(out@) =~= before.push(f@.file));
                }
            }
        }
        proof {
            assert(chosen.take(chosen.len() as int) =~= chosen);
        }
        out
    }

    /// Settles who left each marker and when, given the blame of the files that
    /// could be blamed, at the time `now`. Without markers nothing changes.
    pub fn enrich(&mut self, blames: &[Blame], now: i64)
        ensures
            old(self).hits@.len() == 0 ==> *final(self) == *old(self),
            old(self).hits@.len() > 0 ==> final(self).hits@.len() == 0 && order::models(
                final(self).enriched@,
            ) == enriched(
                order::models(old(self).hits@),
                order::models(blames@),
                now as int,
            ),
    {
        if self.hits.len() == 0 {
            return;
        }
        let ghost hits = order::models(self.hits@);
        let mut list = blamed_markers(self.hits.as_slice(), blames, now);
        let ghost known = order::models(list@);
        let n: usize = self.hits.len();
        let mut i: usize = 0;
        while i < n
            invariant
                n == self.hits@.len(),
                hits == order::models(self.hits@),
                i <= n,
                order::models(list@) == with_unblamed(known, hits, i as int),
            decreases n - i,
        {
            let ghost before = order::models(list@);
            proof {
                assert(hits[i as int] == self.hits@[i as int]@);
            }
            if !listed(&list, &self.hits[i]) {
                let e = EnrichedMarker {
                    hit: copy_hit(&self.hits[i]),
                    author: text::copy_text("<not-blamed>"),
                    age_days: -1,
                };
                list.push(e);
                proof {
                    assert(order::models(list@) =~= before.push(e@));
                }
            }
            i += 1;
        }
        let sorted = order::sort_rows(list);
        proof {
            order::models_of_first_n(sorted@, MAX_MARKERS as int);
        }
        self.hits = Vec::new();
        self.enriched = order::keep_first(sorted, MAX_MARKERS);
    }

    /// Reports the settled markers and forgets them.
    pub fn finalize(&mut self) -> (r: MetricResult)
        ensures
            r@ == marker_report(order::models(old(self).enriched@)),
            final(self).enriched@.len() == 0,
            final(self).hits == old(self).hits,
    {
        let mut list: Vec<EnrichedMarker> = Vec::new();
        std::mem::swap(&mut list, &mut self.enriched);
        let entries = report::to_entries(list);
        let columns = [
            "marker",
            "age_days",
            "author",
            "owner",
            "text",
            "recommendation",
        ];
        proof {
            assert(types::str_views(columns@) =~= marker_columns());
        }
        MetricResult::report("debt_markers", &columns, entries)
    }
}

fn blamed_markers(hits: &[MarkerHit], blames: &[Blame], now: i64) -> (r: Vec<EnrichedMarker>)
    ensures
        order::models(r@) == enriched_files(
            order::models(hits@),
            order::models(blames@),
            now as int,
            blames@.len() as int,
        ),
{
    let ghost hs = order::models(hits@);
    let ghost bs = order::models(blames@);
    let n: usize = blames.len();
    let mut out: Vec<EnrichedMarker> = Vec::new();
    let mut i: usize = 0;
    proof {
        assert(order::models(out@) =~= Seq::empty());
    }
    while i < n
        invariant
            n == blames@.len(),
            bs == order::models(blames@),
            hs == order::models(hits@),
            i <= n,
            order::models(out@) == enriched_files(hs, bs, now as int, i as int),
        decreases n - i,
    {
        let ghost before = order::models(out@);
        let b = &blames[i];
        proof {
            assert(bs[i as int] == b@);
            assert(before + Seq::<EnrichedMarkerModel>::empty() =~= before);
        }
        let m: usize = hits.len();
        let mut j: usize = 0;
        while j < m
            invariant
                m == hits@.len(),
                hs == order::models(hits@),
                j <= m,
                order::models(out@) == before + enriched_file(hs, b@, now as int, j as int),
            decreases m - j,
        {
            let ghost so_far = order::models(out@);
            let h = &hits[j];
            proof {
                assert(hs[j as int] == h@);
            }
            if text::same(h.file.as_str(), b.file.as_str()) {
                let (author, age_days) = match blame_for_line(b.lines.as_slice(), h.line, now) {
                    Some(found) => found,
                    None => (text::copy_text("<unknown>"), -1),
                };
                let e = EnrichedMarker { hit: copy_hit(h), author, age_days };
                out.push(e);
                proof {
                    assert(order::models(out@) =~= so_far.push(e@));
                    assert(so_far.push(e@) =~= before + enriched_file(
                        hs,
                        b@,
                        now as int,
                        j as int,
                    ).push(e@));
                }
            }
            j += 1;
        }
        i += 1;
    }
    out
}

/// A match is a marker in a comment only: in a line that is one, or behind what
/// opens one.
pub proof fn markers_stand_in_comments(
    file: Seq<char>,
    line: int,
    kind: LineType,
    lang: Language,
    m: MatchModel,
)
    ensures
        kind == LineType::Comment ==> hit_of(file, line, kind, lang, Some(m)) is Some,
        opens_comment(lang, m.before) ==> hit_of(file, line, kind, lang, Some(m)) is Some,
        kind != LineType::Comment && !opens_comment(lang, m.before) ==> hit_of(
            file,
            line,
            kind,
            lang,
            Some(m),
        ) is None,
        hit_of(file, line, kind, lang, None) is None,
        hit_of(file, line, kind, lang, Some(m)) matches Some(h) ==> {
            &&& h.file == file
            &&& h.line == line
            &&& h.owner == pattern::group(m, 2)
            &&& pattern::group(m, 1) matches Some(word) ==> h.marker == text::upper_ascii(word)
            &&& pattern::group(m, 3) matches Some(rest) ==> h.text == text::trim(rest)
        },
{
}

/// A comment opens where one of the language's openings stands.
pub proof fn openings_open_comments(lang: Language, s: Seq<char>, i: int)
    ensures
        0 <= i < lang.line_comments@.len() && text::contains(s, lang.line_comments@[i]@)
            ==> opens_comment(lang, s),
        0 <= i < lang.block_comments@.len() && text::contains(s, lang.block_comments@[i].0@)
            ==> opens_comment(lang, s),
{
}

/// Every line with a marker is recorded under its number, counted from one, and
/// no other line is.
pub proof fn every_marked_line_is_recorded(
    file: Seq<char>,
    lines: Seq<Seq<char>>,
    lang: Language,
    n: int,
    h: MarkerHitModel,
)
    requires
        0 <= n <= lines.len(),
        n < u32::MAX,
    ensures
        hits_in(file, lines, lang, n).contains(h) <==> exists|i: int|
            0 <= i < n && hit_of(
                file,
                i + 1,
                line_classifier::classified_lines(lines.take(i + 1), Some(lang)).0[i],
                lang,
                marker_in(#[trigger] lines[i]),
            ) == Some(h),
    decreases n,
{
    if n > 0 {
        every_marked_line_is_recorded(file, lines, lang, n - 1, h);
        let was = hits_in(file, lines, lang, n - 1);
        let is = hits_in(file, lines, lang, n);
        if is.contains(h) {
            let k = choose|k: int| 0 <= k < is.len() && is[k] == h;
            if k < was.len() {
                assert(was[k] == h);
            } else {
                assert(hit_of(
                    file,
                    n,
                    line_classifier::classified_lines(lines.take(n), Some(lang)).0[n - 1],
                    lang,
                    marker_in(lines[n - 1]),
                ) == Some(h));
            }
        }
        if exists|i: int|
            0 <= i < n && hit_of(
                file,
                i + 1,
                line_classifier::classified_lines(lines.take(i + 1), Some(lang)).0[i],
                lang,
                marker_in(#[trigger] lines[i]),
            ) == Some(h) {
            let i = choose|i: int|
                0 <= i < n && hit_of(
                    file,
                    i + 1,
                    line_classifier::classified_lines(lines.take(i + 1), Some(lang)).0[i],
                    lang,
                    marker_in(#[trigger] lines[i]),
                ) == Some(h);
            if i < n - 1 {
                let k = choose|k: int| 0 <= k < was.len() && was[k] == h;
                assert(is[k] == h);
            } else {
                assert(is[is.len() - 1] == h);
            }
        }
    }
}

/// Only readable text of up to half a million bytes in a known language is
/// searched.
pub proof fn only_known_text_is_searched(path: Seq<char>, data: Seq<u8>)
    ensures
        blob::readable(data, 512_000) is None ==> markers_of(path, data).len() == 0,
        detection::detected(path, blob::readable(data, 512_000)) is None ==> markers_of(
            path,
            data,
        ).len() == 0,
{
}

proof fn lemma_lines_with(blame: Seq<BlamedLinesModel>, target: int, i: int)
    requires
        0 <= i <= blame.len(),
    ensures
        match lines_with(blame, target, i) {
            Some(k) => i <= k < blame.len() && blame[k].start <= target < blame[k].start
                + blame[k].len,
            None => forall|k: int|
                i <= k < blame.len() ==> !((#[trigger] blame[k]).start <= target < blame[k].start
                    + blame[k].len),
        },
    decreases blame.len() - i,
{
    if i < blame.len() {
        lemma_lines_with(blame, target, i + 1);
    }
}

/// A line is as old as the commit that its lines were blamed on, in whole days,
/// and has that author. Lines are counted from one, blamed lines from zero.
pub proof fn a_line_is_as_old_as_its_commit(
    blame: Seq<BlamedLinesModel>,
    line: int,
    now: int,
    k: int,
)
    requires
        line >= 1,
        0 <= k < blame.len(),
        blame[k].start < line <= blame[k].start + blame[k].len,
        forall|j: int|
            0 <= j < blame.len() && j != k ==> !((#[trigger] blame[j]).start < line
                <= blame[j].start + blame[j].len),
    ensures
        match blame[k].author {
            Some((email, t)) => author_and_age(blame, line, now) matches Some((a, age)) && a == email
                && (t <= now ==> age * 86_400 <= now - t < (age + 1) * 86_400) && (t >= now ==> age
                == 0),
            None => author_and_age(blame, line, now) is None,
        },
{
    lemma_lines_with(blame, line - 1, 0);
}

/// A line that was blamed on nothing has neither author nor age.
pub proof fn an_unblamed_line_has_no_author(blame: Seq<BlamedLinesModel>, line: int, now: int)
    requires
        line >= 1,
        forall|j: int|
            0 <= j < blame.len() ==> !((#[trigger] blame[j]).start < line <= blame[j].start
                + blame[j].len),
    ensures
        author_and_age(blame, line, now) is None,
{
    lemma_lines_with(blame, line - 1, 0);
}

/// The older a marker, the more urgent is what is said of it: nothing for a
/// month, then a remark, a warning after half a year, an error after a year.
pub proof fn older_markers_are_more_urgent(age: int)
    ensures
        age < 0 ==> advice(age).code == messages::DEBT_MARKERS_RECOMMENDATION_AGE_UNKNOWN@
            && advice(age).severity is None,
        0 <= age < 30 ==> advice(age).code == messages::DEBT_MARKERS_RECOMMENDATION_FRESH@
            && advice(age).severity is None,
        30 <= age < 180 ==> advice(age).code == messages::DEBT_MARKERS_RECOMMENDATION_AGING@
            && advice(age).severity == Some(Severity::Info),
        180 <= age < 365 ==> advice(age).code == messages::DEBT_MARKERS_RECOMMENDATION_STALE@
            && advice(age).severity == Some(Severity::Warning),
        365 <= age ==> advice(age).code == messages::DEBT_MARKERS_RECOMMENDATION_ROTTEN@
            && advice(age).severity == Some(Severity::Error),
        age >= 0 ==> advice(age).params == seq![("age_days"@, types::ParamModel::Number(age))],
{
    assert(advice(age).params =~= seq![
        (
            "age_days"@,
            types::ParamModel::Number(
                if age > 0 {
                    age
                } else {
                    0
                },
            ),
        ),
    ]);
}

/// Markers of known age stand before the others, the oldest first, and there are
/// at most two hundred.
pub proof fn oldest_markers_first(
    hits: Seq<MarkerHitModel>,
    blames: Seq<BlameModel>,
    now: int,
    i: int,
    j: int,
)
    requires
        0 <= i < j < enriched(hits, blames, now).len(),
    ensures
        ({
            let s = enriched(hits, blames, now);
            &&& s.len() <= 200
            &&& s[i].age_days == -1 ==> s[j].age_days == -1
            &&& s[j].age_days != -1 ==> s[i].age_days >= s[j].age_days
        }),
{
    let all = with_unblamed(
        enriched_files(hits, blames, now, blames.len() as int),
        hits,
        hits.len() as int,
    );
    report::top_ranked_leads::<EnrichedMarker>(all, 200);
    report::top_ranked_len::<EnrichedMarker>(all, 200);
    let s = enriched(hits, blames, now);
    assert(EnrichedMarker::le(s[i], s[j]));
}

/// What is shown of a marker: where it stands, who wrote it and when, what it
/// says and what to do about it.
pub proof fn markers_are_shown(s: Seq<EnrichedMarkerModel>, i: int)
    requires
        0 <= i < s.len(),
    ensures
        marker_report(s).entries.len() == s.len(),
        ({
            let e = marker_report(s).entries[i];
            let m = s[i];
            &&& e.key == m.hit.file + ":"@ + text::decimal(m.hit.line as nat)
            &&& e.values["marker"@] == ValueModel::Text(m.hit.marker)
            &&& m.age_days >= 0 ==> e.values["age_days"@] == ValueModel::Count(m.age_days)
            &&& m.age_days < 0 ==> e.values["age_days"@] is Text
            &&& e.values["author"@] == ValueModel::Text(m.author)
            &&& m.hit.owner matches Some(o) ==> e.values["owner"@] == ValueModel::Text(o)
            &&& m.hit.owner is None ==> e.values["owner"@] == ValueModel::Text(Seq::empty())
            &&& e.values["text"@] == ValueModel::Text(snippet(m.hit.text))
            &&& e.values["recommendation"@] == ValueModel::Message(advice(m.age_days))
        }),
{
    reveal_strlit("marker");
    reveal_strlit("age_days");
    reveal_strlit("author");
    reveal_strlit("owner");
    reveal_strlit("text");
    reveal_strlit("recommendation");
    assert("marker"@.len() != "age_days"@.len());
    assert("marker"@[0] != "author"@[0]);
    assert("marker"@.len() != "owner"@.len());
    assert("marker"@.len() != "text"@.len());
    assert("marker"@.len() != "recommendation"@.len());
    assert("age_days"@.len() != "author"@.len());
    assert("age_days"@.len() != "owner"@.len());
    assert("age_days"@.len() != "text"@.len());
    assert("age_days"@.len() != "recommendation"@.len());
    assert("author"@.len() != "owner"@.len());
    assert("author"@.len() != "text"@.len());
    assert("author"@.len() != "recommendation"@.len());
    assert("owner"@.len() != "text"@.len());
    assert("owner"@.len() != "recommendation"@.len());
    assert("text"@.len() != "recommendation"@.len());
}

/// A text of up to a hundred and twenty bytes is shown whole; of a longer one a
/// prefix of no more than that, and a mark that it goes on.
pub proof fn snippets_are_short(s: Seq<char>)
    ensures
        vstd::utf8::encode_utf8(s).len() <= 120 ==> snippet(s) == s,
        vstd::utf8::encode_utf8(s).len() > 120 ==> exists|n: int|
            0 <= n <= s.len() && vstd::utf8::encode_utf8(s.take(n)).len() <= 120 && snippet(s)
                == #[trigger] s.take(n) + "…"@,
{
    cut_is_tight(s, 120);
    let n = chars_within(s, 120);
    assert(s.take(n) == s.take(n));
}

pub open spec fn stands_in(file: Seq<char>) -> spec_fn(MarkerHitModel) -> bool {
    |h: MarkerHitModel| h.file == file
}

/// A file has as many markers as were found in it.
pub proof fn files_have_their_markers(hits: Seq<MarkerHitModel>, file: Seq<char>)
    requires
        hits.len() <= u64::MAX,
    ensures
        crate::tally::amount(marked(hits), file) == fold::count(hits, stands_in(file)),
        crate::table::ascending(marked(hits)),
    decreases hits.len(),
{
    if hits.len() > 0 {
        let front = hits.drop_last();
        let last = hits.last();
        files_have_their_markers(front, file);
        files_have_their_markers(front, last.file);
        fold::lemma_count_bound(front, stands_in(last.file));
        crate::tally::amount_of_credited(marked(front), last.file, 1, file);
        crate::tally::sum_of_credited(marked(front), last.file, 1);
    }
}

/// Every marker of a blamed file is listed with what the blame says of its line.
pub proof fn blamed_markers_are_listed(
    hits: Seq<MarkerHitModel>,
    b: BlameModel,
    now: int,
    n: int,
    k: int,
)
    requires
        0 <= k < n <= hits.len(),
        hits[k].file == b.file,
    ensures
        exists|i: int|
            0 <= i < enriched_file(hits, b, now, n).len() && ({
                let m = #[trigger] enriched_file(hits, b, now, n)[i];
                &&& m.hit == hits[k]
                &&& author_and_age(b.lines, hits[k].line, now) matches Some((a, age)) ==> m.author
                    == a && m.age_days == age
                &&& author_and_age(b.lines, hits[k].line, now) is None ==> m.author == "<unknown>"@
                    && m.age_days == -1
            }),
    decreases n,
{
    let is = enriched_file(hits, b, now, n);
    if k == n - 1 {
        assert(is[is.len() - 1] == blamed_hit(hits[k], b.lines, now));
    } else {
        blamed_markers_are_listed(hits, b, now, n - 1, k);
        let was = enriched_file(hits, b, now, n - 1);
        let i = choose|i: int|
            0 <= i < was.len() && ({
                let m = #[trigger] was[i];
                &&& m.hit == hits[k]
                &&& author_and_age(b.lines, hits[k].line, now) matches Some((a, age)) ==> m.author
                    == a && m.age_days == age
                &&& author_and_age(b.lines, hits[k].line, now) is None ==> m.author == "<unknown>"@
                    && m.age_days == -1
            });
        assert(is[i] == was[i]);
    }
}

/// The report has these columns, in this order.
pub proof fn the_columns_are_these(s: Seq<EnrichedMarkerModel>)
    ensures
        marker_report(s).name == "debt_markers"@,
        marker_report(s).columns.len() == 6,
        marker_report(s).columns[0].value == "marker"@,
        marker_report(s).columns[1].value == "age_days"@,
        marker_report(s).columns[2].value == "author"@,
        marker_report(s).columns[3].value == "owner"@,
        marker_report(s).columns[4].value == "text"@,
        marker_report(s).columns[5].value == "recommendation"@,
{
}

/// The limits that hold here.
pub proof fn the_limits_are_these()
    ensures
        MAX_BLOB_BYTES == 512_000,
        MAX_MARKERS == 200,
        MAX_BLAME_FILES == 150,
        MAX_SNIPPET_BYTES == 120,
{
}

proof fn lemma_sources(s: Seq<MarkedFileModel>, x: Seq<char>)
    ensures
        sources(s).contains(x) <==> exists|k: int|
            0 <= k < s.len() && source_filter::is_source((#[trigger] s[k]).file) && x == s[k].file,
        sources(s).len() <= s.len(),
    decreases s.len(),
{
    if s.len() > 0 {
        let front = s.drop_last();
        let last = s.last();
        let was = sources(front);
        let is = sources(s);
        lemma_sources(front, x);
        assert(s[s.len() - 1] == last);
        assert(forall|k: int| 0 <= k < front.len() ==> front[k] == s[k]);
        if is.contains(x) {
            let i = choose|i: int| 0 <= i < is.len() && is[i] == x;
            if i < was.len() {
                assert(was[i] == x);
                let k = choose|k: int|
                    0 <= k < front.len() && source_filter::is_source((#[trigger] front[k]).file) && x == front[k].file;
                assert(s[k] == front[k]);
            }
        }
        if exists|k: int| 0 <= k < s.len() && source_filter::is_source((#[trigger] s[k]).file) && x == s[k].file {
            let k = choose|k: int|
                0 <= k < s.len() && source_filter::is_source((#[trigger] s[k]).file) && x == s[k].file;
            if k < front.len() {
                assert(front[k] == s[k]);
                let i = choose|i: int| 0 <= i < was.len() && was[i] == x;
                assert(is[i] == x);
            } else {
                assert(is[is.len() - 1] == x);
            }
        }
    }
}

/// The files that are blamed are source files with markers, those with the most
/// first, and at most a hundred and fifty.
pub proof fn marked_sources_are_blamed(hits: Seq<MarkerHitModel>, file: Seq<char>)
    ensures
        files_to_blame(hits).len() <= 150,
        files_to_blame(hits).contains(file) ==> source_filter::is_source(file) && table::keys(
            marked(hits),
        ).contains(file),
        marked(hits).len() <= 150 ==> (files_to_blame(hits).contains(file)
            <==> source_filter::is_source(file) && table::keys(marked(hits)).contains(file)),
{
    let m = marked(hits);
    let all = Seq::new(m.len(), |i: int| MarkedFileModel { file: m[i].0, markers: m[i].1 as int });
    let top = report::top_ranked::<MarkedFile>(all, 150);
    report::top_ranked_len::<MarkedFile>(all, 150);
    report::top_ranked_members::<MarkedFile>(all, 150);
    lemma_sources(top, file);
    let keys = table::keys(m);
    if files_to_blame(hits).contains(file) {
        let k = choose|k: int|
            0 <= k < top.len() && source_filter::is_source((#[trigger] top[k]).file) && file
                == top[k].file;
        assert(all.contains(top[k]));
        let i = choose|i: int| 0 <= i < all.len() && all[i] == top[k];
        assert(keys[i] == file);
    }
    if m.len() <= 150 && source_filter::is_source(file) && keys.contains(file) {
        let i = choose|i: int| 0 <= i < keys.len() && keys[i] == file;
        assert(all.contains(all[i]));
        assert(top.contains(all[i]));
        let k = choose|k: int| 0 <= k < top.len() && top[k] == all[i];
        assert(source_filter::is_source(top[k].file));
    }
}

/// A marker that no blame speaks of is listed without an age, and says so.
pub proof fn unblamed_markers_say_so(s: Seq<EnrichedMarkerModel>, hits: Seq<MarkerHitModel>, n: int)
    requires
        0 <= n < hits.len(),
    ensures
        is_listed(with_unblamed(s, hits, n), hits[n]) ==> with_unblamed(s, hits, n + 1)
            == with_unblamed(s, hits, n),
        !is_listed(with_unblamed(s, hits, n), hits[n]) ==> {
            let m = with_unblamed(s, hits, n + 1).last();
            &&& with_unblamed(s, hits, n + 1).len() == with_unblamed(s, hits, n).len() + 1
            &&& m.hit == hits[n]
            &&& m.author == "<not-blamed>"@
            &&& m.age_days == -1
        },
{
}

/// One more blamed file adds its markers behind those of the others.
pub proof fn blamed_files_follow_each_other(
    hits: Seq<MarkerHitModel>,
    blames: Seq<BlameModel>,
    now: int,
    n: int,
)
    requires
        0 <= n < blames.len(),
    ensures
        enriched_files(hits, blames, now, n + 1) == enriched_files(hits, blames, now, n)
            + enriched_file(hits, blames[n], now, hits.len() as int),
        enriched_files(hits, blames, now, 0).len() == 0,
        forall|i: int|
            0 <= i < enriched_file(hits, blames[n], now, hits.len() as int).len() ==> (
            #[trigger] enriched_file(hits, blames[n], now, hits.len() as int)[i]).hit.file
                == blames[n].file,
{
    lemma_enriched_file(hits, blames[n], now, hits.len() as int);
}

proof fn lemma_enriched_file(hits: Seq<MarkerHitModel>, b: BlameModel, now: int, n: int)
    requires
        0 <= n <= hits.len(),
    ensures
        forall|i: int|
            0 <= i < enriched_file(hits, b, now, n).len() ==> (#[trigger] enriched_file(
                hits,
                b,
                now,
                n,
            )[i]).hit.file == b.file,
    decreases n,
{
    if n > 0 {
        lemma_enriched_file(hits, b, now, n - 1);
        let was = enriched_file(hits, b, now, n - 1);
        let is = enriched_file(hits, b, now, n);
        assert forall|i: int| 0 <= i < is.len() implies (#[trigger] is[i]).hit.file == b.file by {
            if i < was.len() {
                assert(is[i] == was[i]);
            }
        }
    }
}

/// A comment opens where a mark of the language stands, and nowhere else.
pub proof fn comments_open_at_their_marks(lang: Language, s: Seq<char>)
    ensures
        forall|i: int, p: int|
            0 <= i < lang.line_comments@.len() && #[trigger] text::occurs_at(
                s,
                lang.line_comments@[i]@,
                p,
            ) ==> opens_comment(lang, s),
        forall|i: int, p: int|
            0 <= i < lang.block_comments@.len() && #[trigger] text::occurs_at(
                s,
                lang.block_comments@[i].0@,
                p,
            ) ==> opens_comment(lang, s),
        opens_comment(lang, s) ==> exists|p: int, w: Seq<char>| #[trigger]
            text::occurs_at(s, w, p) && ((exists|i: int|
                0 <= i < lang.line_comments@.len() && (#[trigger] lang.line_comments@[i])@ == w) || (
            exists|i: int|
                0 <= i < lang.block_comments@.len() && (#[trigger] lang.block_comments@[i]).0@
                    == w)),
{
    if opens_comment(lang, s) {
        if exists|i: int|
            0 <= i < lang.line_comments@.len() && text::contains(
                s,
                (#[trigger] lang.line_comments@[i])@,
            ) {
            let i = choose|i: int|
                0 <= i < lang.line_comments@.len() && text::contains(
                    s,
                    (#[trigger] lang.line_comments@[i])@,
                );
            let p = choose|p: int| text::occurs_at(s, lang.line_comments@[i]@, p);
            assert(text::occurs_at(s, lang.line_comments@[i]@, p));
        } else {
            let i = choose|i: int|
                0 <= i < lang.block_comments@.len() && text::contains(
                    s,
                    (#[trigger] lang.block_comments@[i]).0@,
                );
            let p = choose|p: int| text::occurs_at(s, lang.block_comments@[i].0@, p);
            assert(text::occurs_at(s, lang.block_comments@[i].0@, p));
        }
    }
}

} // verus!
