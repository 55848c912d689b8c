//! What languages a repository is written in.

use vstd::prelude::*;

use crate::analysis::line_classifier;
use crate::analysis::line_classifier::{count_lines, LineType};
use crate::blob;
use crate::fold;
use crate::langs::data::Language;
use crate::langs::detection;
use crate::langs::detection::detect_language_info;
use crate::langs::scoring;
use crate::order;
use crate::order::Ranked;
use crate::report;
use crate::report::Row;
use crate::table;
use crate::table::TextMap;
use crate::text;
use crate::types;
use crate::types::{EntryModel, MetricEntry, MetricResult, MetricValue, ResultModel, ValueModel, Values};

verus! {

pub use crate::blob::is_probably_binary;

/// Larger files are counted but not read.
pub const MAX_BLOB_BYTES: u64 = 2_097_152;

/// The files of one language.
#[derive(Debug)]
pub struct LangBucket {
    pub files: u64,
    pub code: u64,
    pub comment: u64,
    pub blank: u64,
    pub bytes: u64,
}

pub struct LangBucketModel {
    pub files: int,
    pub code: int,
    pub comment: int,
    pub blank: int,
    pub bytes: int,
}

impl View for LangBucket {
    type V = LangBucketModel;

    open spec fn view(&self) -> LangBucketModel {
        LangBucketModel {
            files: self.files as int,
            code: self.code as int,
            comment: self.comment as int,
            blank: self.blank as int,
            bytes: self.bytes as int,
        }
    }
}

impl LangBucketModel {
    pub open spec fn empty() -> LangBucketModel {
        LangBucketModel { files: 0, code: 0, comment: 0, blank: 0, bytes: 0 }
    }

    pub open spec fn total_lines(self) -> int {
        self.code + self.comment + self.blank
    }
}

/// The sum, but never more than the largest number.
pub open spec fn capped(n: int) -> int {
    if n > u64::MAX {
        u64::MAX as int
    } else {
        n
    }
}

/// A bucket with one more file of `bytes` bytes and that content.
pub open spec fn with_file(b: LangBucketModel, lang: Language, bytes: int, content: Seq<char>) ->
    LangBucketModel {
    let kinds = line_classifier::line_kinds(content, Some(lang));
    LangBucketModel {
        files: b.files + 1,
        code: capped(
            b.code + fold::count(kinds, line_classifier::is_kind(LineType::Code)) as int,
        ),
        comment: capped(
            b.comment + fold::count(kinds, line_classifier::is_kind(LineType::Comment)) as int,
        ),
        blank: capped(
            b.blank + fold::count(kinds, line_classifier::is_kind(LineType::Blank)) as int,
        ),
        bytes: capped(b.bytes + bytes),
    }
}

pub open spec fn bucket(m: Seq<(Seq<char>, LangBucketModel)>, name: Seq<char>) -> LangBucketModel {
    match table::lookup(m, name) {
        Some(b) => b,
        None => LangBucketModel::empty(),
    }
}

/// What a collector holds.
pub struct CompositionModel {
    pub buckets: Seq<(Seq<char>, LangBucketModel)>,
    pub unknown_files: int,
    pub unknown_bytes: int,
    pub binary_files: int,
}

impl CompositionModel {
    pub open spec fn empty() -> CompositionModel {
        CompositionModel {
            buckets: Seq::empty(),
            unknown_files: 0,
            unknown_bytes: 0,
            binary_files: 0,
        }
    }

    pub open spec fn recorded(self, lang: Language, bytes: int, content: Seq<char>) ->
        CompositionModel {
        CompositionModel {
            buckets: table::put(
                self.buckets,
                lang.name@,
                with_file(bucket(self.buckets, lang.name@), lang, bytes, content),
            ),
            unknown_files: self.unknown_files,
            unknown_bytes: self.unknown_bytes,
            binary_files: self.binary_files,
        }
    }

    pub open spec fn with_unknown(self, bytes: int) -> CompositionModel {
        CompositionModel {
            buckets: self.buckets,
            unknown_files: self.unknown_files + 1,
            unknown_bytes: self.unknown_bytes + bytes,
            binary_files: self.binary_files,
        }
    }

    pub open spec fn with_binary(self) -> CompositionModel {
        CompositionModel {
            buckets: self.buckets,
            unknown_files: self.unknown_files,
            unknown_bytes: self.unknown_bytes,
            binary_files: self.binary_files + 1,
        }
    }

    /// One more file. Empty ones are passed over; large ones and those of no
    /// known language are unknown.
    pub open spec fn inspected(self, path: Seq<char>, data: Seq<u8>) -> CompositionModel {
        if data.len() == 0 {
            self
        } else if data.len() > MAX_BLOB_BYTES {
            self.with_unknown(data.len() as int)
        } else if blob::looks_binary(data) {
            self.with_binary()
        } else {
            match blob::text_of(data) {
                None => self.with_binary(),
                Some(content) => match detection::detected(path, Some(content)) {
                    Some(lang) => self.recorded(lang, data.len() as int, content),
                    None => self.with_unknown(data.len() as int),
                },
            }
        }
    }

    /// The buckets stand in order, and one more file of `bytes` bytes can be
    /// counted.
    pub open spec fn has_room(self, bytes: int) -> bool {
        &&& table::ascending(self.buckets)
        &&& forall|i: int|
            0 <= i < self.buckets.len() ==> (#[trigger] self.buckets[i]).1.files < u64::MAX
        &&& self.unknown_files < u64::MAX
        &&& self.unknown_bytes + bytes <= u64::MAX
        &&& self.binary_files < u64::MAX
    }
}

/// A language and the share of its code in all code.
pub struct LangShare {
    pub name: String,
    pub files: u64,
    pub code: u64,
    pub comment: u64,
    pub blank: u64,
    pub written: u64,
    pub total_lines: u64,
    pub all_code: u64,
    pub bytes: u64,
}

pub struct LangShareModel {
    pub name: Seq<char>,
    pub files: int,
    pub code: int,
    pub comment: int,
    pub blank: int,
    pub written: int,
    pub total_lines: int,
    pub all_code: int,
    pub bytes: int,
}

impl View for LangShare {
    type V = LangShareModel;

    open spec fn view(&self) -> LangShareModel {
        LangShareModel {
            name: self.name@,
            files: self.files as int,
            code: self.code as int,
            comment: self.comment as int,
            blank: self.blank as int,
            written: self.written as int,
            total_lines: self.total_lines as int,
            all_code: self.all_code as int,
            bytes: self.bytes as int,
        }
    }
}

/// The most code first.
impl Ranked for LangShare {
    open spec fn le(a: LangShareModel, b: LangShareModel) -> bool {
        a.code >= b.code
    }

    proof fn le_total(a: LangShareModel, b: LangShareModel) {
    }

    proof fn le_transitive(a: LangShareModel, b: LangShareModel, c: LangShareModel) {
    }

    fn not_after(&self, other: &LangShare) -> (r: bool) {
        self.code >= other.code
    }
}

pub open spec fn share_entry(
    key: Seq<char>,
    b: LangBucketModel,
    total_lines: int,
    code_pct: ValueModel,
    comment_pct: ValueModel,
) -> EntryModel {
    EntryModel {
        key,
        values: Map::empty().insert("files"@, ValueModel::Count(b.files)).insert(
            "code"@,
            ValueModel::Count(b.code),
        ).insert("comment"@, ValueModel::Count(b.comment)).insert(
            "blank"@,
            ValueModel::Count(b.blank),
        ).insert("total_lines"@, ValueModel::Count(total_lines)).insert(
            "code_pct"@,
            code_pct,
        ).insert("comment_ratio_pct"@, comment_pct).insert("bytes"@, ValueModel::Count(b.bytes)),
    }
}

fn to_share_entry(
    key: String,
    b: LangBucket,
    total_lines: u64,
    code_pct: MetricValue,
    comment_pct: MetricValue,
) -> (r: MetricEntry)
    ensures
        r@ == share_entry(key@, b@, total_lines as int, code_pct@, comment_pct@),
{
    let mut values = Values::new();
    values.insert("files", MetricValue::Count(b.files));
    values.insert("code", MetricValue::Count(b.code));
    values.insert("comment", MetricValue::Count(b.comment));
    values.insert("blank", MetricValue::Count(b.blank));
    values.insert("total_lines", MetricValue::Count(total_lines));
    values.insert("code_pct", code_pct);
    values.insert("comment_ratio_pct", comment_pct);
    values.insert("bytes", MetricValue::Count(b.bytes));
    MetricEntry { key, values }
}

impl Row for LangShare {
    open spec fn entry(s: LangShareModel) -> EntryModel {
        share_entry(
            s.name,
            LangBucketModel {
                files: s.files,
                code: s.code,
                comment: s.comment,
                blank: s.blank,
                bytes: s.bytes,
            },
            s.total_lines,
            ValueModel::Percent(s.code, s.all_code),
            ValueModel::Percent(s.comment, s.written),
        )
    }

    fn to_entry(self) -> (r: MetricEntry) {
        let code_pct = MetricValue::Percent { num: self.code, den: self.all_code };
        let comment_pct = MetricValue::Percent { num: self.comment, den: self.written };
        let b = LangBucket {
            files: self.files,
            code: self.code,
            comment: self.comment,
            blank: self.blank,
            bytes: self.bytes,
        };
        to_share_entry(self.name, b, self.total_lines, code_pct, comment_pct)
    }
}

pub open spec fn code_of() -> spec_fn((Seq<char>, LangBucketModel)) -> nat {
    |p: (Seq<char>, LangBucketModel)| p.1.code as nat
}

pub open spec fn lang_share(p: (Seq<char>, LangBucketModel), all_code: int) -> LangShareModel {
    LangShareModel {
        name: p.0,
        files: p.1.files,
        code: p.1.code,
        comment: p.1.comment,
        blank: p.1.blank,
        written: p.1.code + p.1.comment,
        total_lines: p.1.total_lines(),
        all_code,
        bytes: p.1.bytes,
    }
}

pub open spec fn shares(m: Seq<(Seq<char>, LangBucketModel)>) -> Seq<LangShareModel> {
    Seq::new(m.len(), |i: int| lang_share(m[i], fold::total(m, code_of()) as int))
}

/// A row for files that were not read: no lines, no shares.
pub open spec fn unread_entry(key: Seq<char>, files: int, bytes: int) -> EntryModel {
    share_entry(
        key,
        LangBucketModel { files, code: 0, comment: 0, blank: 0, bytes },
        0,
        ValueModel::Percent(0, 0),
        ValueModel::Percent(0, 0),
    )
}

fn to_unread_entry(key: &str, files: u64, bytes: u64) -> (r: MetricEntry)
    ensures
        r@ == unread_entry(key@, files as int, bytes as int),
{
    let b = LangBucket { files, code: 0, comment: 0, blank: 0, bytes };
    to_share_entry(
        text::copy_text(key),
        b,
        0,
        MetricValue::Percent { num: 0, den: 0 },
        MetricValue::Percent { num: 0, den: 0 },
    )
}

pub open spec fn composition_columns() -> Seq<Seq<char>> {
    seq![
        "files"@,
        "code"@,
        "comment"@,
        "blank"@,
        "total_lines"@,
        "code_pct"@,
        "comment_ratio_pct"@,
        "bytes"@,
    ]
}

/// The languages by code, then a row for unknown files and one for binary
/// files, where there are any.
pub open spec fn composition_entries(c: CompositionModel) -> Seq<EntryModel> {
    let known = report::entries_of::<LangShare>(
        order::sort_ranked::<LangShare>(shares(c.buckets)),
    );
    let unknown = if c.unknown_files > 0 {
        known.push(unread_entry("(unknown)"@, c.unknown_files, c.unknown_bytes))
    } else {
        known
    };
    if c.binary_files > 0 {
        unknown.push(unread_entry("(binary/skipped)"@, c.binary_files, 0))
    } else {
        unknown
    }
}

pub open spec fn composition_report(c: CompositionModel) -> ResultModel {
    types::report_of("composition"@, composition_columns(), composition_entries(c))
}

/// The lines of each language, and the code of all, can be counted.
pub open spec fn lines_fit(m: Seq<(Seq<char>, LangBucketModel)>) -> bool {
    &&& fold::total(m, code_of()) <= u64::MAX
    &&& forall|i: int| 0 <= i < m.len() ==> (#[trigger] m[i]).1.total_lines() <= u64::MAX
}

/// Every file is counted once: in the bucket of its language, as unknown or as
/// binary; only empty files are not.
pub proof fn every_file_counts(c: CompositionModel, path: Seq<char>, data: Seq<u8>)
    requires
        table::ascending(c.buckets),
        forall|i: int| 0 <= i < c.buckets.len() ==> (#[trigger] c.buckets[i]).1.files >= 0,
    ensures
        files_in(c.inspected(path, data)) == files_in(c) + if data.len() == 0 {
            0int
        } else {
            1int
        },
{
    if let Some(content) = blob::text_of(data) {
        if let Some(lang) = detection::detected(path, Some(content)) {
            let b = bucket(c.buckets, lang.name@);
            let more = with_file(b, lang, data.len() as int, content);
            table::total_of_put(c.buckets, lang.name@, more, files_of());
            lemma_bucket_files(c.buckets, lang.name@);
        }
    }
}

pub open spec fn files_of() -> spec_fn((Seq<char>, LangBucketModel)) -> nat {
    |p: (Seq<char>, LangBucketModel)| p.1.files as nat
}

/// How many files were counted.
pub open spec fn files_in(c: CompositionModel) -> int {
    fold::total(c.buckets, files_of()) + c.unknown_files + c.binary_files
}

proof fn lemma_bucket_files(m: Seq<(Seq<char>, LangBucketModel)>, name: Seq<char>)
    requires
        forall|i: int| 0 <= i < m.len() ==> (#[trigger] m[i]).1.files >= 0,
    ensures
        bucket(m, name).files >= 0,
    decreases m.len(),
{
    if m.len() > 0 {
        let init = m.drop_last();
        assert forall|i: int| 0 <= i < init.len() implies (#[trigger] init[i]).1.files >= 0 by {
            assert(init[i] == m[i]);
        }
        lemma_bucket_files(init, name);
        assert(m[m.len() - 1].1.files >= 0);
    }
}

fn capped_sum(a: u64, b: u64) -> (r: u64)
    ensures
        r == capped(a + b),
{
    match a.checked_add(b) {
        Some(n) => n,
        None => u64::MAX,
    }
}

pub struct CompositionCollector {
    pub buckets: TextMap<LangBucket>,
    pub unknown_files: u64,
    pub unknown_bytes: u64,
    pub binary_files: u64,
}

impl View for CompositionCollector {
    type V = CompositionModel;

    open spec fn view(&self) -> CompositionModel {
        CompositionModel {
            buckets: self.buckets@,
            unknown_files: self.unknown_files as int,
            unknown_bytes: self.unknown_bytes as int,
            binary_files: self.binary_files as int,
        }
    }
}

impl Default for CompositionCollector {
    fn default() -> (r: Self)
        ensures
            r@ == CompositionModel::empty(),
    {
        CompositionCollector::new()
    }
}

impl CompositionCollector {
    pub fn new() -> (r: Self)
        ensures
            r@ == CompositionModel::empty(),
    {
        CompositionCollector {
            buckets: TextMap::new(),
            unknown_files: 0,
            unknown_bytes: 0,
            binary_files: 0,
        }
    }

    pub fn name(&self) -> (r: &str)
        ensures
            r@ == "composition"@,
    {
        "composition"
    }

    /// Counts a file of a known language.
    pub fn record(&mut self, lang: &Language, bytes: u64, content: &str)
        requires
            scoring::well_marked(*lang),
            table::ascending(old(self)@.buckets),
            bucket(old(self)@.buckets, lang.name@).files < u64::MAX,
        ensures
            final(self)@ == old(self)@.recorded(*lang, bytes as int, content@),
            table::ascending(final(self)@.buckets),
    {
        let counts = count_lines(content, Some(lang));
        let held = match self.buckets.get(lang.name) {
            Some(b) => LangBucket {
                files: b.files,
                code: b.code,
                comment: b.comment,
                blank: b.blank,
                bytes: b.bytes,
            },
            None => LangBucket { files: 0, code: 0, comment: 0, blank: 0, bytes: 0 },
        };
        let more = LangBucket {
            files: held.files + 1,
            code: capped_sum(held.code, counts.code),
            comment: capped_sum(held.comment, counts.comment),
            blank: capped_sum(held.blank, counts.blank),
            bytes: capped_sum(held.bytes, bytes),
        };
        self.buckets.insert(text::copy_text(lang.name), more);
    }

    /// Counts a file of the tree.
    pub fn inspect_blob(&mut self, path: &str, data: &[u8])
        requires
            old(self)@.has_room(data@.len() as int),
        ensures
            final(self)@ == old(self)@.inspected(path@, data@),
            table::ascending(final(self)@.buckets),
    {
        let bytes = data.len() as u64;
        if bytes == 0 {
            return;
        }
        if bytes > MAX_BLOB_BYTES {
            self.unknown_files += 1;
            self.unknown_bytes += bytes;
            return;
        }
        if is_probably_binary(data) {
            self.binary_files += 1;
            return;
        }
        match blob::as_text(data) {
            None => {
                self.binary_files += 1;
            },
            Some(content) => match detect_language_info(path, Some(content)) {
                Some(lang) => {
                    proof {
                        lemma_bucket_room(self.buckets@, lang.name@);
                    }
                    self.record(&lang, bytes, content)
                },
                None => {
                    self.unknown_files += 1;
                    self.unknown_bytes += bytes;
                },
            },
        }
    }

    /// Reports what was counted, and forgets the languages.
    pub fn finalize(&mut self) -> (r: MetricResult)
        requires
            lines_fit(old(self)@.buckets),
        ensures
            r@ == composition_report(old(self)@),
            final(self)@ == (CompositionModel { buckets: Seq::empty(), ..old(self)@ }),
    {
        let ghost given = self@;
        let mut buckets: TextMap<LangBucket> = TextMap::new();
        std::mem::swap(&mut buckets, &mut self.buckets);
        let ghost m = buckets@;
        let n: usize = buckets.len();
        let mut total_code: u64 = 0;
        let mut i: usize = 0;
        proof {
            assert(m.take(0).len() == 0);
        }
        while i < n
            invariant
                n == m.len(),
                m == buckets@,
                i <= n,
                lines_fit(m),
                total_code == fold::total(m.take(i as int), code_of()),
            decreases n - i,
        {
            proof {
                fold::lemma_total_step(m, code_of(), i as int);
            }
            total_code += buckets.value_at(i).code;
            i += 1;
        }
        proof {
            assert(m.take(n as int) =~= m);
        }
        let mut list: Vec<LangShare> = Vec::new();
        let mut j: usize = 0;
        while j < n
            invariant
                n == m.len(),
                m == buckets@,
                j <= n,
                lines_fit(m),
                total_code == fold::total(m, code_of()),
                list@.len() == j,
                forall|k: int| 0 <= k < j ==> (#[trigger] list@[k])@ == shares(m)[k],
            decreases n - j,
        {
            let b = buckets.value_at(j);
            proof {
                assert(m[j as int].1.total_lines() <= u64::MAX);
            }
            list.push(
                LangShare {
                    name: buckets.key_at(j).clone(),
                    files: b.files,
                    code: b.code,
                    comment: b.comment,
                    blank: b.blank,
                    written: b.code + b.comment,
                    total_lines: b.code + b.comment + b.blank,
                    all_code: total_code,
                    bytes: b.bytes,
                },
            );
            j += 1;
        }
        proof {
            assert(order::models(list@) =~= shares(m));
        }
        let mut entries = report::to_entries(order::sort_rows(list));
        let ghost known = types::entry_models(entries@);
        if self.unknown_files > 0 {
            let e = to_unread_entry("(unknown)", self.unknown_files, self.unknown_bytes);
            entries.push(e);
            proof {
                assert(types::entry_models(entries@) =~= known.push(e@));
            }
        }
        let ghost unknown = types::entry_models(entries@);
        if self.binary_files > 0 {
            let e = to_unread_entry("(binary/skipped)", self.binary_files, 0);
            entries.push(e);
            proof {
                assert(types::entry_models(entries@) =~= unknown.push(e@));
            }
        }
        let columns = [
            "files",
            "code",
            "comment",
            "blank",
            "total_lines",
            "code_pct",
            "comment_ratio_pct",
            "bytes",
        ];
        proof {
            assert(types::str_views(columns@) =~= composition_columns());
        }
        MetricResult::report("composition", &columns, entries)
    }
}

proof fn lemma_bucket_room(m: Seq<(Seq<char>, LangBucketModel)>, name: Seq<char>)
    requires
        forall|i: int| 0 <= i < m.len() ==> (#[trigger] m[i]).1.files < u64::MAX,
    ensures
        bucket(m, name).files < u64::MAX,
    decreases m.len(),
{
    if m.len() > 0 {
        let init = m.drop_last();
        assert forall|i: int| 0 <= i < init.len() implies (#[trigger] init[i]).1.files
            < u64::MAX by {
            assert(init[i] == m[i]);
        }
        lemma_bucket_room(init, name);
        assert(m[m.len() - 1].1.files < u64::MAX);
    }
}

/// Every language is shown with its files and lines, its share of all code and
/// the share of comments in what was written.
pub proof fn every_language_is_shown(c: CompositionModel, k: int)
    requires
        0 <= k < c.buckets.len(),
    ensures
        exists|i: int|
            0 <= i < composition_report(c).entries.len() && ({
                let e = #[trigger] composition_report(c).entries[i];
                let r = c.buckets[k];
                &&& e.key == r.0
                &&& e.values["files"@] == ValueModel::Count(r.1.files)
                &&& e.values["code"@] == ValueModel::Count(r.1.code)
                &&& e.values["comment"@] == ValueModel::Count(r.1.comment)
                &&& e.values["blank"@] == ValueModel::Count(r.1.blank)
                &&& e.values["total_lines"@] == ValueModel::Count(r.1.code + r.1.comment + r.1.blank)
                &&& e.values["code_pct"@] == ValueModel::Percent(r.1.code, fold::total(c.buckets, code_of()) as int)
                &&& e.values["comment_ratio_pct"@] == ValueModel::Percent(r.1.comment, r.1.code + r.1.comment)
                &&& e.values["bytes"@] == ValueModel::Count(r.1.bytes)
            }),
{
    let s = shares(c.buckets);
    let x = lang_share(c.buckets[k], fold::total(c.buckets, code_of()) as int);
    let ranked = order::sort_ranked::<LangShare>(shares(c.buckets));
    assert(s[k] == x);
    order::sort_same_members::<LangShare>(shares(c.buckets));
    order::sort_keeps_elements::<LangShare>(shares(c.buckets));
    assert(s.contains(x));
    assert(ranked.contains(x));
    let i = choose|i: int| 0 <= i < ranked.len() && ranked[i] == x;
    assert(composition_report(c).entries[i] == LangShare::entry(x));
    reveal_strlit("files");
    reveal_strlit("code");
    reveal_strlit("comment");
    reveal_strlit("blank");
    reveal_strlit("total_lines");
    reveal_strlit("code_pct");
    reveal_strlit("comment_ratio_pct");
    reveal_strlit("bytes");
    assert("files"@.len() != "code"@.len());
    assert("files"@.len() != "comment"@.len());
    assert("files"@[0] != "blank"@[0]);
    assert("files"@.len() != "total_lines"@.len());
    assert("files"@.len() != "code_pct"@.len());
    assert("files"@.len() != "comment_ratio_pct"@.len());
    assert("files"@[0] != "bytes"@[0]);
    assert("code"@.len() != "comment"@.len());
    assert("code"@.len() != "blank"@.len());
    assert("code"@.len() != "total_lines"@.len());
    assert("code"@.len() != "code_pct"@.len());
    assert("code"@.len() != "comment_ratio_pct"@.len());
    assert("code"@.len() != "bytes"@.len());
    assert("comment"@.len() != "blank"@.len());
    assert("comment"@.len() != "total_lines"@.len());
    assert("comment"@.len() != "code_pct"@.len());
    assert("comment"@.len() != "comment_ratio_pct"@.len());
    assert("comment"@.len() != "bytes"@.len());
    assert("blank"@.len() != "total_lines"@.len());
    assert("blank"@.len() != "code_pct"@.len());
    assert("blank"@.len() != "comment_ratio_pct"@.len());
    assert("blank"@[1] != "bytes"@[1]);
    assert("total_lines"@.len() != "code_pct"@.len());
    assert("total_lines"@.len() != "comment_ratio_pct"@.len());
    assert("total_lines"@.len() != "bytes"@.len());
    assert("code_pct"@.len() != "comment_ratio_pct"@.len());
    assert("code_pct"@.len() != "bytes"@.len());
    assert("comment_ratio_pct"@.len() != "bytes"@.len());
}

/// The first rows are the languages.
pub proof fn languages_come_before_the_rest(c: CompositionModel, i: int)
    requires
        i < c.buckets.len(),
        0 <= i < composition_report(c).entries.len(),
    ensures
        exists|k: int|
            0 <= k < c.buckets.len() && ({
                let e = composition_report(c).entries[i];
                let r = #[trigger] c.buckets[k];
                &&& e.key == r.0
                &&& e.values["files"@] == ValueModel::Count(r.1.files)
                &&& e.values["code"@] == ValueModel::Count(r.1.code)
                &&& e.values["comment"@] == ValueModel::Count(r.1.comment)
                &&& e.values["blank"@] == ValueModel::Count(r.1.blank)
                &&& e.values["total_lines"@] == ValueModel::Count(r.1.code + r.1.comment + r.1.blank)
                &&& e.values["code_pct"@] == ValueModel::Percent(r.1.code, fold::total(c.buckets, code_of()) as int)
                &&& e.values["comment_ratio_pct"@] == ValueModel::Percent(r.1.comment, r.1.code + r.1.comment)
                &&& e.values["bytes"@] == ValueModel::Count(r.1.bytes)
            }),
{
    let s = shares(c.buckets);
    let ranked = order::sort_ranked::<LangShare>(shares(c.buckets));
    let x = ranked[i];
    order::sort_same_members::<LangShare>(shares(c.buckets));
    order::sort_keeps_elements::<LangShare>(shares(c.buckets));
    assert(ranked.contains(x));
    assert(s.contains(x));
    assert(composition_report(c).entries[i] == LangShare::entry(x));
    let k = choose|k: int| 0 <= k < s.len() && s[k] == x;
    assert(c.buckets[k] == c.buckets[k]);
    reveal_strlit("files");
    reveal_strlit("code");
    reveal_strlit("comment");
    reveal_strlit("blank");
    reveal_strlit("total_lines");
    reveal_strlit("code_pct");
    reveal_strlit("comment_ratio_pct");
    reveal_strlit("bytes");
    assert("files"@.len() != "code"@.len());
    assert("files"@.len() != "comment"@.len());
    assert("files"@[0] != "blank"@[0]);
    assert("files"@.len() != "total_lines"@.len());
    assert("files"@.len() != "code_pct"@.len());
    assert("files"@.len() != "comment_ratio_pct"@.len());
    assert("files"@[0] != "bytes"@[0]);
    assert("code"@.len() != "comment"@.len());
    assert("code"@.len() != "blank"@.len());
    assert("code"@.len() != "total_lines"@.len());
    assert("code"@.len() != "code_pct"@.len());
    assert("code"@.len() != "comment_ratio_pct"@.len());
    assert("code"@.len() != "bytes"@.len());
    assert("comment"@.len() != "blank"@.len());
    assert("comment"@.len() != "total_lines"@.len());
    assert("comment"@.len() != "code_pct"@.len());
    assert("comment"@.len() != "comment_ratio_pct"@.len());
    assert("comment"@.len() != "bytes"@.len());
    assert("blank"@.len() != "total_lines"@.len());
    assert("blank"@.len() != "code_pct"@.len());
    assert("blank"@.len() != "comment_ratio_pct"@.len());
    assert("blank"@[1] != "bytes"@[1]);
    assert("total_lines"@.len() != "code_pct"@.len());
    assert("total_lines"@.len() != "comment_ratio_pct"@.len());
    assert("total_lines"@.len() != "bytes"@.len());
    assert("code_pct"@.len() != "comment_ratio_pct"@.len());
    assert("code_pct"@.len() != "bytes"@.len());
    assert("comment_ratio_pct"@.len() != "bytes"@.len());
}

/// The languages with the most code stand first.
pub proof fn most_code_first(c: CompositionModel, i: int, j: int)
    requires
        j < c.buckets.len(),
        0 <= i < j < composition_report(c).entries.len(),
    ensures
        ({
            let a = composition_report(c).entries[i].values;
            let b = composition_report(c).entries[j].values;
            a["code"@]->Count_0 >= b["code"@]->Count_0
        }),
{
    let ranked = order::sort_ranked::<LangShare>(shares(c.buckets));
    order::sort_orders::<LangShare>(shares(c.buckets));
    order::sort_keeps_elements::<LangShare>(shares(c.buckets));
    assert(composition_report(c).entries[i] == LangShare::entry(ranked[i]));
    assert(composition_report(c).entries[j] == LangShare::entry(ranked[j]));
    assert(LangShare::le(ranked[i], ranked[j]));
    reveal_strlit("files");
    reveal_strlit("code");
    reveal_strlit("comment");
    reveal_strlit("blank");
    reveal_strlit("total_lines");
    reveal_strlit("code_pct");
    reveal_strlit("comment_ratio_pct");
    reveal_strlit("bytes");
    assert("files"@.len() != "code"@.len());
    assert("files"@.len() != "comment"@.len());
    assert("files"@[0] != "blank"@[0]);
    assert("files"@.len() != "total_lines"@.len());
    assert("files"@.len() != "code_pct"@.len());
    assert("files"@.len() != "comment_ratio_pct"@.len());
    assert("files"@[0] != "bytes"@[0]);
    assert("code"@.len() != "comment"@.len());
    assert("code"@.len() != "blank"@.len());
    assert("code"@.len() != "total_lines"@.len());
    assert("code"@.len() != "code_pct"@.len());
    assert("code"@.len() != "comment_ratio_pct"@.len());
    assert("code"@.len() != "bytes"@.len());
    assert("comment"@.len() != "blank"@.len());
    assert("comment"@.len() != "total_lines"@.len());
    assert("comment"@.len() != "code_pct"@.len());
    assert("comment"@.len() != "comment_ratio_pct"@.len());
    assert("comment"@.len() != "bytes"@.len());
    assert("blank"@.len() != "total_lines"@.len());
    assert("blank"@.len() != "code_pct"@.len());
    assert("blank"@.len() != "comment_ratio_pct"@.len());
    assert("blank"@[1] != "bytes"@[1]);
    assert("total_lines"@.len() != "code_pct"@.len());
    assert("total_lines"@.len() != "comment_ratio_pct"@.len());
    assert("total_lines"@.len() != "bytes"@.len());
    assert("code_pct"@.len() != "comment_ratio_pct"@.len());
    assert("code_pct"@.len() != "bytes"@.len());
    assert("comment_ratio_pct"@.len() != "bytes"@.len());
}

/// Behind the languages stand the files of no known language and those that are
/// no text, where there are any.
pub proof fn unread_files_stand_last(c: CompositionModel)
    requires
        c.unknown_files >= 0,
        c.binary_files >= 0,
    ensures
        ({
            let r = composition_report(c).entries;
            let n = c.buckets.len() as int;
            let u = if c.unknown_files > 0 {
                1int
            } else {
                0
            };
            let b = if c.binary_files > 0 {
                1int
            } else {
                0
            };
            &&& r.len() == n + u + b
            &&& c.unknown_files > 0 ==> r[n].key == "(unknown)"@ && r[n].values["files"@]
                == ValueModel::Count(c.unknown_files) && r[n].values["bytes"@] == ValueModel::Count(
                c.unknown_bytes,
            ) && r[n].values["code"@] == ValueModel::Count(0)
            &&& c.binary_files > 0 ==> r[n + u].key == "(binary/skipped)"@ && r[n
                + u].values["files"@] == ValueModel::Count(c.binary_files) && r[n
                + u].values["code"@] == ValueModel::Count(0)
        }),
{
    order::sort_keeps_elements::<LangShare>(shares(c.buckets));
    reveal_strlit("files");
    reveal_strlit("code");
    reveal_strlit("comment");
    reveal_strlit("blank");
    reveal_strlit("total_lines");
    reveal_strlit("code_pct");
    reveal_strlit("comment_ratio_pct");
    reveal_strlit("bytes");
    assert("files"@.len() != "code"@.len());
    assert("files"@.len() != "comment"@.len());
    assert("files"@[0] != "blank"@[0]);
    assert("files"@.len() != "total_lines"@.len());
    assert("files"@.len() != "code_pct"@.len());
    assert("files"@.len() != "comment_ratio_pct"@.len());
    assert("files"@[0] != "bytes"@[0]);
    assert("code"@.len() != "comment"@.len());
    assert("code"@.len() != "blank"@.len());
    assert("code"@.len() != "total_lines"@.len());
    assert("code"@.len() != "code_pct"@.len());
    assert("code"@.len() != "comment_ratio_pct"@.len());
    assert("code"@.len() != "bytes"@.len());
    assert("comment"@.len() != "blank"@.len());
    assert("comment"@.len() != "total_lines"@.len());
    assert("comment"@.len() != "code_pct"@.len());
    assert("comment"@.len() != "comment_ratio_pct"@.len());
    assert("comment"@.len() != "bytes"@.len());
    assert("blank"@.len() != "total_lines"@.len());
    assert("blank"@.len() != "code_pct"@.len());
    assert("blank"@.len() != "comment_ratio_pct"@.len());
    assert("blank"@[1] != "bytes"@[1]);
    assert("total_lines"@.len() != "code_pct"@.len());
    assert("total_lines"@.len() != "comment_ratio_pct"@.len());
    assert("total_lines"@.len() != "bytes"@.len());
    assert("code_pct"@.len() != "comment_ratio_pct"@.len());
    assert("code_pct"@.len() != "bytes"@.len());
    assert("comment_ratio_pct"@.len() != "bytes"@.len());
}

/// A file of up to two mebibytes whose text is of a known language counts under
/// that language: one file, its bytes, and each of its lines as what it is.
pub proof fn a_known_file_counts_under_its_language(
    c: CompositionModel,
    path: Seq<char>,
    data: Seq<u8>,
    q: Seq<char>,
)
    requires
        table::ascending(c.buckets),
        0 < data.len() <= 2_097_152,
        !blob::looks_binary(data),
        blob::text_of(data) is Some,
        detection::detected(path, blob::text_of(data)) is Some,
    ensures
        ({
            let content = blob::text_of(data)->0;
            let lang = detection::detected(path, Some(content))->0;
            let kinds = line_classifier::line_kinds(content, Some(lang));
            let after = c.inspected(path, data);
            let was = bucket(c.buckets, q);
            let is = bucket(after.buckets, q);
            &&& after.unknown_files == c.unknown_files
            &&& after.unknown_bytes == c.unknown_bytes
            &&& after.binary_files == c.binary_files
            &&& q != lang.name@ ==> is == was
            &&& q == lang.name@ ==> is.files == was.files + 1
            &&& q == lang.name@ && was.bytes + data.len() <= u64::MAX ==> is.bytes == was.bytes
                + data.len()
            &&& q == lang.name@ && was.code + kinds.len() <= u64::MAX ==> is.code == was.code
                + fold::count(kinds, |k: LineType| k == LineType::Code)
            &&& q == lang.name@ && was.comment + kinds.len() <= u64::MAX ==> is.comment
                == was.comment + fold::count(kinds, |k: LineType| k == LineType::Comment)
            &&& q == lang.name@ && was.blank + kinds.len() <= u64::MAX ==> is.blank == was.blank
                + fold::count(kinds, |k: LineType| k == LineType::Blank)
        }),
{
    let content = blob::text_of(data)->0;
    let lang = detection::detected(path, Some(content))->0;
    let kinds = line_classifier::line_kinds(content, Some(lang));
    assert((|k: LineType| k == LineType::Code) =~= line_classifier::is_kind(LineType::Code));
    assert((|k: LineType| k == LineType::Comment) =~= line_classifier::is_kind(LineType::Comment));
    assert((|k: LineType| k == LineType::Blank) =~= line_classifier::is_kind(LineType::Blank));
    fold::lemma_count_bound(kinds, line_classifier::is_kind(LineType::Code));
    fold::lemma_count_bound(kinds, line_classifier::is_kind(LineType::Comment));
    fold::lemma_count_bound(kinds, line_classifier::is_kind(LineType::Blank));
    table::lookup_of_put(
        c.buckets,
        lang.name@,
        with_file(bucket(c.buckets, lang.name@), lang, data.len() as int, content),
        q,
    );
}

/// A file is passed over where it is empty, unknown where it is too large or of
/// no known language, and binary where it looks so or is no text.
pub proof fn other_files_are_unknown_or_binary(c: CompositionModel, path: Seq<char>, data: Seq<u8>)
    ensures
        data.len() == 0 ==> c.inspected(path, data) == c,
        data.len() > 0 ==> {
            let after = c.inspected(path, data);
            let text = blob::text_of(data);
            let large = data.len() > 2_097_152;
            let binary = !large && (blob::looks_binary(data) || text is None);
            let unknown = large || (!binary && detection::detected(path, text) is None);
            &&& unknown ==> after.unknown_files == c.unknown_files + 1 && after.unknown_bytes
                == c.unknown_bytes + data.len() && after.binary_files == c.binary_files
                && after.buckets == c.buckets
            &&& binary ==> after.binary_files == c.binary_files + 1 && after.unknown_files
                == c.unknown_files && after.unknown_bytes == c.unknown_bytes && after.buckets
                == c.buckets
        },
{
}

/// The report has these columns, in this order.
pub proof fn the_columns_are_these(c: CompositionModel)
    ensures
        composition_report(c).name == "composition"@,
        composition_report(c).columns.len() == 8,
        composition_report(c).columns[0].value == "files"@,
        composition_report(c).columns[1].value == "code"@,
        composition_report(c).columns[2].value == "comment"@,
        composition_report(c).columns[3].value == "blank"@,
        composition_report(c).columns[4].value == "total_lines"@,
        composition_report(c).columns[5].value == "code_pct"@,
        composition_report(c).columns[6].value == "comment_ratio_pct"@,
        composition_report(c).columns[7].value == "bytes"@,
{
}

/// The limits that hold here.
pub proof fn the_limits_are_these()
    ensures
        MAX_BLOB_BYTES == 2_097_152,
{
}

} // verus!
