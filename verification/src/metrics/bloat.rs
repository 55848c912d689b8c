//! Files that do not belong in a repository.

use vstd::prelude::*;

use crate::double;
use crate::double::Double;
use crate::fold;
use crate::messages;
use crate::metrics::large_sources;
use crate::metrics::large_sources::is_source_path;
use crate::order;
use crate::order::Ranked;
use crate::report;
use crate::report::Row;
use crate::text;
use crate::types;
use crate::types::{EntryModel, LocalizedMessage, MessageModel, MetricEntry, MetricResult, MetricValue, ResultModel, Severity, ValueModel, Values};

verus! {

/// Source files below this size are no concern of this report.
pub const SOURCE_BLOAT_THRESHOLD: u64 = 20_971_520;

pub const LARGE_FILE_THRESHOLD: u64 = 512_000;

pub const VERY_LARGE_FILE_THRESHOLD: u64 = 5_242_880;

/// So many of the largest files are looked at for their size.
pub const LARGEST_FILES: usize = 30;

pub const MAX_ENTRIES: usize = 100;

/// Directories that are commonly committed by mistake, and what they hold.
pub open spec fn directory_patterns() -> Seq<(Seq<char>, Seq<char>)> {
    seq![
        ("node_modules"@, messages::BLOAT_RECOMMENDATION_VENDORED_DEPS@),
        ("dist"@, messages::BLOAT_RECOMMENDATION_BUILD_OUTPUT@),
        ("build"@, messages::BLOAT_RECOMMENDATION_BUILD_OUTPUT@),
        ("target"@, messages::BLOAT_RECOMMENDATION_RUST_BUILD_OUTPUT@),
        ("vendor"@, messages::BLOAT_RECOMMENDATION_VENDORED_DEPS@),
        (".idea"@, messages::BLOAT_RECOMMENDATION_IDE_CONFIG@),
        (".vscode"@, messages::BLOAT_RECOMMENDATION_IDE_CONFIG@),
    ]
}

/// What the names of files that are commonly committed by mistake end in, and
/// what they are.
pub open spec fn file_patterns() -> Seq<(Seq<char>, Seq<char>)> {
    seq![
        (".min.js"@, messages::BLOAT_RECOMMENDATION_MINIFIED_BUNDLE@),
        (".min.css"@, messages::BLOAT_RECOMMENDATION_MINIFIED_BUNDLE@),
        (".DS_Store"@, messages::BLOAT_RECOMMENDATION_OS_METADATA@),
    ]
}

/// How a path looks suspicious.
#[derive(Debug)]
pub enum Suspicion {
    /// It lies in, or is, the directory `root`.
    Directory { root: String, code: &'static str },
    /// The file itself.
    File { code: &'static str },
}

pub enum SuspicionModel {
    Directory(Seq<char>, Seq<char>),
    File(Seq<char>),
}

impl View for Suspicion {
    type V = SuspicionModel;

    open spec fn view(&self) -> SuspicionModel {
        match self {
            Suspicion::Directory { root, code } => SuspicionModel::Directory(root@, code@),
            Suspicion::File { code } => SuspicionModel::File(code@),
        }
    }
}

/// The path of the first `n` segments.
pub open spec fn path_to(parts: Seq<Seq<char>>, n: int) -> Seq<char>
    decreases n,
{
    if n <= 0 {
        Seq::empty()
    } else {
        let above = path_to(parts, n - 1);
        if above.len() == 0 {
            parts[n - 1]
        } else {
            above.push('/') + parts[n - 1]
        }
    }
}

/// The path up to and with the first segment from `i` on that equals `seg`.
pub open spec fn root_from(parts: Seq<Seq<char>>, seg: Seq<char>, i: int) -> Option<Seq<char>>
    decreases parts.len() - i,
{
    if i >= parts.len() {
        None
    } else if parts[i] == seg {
        Some(path_to(parts, i + 1))
    } else {
        root_from(parts, seg, i + 1)
    }
}

/// The first pattern from `k` on that a segment of the path equals.
pub open spec fn directory_from(parts: Seq<Seq<char>>, k: int) -> Option<SuspicionModel>
    decreases directory_patterns().len() - k,
{
    if k >= directory_patterns().len() {
        None
    } else {
        match root_from(parts, directory_patterns()[k].0, 0) {
            Some(root) => Some(SuspicionModel::Directory(root, directory_patterns()[k].1)),
            None => directory_from(parts, k + 1),
        }
    }
}

/// The first pattern from `k` on that the file name ends in.
pub open spec fn file_from(name: Seq<char>, k: int) -> Option<SuspicionModel>
    decreases file_patterns().len() - k,
{
    if k >= file_patterns().len() {
        None
    } else if file_patterns()[k].0.is_suffix_of(name) {
        Some(SuspicionModel::File(file_patterns()[k].1))
    } else {
        file_from(name, k + 1)
    }
}

/// How the path looks suspicious, if it does. Whole segments are compared, and
/// directories come before files.
pub open spec fn suspicion(path: Seq<char>) -> Option<SuspicionModel> {
    match directory_from(text::split_on(path, '/'), 0) {
        Some(s) => Some(s),
        None => file_from(text::after_last(path, '/'), 0),
    }
}

pub open spec fn suspicion_view(s: Option<Suspicion>) -> Option<SuspicionModel> {
    match s {
        Some(x) => Some(x@),
        None => None,
    }
}

fn root_at(parts: &[String], seg: &str) -> (r: Option<String>)
    ensures
        match r {
            Some(s) => root_from(text::views(parts@), seg@, 0) == Some(s@),
            None => root_from(text::views(parts@), seg@, 0) is None,
        },
{
    let ghost all = text::views(parts@);
    let n: usize = parts.len();
    let mut root = String::new();
    let mut i: usize = 0;
    proof {
        assert(root@ =~= path_to(all, 0));
    }
    while i < n
        invariant
            n == parts@.len(),
            all == text::views(parts@),
            i <= n,
            root@ == path_to(all, i as int),
            root_from(all, seg@, 0) == root_from(all, seg@, i as int),
        decreases n - i,
    {
        let part = parts[i].as_str();
        proof {
            assert(all[i as int] == part@);
        }
        if !root.as_str().is_empty() {
            root.push('/');
        }
        let ghost above = root@;
        root = text::cat(root.as_str(), part);
        proof {
            assert(root@ =~= path_to(all, i + 1)) by {
                if path_to(all, i as int).len() == 0 {
                    assert(Seq::<char>::empty() + part@ =~= part@);
                    assert(above =~= Seq::empty());
                }
            }
        }
        if text::same(part, seg) {
            return Some(root);
        }
        i += 1;
    }
    None
}

/// Matches a path against the suspicious patterns. Directories are matched by
/// whole segments: `node_modules` never matches `mynode_modules_backup`.
pub fn suspicious(path: &str) -> (r: Option<Suspicion>)
    ensures
        suspicion_view(r) == suspicion(path@),
{
    let dirs = [
        ("node_modules", messages::BLOAT_RECOMMENDATION_VENDORED_DEPS),
        ("dist", messages::BLOAT_RECOMMENDATION_BUILD_OUTPUT),
        ("build", messages::BLOAT_RECOMMENDATION_BUILD_OUTPUT),
        ("target", messages::BLOAT_RECOMMENDATION_RUST_BUILD_OUTPUT),
        ("vendor", messages::BLOAT_RECOMMENDATION_VENDORED_DEPS),
        (".idea", messages::BLOAT_RECOMMENDATION_IDE_CONFIG),
        (".vscode", messages::BLOAT_RECOMMENDATION_IDE_CONFIG),
    ];
    let parts = text::split(path, '/');
    let ghost all = text::views(parts@);
    let mut k: usize = 0;
    while k < 7
        invariant
            k <= 7,
            all == text::views(parts@),
            all == text::split_on(path@, '/'),
            forall|j: int|
                0 <= j < 7 ==> (#[trigger] dirs@[j]).0@ == directory_patterns()[j].0 && dirs@[j].1@
                    == directory_patterns()[j].1,
            directory_from(all, 0) == directory_from(all, k as int),
        decreases 7 - k,
    {
        if let Some(root) = root_at(&parts, dirs[k].0) {
            return Some(Suspicion::Directory { root, code: dirs[k].1 });
        }
        k += 1;
    }
    let files = [
        (".min.js", messages::BLOAT_RECOMMENDATION_MINIFIED_BUNDLE),
        (".min.css", messages::BLOAT_RECOMMENDATION_MINIFIED_BUNDLE),
        (".DS_Store", messages::BLOAT_RECOMMENDATION_OS_METADATA),
    ];
    let name = text::tail_after(path, '/');
    let mut j: usize = 0;
    while j < 3
        invariant
            j <= 3,
            name@ == text::after_last(path@, '/'),
            directory_from(text::split_on(path@, '/'), 0) is None,
            forall|i: int|
                0 <= i < 3 ==> (#[trigger] files@[i]).0@ == file_patterns()[i].0 && files@[i].1@
                    == file_patterns()[i].1,
            file_from(name@, 0) == file_from(name@, j as int),
        decreases 3 - j,
    {
        if text::ends_with(name.as_str(), files[j].0) {
            return Some(Suspicion::File { code: files[j].1 });
        }
        j += 1;
    }
    None
}

pub open spec fn suspicion_code(s: SuspicionModel) -> Seq<char> {
    match s {
        SuspicionModel::Directory(_, code) => code,
        SuspicionModel::File(code) => code,
    }
}

/// What to do about a file of that size.
pub open spec fn advice(path: Seq<char>, size: int) -> MessageModel {
    match suspicion(path) {
        Some(s) => MessageModel::of(suspicion_code(s)).severe(Severity::Warning),
        None => if size >= VERY_LARGE_FILE_THRESHOLD {
            MessageModel::of(messages::BLOAT_RECOMMENDATION_VERY_LARGE_FILE@).severe(
                Severity::Warning,
            ).with_number("size_bytes"@, size)
        } else if size >= LARGE_FILE_THRESHOLD {
            MessageModel::of(messages::BLOAT_RECOMMENDATION_LARGE_FILE@).severe(
                Severity::Info,
            ).with_number("size_bytes"@, size)
        } else {
            MessageModel::of(messages::BLOAT_RECOMMENDATION_OK@)
        },
    }
}

pub fn classify(path: &str, size: u64) -> (r: LocalizedMessage)
    ensures
        r@ == advice(path@, size as int),
{
    match suspicious(path) {
        Some(Suspicion::Directory { root, code }) => LocalizedMessage::code(code).with_severity(
            Severity::Warning,
        ),
        Some(Suspicion::File { code }) => LocalizedMessage::code(code).with_severity(
            Severity::Warning,
        ),
        None => {
            if size >= VERY_LARGE_FILE_THRESHOLD {
                LocalizedMessage::code(
                    messages::BLOAT_RECOMMENDATION_VERY_LARGE_FILE,
                ).with_severity(Severity::Warning).with_param("size_bytes", size)
            } else if size >= LARGE_FILE_THRESHOLD {
                LocalizedMessage::code(messages::BLOAT_RECOMMENDATION_LARGE_FILE).with_severity(
                    Severity::Info,
                ).with_param("size_bytes", size)
            } else {
                LocalizedMessage::code(messages::BLOAT_RECOMMENDATION_OK)
            }
        },
    }
}

pub open spec fn readable_size(n: int) -> Seq<char> {
    if n >= 1_073_741_824 {
        double::two_places(double::share(n, 1_073_741_824)) + " GB"@
    } else if n >= 1_048_576 {
        double::two_places(double::share(n, 1_048_576)) + " MB"@
    } else if n >= 1024 {
        double::two_places(double::share(n, 1024)) + " KB"@
    } else {
        text::decimal(n as nat) + " B"@
    }
}

pub fn human_size(n: u64) -> (r: String)
    ensures
        r@ == readable_size(n as int),
{
    if n >= 1_073_741_824 {
        text::cat(Double::share(n, 1_073_741_824).with_two_places().as_str(), " GB")
    } else if n >= 1_048_576 {
        text::cat(Double::share(n, 1_048_576).with_two_places().as_str(), " MB")
    } else if n >= 1024 {
        text::cat(Double::share(n, 1024).with_two_places().as_str(), " KB")
    } else {
        text::cat(text::decimal_text(n).as_str(), " B")
    }
}

/// Whether a file of the tree is a concern of this report: source files are
/// only where they are absurdly large.
pub fn wants_blob(path: &str, size: u64) -> (r: bool)
    ensures
        r == !(path@.contains('.') && large_sources::source_extensions().contains(
            text::after_last(path@, '.'),
        ) && size < SOURCE_BLOAT_THRESHOLD),
{
    !(is_source_path(path) && size < SOURCE_BLOAT_THRESHOLD)
}

/// A file of the tree.
#[derive(Debug)]
pub struct SizedFile {
    pub path: String,
    pub size: u64,
}

pub struct SizedFileModel {
    pub path: Seq<char>,
    pub size: int,
}

impl View for SizedFile {
    type V = SizedFileModel;

    open spec fn view(&self) -> SizedFileModel {
        SizedFileModel {
            path: self.path@,
            size: self.size as int,
        }
    }
}

/// The largest first.
impl Ranked for SizedFile {
    open spec fn le(a: SizedFileModel, b: SizedFileModel) -> bool {
        a.size >= b.size
    }

    proof fn le_total(a: SizedFileModel, b: SizedFileModel) {
    }

    proof fn le_transitive(a: SizedFileModel, b: SizedFileModel, c: SizedFileModel) {
    }

    fn not_after(&self, other: &SizedFile) -> (r: bool) {
        self.size >= other.size
    }
}

/// A row of the report.
pub struct BloatRow {
    pub key: String,
    pub size: u64,
    pub recommendation: LocalizedMessage,
}

pub struct BloatRowModel {
    pub key: Seq<char>,
    pub size: int,
    pub recommendation: MessageModel,
}

impl View for BloatRow {
    type V = BloatRowModel;

    open spec fn view(&self) -> BloatRowModel {
        BloatRowModel {
            key: self.key@,
            size: self.size as int,
            recommendation: self.recommendation@,
        }
    }
}

/// The largest first.
impl Ranked for BloatRow {
    open spec fn le(a: BloatRowModel, b: BloatRowModel) -> bool {
        a.size >= b.size
    }

    proof fn le_total(a: BloatRowModel, b: BloatRowModel) {
    }

    proof fn le_transitive(a: BloatRowModel, b: BloatRowModel, c: BloatRowModel) {
    }

    fn not_after(&self, other: &BloatRow) -> (r: bool) {
        self.size >= other.size
    }
}

impl Row for BloatRow {
    open spec fn entry(b: BloatRowModel) -> EntryModel {
        EntryModel {
            key: b.key,
            values: Map::empty().insert(
                "size_bytes"@,
                ValueModel::Count(b.size),
            ).insert(
                "size_human"@,
                ValueModel::Text(readable_size(b.size)),
            ).insert(
                "recommendation"@,
                ValueModel::Message(b.recommendation),
            ),
        }
    }

    fn to_entry(self) -> (r: MetricEntry) {
        let mut values = Values::new();
        values.insert("size_bytes", MetricValue::Count(self.size));
        values.insert("size_human", MetricValue::Text(human_size(self.size)));
        values.insert("recommendation", MetricValue::Message(self.recommendation));
        MetricEntry { key: self.key, values }
    }
}

pub open spec fn file_row(f: SizedFileModel) -> BloatRowModel {
    BloatRowModel { key: f.path, size: f.size, recommendation: advice(f.path, f.size) }
}

pub open spec fn is_ok(m: MessageModel) -> bool {
    m.code == messages::BLOAT_RECOMMENDATION_OK@
}

/// The largest of the files get a row, unless they lie in a suspicious
/// directory or nothing is wrong with them.
pub open spec fn top_rows(files: Seq<SizedFileModel>, n: int) -> Seq<BloatRowModel>
    decreases n,
{
    if n <= 0 {
        Seq::empty()
    } else {
        let f = files[n - 1];
        let so_far = top_rows(files, n - 1);
        if suspicion(f.path) matches Some(SuspicionModel::Directory(_, _)) {
            so_far
        } else if f.size < LARGE_FILE_THRESHOLD && is_ok(advice(f.path, f.size)) {
            so_far
        } else {
            so_far.push(file_row(f))
        }
    }
}

pub open spec fn row_keys(rows: Seq<BloatRowModel>) -> Seq<Seq<char>> {
    Seq::new(rows.len(), |i: int| rows[i].key)
}

pub open spec fn capped(n: int) -> int {
    if n > u64::MAX {
        u64::MAX as int
    } else {
        n
    }
}

/// The place of the row with that key, from `i` on.
pub open spec fn place_of(rows: Seq<BloatRowModel>, key: Seq<char>, i: int) -> Option<int>
    decreases rows.len() - i,
{
    if i >= rows.len() {
        None
    } else if rows[i].key == key {
        Some(i)
    } else {
        place_of(rows, key, i + 1)
    }
}

/// The size added to the row of the directory, which is opened if need be.
pub open spec fn add_to_directory(
    rows: Seq<BloatRowModel>,
    root: Seq<char>,
    code: Seq<char>,
    size: int,
) -> Seq<BloatRowModel> {
    match place_of(rows, root, 0) {
        Some(i) => rows.update(
            i,
            BloatRowModel {
                key: rows[i].key,
                size: capped(rows[i].size + size),
                recommendation: rows[i].recommendation,
            },
        ),
        None => rows.push(
            BloatRowModel {
                key: root,
                size,
                recommendation: MessageModel::of(code).severe(Severity::Warning),
            },
        ),
    }
}

/// One row for each suspicious directory among the first `n` files, in the
/// order of the files; those in `shown` have a row already.
pub open spec fn directory_rows(
    files: Seq<SizedFileModel>,
    shown: Seq<Seq<char>>,
    n: int,
) -> Seq<BloatRowModel>
    decreases n,
{
    if n <= 0 {
        Seq::empty()
    } else {
        let f = files[n - 1];
        let so_far = directory_rows(files, shown, n - 1);
        if shown.contains(f.path) {
            so_far
        } else {
            match suspicion(f.path) {
                Some(SuspicionModel::Directory(root, code)) => add_to_directory(
                    so_far,
                    root,
                    code,
                    f.size,
                ),
                _ => so_far,
            }
        }
    }
}

/// One row for each other file among the first `n` that something is wrong
/// with, in the order of the files.
pub open spec fn other_rows(files: Seq<SizedFileModel>, shown: Seq<Seq<char>>, n: int) -> Seq<
    BloatRowModel,
>
    decreases n,
{
    if n <= 0 {
        Seq::empty()
    } else {
        let f = files[n - 1];
        let so_far = other_rows(files, shown, n - 1);
        if shown.contains(f.path) || (suspicion(f.path) matches Some(
            SuspicionModel::Directory(_, _),
        )) || is_ok(advice(f.path, f.size)) || row_keys(so_far).contains(f.path) {
            so_far
        } else {
            so_far.push(file_row(f))
        }
    }
}

pub open spec fn least(a: int, b: int) -> int {
    if a < b {
        a
    } else {
        b
    }
}

/// All rows, before they are ranked.
pub open spec fn bloat_rows(files: Seq<SizedFileModel>) -> Seq<BloatRowModel> {
    let top = top_rows(files, least(files.len() as int, LARGEST_FILES as int));
    let shown = row_keys(top);
    top + directory_rows(files, shown, files.len() as int) + other_rows(
        files,
        shown,
        files.len() as int,
    )
}

pub open spec fn bloat_columns() -> Seq<Seq<char>> {
    seq![
        "size_bytes"@,
        "size_human"@,
        "recommendation"@,
    ]
}

/// The report on files in descending order of size.
pub open spec fn bloat_report(sorted: Seq<SizedFileModel>) -> ResultModel {
    types::report_of(
        "bloat"@,
        bloat_columns(),
        report::entries_of::<BloatRow>(
            report::top_ranked::<BloatRow>(bloat_rows(sorted), MAX_ENTRIES as int),
        ),
    )
}

/// No directory has two rows.
pub proof fn one_row_per_directory(files: Seq<SizedFileModel>, shown: Seq<Seq<char>>, n: int)
    requires
        0 <= n <= files.len(),
    ensures
        ({
            let rows = directory_rows(files, shown, n);
            forall|i: int, j: int|
                0 <= i < j < rows.len() ==> (#[trigger] rows[i]).key != (#[trigger] rows[j]).key
        }),
    decreases n,
{
    if n > 0 {
        one_row_per_directory(files, shown, n - 1);
        let f = files[n - 1];
        let so_far = directory_rows(files, shown, n - 1);
        if let Some(SuspicionModel::Directory(root, code)) = suspicion(f.path) {
            lemma_place(so_far, root, 0);
        }
    }
}

/// Where the row with a key stands.
proof fn lemma_place(rows: Seq<BloatRowModel>, key: Seq<char>, i: int)
    requires
        0 <= i <= rows.len(),
    ensures
        match place_of(rows, key, i) {
            Some(k) => i <= k < rows.len() && rows[k].key == key,
            None => forall|k: int| i <= k < rows.len() ==> (#[trigger] rows[k]).key != key,
        },
    decreases rows.len() - i,
{
    if i < rows.len() {
        lemma_place(rows, key, i + 1);
    }
}

fn find_row(rows: &[BloatRow], key: &str) -> (r: Option<usize>)
    ensures
        match r {
            Some(i) => place_of(order::models(rows@), key@, 0) == Some(i as int) && i < rows@.len(),
            None => place_of(order::models(rows@), key@, 0) is None,
        },
{
    let ghost all = order::models(rows@);
    let n: usize = rows.len();
    let mut i: usize = 0;
    while i < n
        invariant
            n == rows@.len(),
            all == order::models(rows@),
            i <= n,
            place_of(all, key@, 0) == place_of(all, key@, i as int),
        decreases n - i,
    {
        proof {
            assert(all[i as int].key == rows@[i as int].key@);
        }
        if text::same(rows[i].key.as_str(), key) {
            return Some(i);
        }
        i += 1;
    }
    None
}

fn has_row(rows: &[BloatRow], key: &str) -> (r: bool)
    ensures
        r == row_keys(order::models(rows@)).contains(key@),
{
    let ghost all = order::models(rows@);
    let ghost ks = row_keys(all);
    proof {
        lemma_place(all, key@, 0);
    }
    match find_row(rows, key) {
        Some(i) => {
            proof {
                assert(ks[i as int] == key@);
            }
            true
        },
        None => {
            proof {
                if ks.contains(key@) {
                    let i = choose|i: int| 0 <= i < ks.len() && ks[i] == key@;
                    assert(all[i].key == key@);
                }
            }
            false
        },
    }
}

fn is_directory(path: &str) -> (r: Option<(String, &'static str)>)
    ensures
        match r {
            Some((root, code)) => suspicion(path@) == Some(
                SuspicionModel::Directory(root@, code@),
            ),
            None => !(suspicion(path@) matches Some(SuspicionModel::Directory(_, _))),
        },
{
    match suspicious(path) {
        Some(Suspicion::Directory { root, code }) => Some((root, code)),
        _ => None,
    }
}

fn says_ok(m: &LocalizedMessage) -> (r: bool)
    ensures
        r == is_ok(m@),
{
    text::same(m.code.as_str(), messages::BLOAT_RECOMMENDATION_OK)
}

fn list_top(files: &[SizedFile]) -> (r: Vec<BloatRow>)
    ensures
        order::models(r@) == top_rows(
            order::models(files@),
            least(files@.len() as int, LARGEST_FILES as int),
        ),
{
    let ghost all = order::models(files@);
    let n: usize = files.len();
    let mut out: Vec<BloatRow> = Vec::new();
    let mut i: usize = 0;
    proof {
        assert(order::models(out@) =~= Seq::empty());
    }
    while i < n && i < LARGEST_FILES
        invariant
            n == files@.len(),
            all == order::models(files@),
            i <= n,
            i <= LARGEST_FILES,
            order::models(out@) == top_rows(all, i as int),
        decreases n - i,
    {
        let ghost before = order::models(out@);
        let path = files[i].path.as_str();
        let size: u64 = files[i].size;
        proof {
            assert(all[i as int] == files@[i as int]@);
        }
        if is_directory(path).is_none() {
            let recommendation = classify(path, size);
            if !(size < LARGE_FILE_THRESHOLD && says_ok(&recommendation)) {
                let row = BloatRow { key: text::copy_text(path), size, recommendation };
                out.push(row);
                proof {
                    assert(order::models(out@) =~= before.push(row@));
                }
            }
        }
        i += 1;
    }
    out
}

fn list_directories(files: &[SizedFile], top: &[BloatRow]) -> (r: Vec<BloatRow>)
    ensures
        order::models(r@) == directory_rows(
            order::models(files@),
            row_keys(order::models(top@)),
            files@.len() as int,
        ),
{
    let ghost all = order::models(files@);
    let ghost shown = row_keys(order::models(top@));
    let n: usize = files.len();
    let mut out: Vec<BloatRow> = Vec::new();
    let mut i: usize = 0;
    proof {
        assert(order::models(out@) =~= Seq::empty());
    }
    while i < n
        invariant
            n == files@.len(),
            all == order::models(files@),
            shown == row_keys(order::models(top@)),
            i <= n,
            order::models(out@) == directory_rows(all, shown, i as int),
        decreases n - i,
    {
        let ghost before = order::models(out@);
        let path = files[i].path.as_str();
        let size: u64 = files[i].size;
        proof {
            assert(all[i as int] == files@[i as int]@);
        }
        if !has_row(top, path) {
            if let Some((root, code)) = is_directory(path) {
                match find_row(&out, root.as_str()) {
                    Some(k) => {
                        let sum = match out[k].size.checked_add(size) {
                            Some(s) => s,
                            None => u64::MAX,
                        };
                        let mut held = BloatRow {
                            key: text::copy_text(out[k].key.as_str()),
                            size: sum,
                            recommendation: out[k].recommendation.duplicate(),
                        };
                        let ghost fresh = held@;
                        out.set(k, held);
                        proof {
                            assert(order::models(out@) =~= before.update(k as int, fresh));
                        }
                    },
                    None => {
                        let row = BloatRow {
                            key: root,
                            size,
                            recommendation: LocalizedMessage::code(code).with_severity(
                                Severity::Warning,
                            ),
                        };
                        out.push(row);
                        proof {
                            assert(order::models(out@) =~= before.push(row@));
                        }
                    },
                }
            }
        }
        i += 1;
    }
    out
}

fn list_others(files: &[SizedFile], top: &[BloatRow]) -> (r: Vec<BloatRow>)
    ensures
        order::models(r@) == other_rows(
            order::models(files@),
            row_keys(order::models(top@)),
            files@.len() as int,
        ),
{
    let ghost all = order::models(files@);
    let ghost shown = row_keys(order::models(top@));
    let n: usize = files.len();
    let mut out: Vec<BloatRow> = Vec::new();
    let mut i: usize = 0;
    proof {
        assert(order::models(out@) =~= Seq::empty());
    }
    while i < n
        invariant
            n == files@.len(),
            all == order::models(files@),
            shown == row_keys(order::models(top@)),
            i <= n,
            order::models(out@) == other_rows(all, shown, i as int),
        decreases n - i,
    {
        let ghost before = order::models(out@);
        let path = files[i].path.as_str();
        let size: u64 = files[i].size;
        proof {
            assert(all[i as int] == files@[i as int]@);
        }
        if !has_row(top, path) && is_directory(path).is_none() {
            let recommendation = classify(path, size);
            if !says_ok(&recommendation) && !has_row(&out, path) {
                let row = BloatRow { key: text::copy_text(path), size, recommendation };
                out.push(row);
                proof {
                    assert(order::models(out@) =~= before.push(row@));
                }
            }
        }
        i += 1;
    }
    out
}

#[derive(Debug)]
pub struct BloatCollector {
    pub files: Vec<SizedFile>,
}

impl Default for BloatCollector {
    fn default() -> (r: Self)
        ensures
            r.files@.len() == 0,
    {
        BloatCollector::new()
    }
}

impl BloatCollector {
    pub fn new() -> (r: Self)
        ensures
            r.files@.len() == 0,
    {
        BloatCollector { files: Vec::new() }
    }

    pub fn name(&self) -> (r: &str)
        ensures
            r@ == "bloat"@,
    {
        "bloat"
    }

    /// Sorts the files by size and reports on them.
    pub fn finalize(&mut self) -> (r: MetricResult)
        ensures
            r@ == bloat_report(order::sort_ranked::<SizedFile>(order::models(old(self).files@))),
            order::models(final(self).files@) == order::sort_ranked::<SizedFile>(
                order::models(old(self).files@),
            ),
    {
        let mut files: Vec<SizedFile> = Vec::new();
        std::mem::swap(&mut files, &mut self.files);
        self.files = order::sort_rows(files);
        let ghost sorted = order::models(self.files@);
        let mut rows = list_top(self.files.as_slice());
        let mut dirs = list_directories(self.files.as_slice(), &rows);
        let mut others = list_others(self.files.as_slice(), &rows);
        let ghost a = order::models(rows@);
        let ghost b = order::models(dirs@);
        let ghost c = order::models(others@);
        rows.append(&mut dirs);
        rows.append(&mut others);
        proof {
            assert(order::models(rows@) =~= a + b + c);
            assert(a + b + c =~= bloat_rows(sorted));
        }
        let entries = report::ranked_entries(rows, MAX_ENTRIES);
        let columns = [
            "size_bytes",
            "size_human",
            "recommendation",
        ];
        proof {
            assert(types::str_views(columns@) =~= bloat_columns());
        }
        MetricResult::report("bloat", &columns, entries)
    }
}

proof fn lemma_root(parts: Seq<Seq<char>>, seg: Seq<char>, i: int)
    requires
        0 <= i <= parts.len(),
    ensures
        match root_from(parts, seg, i) {
            Some(root) => exists|j: int|
                i <= j < parts.len() && #[trigger] parts[j] == seg && root == path_to(
                    parts,
                    j + 1,
                ),
            None => forall|j: int| i <= j < parts.len() ==> #[trigger] parts[j] != seg,
        },
    decreases parts.len() - i,
{
    if i < parts.len() {
        if parts[i] == seg {
            assert(root_from(parts, seg, i) == Some(path_to(parts, i + 1)));
        } else {
            lemma_root(parts, seg, i + 1);
        }
    }
}

proof fn lemma_directory(parts: Seq<Seq<char>>, k: int)
    requires
        0 <= k <= directory_patterns().len(),
    ensures
        match directory_from(parts, k) {
            Some(SuspicionModel::Directory(root, code)) => exists|q: int, j: int|
                k <= q < directory_patterns().len() && 0 <= j < parts.len()
                    && #[trigger] directory_patterns()[q] == (#[trigger] parts[j], code) && root
                    == path_to(parts, j + 1),
            Some(SuspicionModel::File(_)) => false,
            None => forall|q: int, j: int|
                k <= q < directory_patterns().len() && 0 <= j < parts.len()
                    ==> (#[trigger] directory_patterns()[q]).0 != #[trigger] parts[j],
        },
    decreases directory_patterns().len() - k,
{
    if k < directory_patterns().len() {
        let p = directory_patterns()[k];
        lemma_root(parts, p.0, 0);
        match root_from(parts, p.0, 0) {
            Some(root) => {
                let j = choose|j: int|
                    0 <= j < parts.len() && #[trigger] parts[j] == p.0 && root == path_to(
                        parts,
                        j + 1,
                    );
                assert(directory_patterns()[k] == (parts[j], p.1));
            },
            None => lemma_directory(parts, k + 1),
        }
    }
}

/// The directories whose contents do not belong into a repository.
pub open spec fn is_built_or_fetched(seg: Seq<char>) -> bool {
    seg == "node_modules"@ || seg == "dist"@ || seg == "build"@ || seg == "target"@ || seg == "vendor"@ || seg == ".idea"@ || seg == ".vscode"@
}

/// A path looks suspicious as a directory where, and only where, one of its
/// segments is such a directory; the root ends with that segment.
pub proof fn committed_directories_are_suspicious(path: Seq<char>)
    ensures
        ({
            let parts = text::split_on(path, '/');
            &&& (suspicion(path) matches Some(SuspicionModel::Directory(_, _))) <==> exists|j: int|
                0 <= j < parts.len() && is_built_or_fetched(#[trigger] parts[j])
            &&& suspicion(path) matches Some(SuspicionModel::Directory(root, code)) ==> exists|
                j: int,
            |
                0 <= j < parts.len() && is_built_or_fetched(#[trigger] parts[j]) && root == path_to(
                    parts,
                    j + 1,
                ) && directory_patterns().contains((parts[j], code))
        }),
{
    let parts = text::split_on(path, '/');
    lemma_directory(parts, 0);
    assert(directory_patterns()[0] == ("node_modules"@, messages::BLOAT_RECOMMENDATION_VENDORED_DEPS@));
    assert(directory_patterns()[1] == ("dist"@, messages::BLOAT_RECOMMENDATION_BUILD_OUTPUT@));
    assert(directory_patterns()[2] == ("build"@, messages::BLOAT_RECOMMENDATION_BUILD_OUTPUT@));
    assert(directory_patterns()[3] == ("target"@, messages::BLOAT_RECOMMENDATION_RUST_BUILD_OUTPUT@));
    assert(directory_patterns()[4] == ("vendor"@, messages::BLOAT_RECOMMENDATION_VENDORED_DEPS@));
    assert(directory_patterns()[5] == (".idea"@, messages::BLOAT_RECOMMENDATION_IDE_CONFIG@));
    assert(directory_patterns()[6] == (".vscode"@, messages::BLOAT_RECOMMENDATION_IDE_CONFIG@));
    match directory_from(parts, 0) {
        Some(SuspicionModel::Directory(root, code)) => {
            let (q, j) = choose|q: int, j: int|
                0 <= q < directory_patterns().len() && 0 <= j < parts.len()
                    && #[trigger] directory_patterns()[q] == (#[trigger] parts[j], code) && root
                    == path_to(parts, j + 1);
            assert(directory_patterns().contains((parts[j], code)));
            assert(is_built_or_fetched(parts[j]));
        },
        _ => {
            lemma_file(text::after_last(path, '/'), 0);
        },
    }
}

proof fn lemma_file(name: Seq<char>, k: int)
    requires
        0 <= k <= file_patterns().len(),
    ensures
        file_from(name, k) is None || file_from(name, k)->0 is File,
    decreases file_patterns().len() - k,
{
    if k < file_patterns().len() {
        lemma_file(name, k + 1);
    }
}

/// Each directory is called what it holds, and minified bundles and leftovers of
/// the operating system are told by how their names end.
pub proof fn leftovers_are_named()
    ensures
        directory_patterns().len() == 7,
        file_patterns().len() == 3,
        directory_patterns().contains(("node_modules"@, messages::BLOAT_RECOMMENDATION_VENDORED_DEPS@)),
        directory_patterns().contains(("dist"@, messages::BLOAT_RECOMMENDATION_BUILD_OUTPUT@)),
        directory_patterns().contains(("build"@, messages::BLOAT_RECOMMENDATION_BUILD_OUTPUT@)),
        directory_patterns().contains(("target"@, messages::BLOAT_RECOMMENDATION_RUST_BUILD_OUTPUT@)),
        directory_patterns().contains(("vendor"@, messages::BLOAT_RECOMMENDATION_VENDORED_DEPS@)),
        directory_patterns().contains((".idea"@, messages::BLOAT_RECOMMENDATION_IDE_CONFIG@)),
        directory_patterns().contains((".vscode"@, messages::BLOAT_RECOMMENDATION_IDE_CONFIG@)),
        file_patterns().contains((".min.js"@, messages::BLOAT_RECOMMENDATION_MINIFIED_BUNDLE@)),
        file_patterns().contains((".min.css"@, messages::BLOAT_RECOMMENDATION_MINIFIED_BUNDLE@)),
        file_patterns().contains((".DS_Store"@, messages::BLOAT_RECOMMENDATION_OS_METADATA@)),
{
    assert(directory_patterns()[0] == ("node_modules"@, messages::BLOAT_RECOMMENDATION_VENDORED_DEPS@));
    assert(directory_patterns()[1] == ("dist"@, messages::BLOAT_RECOMMENDATION_BUILD_OUTPUT@));
    assert(directory_patterns()[2] == ("build"@, messages::BLOAT_RECOMMENDATION_BUILD_OUTPUT@));
    assert(directory_patterns()[3] == ("target"@, messages::BLOAT_RECOMMENDATION_RUST_BUILD_OUTPUT@));
    assert(directory_patterns()[4] == ("vendor"@, messages::BLOAT_RECOMMENDATION_VENDORED_DEPS@));
    assert(directory_patterns()[5] == (".idea"@, messages::BLOAT_RECOMMENDATION_IDE_CONFIG@));
    assert(directory_patterns()[6] == (".vscode"@, messages::BLOAT_RECOMMENDATION_IDE_CONFIG@));
    assert(file_patterns()[0] == (".min.js"@, messages::BLOAT_RECOMMENDATION_MINIFIED_BUNDLE@));
    assert(file_patterns()[1] == (".min.css"@, messages::BLOAT_RECOMMENDATION_MINIFIED_BUNDLE@));
    assert(file_patterns()[2] == (".DS_Store"@, messages::BLOAT_RECOMMENDATION_OS_METADATA@));
}

/// Outside such directories a path is suspicious where its file name ends like a
/// leftover, and nowhere else.
pub proof fn leftover_files_are_suspicious(path: Seq<char>)
    requires
        !(suspicion(path) matches Some(SuspicionModel::Directory(_, _))),
    ensures
        ({
            let name = text::after_last(path, '/');
            suspicion(path) is Some <==> ".min.js"@.is_suffix_of(name) || ".min.css"@.is_suffix_of(
                name,
            ) || ".DS_Store"@.is_suffix_of(name)
        }),
{
    reveal_with_fuel(file_from, 4);
    reveal_with_fuel(directory_from, 8);
}

/// Of a path that is not suspicious the size alone decides: from five mebibytes
/// on the file is very large, from half a million bytes on large; both are told
/// with the size. A suspicious path is warned of whatever its size.
pub proof fn size_decides_the_advice(path: Seq<char>, size: int)
    ensures
        suspicion(path) is None && size >= 5_242_880 ==> advice(path, size).severity == Some(
            Severity::Warning,
        ) && advice(path, size).params == seq![("size_bytes"@, types::ParamModel::Number(size))],
        suspicion(path) is None && 512_000 <= size < 5_242_880 ==> advice(path, size).severity
            == Some(Severity::Info) && advice(path, size).params == seq![
            ("size_bytes"@, types::ParamModel::Number(size)),
        ],
        suspicion(path) is None && size < 512_000 ==> advice(path, size).severity is None,
        suspicion(path) is Some ==> advice(path, size).severity == Some(Severity::Warning),
{
}

/// Sizes are shown in the largest unit of which there is a whole one.
pub proof fn sizes_are_shown_in_fitting_units(n: int)
    requires
        n >= 0,
    ensures
        n < 1024 ==> readable_size(n) == text::decimal(n as nat) + " B"@,
        1024 <= n < 1024 * 1024 ==> readable_size(n) == double::two_places(double::share(n, 1024))
            + " KB"@,
        1024 * 1024 <= n < 1024 * 1024 * 1024 ==> readable_size(n) == double::two_places(
            double::share(n, 1_048_576),
        ) + " MB"@,
        1024 * 1024 * 1024 <= n ==> readable_size(n) == double::two_places(
            double::share(n, 1_073_741_824),
        ) + " GB"@,
{
}

proof fn lemma_top_row(files: Seq<SizedFileModel>, k: int, n: int)
    requires
        0 <= k < n <= files.len(),
        files[k].size >= 512_000,
        !(suspicion(files[k].path) matches Some(SuspicionModel::Directory(_, _))),
    ensures
        top_rows(files, n).contains(file_row(files[k])),
    decreases n,
{
    let rows = top_rows(files, n);
    if k == n - 1 {
        assert(rows[rows.len() - 1] == file_row(files[k]));
    } else {
        lemma_top_row(files, k, n - 1);
        let was = top_rows(files, n - 1);
        let i = choose|i: int| 0 <= i < was.len() && was[i] == file_row(files[k]);
        assert(rows[i] == was[i]);
    }
}

/// A large file among the thirty largest is shown with its size, unless it lies
/// in a suspicious directory or there is more than the report holds.
pub proof fn every_large_file_is_shown(files: Seq<SizedFileModel>, k: int)
    requires
        0 <= k < files.len(),
        k < 30,
        files[k].size >= 512_000,
        !(suspicion(files[k].path) matches Some(SuspicionModel::Directory(_, _))),
        bloat_rows(files).len() <= 100,
    ensures
        exists|i: int|
            0 <= i < bloat_report(files).entries.len() && ({
                let e = #[trigger] bloat_report(files).entries[i];
                &&& e.key == files[k].path
                &&& e.values["size_bytes"@] == ValueModel::Count(files[k].size)
                &&& e.values["size_human"@] == ValueModel::Text(readable_size(files[k].size))
                &&& e.values["recommendation"@] == ValueModel::Message(
                    advice(files[k].path, files[k].size),
                )
            }),
{
    let n = least(files.len() as int, LARGEST_FILES as int);
    lemma_top_row(files, k, n);
    let top = top_rows(files, n);
    let x = file_row(files[k]);
    let at = choose|i: int| 0 <= i < top.len() && top[i] == x;
    let s = bloat_rows(files);
    assert(s[at] == x);
    report::top_ranked_members::<BloatRow>(s, 100);
    let ranked = report::top_ranked::<BloatRow>(s, 100);
    assert(ranked.contains(x));
    let i = choose|i: int| 0 <= i < ranked.len() && ranked[i] == x;
    assert(bloat_report(files).entries[i] == BloatRow::entry(x));
    reveal_strlit("size_bytes");
    reveal_strlit("size_human");
    reveal_strlit("recommendation");
    assert("size_bytes"@[5] != "size_human"@[5]);
    assert("size_bytes"@.len() != "recommendation"@.len());
    assert("size_human"@.len() != "recommendation"@.len());
}

/// The largest stand first, and there are at most a hundred.
pub proof fn largest_first(files: Seq<SizedFileModel>, i: int, j: int)
    requires
        0 <= i <= j < bloat_report(files).entries.len(),
    ensures
        bloat_report(files).entries.len() <= 100,
        bloat_report(files).entries[i].values["size_bytes"@]->Count_0 >= bloat_report(
            files,
        ).entries[j].values["size_bytes"@]->Count_0,
{
    let s = bloat_rows(files);
    report::top_ranked_leads::<BloatRow>(s, 100);
    report::top_ranked_len::<BloatRow>(s, 100);
    let ranked = report::top_ranked::<BloatRow>(s, 100);
    assert(bloat_report(files).entries[i] == BloatRow::entry(ranked[i]));
    assert(bloat_report(files).entries[j] == BloatRow::entry(ranked[j]));
    if i < j {
        assert(BloatRow::le(ranked[i], ranked[j]));
    }
    reveal_strlit("size_bytes");
    reveal_strlit("size_human");
    reveal_strlit("recommendation");
    assert("size_bytes"@[5] != "size_human"@[5]);
    assert("size_bytes"@.len() != "recommendation"@.len());
    assert("size_human"@.len() != "recommendation"@.len());
}

pub open spec fn row_size() -> spec_fn(BloatRowModel) -> nat {
    |r: BloatRowModel| r.size as nat
}

/// The size of a file that lies in a suspicious directory and has no row.
pub open spec fn size_in_directories(shown: Seq<Seq<char>>) -> spec_fn(SizedFileModel) -> nat {
    |f: SizedFileModel|
        if !shown.contains(f.path) && (suspicion(f.path) matches Some(
            SuspicionModel::Directory(_, _),
        )) {
            f.size as nat
        } else {
            0
        }
}

proof fn lemma_total_of_update(rows: Seq<BloatRowModel>, i: int, x: BloatRowModel)
    requires
        0 <= i < rows.len(),
    ensures
        fold::total(rows.update(i, x), row_size()) + rows[i].size as nat == fold::total(
            rows,
            row_size(),
        ) + x.size as nat,
    decreases rows.len(),
{
    let front = rows.drop_last();
    if i == rows.len() - 1 {
        assert(rows.update(i, x).drop_last() =~= front);
    } else {
        assert(rows.update(i, x).drop_last() =~= front.update(i, x));
        assert(rows.update(i, x).last() == rows.last());
        lemma_total_of_update(front, i, x);
    }
}

/// The rows of directories together are as large as the files in them.
pub proof fn directories_are_as_large_as_their_files(
    files: Seq<SizedFileModel>,
    shown: Seq<Seq<char>>,
    n: int,
)
    requires
        0 <= n <= files.len(),
        forall|i: int| 0 <= i < files.len() ==> (#[trigger] files[i]).size >= 0,
        fold::total(files.take(n), size_in_directories(shown)) <= u64::MAX,
    ensures
        fold::total(directory_rows(files, shown, n), row_size()) == fold::total(
            files.take(n),
            size_in_directories(shown),
        ),
        forall|i: int|
            0 <= i < directory_rows(files, shown, n).len() ==> (#[trigger] directory_rows(
                files,
                shown,
                n,
            )[i]).size >= 0,
    decreases n,
{
    if n > 0 {
        let f = files[n - 1];
        let rows = directory_rows(files, shown, n - 1);
        assert(files.take(n).drop_last() =~= files.take(n - 1));
        assert(files.take(n).last() == f);
        directories_are_as_large_as_their_files(files, shown, n - 1);
        match suspicion(f.path) {
            Some(SuspicionModel::Directory(root, code)) => {
                if !shown.contains(f.path) {
                    lemma_place(rows, root, 0);
                    match place_of(rows, root, 0) {
                        Some(i) => {
                            fold::lemma_total_member(rows, row_size(), i);
                            let x = BloatRowModel {
                                key: rows[i].key,
                                size: capped(rows[i].size + f.size),
                                recommendation: rows[i].recommendation,
                            };
                            lemma_total_of_update(rows, i, x);
                        },
                        None => {
                            let x = BloatRowModel {
                                key: root,
                                size: f.size,
                                recommendation: MessageModel::of(code).severe(Severity::Warning),
                            };
                            assert(rows.push(x).drop_last() =~= rows);
                        },
                    }
                }
            },
            _ => {},
        }
    }
}

/// A directory's path is that of the one above it and its own name.
pub proof fn paths_grow_by_a_segment(parts: Seq<Seq<char>>, n: int)
    requires
        1 <= n < parts.len(),
        parts[0].len() > 0,
    ensures
        path_to(parts, 1) == parts[0],
        path_to(parts, n + 1) == path_to(parts, n) + seq!['/'] + parts[n],
        path_to(parts, n).len() > 0,
    decreases n,
{
    reveal_with_fuel(path_to, 3);
    if n > 1 {
        paths_grow_by_a_segment(parts, n - 1);
    }
}

/// The report has these columns, in this order.
pub proof fn the_columns_are_these(sorted: Seq<SizedFileModel>)
    ensures
        bloat_report(sorted).name == "bloat"@,
        bloat_report(sorted).columns.len() == 3,
        bloat_report(sorted).columns[0].value == "size_bytes"@,
        bloat_report(sorted).columns[1].value == "size_human"@,
        bloat_report(sorted).columns[2].value == "recommendation"@,
{
}

/// The limits that hold here.
pub proof fn the_limits_are_these()
    ensures
        SOURCE_BLOAT_THRESHOLD == 20_971_520,
        LARGE_FILE_THRESHOLD == 512_000,
        VERY_LARGE_FILE_THRESHOLD == 5_242_880,
        LARGEST_FILES == 30,
        MAX_ENTRIES == 100,
{
}

/// A file that something is wrong with, and that lies in no suspicious directory
/// and has no row yet, gets one; no other file does.
pub proof fn files_with_faults_get_a_row(
    files: Seq<SizedFileModel>,
    shown: Seq<Seq<char>>,
    n: int,
    key: Seq<char>,
)
    requires
        0 <= n <= files.len(),
    ensures
        row_keys(other_rows(files, shown, n)).contains(key) <==> !shown.contains(key) && exists|
            k: int,
        |
            0 <= k < n && (#[trigger] files[k]).path == key && !(suspicion(key) matches Some(
                SuspicionModel::Directory(_, _),
            )) && advice(key, files[k].size).code != messages::BLOAT_RECOMMENDATION_OK@,
    decreases n,
{
    let is = row_keys(other_rows(files, shown, n));
    if n > 0 {
        files_with_faults_get_a_row(files, shown, n - 1, key);
        let was = row_keys(other_rows(files, shown, n - 1));
        let f = files[n - 1];
        if is.contains(key) {
            let i = choose|i: int| 0 <= i < is.len() && is[i] == key;
            if i < was.len() {
                assert(was[i] == key);
            } else {
                assert(f.path == key);
            }
        }
        if was.contains(key) {
            let i = choose|i: int| 0 <= i < was.len() && was[i] == key;
            assert(is[i] == key);
        }
        if !shown.contains(key) && exists|k: int|
            0 <= k < n && (#[trigger] files[k]).path == key && !(suspicion(key) matches Some(
                SuspicionModel::Directory(_, _),
            )) && advice(key, files[k].size).code != messages::BLOAT_RECOMMENDATION_OK@ {
            let k = choose|k: int|
                0 <= k < n && (#[trigger] files[k]).path == key && !(suspicion(key) matches Some(
                    SuspicionModel::Directory(_, _),
                )) && advice(key, files[k].size).code != messages::BLOAT_RECOMMENDATION_OK@;
            if k == n - 1 && !was.contains(key) {
                assert(is[is.len() - 1] == key);
            }
        }
    } else {
        assert(is.len() == 0);
    }
}

/// A file in a suspicious directory that has no row of its own counts toward a
/// row of the directory.
pub proof fn suspicious_directories_get_a_row(
    files: Seq<SizedFileModel>,
    shown: Seq<Seq<char>>,
    n: int,
    k: int,
    root: Seq<char>,
    code: Seq<char>,
)
    requires
        0 <= k < n <= files.len(),
        !shown.contains(files[k].path),
        suspicion(files[k].path) == Some(SuspicionModel::Directory(root, code)),
    ensures
        row_keys(directory_rows(files, shown, n)).contains(root),
    decreases n,
{
    let rows = directory_rows(files, shown, n - 1);
    let is = directory_rows(files, shown, n);
    if k < n - 1 {
        suspicious_directories_get_a_row(files, shown, n - 1, k, root, code);
        let i = choose|i: int| 0 <= i < row_keys(rows).len() && row_keys(rows)[i] == root;
        match suspicion(files[n - 1].path) {
            Some(SuspicionModel::Directory(r, _)) => lemma_place(rows, r, 0),
            _ => {},
        }
        assert(row_keys(is)[i] == root);
    } else {
        lemma_place(rows, root, 0);
        match place_of(rows, root, 0) {
            Some(i) => assert(row_keys(is)[i] == root),
            None => assert(row_keys(is)[is.len() - 1] == root),
        }
    }
}

} // verus!
