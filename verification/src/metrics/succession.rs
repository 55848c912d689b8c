//! How the ownership of files passes from author to author.

use vstd::prelude::*;

use crate::analysis::source_filter;
use crate::analysis::source_filter::is_source_file;
use crate::busiest;
use crate::busiest::Active;
use crate::fold;
use crate::messages;
use crate::order;
use crate::order::Ranked;
use crate::report;
use crate::report::Row;
use crate::table;
use crate::table::TextMap;
use crate::text;
use crate::types;
use crate::types::{
    EntryModel, LocalizedMessage, MessageModel, MetricEntry, MetricResult, MetricValue, ResultModel,
    Severity, ValueModel, Values,
};

verus! {

/// An author without a commit for this many days counts as gone.
pub const INACTIVE_DAYS: i64 = 180;

pub const MAX_SUCCESSION_ROWS: usize = 200;

/// Only the files with the most commits are looked at.
pub const TOP_FILES: usize = 500;

/// What one author did to one file: the number of commits, the first and the
/// last of them.
#[derive(Debug)]
pub struct SuccessionRow {
    pub file: String,
    pub email: String,
    pub commits: u64,
    pub first_ts: i64,
    pub last_ts: i64,
}

pub struct SuccessionRowModel {
    pub file: Seq<char>,
    pub email: Seq<char>,
    pub commits: u64,
    pub first_ts: i64,
    pub last_ts: i64,
}

impl View for SuccessionRow {
    type V = SuccessionRowModel;

    open spec fn view(&self) -> SuccessionRowModel {
        SuccessionRowModel {
            file: self.file@,
            email: self.email@,
            commits: self.commits,
            first_ts: self.first_ts,
            last_ts: self.last_ts,
        }
    }
}

/// What happens at a file is that it is committed to.
impl Active for SuccessionRow {
    open spec fn place(r: SuccessionRowModel) -> Seq<char> {
        r.file
    }

    open spec fn amount(r: SuccessionRowModel) -> nat {
        r.commits as nat
    }

    fn place_name(&self) -> (r: String) {
        self.file.clone()
    }

    fn amount_here(&self) -> (r: u64) {
        self.commits
    }
}

pub open spec fn commits_made() -> spec_fn(SuccessionRowModel) -> nat {
    |r: SuccessionRowModel| r.commits as nat
}

/// When an author was last seen anywhere.
#[derive(Debug)]
pub struct LastSeen {
    pub email: String,
    pub last_ts: i64,
}

pub struct LastSeenModel {
    pub email: Seq<char>,
    pub last_ts: i64,
}

impl View for LastSeen {
    type V = LastSeenModel;

    open spec fn view(&self) -> LastSeenModel {
        LastSeenModel { email: self.email@, last_ts: self.last_ts }
    }
}

/// An author's commits to a file, and the last of them.
#[derive(Debug, Clone, Copy, PartialEq, Eq, Structural)]
pub struct AuthorStat {
    pub commits: u64,
    pub last_ts: i64,
}

impl View for AuthorStat {
    type V = AuthorStat;

    open spec fn view(&self) -> AuthorStat {
        *self
    }
}

/// The authors of a file, and which of them came first.
#[derive(Debug)]
pub struct FileHistory {
    pub authors: TextMap<AuthorStat>,
    pub original_email: String,
    pub original_ts: i64,
}

pub struct FileHistoryModel {
    pub authors: Seq<(Seq<char>, AuthorStat)>,
    pub original_email: Seq<char>,
    pub original_ts: i64,
}

impl View for FileHistory {
    type V = FileHistoryModel;

    open spec fn view(&self) -> FileHistoryModel {
        FileHistoryModel {
            authors: self.authors@,
            original_email: self.original_email@,
            original_ts: self.original_ts,
        }
    }
}

/// A history with one more author; the earliest stays the original one.
pub open spec fn joined(h: FileHistoryModel, r: SuccessionRowModel) -> FileHistoryModel {
    FileHistoryModel {
        authors: table::put(
            h.authors,
            r.email,
            AuthorStat { commits: r.commits, last_ts: r.last_ts },
        ),
        original_email: if r.first_ts < h.original_ts {
            r.email
        } else {
            h.original_email
        },
        original_ts: if r.first_ts < h.original_ts {
            r.first_ts
        } else {
            h.original_ts
        },
    }
}

/// A history that starts with `r`, before its author is put in.
pub open spec fn started(r: SuccessionRowModel) -> FileHistoryModel {
    FileHistoryModel {
        authors: Seq::empty(),
        original_email: r.email,
        original_ts: r.first_ts,
    }
}

/// The histories of the source files.
pub open spec fn histories(rows: Seq<SuccessionRowModel>) -> Seq<(Seq<char>, FileHistoryModel)>
    decreases rows.len(),
{
    if rows.len() == 0 {
        Seq::empty()
    } else {
        let head = histories(rows.drop_last());
        let r = rows.last();
        if source_filter::is_source(r.file) {
            let h = match table::lookup(head, r.file) {
                Some(h) => h,
                None => started(r),
            };
            table::put(head, r.file, joined(h, r))
        } else {
            head
        }
    }
}

/// When each author was last seen; the last row about an author counts.
pub open spec fn last_seen(rows: Seq<LastSeenModel>) -> Seq<(Seq<char>, i64)>
    decreases rows.len(),
{
    if rows.len() == 0 {
        Seq::empty()
    } else {
        table::put(last_seen(rows.drop_last()), rows.last().email, rows.last().last_ts)
    }
}

/// Whether an author last seen at `ts` still counts as active at `now`.
pub open spec fn is_active(ts: int, now: int) -> bool {
    ts >= now - INACTIVE_DAYS * 86400
}

/// The position of the author with the most commits; of those that tie, the
/// one seen last; then the first by name.
pub open spec fn current_top(s: Seq<(Seq<char>, AuthorStat)>) -> int
    decreases s.len(),
{
    if s.len() <= 1 {
        0
    } else {
        let l = current_top(s.drop_last());
        let a = s.last().1;
        let b = s[l].1;
        if a.commits > b.commits || (a.commits == b.commits && a.last_ts > b.last_ts) {
            s.len() - 1
        } else {
            l
        }
    }
}

/// The author who looks after a file is one of its authors; none of them has
/// more commits, none of those with as many was seen later, and none of those
/// seen as late stands before.
pub proof fn current_top_has_the_most_commits(s: Seq<(Seq<char>, AuthorStat)>)
    requires
        s.len() > 0,
    ensures
        0 <= current_top(s) < s.len(),
        forall|k: int|
            0 <= k < s.len() ==> (#[trigger] s[k]).1.commits <= s[current_top(s)].1.commits,
        forall|k: int|
            0 <= k < s.len() && (#[trigger] s[k]).1.commits == s[current_top(s)].1.commits
                ==> s[k].1.last_ts <= s[current_top(s)].1.last_ts,
        forall|k: int|
            0 <= k < current_top(s) ==> (#[trigger] s[k]).1.commits
                < s[current_top(s)].1.commits || s[k].1.last_ts < s[current_top(s)].1.last_ts,
    decreases s.len(),
{
    if s.len() > 1 {
        let init = s.drop_last();
        current_top_has_the_most_commits(init);
        let l = current_top(init);
        assert(init[l] == s[l]);
        assert forall|k: int| 0 <= k < s.len() implies (#[trigger] s[k]).1.commits <= s[current_top(
            s,
        )].1.commits by {
            if k < init.len() {
                assert(init[k] == s[k]);
            }
        }
        assert forall|k: int|
            0 <= k < s.len() && (#[trigger] s[k]).1.commits == s[current_top(
                s,
            )].1.commits implies s[k].1.last_ts <= s[current_top(s)].1.last_ts by {
            if k < init.len() {
                assert(init[k] == s[k]);
            }
        }
        assert forall|k: int| 0 <= k < current_top(s) implies (#[trigger] s[k]).1.commits
            < s[current_top(s)].1.commits || s[k].1.last_ts < s[current_top(s)].1.last_ts by {
            if k < init.len() {
                assert(init[k] == s[k]);
            }
        }
    }
}

/// An author counts as active for 180 days after the last commit.
pub proof fn authors_stay_active_for_half_a_year(ts: int, now: int)
    ensures
        is_active(ts, now) == (now - ts <= 180 * 24 * 60 * 60),
{
}

/// The status of a file.
pub open spec fn status_message(
    original_active: bool,
    successors: int,
    total_authors: int,
) -> MessageModel {
    let code = if original_active {
        if total_authors >= 3 {
            messages::SUCCESSION_STATUS_HEALTHY@
        } else {
            messages::SUCCESSION_STATUS_OWNED@
        }
    } else if successors == 0 {
        messages::SUCCESSION_STATUS_ORPHANED@
    } else if successors == 1 {
        messages::SUCCESSION_STATUS_KNOWLEDGE_TRANSFER_NEEDED@
    } else {
        messages::SUCCESSION_STATUS_HANDED_OFF@
    };
    let m = MessageModel::of(code).with_number("successors"@, successors).with_number(
        "total_authors"@,
        total_authors,
    );
    if !original_active && successors == 0 {
        m.severe(Severity::Error)
    } else if !original_active && successors == 1 {
        m.severe(Severity::Warning)
    } else {
        m
    }
}

/// How urgent a status is, by its code.
pub open spec fn code_rank(code: Seq<char>) -> int {
    if code == messages::SUCCESSION_STATUS_ORPHANED@ {
        4
    } else if code == messages::SUCCESSION_STATUS_KNOWLEDGE_TRANSFER_NEEDED@ {
        3
    } else if code == messages::SUCCESSION_STATUS_HANDED_OFF@ {
        2
    } else if code == messages::SUCCESSION_STATUS_OWNED@ {
        1
    } else {
        0
    }
}

/// How urgent the status is that an entry shows.
pub open spec fn entry_rank(e: EntryModel) -> int {
    if e.values.dom().contains("status"@) {
        match e.values["status"@] {
            ValueModel::Message(m) => code_rank(m.code),
            _ => 0,
        }
    } else {
        0
    }
}

/// How urgent the status is that an entry shows.
pub fn status_rank(entry: &MetricEntry) -> (r: u8)
    ensures
        r == entry_rank(entry@),
{
    match entry.values.get("status") {
        Some(MetricValue::Message(m)) => rank_of_code(m.code.as_str()),
        _ => 0,
    }
}

fn rank_of_code(code: &str) -> (r: u8)
    ensures
        r == code_rank(code@),
{
    if text::same(code, messages::SUCCESSION_STATUS_ORPHANED) {
        4
    } else if text::same(code, messages::SUCCESSION_STATUS_KNOWLEDGE_TRANSFER_NEEDED) {
        3
    } else if text::same(code, messages::SUCCESSION_STATUS_HANDED_OFF) {
        2
    } else if text::same(code, messages::SUCCESSION_STATUS_OWNED) {
        1
    } else {
        0
    }
}

/// The status of a file, from whether its original author is active, how many
/// others came after, and how many authors there are in all.
pub fn classify(original_active: bool, successors: u64, total_authors: u64) -> (r:
    LocalizedMessage)
    ensures
        r@ == status_message(original_active, successors as int, total_authors as int),
{
    let code = if original_active {
        if total_authors >= 3 {
            messages::SUCCESSION_STATUS_HEALTHY
        } else {
            messages::SUCCESSION_STATUS_OWNED
        }
    } else if successors == 0 {
        messages::SUCCESSION_STATUS_ORPHANED
    } else if successors == 1 {
        messages::SUCCESSION_STATUS_KNOWLEDGE_TRANSFER_NEEDED
    } else {
        messages::SUCCESSION_STATUS_HANDED_OFF
    };
    let m = LocalizedMessage::code(code).with_param("successors", successors).with_param(
        "total_authors",
        total_authors,
    );
    if !original_active && successors == 0 {
        m.with_severity(Severity::Error)
    } else if !original_active && successors == 1 {
        m.with_severity(Severity::Warning)
    } else {
        m
    }
}

/// Who wrote a file first, and who looks after it now.
pub struct Succession {
    pub file: String,
    pub original_author: String,
    pub original_active: bool,
    pub current_top: String,
    pub total_authors: u64,
    pub successors: u64,
}

pub struct SuccessionModel {
    pub file: Seq<char>,
    pub original_author: Seq<char>,
    pub original_active: bool,
    pub current_top: Seq<char>,
    pub total_authors: int,
    pub successors: int,
}

impl View for Succession {
    type V = SuccessionModel;

    open spec fn view(&self) -> SuccessionModel {
        SuccessionModel {
            file: self.file@,
            original_author: self.original_author@,
            original_active: self.original_active,
            current_top: self.current_top@,
            total_authors: self.total_authors as int,
            successors: self.successors as int,
        }
    }
}

impl SuccessionModel {
    pub open spec fn status(self) -> MessageModel {
        status_message(self.original_active, self.successors, self.total_authors)
    }
}

/// The most urgent status first.
impl Ranked for Succession {
    open spec fn le(a: SuccessionModel, b: SuccessionModel) -> bool {
        code_rank(a.status().code) >= code_rank(b.status().code)
    }

    proof fn le_total(a: SuccessionModel, b: SuccessionModel) {
    }

    proof fn le_transitive(a: SuccessionModel, b: SuccessionModel, c: SuccessionModel) {
    }

    fn not_after(&self, other: &Succession) -> (r: bool) {
        let a = classify(self.original_active, self.successors, self.total_authors);
        let b = classify(other.original_active, other.successors, other.total_authors);
        rank_of_code(a.code.as_str()) >= rank_of_code(b.code.as_str())
    }
}

impl Row for Succession {
    open spec fn entry(s: SuccessionModel) -> EntryModel {
        EntryModel {
            key: s.file,
            values: Map::empty().insert(
                "original_author"@,
                ValueModel::Text(s.original_author),
            ).insert(
                "original_active"@,
                ValueModel::Count(
                    if s.original_active {
                        1
                    } else {
                        0
                    },
                ),
            ).insert("current_top"@, ValueModel::Text(s.current_top)).insert(
                "total_authors"@,
                ValueModel::Count(s.total_authors),
            ).insert("successors"@, ValueModel::Count(s.successors)).insert(
                "status"@,
                ValueModel::Message(s.status()),
            ),
        }
    }

    fn to_entry(self) -> (r: MetricEntry) {
        let status = classify(self.original_active, self.successors, self.total_authors);
        let mut values = Values::new();
        values.insert("original_author", MetricValue::Text(self.original_author));
        values.insert(
            "original_active",
            MetricValue::Count(
                if self.original_active {
                    1
                } else {
                    0
                },
            ),
        );
        values.insert("current_top", MetricValue::Text(self.current_top));
        values.insert("total_authors", MetricValue::Count(self.total_authors));
        values.insert("successors", MetricValue::Count(self.successors));
        values.insert("status", MetricValue::Message(status));
        MetricEntry { key: self.file, values }
    }
}

/// The report ranks files by the status its entries show.
pub proof fn entry_shows_rank(s: SuccessionModel)
    ensures
        entry_rank(Succession::entry(s)) == code_rank(s.status().code),
{
}

/// How many authors of a file are not the original one.
pub open spec fn successor_count(s: Seq<(Seq<char>, AuthorStat)>, original: Seq<char>) -> int
    decreases s.len(),
{
    if s.len() == 0 {
        0
    } else {
        successor_count(s.drop_last(), original) + if s.last().0 != original {
            1int
        } else {
            0
        }
    }
}

pub open spec fn succession_of(
    file: Seq<char>,
    h: FileHistoryModel,
    seen: Seq<(Seq<char>, i64)>,
    now: int,
) -> SuccessionModel {
    SuccessionModel {
        file,
        original_author: h.original_email,
        original_active: match table::lookup(seen, h.original_email) {
            Some(t) => is_active(t as int, now),
            None => false,
        },
        current_top: if h.authors.len() == 0 {
            "<unknown>"@
        } else {
            h.authors[current_top(h.authors)].0
        },
        total_authors: h.authors.len() as int,
        successors: successor_count(h.authors, h.original_email),
    }
}

pub open spec fn successions(
    m: Seq<(Seq<char>, FileHistoryModel)>,
    seen: Seq<(Seq<char>, i64)>,
    now: int,
) -> Seq<SuccessionModel> {
    Seq::new(m.len(), |i: int| succession_of(m[i].0, m[i].1, seen, now))
}

pub open spec fn succession_columns() -> Seq<Seq<char>> {
    seq![
        "original_author"@,
        "original_active"@,
        "current_top"@,
        "total_authors"@,
        "successors"@,
        "status"@,
    ]
}

pub open spec fn succession_report(
    rows: Seq<SuccessionRowModel>,
    seen: Seq<LastSeenModel>,
    now: int,
) -> ResultModel {
    types::report_of(
        "succession"@,
        succession_columns(),
        report::entries_of::<Succession>(
            report::top_ranked::<Succession>(
                successions(
                    histories(busiest::busiest::<SuccessionRow>(rows, TOP_FILES as int)),
                    last_seen(seen),
                    now,
                ),
                MAX_SUCCESSION_ROWS as int,
            ),
        ),
    )
}

/// Files and authors stand in ascending order.
pub open spec fn in_order(m: Seq<(Seq<char>, FileHistoryModel)>) -> bool {
    &&& table::ascending(m)
    &&& forall|i: int| 0 <= i < m.len() ==> table::ascending((#[trigger] m[i]).1.authors)
}

fn collect_histories(rows: &[SuccessionRow]) -> (r: TextMap<FileHistory>)
    ensures
        r@ == histories(order::models(rows@)),
        in_order(r@),
{
    let ghost all = order::models(rows@);
    let mut files: TextMap<FileHistory> = TextMap::new();
    let n: usize = rows.len();
    let mut i: usize = 0;
    while i < n
        invariant
            n == rows@.len(),
            i <= n,
            all == order::models(rows@),
            files@ == histories(all.take(i as int)),
            in_order(files@),
        decreases n - i,
    {
        proof {
            assert(all.take(i + 1).drop_last() =~= all.take(i as int));
        }
        let row = &rows[i];
        if is_source_file(row.file.as_str()) {
            join_history(&mut files, row);
        }
        i += 1;
    }
    proof {
        assert(all.take(n as int) =~= all);
    }
    files
}

fn join_history(files: &mut TextMap<FileHistory>, row: &SuccessionRow)
    requires
        in_order(old(files)@),
    ensures
        final(files)@ == table::put(
            old(files)@,
            row.file@,
            joined(
                match table::lookup(old(files)@, row.file@) {
                    Some(h) => h,
                    None => started(row@),
                },
                row@,
            ),
        ),
        in_order(final(files)@),
{
    let ghost before = files@;
    let ghost h = match table::lookup(before, row.file@) {
        Some(h) => h,
        None => started(row@),
    };
    let ghost goal = table::put(before, row.file@, joined(h, row@));
    let fresh = FileHistory {
        authors: TextMap::new(),
        original_email: row.email.clone(),
        original_ts: row.first_ts,
    };
    let k = files.slot(row.file.as_str(), fresh);
    let ghost held = files@;
    proof {
        if table::lookup(before, row.file@) is None {
            table::lookup_of_put(before, row.file@, started(row@), row.file@);
            table::put_twice(before, row.file@, started(row@), joined(h, row@));
        }
        table::lemma_lookup_at(held, k as int);
        assert(held[k as int].1 == h);
        if table::lookup(before, row.file@) is Some {
            table::lemma_lookup_at(before, k as int);
        }
        assert(table::ascending(h.authors)) by {
            if table::lookup(before, row.file@) is Some {
                assert(held == before);
                assert(table::ascending(before[k as int].1.authors));
            }
        }
        table::put_ascends(
            h.authors,
            row.email@,
            AuthorStat { commits: row.commits, last_ts: row.last_ts },
        );
    }
    let acc = files.value_mut(k);
    if row.first_ts < acc.original_ts {
        acc.original_ts = row.first_ts;
        acc.original_email = row.email.clone();
    }
    acc.authors.insert(
        row.email.clone(),
        AuthorStat { commits: row.commits, last_ts: row.last_ts },
    );
    proof {
        table::lemma_update_is_put(held, k as int, joined(h, row@));
        table::put_ascends(before, row.file@, joined(h, row@));
        assert forall|i: int| 0 <= i < goal.len() implies table::ascending(
            (#[trigger] goal[i]).1.authors,
        ) by {
            table::lemma_put_members(before, row.file@, joined(h, row@), i);
            if goal[i] != (row.file@, joined(h, row@)) {
                let j = choose|j: int| 0 <= j < before.len() && before[j] == goal[i];
                assert(table::ascending(before[j].1.authors));
            }
        }
    }
}

fn collect_last_seen(rows: &[LastSeen]) -> (r: TextMap<i64>)
    ensures
        r@ == last_seen(order::models(rows@)),
        table::ascending(r@),
{
    let ghost all = order::models(rows@);
    let mut seen: TextMap<i64> = TextMap::new();
    let n: usize = rows.len();
    let mut i: usize = 0;
    while i < n
        invariant
            n == rows@.len(),
            i <= n,
            all == order::models(rows@),
            seen@ == last_seen(all.take(i as int)),
            table::ascending(seen@),
        decreases n - i,
    {
        proof {
            assert(all.take(i + 1).drop_last() =~= all.take(i as int));
        }
        seen.insert(rows[i].email.clone(), rows[i].last_ts);
        i += 1;
    }
    proof {
        assert(all.take(n as int) =~= all);
    }
    seen
}

fn find_current_top(authors: &TextMap<AuthorStat>) -> (r: usize)
    requires
        authors@.len() > 0,
    ensures
        r == current_top(authors@),
        r < authors@.len(),
{
    let n: usize = authors.len();
    let mut best: usize = 0;
    let mut i: usize = 1;
    proof {
        assert(authors@.take(1).len() == 1);
    }
    while i < n
        invariant
            n == authors@.len(),
            1 <= i <= n,
            best < i,
            best == current_top(authors@.take(i as int)),
        decreases n - i,
    {
        proof {
            assert(authors@.take(i + 1).drop_last() =~= authors@.take(i as int));
        }
        let a = authors.value_at(i);
        let b = authors.value_at(best);
        if a.commits > b.commits || (a.commits == b.commits && a.last_ts > b.last_ts) {
            best = i;
        }
        i += 1;
    }
    proof {
        assert(authors@.take(n as int) =~= authors@);
    }
    best
}

fn count_successors(authors: &TextMap<AuthorStat>, original: &str) -> (r: u64)
    ensures
        r == successor_count(authors@, original@),
{
    let n: usize = authors.len();
    let mut count: u64 = 0;
    let mut i: usize = 0;
    while i < n
        invariant
            n == authors@.len(),
            i <= n,
            count <= i,
            count == successor_count(authors@.take(i as int), original@),
        decreases n - i,
    {
        proof {
            assert(authors@.take(i + 1).drop_last() =~= authors@.take(i as int));
        }
        if !text::same(authors.key_at(i).as_str(), original) {
            count += 1;
        }
        i += 1;
    }
    proof {
        assert(authors@.take(n as int) =~= authors@);
    }
    count
}

fn succeed(file: &String, h: &FileHistory, seen: &TextMap<i64>, now: i64) -> (r: Succession)
    requires
        table::ascending(seen@),
    ensures
        r@ == succession_of(file@, h@, seen@, now as int),
{
    let original_active = match seen.get(h.original_email.as_str()) {
        Some(t) => *t as i128 >= now as i128 - INACTIVE_DAYS as i128 * 86400,
        None => false,
    };
    let top = if h.authors.len() == 0 {
        text::copy_text("<unknown>")
    } else {
        let k = find_current_top(&h.authors);
        h.authors.key_at(k).clone()
    };
    Succession {
        file: file.clone(),
        original_author: h.original_email.clone(),
        original_active,
        current_top: top,
        total_authors: h.authors.len() as u64,
        successors: count_successors(&h.authors, h.original_email.as_str()),
    }
}

pub struct SuccessionCollector;

impl Default for SuccessionCollector {
    fn default() -> (r: Self)
        ensures
            r == (SuccessionCollector {  }),
    {
        SuccessionCollector::new()
    }
}

impl SuccessionCollector {
    pub fn new() -> (r: Self)
        ensures
            r == (SuccessionCollector {  }),
    {
        SuccessionCollector
    }

    pub fn name(&self) -> (r: &str)
        ensures
            r@ == "succession"@,
    {
        "succession"
    }

    /// The report without any rows to draw on.
    pub fn finalize(&mut self) -> (r: MetricResult)
        ensures
            r@ == types::empty_report("succession"@),
    {
        MetricResult::empty("succession")
    }

    /// The report at the time `now`, given what each author did to each file
    /// and when each author was last seen anywhere.
    pub fn finalize_from_rows(
        &mut self,
        rows: Vec<SuccessionRow>,
        seen: &[LastSeen],
        now: i64,
    ) -> (r: MetricResult)
        requires
            fold::total(order::models(rows@), commits_made()) <= u64::MAX,
        ensures
            r@ == succession_report(order::models(rows@), order::models(seen@), now as int),
    {
        proof {
            assert(busiest::amounts::<SuccessionRow>() =~= commits_made());
        }
        let kept = busiest::keep_busiest(rows, TOP_FILES);
        let files = collect_histories(kept.as_slice());
        let global = collect_last_seen(seen);
        let n: usize = files.len();
        let mut found: Vec<Succession> = Vec::new();
        let mut i: usize = 0;
        while i < n
            invariant
                n == files@.len(),
                i <= n,
                table::ascending(global@),
                order::models(found@) == successions(files@, global@, now as int).take(i as int),
            decreases n - i,
        {
            let ghost before = order::models(found@);
            let s = succeed(files.key_at(i), files.value_at(i), &global, now);
            found.push(s);
            proof {
                assert(order::models(found@) =~= before.push(s@));
                assert(successions(files@, global@, now as int).take(i + 1) =~= before.push(s@));
            }
            i += 1;
        }
        proof {
            assert(successions(files@, global@, now as int).take(n as int) =~= successions(
                files@,
                global@,
                now as int,
            ));
        }
        let entries = report::ranked_entries(found, MAX_SUCCESSION_ROWS);
        let columns = [
            "original_author",
            "original_active",
            "current_top",
            "total_authors",
            "successors",
            "status",
        ];
        proof {
            assert(types::str_views(columns@) =~= succession_columns());
        }
        MetricResult::report("succession", &columns, entries)
    }
}

/// The original author of a source file is the one whose first commit to it came
/// first; a file without rows has no history.
pub proof fn the_original_author_came_first(rows: Seq<SuccessionRowModel>, file: Seq<char>)
    ensures
        table::ascending(histories(rows)),
        match table::lookup(histories(rows), file) {
            Some(h) => source_filter::is_source(file) && (forall|k: int|
                0 <= k < rows.len() && (#[trigger] rows[k]).file == file ==> h.original_ts
                    <= rows[k].first_ts) && exists|k: int|
                0 <= k < rows.len() && (#[trigger] rows[k]).file == file && rows[k].email
                    == h.original_email && rows[k].first_ts == h.original_ts,
            None => !source_filter::is_source(file) || forall|k: int|
                0 <= k < rows.len() ==> (#[trigger] rows[k]).file != file,
        },
    decreases rows.len(),
{
    if rows.len() > 0 {
        let front = rows.drop_last();
        let r = rows.last();
        let head = histories(front);
        the_original_author_came_first(front, file);
        assert(rows[rows.len() - 1] == r);
        assert(forall|k: int| 0 <= k < front.len() ==> front[k] == rows[k]);
        match table::lookup(head, file) {
            Some(h) => {
                let k = choose|k: int|
                    0 <= k < front.len() && (#[trigger] front[k]).file == file && front[k].email
                        == h.original_email && front[k].first_ts == h.original_ts;
                assert(rows[k] == front[k]);
            },
            None => {},
        }
        if source_filter::is_source(r.file) {
            let h = match table::lookup(head, r.file) {
                Some(h) => h,
                None => started(r),
            };
            table::lookup_of_put(head, r.file, joined(h, r), file);
            table::put_ascends(head, r.file, joined(h, r));
        }
    }
}

/// An author of a file has the commits and the last day that their last row says.
pub proof fn authors_have_their_commits(
    rows: Seq<SuccessionRowModel>,
    k: int,
)
    requires
        0 <= k < rows.len(),
        source_filter::is_source(rows[k].file),
        forall|j: int|
            k < j < rows.len() ==> (#[trigger] rows[j]).file != rows[k].file || rows[j].email
                != rows[k].email,
    ensures
        ({
            let h = table::lookup(histories(rows), rows[k].file);
            &&& h is Some
            &&& table::ascending(h->0.authors)
            &&& table::lookup(h->0.authors, rows[k].email) == Some(
                AuthorStat { commits: rows[k].commits, last_ts: rows[k].last_ts },
            )
        }),
    decreases rows.len(),
{
    let front = rows.drop_last();
    let r = rows.last();
    let head = histories(front);
    the_original_author_came_first(front, r.file);
    lemma_authors_ascend(front, r.file);
    lemma_authors_ascend(rows, rows[k].file);
    let h = match table::lookup(head, r.file) {
        Some(h) => h,
        None => started(r),
    };
    assert(rows[rows.len() - 1] == r);
    assert(forall|j: int| 0 <= j < front.len() ==> front[j] == rows[j]);
    if k < front.len() {
        authors_have_their_commits(front, k);
    }
    if source_filter::is_source(r.file) {
        table::lookup_of_put(head, r.file, joined(h, r), rows[k].file);
        table::lookup_of_put(
            h.authors,
            r.email,
            AuthorStat { commits: r.commits, last_ts: r.last_ts },
            rows[k].email,
        );
    }
}

proof fn lemma_authors_ascend(rows: Seq<SuccessionRowModel>, file: Seq<char>)
    ensures
        table::ascending(histories(rows)),
        table::lookup(histories(rows), file) matches Some(h) ==> table::ascending(h.authors),
    decreases rows.len(),
{
    if rows.len() > 0 {
        let front = rows.drop_last();
        let r = rows.last();
        let head = histories(front);
        lemma_authors_ascend(front, file);
        lemma_authors_ascend(front, r.file);
        if source_filter::is_source(r.file) {
            let h = match table::lookup(head, r.file) {
                Some(h) => h,
                None => started(r),
            };
            table::put_ascends(head, r.file, joined(h, r));
            table::lookup_of_put(head, r.file, joined(h, r), file);
            table::put_ascends(
                h.authors,
                r.email,
                AuthorStat { commits: r.commits, last_ts: r.last_ts },
            );
        }
    }
}

/// All authors but the original one are successors.
pub proof fn all_others_are_successors(s: Seq<(Seq<char>, AuthorStat)>, original: Seq<char>)
    requires
        table::ascending(s),
    ensures
        table::keys(s).contains(original) ==> successor_count(s, original) == s.len() - 1,
        !table::keys(s).contains(original) ==> successor_count(s, original) == s.len(),
    decreases s.len(),
{
    if s.len() > 0 {
        let front = s.drop_last();
        assert(table::ascending(front)) by {
            assert(forall|i: int| 0 <= i < front.len() ==> front[i] == s[i]);
        }
        all_others_are_successors(front, original);
        let keys = table::keys(s);
        assert(forall|i: int| 0 <= i < front.len() ==> table::keys(front)[i] == keys[i]);
        assert(keys[s.len() - 1] == s.last().0);
        if s.last().0 == original {
            if table::keys(front).contains(original) {
                let i = choose|i: int|
                    0 <= i < table::keys(front).len() && table::keys(front)[i] == original;
                assert(s[i].0 != s[s.len() - 1].0);
            }
        } else if keys.contains(original) {
            let i = choose|i: int| 0 <= i < keys.len() && keys[i] == original;
            assert(table::keys(front)[i] == original);
        } else if table::keys(front).contains(original) {
            let i = choose|i: int|
                0 <= i < table::keys(front).len() && table::keys(front)[i] == original;
            assert(keys[i] == original);
        }
    }
}

/// A file is well where its original author is around, and the better the more
/// know it. Where they are gone it is orphaned without a successor, waits for a
/// transfer with one, and is handed off with more. The numbers are told.
pub proof fn statuses_are_these(active: bool, successors: int, total: int)
    requires
        successors >= 0,
    ensures
        ({
            let m = status_message(active, successors, total);
            &&& active && total >= 3 ==> m.code == messages::SUCCESSION_STATUS_HEALTHY@
                && m.severity is None
            &&& active && total < 3 ==> m.code == messages::SUCCESSION_STATUS_OWNED@ && m.severity
                is None
            &&& !active && successors == 0 ==> m.code == messages::SUCCESSION_STATUS_ORPHANED@
                && m.severity == Some(Severity::Error)
            &&& !active && successors == 1 ==> m.code
                == messages::SUCCESSION_STATUS_KNOWLEDGE_TRANSFER_NEEDED@ && m.severity == Some(
                Severity::Warning,
            )
            &&& !active && successors >= 2 ==> m.code == messages::SUCCESSION_STATUS_HANDED_OFF@
                && m.severity is None
            &&& m.params == seq![
                ("successors"@, types::ParamModel::Number(successors)),
                ("total_authors"@, types::ParamModel::Number(total)),
            ]
        }),
{
    reveal_with_fuel(types::params_with, 3);
    reveal_strlit("successors");
    reveal_strlit("total_authors");
    assert("successors"@.len() != "total_authors"@.len());
    assert(status_message(active, successors, total).params =~= seq![
        ("successors"@, types::ParamModel::Number(successors)),
        ("total_authors"@, types::ParamModel::Number(total)),
    ]);
}

/// The original author is active where they were seen, and last seen within half
/// a year; the one who looks after the file has the most commits.
pub proof fn a_succession_tells_who_is_there(
    file: Seq<char>,
    h: FileHistoryModel,
    seen: Seq<(Seq<char>, i64)>,
    now: int,
)
    ensures
        ({
            let s = succession_of(file, h, seen, now);
            &&& s.file == file
            &&& s.original_author == h.original_email
            &&& s.total_authors == h.authors.len()
            &&& table::lookup(seen, h.original_email) is None ==> !s.original_active
            &&& table::lookup(seen, h.original_email) matches Some(t) ==> s.original_active == (now
                - t <= 180 * 24 * 60 * 60)
            &&& h.authors.len() == 0 ==> s.current_top == "<unknown>"@
            &&& h.authors.len() > 0 ==> exists|i: int|
                0 <= i < h.authors.len() && (#[trigger] h.authors[i]).0 == s.current_top && (forall|
                    k: int,
                |
                    0 <= k < h.authors.len() ==> (#[trigger] h.authors[k]).1.commits
                        <= h.authors[i].1.commits)
        }),
{
    if h.authors.len() > 0 {
        current_top_has_the_most_commits(h.authors);
        assert(h.authors[current_top(h.authors)].0 == succession_of(file, h, seen, now).current_top);
    }
}

/// An author was last seen when their last row says.
pub proof fn the_last_sight_holds(rows: Seq<LastSeenModel>, k: int)
    requires
        0 <= k < rows.len(),
        forall|j: int| k < j < rows.len() ==> (#[trigger] rows[j]).email != rows[k].email,
    ensures
        table::ascending(last_seen(rows)),
        table::lookup(last_seen(rows), rows[k].email) == Some(rows[k].last_ts),
    decreases rows.len(),
{
    let front = rows.drop_last();
    let r = rows.last();
    lemma_seen_ascends(front);
    table::put_ascends(last_seen(front), r.email, r.last_ts);
    table::lookup_of_put(last_seen(front), r.email, r.last_ts, rows[k].email);
    if k < front.len() {
        assert(forall|j: int| 0 <= j < front.len() ==> front[j] == rows[j]);
        assert(rows[rows.len() - 1] == r);
        the_last_sight_holds(front, k);
    }
}

proof fn lemma_seen_ascends(rows: Seq<LastSeenModel>)
    ensures
        table::ascending(last_seen(rows)),
    decreases rows.len(),
{
    if rows.len() > 0 {
        lemma_seen_ascends(rows.drop_last());
        table::put_ascends(last_seen(rows.drop_last()), rows.last().email, rows.last().last_ts);
    }
}

/// How urgent it is to look after a file of which so much is shown.
pub open spec fn urgency(v: Map<Seq<char>, ValueModel>) -> int {
    if v["original_active"@] == ValueModel::Count(0) {
        if v["successors"@] == ValueModel::Count(0) {
            4
        } else if v["successors"@] == ValueModel::Count(1) {
            3
        } else {
            2
        }
    } else if v["total_authors"@]->Count_0 < 3 {
        1
    } else {
        0
    }
}

/// Every file that is looked at is shown with who wrote it first and who looks
/// after it, unless there are more than the report holds.
pub proof fn every_history_is_shown(rows: Seq<SuccessionRowModel>, seen: Seq<LastSeenModel>, now: int, m: Seq<(Seq<char>, FileHistoryModel)>, k: int)
    requires
        m == histories(busiest::busiest::<SuccessionRow>(rows, 500)),
        0 <= k < m.len(),
        m.len() <= 200,
    ensures
        exists|i: int|
            0 <= i < succession_report(rows, seen, now).entries.len() && ({
                let e = #[trigger] succession_report(rows, seen, now).entries[i];
                let r = m[k];
                &&& e.key == r.0
                &&& e.values["original_author"@] == ValueModel::Text(r.1.original_email)
                &&& e.values["original_active"@] == ValueModel::Count(if succession_of(r.0, r.1, last_seen(seen), now).original_active { 1 } else { 0 })
                &&& e.values["current_top"@] == ValueModel::Text(succession_of(r.0, r.1, last_seen(seen), now).current_top)
                &&& e.values["total_authors"@] == ValueModel::Count(r.1.authors.len() as int)
                &&& e.values["successors"@] == ValueModel::Count(successor_count(r.1.authors, r.1.original_email))
                &&& e.values["status"@] == ValueModel::Message(succession_of(r.0, r.1, last_seen(seen), now).status())
            }),
{
    let s = successions(m, last_seen(seen), now);
    let x = succession_of(m[k].0, m[k].1, last_seen(seen), now);
    let ranked = report::top_ranked::<Succession>(successions(m, last_seen(seen), now), 200);
    assert(s[k] == x);
    report::top_ranked_members::<Succession>(successions(m, last_seen(seen), now), 200);
    report::top_ranked_len::<Succession>(successions(m, last_seen(seen), now), 200);
    assert(s.contains(x));
    assert(ranked.contains(x));
    let i = choose|i: int| 0 <= i < ranked.len() && ranked[i] == x;
    assert(succession_report(rows, seen, now).entries[i] == Succession::entry(x));
    reveal_strlit("original_author");
    reveal_strlit("original_active");
    reveal_strlit("current_top");
    reveal_strlit("total_authors");
    reveal_strlit("successors");
    reveal_strlit("status");
    assert("original_author"@[10] != "original_active"@[10]);
    assert("original_author"@.len() != "current_top"@.len());
    assert("original_author"@.len() != "total_authors"@.len());
    assert("original_author"@.len() != "successors"@.len());
    assert("original_author"@.len() != "status"@.len());
    assert("original_active"@.len() != "current_top"@.len());
    assert("original_active"@.len() != "total_authors"@.len());
    assert("original_active"@.len() != "successors"@.len());
    assert("original_active"@.len() != "status"@.len());
    assert("current_top"@.len() != "total_authors"@.len());
    assert("current_top"@.len() != "successors"@.len());
    assert("current_top"@.len() != "status"@.len());
    assert("total_authors"@.len() != "successors"@.len());
    assert("total_authors"@.len() != "status"@.len());
    assert("successors"@.len() != "status"@.len());
}

/// Whatever is shown is a file that was looked at, and there are at most two
/// hundred.
pub proof fn only_histories_are_shown(rows: Seq<SuccessionRowModel>, seen: Seq<LastSeenModel>, now: int, m: Seq<(Seq<char>, FileHistoryModel)>, i: int)
    requires
        m == histories(busiest::busiest::<SuccessionRow>(rows, 500)),
        0 <= i < succession_report(rows, seen, now).entries.len(),
    ensures
        succession_report(rows, seen, now).entries.len() <= 200,
        exists|k: int|
            0 <= k < m.len() && ({
                let e = succession_report(rows, seen, now).entries[i];
                let r = #[trigger] m[k];
                &&& e.key == r.0
                &&& e.values["original_author"@] == ValueModel::Text(r.1.original_email)
                &&& e.values["original_active"@] == ValueModel::Count(if succession_of(r.0, r.1, last_seen(seen), now).original_active { 1 } else { 0 })
                &&& e.values["current_top"@] == ValueModel::Text(succession_of(r.0, r.1, last_seen(seen), now).current_top)
                &&& e.values["total_authors"@] == ValueModel::Count(r.1.authors.len() as int)
                &&& e.values["successors"@] == ValueModel::Count(successor_count(r.1.authors, r.1.original_email))
                &&& e.values["status"@] == ValueModel::Message(succession_of(r.0, r.1, last_seen(seen), now).status())
            }),
{
    let s = successions(m, last_seen(seen), now);
    let ranked = report::top_ranked::<Succession>(successions(m, last_seen(seen), now), 200);
    let x = ranked[i];
    report::top_ranked_members::<Succession>(successions(m, last_seen(seen), now), 200);
    report::top_ranked_len::<Succession>(successions(m, last_seen(seen), now), 200);
    assert(ranked.contains(x));
    assert(s.contains(x));
    assert(succession_report(rows, seen, now).entries[i] == Succession::entry(x));
    let k = choose|k: int| 0 <= k < s.len() && s[k] == x;
    assert(m[k] == m[k]);
    reveal_strlit("original_author");
    reveal_strlit("original_active");
    reveal_strlit("current_top");
    reveal_strlit("total_authors");
    reveal_strlit("successors");
    reveal_strlit("status");
    assert("original_author"@[10] != "original_active"@[10]);
    assert("original_author"@.len() != "current_top"@.len());
    assert("original_author"@.len() != "total_authors"@.len());
    assert("original_author"@.len() != "successors"@.len());
    assert("original_author"@.len() != "status"@.len());
    assert("original_active"@.len() != "current_top"@.len());
    assert("original_active"@.len() != "total_authors"@.len());
    assert("original_active"@.len() != "successors"@.len());
    assert("original_active"@.len() != "status"@.len());
    assert("current_top"@.len() != "total_authors"@.len());
    assert("current_top"@.len() != "successors"@.len());
    assert("current_top"@.len() != "status"@.len());
    assert("total_authors"@.len() != "successors"@.len());
    assert("total_authors"@.len() != "status"@.len());
    assert("successors"@.len() != "status"@.len());
}

/// The files that need someone most stand first.
pub proof fn most_urgent_first(rows: Seq<SuccessionRowModel>, seen: Seq<LastSeenModel>, now: int, m: Seq<(Seq<char>, FileHistoryModel)>, i: int, j: int)
    requires
        m == histories(busiest::busiest::<SuccessionRow>(rows, 500)),
        0 <= i < j < succession_report(rows, seen, now).entries.len(),
    ensures
        ({
            let a = succession_report(rows, seen, now).entries[i].values;
            let b = succession_report(rows, seen, now).entries[j].values;
            urgency(a) >= urgency(b)
        }),
{
    let ranked = report::top_ranked::<Succession>(successions(m, last_seen(seen), now), 200);
    report::top_ranked_leads::<Succession>(successions(m, last_seen(seen), now), 200);
    reveal_strlit("succession.status.healthy");
    reveal_strlit("succession.status.owned");
    reveal_strlit("succession.status.orphaned");
    reveal_strlit("succession.status.knowledge_transfer_needed");
    reveal_strlit("succession.status.handed_off");
    assert("succession.status.healthy"@.len() != "succession.status.owned"@.len());
    assert("succession.status.healthy"@.len() != "succession.status.orphaned"@.len());
    assert("succession.status.healthy"@.len() != "succession.status.knowledge_transfer_needed"@.len());
    assert("succession.status.healthy"@.len() != "succession.status.handed_off"@.len());
    assert("succession.status.owned"@.len() != "succession.status.orphaned"@.len());
    assert("succession.status.owned"@.len() != "succession.status.knowledge_transfer_needed"@.len());
    assert("succession.status.owned"@.len() != "succession.status.handed_off"@.len());
    assert("succession.status.orphaned"@.len() != "succession.status.knowledge_transfer_needed"@.len());
    assert("succession.status.orphaned"@.len() != "succession.status.handed_off"@.len());
    assert("succession.status.knowledge_transfer_needed"@.len() != "succession.status.handed_off"@.len());
    assert(succession_report(rows, seen, now).entries[i] == Succession::entry(ranked[i]));
    assert(succession_report(rows, seen, now).entries[j] == Succession::entry(ranked[j]));
    assert(Succession::le(ranked[i], ranked[j]));
    reveal_strlit("original_author");
    reveal_strlit("original_active");
    reveal_strlit("current_top");
    reveal_strlit("total_authors");
    reveal_strlit("successors");
    reveal_strlit("status");
    assert("original_author"@[10] != "original_active"@[10]);
    assert("original_author"@.len() != "current_top"@.len());
    assert("original_author"@.len() != "total_authors"@.len());
    assert("original_author"@.len() != "successors"@.len());
    assert("original_author"@.len() != "status"@.len());
    assert("original_active"@.len() != "current_top"@.len());
    assert("original_active"@.len() != "total_authors"@.len());
    assert("original_active"@.len() != "successors"@.len());
    assert("original_active"@.len() != "status"@.len());
    assert("current_top"@.len() != "total_authors"@.len());
    assert("current_top"@.len() != "successors"@.len());
    assert("current_top"@.len() != "status"@.len());
    assert("total_authors"@.len() != "successors"@.len());
    assert("total_authors"@.len() != "status"@.len());
    assert("successors"@.len() != "status"@.len());
}

/// The report has these columns, in this order.
pub proof fn the_columns_are_these(rows: Seq<SuccessionRowModel>, seen: Seq<LastSeenModel>, now: int)
    ensures
        succession_report(rows, seen, now).name == "succession"@,
        succession_report(rows, seen, now).columns.len() == 6,
        succession_report(rows, seen, now).columns[0].value == "original_author"@,
        succession_report(rows, seen, now).columns[1].value == "original_active"@,
        succession_report(rows, seen, now).columns[2].value == "current_top"@,
        succession_report(rows, seen, now).columns[3].value == "total_authors"@,
        succession_report(rows, seen, now).columns[4].value == "successors"@,
        succession_report(rows, seen, now).columns[5].value == "status"@,
{
}

/// The limits that hold here.
pub proof fn the_limits_are_these()
    ensures
        INACTIVE_DAYS == 180,
        MAX_SUCCESSION_ROWS == 200,
        TOP_FILES == 500,
{
}

/// Files are looked at by how many commits they have.
pub proof fn files_are_chosen_by_activity(r: SuccessionRowModel)
    ensures
        SuccessionRow::place(r) == r.file,
        SuccessionRow::amount(r) == r.commits as nat,
{
}

} // verus!
