//! Files known by a single author.

use vstd::prelude::*;

use crate::analysis::source_filter;
use crate::analysis::source_filter::is_source_file;
use crate::busiest;
use crate::busiest::Active;
use crate::fold;
use crate::messages;
use crate::order;
use crate::order::Ranked;
use crate::report;
use crate::report::Row;
use crate::table::TextMap;
use crate::tally;
use crate::text;
use crate::types;
use crate::types::{
    Date, EntryModel, LocalizedMessage, MessageModel, MetricEntry, MetricResult, MetricValue,
    ResultModel, Severity, ValueModel, Values,
};

verus! {

/// From this share on, in percent, a file is a silo.
pub const SILO_PCT: u64 = 80;

/// After this many days without a commit, an owner counts as gone.
pub const IDLE_DAYS: u64 = 180;

pub const MAX_SILOS: usize = 150;

/// Only the files to which most lines were added are looked at.
pub const TOP_FILES: usize = 2000;

/// What one author did to one file: the lines added, and when last.
#[derive(Debug)]
pub struct SiloRow {
    pub file: String,
    pub email: String,
    pub added: u64,
    pub last_ts: i64,
}

pub struct SiloRowModel {
    pub file: Seq<char>,
    pub email: Seq<char>,
    pub added: nat,
    pub last_ts: int,
}

impl View for SiloRow {
    type V = SiloRowModel;

    open spec fn view(&self) -> SiloRowModel {
        SiloRowModel {
            file: self.file@,
            email: self.email@,
            added: self.added as nat,
            last_ts: self.last_ts as int,
        }
    }
}

/// What happens at a file is that lines are added.
impl Active for SiloRow {
    open spec fn place(r: SiloRowModel) -> Seq<char> {
        r.file
    }

    open spec fn amount(r: SiloRowModel) -> nat {
        r.added
    }

    fn place_name(&self) -> (r: String) {
        self.file.clone()
    }

    fn amount_here(&self) -> (r: u64) {
        self.added
    }
}

pub open spec fn lines_added() -> spec_fn(SiloRowModel) -> nat {
    |r: SiloRowModel| r.added
}

/// For each source file, who added how many lines.
pub open spec fn lines_by_file(rows: Seq<SiloRowModel>) -> tally::Groups
    decreases rows.len(),
{
    if rows.len() == 0 {
        Seq::empty()
    } else {
        let head = lines_by_file(rows.drop_last());
        let r = rows.last();
        if source_filter::is_source(r.file) {
            tally::credited_in(head, r.file, r.email, r.added)
        } else {
            head
        }
    }
}

/// When `email` last touched `file`, if ever.
pub open spec fn last_touch(rows: Seq<SiloRowModel>, file: Seq<char>, email: Seq<char>) -> Option<
    int,
>
    decreases rows.len(),
{
    if rows.len() == 0 {
        None
    } else {
        let head = last_touch(rows.drop_last(), file, email);
        let r = rows.last();
        if r.file == file && r.email == email {
            match head {
                Some(t) => if r.last_ts > t {
                    Some(r.last_ts)
                } else {
                    Some(t)
                },
                None => Some(r.last_ts),
            }
        } else {
            head
        }
    }
}

/// Whole days from `then` to `now`, none when `then` is later.
pub open spec fn days_between(then: int, now: int) -> int {
    if now > then {
        (now - then) / 86400
    } else {
        0
    }
}

/// The share of `part` in `whole` in percent, rounded down, at most 100.
pub open spec fn percent_of(part: int, whole: int) -> int {
    let p = part * 100 / whole;
    if p > 100 {
        100
    } else {
        p
    }
}

/// A file that one author wrote nearly alone.
pub struct Silo {
    pub file: String,
    pub owner: String,
    pub ownership_pct: u64,
    pub owner_last: i64,
    pub idle_days: u64,
    pub total_lines: u64,
}

pub struct SiloModel {
    pub file: Seq<char>,
    pub owner: Seq<char>,
    pub ownership_pct: int,
    pub owner_last: int,
    pub idle_days: int,
    pub total_lines: int,
}

impl View for Silo {
    type V = SiloModel;

    open spec fn view(&self) -> SiloModel {
        SiloModel {
            file: self.file@,
            owner: self.owner@,
            ownership_pct: self.ownership_pct as int,
            owner_last: self.owner_last as int,
            idle_days: self.idle_days as int,
            total_lines: self.total_lines as int,
        }
    }
}

impl SiloModel {
    /// 2 where the owner is gone, 1 where a single owner is still around.
    pub open spec fn risk_rank(self) -> int {
        if self.idle_days >= IDLE_DAYS {
            2
        } else {
            1
        }
    }
}

pub open spec fn risk_message(s: SiloModel) -> MessageModel {
    if s.idle_days >= IDLE_DAYS {
        MessageModel::of(messages::KNOWLEDGE_SILO_RISK_AT_RISK@).severe(
            Severity::Error,
        ).with_number("idle_days"@, s.idle_days).with_number("ownership_pct"@, s.ownership_pct)
    } else {
        MessageModel::of(messages::KNOWLEDGE_SILO_RISK_SINGLE_OWNER@).severe(
            Severity::Warning,
        ).with_number("ownership_pct"@, s.ownership_pct)
    }
}

/// The silo that a file is, if its largest contributor wrote enough of it.
pub open spec fn silo_of(
    rows: Seq<SiloRowModel>,
    file: Seq<char>,
    t: Seq<(Seq<char>, u64)>,
    now: int,
) -> Option<SiloModel> {
    let all = tally::sum(t) as int;
    let l = tally::leader(t);
    let pct = percent_of(t[l].1 as int, all);
    if all == 0 || pct < SILO_PCT {
        None
    } else {
        let last = match last_touch(rows, file, t[l].0) {
            Some(ts) => ts,
            None => now,
        };
        Some(
            SiloModel {
                file,
                owner: t[l].0,
                ownership_pct: pct,
                owner_last: last,
                idle_days: days_between(last, now),
                total_lines: all,
            },
        )
    }
}

/// The silos among the files.
pub open spec fn silos(rows: Seq<SiloRowModel>, files: tally::Groups, now: int) -> Seq<SiloModel>
    decreases files.len(),
{
    if files.len() == 0 {
        Seq::empty()
    } else {
        let head = silos(rows, files.drop_last(), now);
        match silo_of(rows, files.last().0, files.last().1, now) {
            Some(s) => head.push(s),
            None => head,
        }
    }
}

/// Owners who are gone first; then the longest idle.
impl Ranked for Silo {
    open spec fn le(a: SiloModel, b: SiloModel) -> bool {
        if a.risk_rank() != b.risk_rank() {
            a.risk_rank() > b.risk_rank()
        } else {
            a.idle_days >= b.idle_days
        }
    }

    proof fn le_total(a: SiloModel, b: SiloModel) {
    }

    proof fn le_transitive(a: SiloModel, b: SiloModel, c: SiloModel) {
    }

    fn not_after(&self, other: &Silo) -> (r: bool) {
        let a = silo_rank(self);
        let b = silo_rank(other);
        if a != b {
            a > b
        } else {
            self.idle_days >= other.idle_days
        }
    }
}

fn silo_rank(s: &Silo) -> (r: u8)
    ensures
        r == s@.risk_rank(),
{
    if s.idle_days >= IDLE_DAYS {
        2
    } else {
        1
    }
}

impl Row for Silo {
    open spec fn entry(s: SiloModel) -> EntryModel {
        EntryModel {
            key: s.file,
            values: Map::empty().insert("owner"@, ValueModel::Text(s.owner)).insert(
                "ownership_pct"@,
                ValueModel::Count(s.ownership_pct),
            ).insert("owner_last_touch"@, ValueModel::Date(types::day_of(s.owner_last))).insert(
                "owner_idle_days"@,
                ValueModel::Count(s.idle_days),
            ).insert("total_lines"@, ValueModel::Count(s.total_lines)).insert(
                "risk"@,
                ValueModel::Message(risk_message(s)),
            ),
        }
    }

    fn to_entry(self) -> (r: MetricEntry) {
        let risk = if self.idle_days >= IDLE_DAYS {
            LocalizedMessage::code(messages::KNOWLEDGE_SILO_RISK_AT_RISK).with_severity(
                Severity::Error,
            ).with_param("idle_days", self.idle_days).with_param(
                "ownership_pct",
                self.ownership_pct,
            )
        } else {
            LocalizedMessage::code(messages::KNOWLEDGE_SILO_RISK_SINGLE_OWNER).with_severity(
                Severity::Warning,
            ).with_param("ownership_pct", self.ownership_pct)
        };
        let mut values = Values::new();
        values.insert("owner", MetricValue::Text(self.owner));
        values.insert("ownership_pct", MetricValue::Count(self.ownership_pct));
        values.insert("owner_last_touch", MetricValue::Date(types::ts_to_date(self.owner_last)));
        values.insert("owner_idle_days", MetricValue::Count(self.idle_days));
        values.insert("total_lines", MetricValue::Count(self.total_lines));
        values.insert("risk", MetricValue::Message(risk));
        MetricEntry { key: self.file, values }
    }
}

/// The rank that an entry's risk gives it: 2 at risk, 1 a single owner, 0
/// neither.
pub open spec fn entry_rank(e: EntryModel) -> int {
    if e.values.dom().contains("risk"@) {
        match e.values["risk"@] {
            ValueModel::Message(m) => if m.code == messages::KNOWLEDGE_SILO_RISK_AT_RISK@ {
                2
            } else if m.code == messages::KNOWLEDGE_SILO_RISK_SINGLE_OWNER@ {
                1
            } else {
                0
            },
            _ => 0,
        }
    } else {
        0
    }
}

/// The rank that an entry's risk gives it.
pub fn risk_rank(entry: &MetricEntry) -> (r: u8)
    ensures
        r == entry_rank(entry@),
{
    match entry.values.get("risk") {
        Some(MetricValue::Message(m)) => {
            if text::same(m.code.as_str(), messages::KNOWLEDGE_SILO_RISK_AT_RISK) {
                2
            } else if text::same(m.code.as_str(), messages::KNOWLEDGE_SILO_RISK_SINGLE_OWNER) {
                1
            } else {
                0
            }
        },
        _ => 0,
    }
}

/// The order of the report is that of the risks its entries show.
pub proof fn entry_shows_rank(s: SiloModel)
    ensures
        entry_rank(Silo::entry(s)) == s.risk_rank(),
{
    reveal_strlit("knowledge_silos.risk.at_risk");
    reveal_strlit("knowledge_silos.risk.single_owner");
    assert(messages::KNOWLEDGE_SILO_RISK_AT_RISK@.len()
        != messages::KNOWLEDGE_SILO_RISK_SINGLE_OWNER@.len());
}

pub open spec fn silo_columns() -> Seq<Seq<char>> {
    seq![
        "owner"@,
        "ownership_pct"@,
        "owner_last_touch"@,
        "owner_idle_days"@,
        "total_lines"@,
        "risk"@,
    ]
}

pub open spec fn silo_description() -> MessageModel {
    MessageModel::of(types::description_code("knowledge_silos"@)).with_number(
        "silo_pct"@,
        SILO_PCT as int,
    ).with_number("idle_days"@, IDLE_DAYS as int)
}

pub open spec fn silo_report(given: Seq<SiloRowModel>, now: int) -> ResultModel {
    let rows = busiest::busiest::<SiloRow>(given, TOP_FILES as int);
    types::described(
        types::report_of(
            "knowledge_silos"@,
            silo_columns(),
            report::entries_of::<Silo>(
                report::top_ranked::<Silo>(
                    silos(rows, lines_by_file(rows), now),
                    MAX_SILOS as int,
                ),
            ),
        ),
        silo_description(),
    )
}

fn collect_lines(rows: &[SiloRow]) -> (r: TextMap<TextMap<u64>>)
    requires
        fold::total(order::models(rows@), lines_added()) <= u64::MAX,
    ensures
        r@ == lines_by_file(order::models(rows@)),
        tally::in_order(r@),
        tally::grand_sum(r@) <= u64::MAX,
{
    let ghost all = order::models(rows@);
    let mut files: TextMap<TextMap<u64>> = TextMap::new();
    let n: usize = rows.len();
    let mut i: usize = 0;
    while i < n
        invariant
            n == rows@.len(),
            i <= n,
            all == order::models(rows@),
            fold::total(all, lines_added()) <= u64::MAX,
            files@ == lines_by_file(all.take(i as int)),
            tally::in_order(files@),
            tally::grand_sum(files@) <= fold::total(all.take(i as int), lines_added()),
        decreases n - i,
    {
        proof {
            fold::lemma_total_step(all, lines_added(), i as int);
            assert(all.take(i + 1).drop_last() =~= all.take(i as int));
        }
        let row = &rows[i];
        if is_source_file(row.file.as_str()) {
            proof {
                tally::amount_within_grand_sum(files@, row.file@, row.email@);
            }
            tally::credit_in(&mut files, row.file.as_str(), row.email.as_str(), row.added);
        }
        i += 1;
    }
    proof {
        assert(all.take(n as int) =~= all);
    }
    files
}

fn find_last_touch(rows: &[SiloRow], file: &str, email: &str) -> (r: Option<i64>)
    ensures
        match r {
            Some(t) => last_touch(order::models(rows@), file@, email@) == Some(t as int),
            None => last_touch(order::models(rows@), file@, email@) is None,
        },
{
    let ghost all = order::models(rows@);
    let mut last: Option<i64> = None;
    let n: usize = rows.len();
    let mut i: usize = 0;
    while i < n
        invariant
            n == rows@.len(),
            i <= n,
            all == order::models(rows@),
            match last {
                Some(t) => last_touch(all.take(i as int), file@, email@) == Some(t as int),
                None => last_touch(all.take(i as int), file@, email@) is None,
            },
        decreases n - i,
    {
        proof {
            assert(all.take(i + 1).drop_last() =~= all.take(i as int));
        }
        let row = &rows[i];
        if text::same(row.file.as_str(), file) && text::same(row.email.as_str(), email) {
            last = match last {
                Some(t) => if row.last_ts > t {
                    Some(row.last_ts)
                } else {
                    Some(t)
                },
                None => Some(row.last_ts),
            };
        }
        i += 1;
    }
    proof {
        assert(all.take(n as int) =~= all);
    }
    last
}

/// Whole days from `then` to `now`, none when `then` is later.
pub fn idle_days(then: i64, now: i64) -> (r: u64)
    ensures
        r == days_between(then as int, now as int),
{
    if now > then {
        ((now as i128 - then as i128) / 86400) as u64
    } else {
        0
    }
}

fn percent(part: u64, whole: u64) -> (r: u64)
    requires
        whole > 0,
    ensures
        r == percent_of(part as int, whole as int),
{
    let p: u128 = part as u128 * 100 / whole as u128;
    if p > 100 {
        100
    } else {
        p as u64
    }
}

fn find_silo(rows: &[SiloRow], file: &String, t: &TextMap<u64>, now: i64) -> (r: Option<Silo>)
    requires
        tally::sum(t@) <= u64::MAX,
    ensures
        match r {
            Some(s) => silo_of(order::models(rows@), file@, t@, now as int) == Some(s@),
            None => silo_of(order::models(rows@), file@, t@, now as int) is None,
        },
{
    let total = tally::sum_of(t);
    if total == 0 || t.len() == 0 {
        return None;
    }
    let l = tally::leader_of(t);
    let ownership_pct = percent(*t.value_at(l), total);
    if ownership_pct < SILO_PCT {
        return None;
    }
    let owner = t.key_at(l).clone();
    let owner_last: i64 = match find_last_touch(rows, file.as_str(), owner.as_str()) {
        Some(ts) => ts,
        None => now,
    };
    Some(
        Silo {
            file: file.clone(),
            owner,
            ownership_pct,
            owner_last,
            idle_days: idle_days(owner_last, now),
            total_lines: total,
        },
    )
}

pub struct KnowledgeSilosCollector;

impl Default for KnowledgeSilosCollector {
    fn default() -> (r: Self)
        ensures
            r == (KnowledgeSilosCollector {  }),
    {
        KnowledgeSilosCollector::new()
    }
}

impl KnowledgeSilosCollector {
    pub fn new() -> (r: Self)
        ensures
            r == (KnowledgeSilosCollector {  }),
    {
        KnowledgeSilosCollector
    }

    pub fn name(&self) -> (r: &str)
        ensures
            r@ == "knowledge_silos"@,
    {
        "knowledge_silos"
    }

    /// The report without any rows to draw on.
    pub fn finalize(&mut self) -> (r: MetricResult)
        ensures
            r@ == types::empty_report("knowledge_silos"@),
    {
        MetricResult::empty("knowledge_silos")
    }

    /// The report at the time `now`, given what each author did to each file.
    /// All lines together number at most `u64::MAX`.
    pub fn finalize_from_rows(&mut self, given: Vec<SiloRow>, now: i64) -> (r: MetricResult)
        requires
            fold::total(order::models(given@), lines_added()) <= u64::MAX,
        ensures
            r@ == silo_report(order::models(given@), now as int),
    {
        proof {
            let s = order::models(given@);
            assert(busiest::amounts::<SiloRow>() =~= lines_added());
            busiest::listed_total::<SiloRow>(
                s,
                busiest::leading::<SiloRow>(s, TOP_FILES as int),
                lines_added(),
            );
        }
        let kept = busiest::keep_busiest(given, TOP_FILES);
        let rows = kept.as_slice();
        let ghost all = order::models(rows@);
        let files = collect_lines(rows);
        let n: usize = files.len();
        let mut found: Vec<Silo> = Vec::new();
        let mut i: usize = 0;
        proof {
            assert(order::models(found@) =~= Seq::empty());
        }
        while i < n
            invariant
                n == files@.len(),
                i <= n,
                all == order::models(rows@),
                tally::grand_sum(files@) <= u64::MAX,
                order::models(found@) == silos(all, files@.take(i as int), now as int),
            decreases n - i,
        {
            let ghost before = order::models(found@);
            proof {
                tally::group_within_grand_sum(files@, i as int);
                assert(files@.take(i + 1).drop_last() =~= files@.take(i as int));
            }
            if let Some(s) = find_silo(rows, files.key_at(i), files.value_at(i), now) {
                found.push(s);
                proof {
                    assert(order::models(found@) =~= before.push(s@));
                }
            }
            i += 1;
        }
        proof {
            assert(files@.take(n as int) =~= files@);
        }
        let entries = report::ranked_entries(found, MAX_SILOS);
        let columns = [
            "owner",
            "ownership_pct",
            "owner_last_touch",
            "owner_idle_days",
            "total_lines",
            "risk",
        ];
        proof {
            assert(types::str_views(columns@) =~= silo_columns());
        }
        let mut r = MetricResult::report("knowledge_silos", &columns, entries);
        r.description = types::report_description("knowledge_silos").with_param(
            "silo_pct",
            SILO_PCT,
        ).with_param("idle_days", IDLE_DAYS);
        r
    }
}

/// Every reported file is one whose owner wrote at least the share that makes
/// it a silo.
pub proof fn silos_are_owned(
    rows: Seq<SiloRowModel>,
    file: Seq<char>,
    t: Seq<(Seq<char>, u64)>,
    now: int,
)
    ensures
        match silo_of(rows, file, t, now) {
            Some(s) => SILO_PCT <= s.ownership_pct <= 100 && s.total_lines == tally::sum(t)
                && s.idle_days >= 0,
            None => true,
        },
{
}

/// The lines that an author added to a source file.
pub open spec fn lines_by(file: Seq<char>, email: Seq<char>) -> spec_fn(SiloRowModel) -> nat {
    |r: SiloRowModel|
        if r.file == file && r.email == email && source_filter::is_source(r.file) {
            r.added
        } else {
            0
        }
}

/// What an author is credited with in a file is all the lines that they added to
/// it, in source files only.
pub proof fn authors_get_what_they_added(rows: Seq<SiloRowModel>, file: Seq<char>, email: Seq<char>)
    requires
        fold::total(rows, lines_added()) <= u64::MAX,
    ensures
        tally::amount(tally::group(lines_by_file(rows), file), email) == fold::total(
            rows,
            lines_by(file, email),
        ),
        fold::total(rows, lines_by(file, email)) <= fold::total(rows, lines_added()),
        tally::in_order(lines_by_file(rows)),
    decreases rows.len(),
{
    if rows.len() > 0 {
        let front = rows.drop_last();
        let r = rows.last();
        let head = lines_by_file(front);
        authors_get_what_they_added(front, file, email);
        authors_get_what_they_added(front, r.file, r.email);
        if source_filter::is_source(r.file) {
            tally::amount_of_credited_in(head, r.file, r.email, r.added, file, email);
            tally::grand_sum_of_credited(head, r.file, r.email, r.added);
        }
    }
}

/// A share is rounded down and never above the whole.
pub proof fn share_is_rounded_down(part: int, whole: int)
    requires
        0 <= part <= whole,
        0 < whole,
    ensures
        percent_of(part, whole) * whole <= part * 100 < (percent_of(part, whole) + 1) * whole,
        0 <= percent_of(part, whole) <= 100,
{
    let p = part * 100;
    let q = p / whole;
    assert(q * whole <= p < (q + 1) * whole) by (nonlinear_arith)
        requires
            whole > 0,
            q == p / whole,
    ;
    assert(0 <= q <= 100) by (nonlinear_arith)
        requires
            q * whole <= p < (q + 1) * whole,
            0 <= p <= whole * 100,
            whole > 0,
    ;
}

/// A file is a silo where, and only where, one author added at least four fifths
/// of its lines; that author is its owner.
pub proof fn four_fifths_make_a_silo(
    rows: Seq<SiloRowModel>,
    file: Seq<char>,
    t: Seq<(Seq<char>, u64)>,
    now: int,
)
    requires
        t.len() > 0,
    ensures
        silo_of(rows, file, t, now) is Some <==> tally::sum(t) > 0 && exists|i: int|
            0 <= i < t.len() && 100 * (#[trigger] t[i]).1 >= 80 * tally::sum(t),
        silo_of(rows, file, t, now) matches Some(s) ==> {
            &&& s.file == file
            &&& s.total_lines == tally::sum(t)
            &&& exists|i: int|
                0 <= i < t.len() && (#[trigger] t[i]).0 == s.owner && s.ownership_pct
                    * s.total_lines <= 100 * t[i].1 < (s.ownership_pct + 1) * s.total_lines && (
                forall|j: int| 0 <= j < t.len() ==> (#[trigger] t[j]).1 <= t[i].1)
        },
{
    tally::leader_leads(t);
    let l = tally::leader(t);
    let all = tally::sum(t) as int;
    fold::lemma_total_member(t, tally::pair_amount(), l);
    if all > 0 {
        let part = t[l].1 as int;
        let pct = percent_of(part, all);
        share_is_rounded_down(part, all);
        assert(pct >= 80 <==> 100 * part >= 80 * all) by (nonlinear_arith)
            requires
                pct * all <= part * 100 < (pct + 1) * all,
                all > 0,
        ;
        assert(t[l].1 <= t[l].1);
        if exists|i: int| 0 <= i < t.len() && 100 * (#[trigger] t[i]).1 >= 80 * tally::sum(t) {
            let i = choose|i: int| 0 <= i < t.len() && 100 * (#[trigger] t[i]).1 >= 80 * tally::sum(t);
            assert(t[i].1 <= t[l].1);
        }
    }
}

/// The last touch is the latest of all that an author made in a file.
pub proof fn the_last_touch_is_the_latest(rows: Seq<SiloRowModel>, file: Seq<char>, email: Seq<char>)
    ensures
        match last_touch(rows, file, email) {
            Some(t) => (exists|k: int|
                0 <= k < rows.len() && (#[trigger] rows[k]).file == file && rows[k].email == email
                    && rows[k].last_ts == t) && forall|k: int|
                0 <= k < rows.len() && (#[trigger] rows[k]).file == file && rows[k].email == email
                    ==> rows[k].last_ts <= t,
            None => forall|k: int|
                0 <= k < rows.len() ==> (#[trigger] rows[k]).file != file || rows[k].email != email,
        },
    decreases rows.len(),
{
    if rows.len() > 0 {
        let front = rows.drop_last();
        the_last_touch_is_the_latest(front, file, email);
        assert(rows[rows.len() - 1] == rows.last());
        assert(forall|k: int| 0 <= k < front.len() ==> front[k] == rows[k]);
        match last_touch(front, file, email) {
            Some(t) => {
                let k = choose|k: int|
                    0 <= k < front.len() && (#[trigger] front[k]).file == file && front[k].email
                        == email && front[k].last_ts == t;
                assert(rows[k] == front[k]);
            },
            None => {},
        }
    }
}

/// Whole days have gone by, and no day more; none where the time lies ahead.
pub proof fn whole_days_have_gone_by(past: int, now: int)
    ensures
        past <= now ==> days_between(past, now) * 86400 <= now - past < (days_between(past, now) + 1)
            * 86400,
        past >= now ==> days_between(past, now) == 0,
{
}

/// An owner who was away for a hundred and eighty days is a risk; both the days
/// and the share are told.
pub proof fn idle_owners_are_a_risk(s: SiloModel)
    ensures
        s.idle_days >= 180 ==> risk_message(s).severity == Some(Severity::Error)
            && risk_message(s).code == messages::KNOWLEDGE_SILO_RISK_AT_RISK@
            && risk_message(s).params == seq![
            ("idle_days"@, types::ParamModel::Number(s.idle_days)),
            ("ownership_pct"@, types::ParamModel::Number(s.ownership_pct)),
        ],
        s.idle_days < 180 ==> risk_message(s).severity == Some(Severity::Warning)
            && risk_message(s).code == messages::KNOWLEDGE_SILO_RISK_SINGLE_OWNER@
            && risk_message(s).params == seq![
            ("ownership_pct"@, types::ParamModel::Number(s.ownership_pct)),
        ],
{
    reveal_with_fuel(types::params_with, 4);
    reveal_strlit("idle_days");
    reveal_strlit("ownership_pct");
    assert("idle_days"@.len() != "ownership_pct"@.len());
    assert(risk_message(s).params =~= if s.idle_days >= 180 {
        seq![
            ("idle_days"@, types::ParamModel::Number(s.idle_days)),
            ("ownership_pct"@, types::ParamModel::Number(s.ownership_pct)),
        ]
    } else {
        seq![("ownership_pct"@, types::ParamModel::Number(s.ownership_pct))]
    });
}

proof fn lemma_silos(files: Seq<(Seq<char>, Seq<(Seq<char>, u64)>)>, rows: Seq<SiloRowModel>, now: int, x: SiloModel)
    ensures
        silos(rows, files, now).contains(x) <==> exists|k: int|
            0 <= k < files.len() && silo_of(rows, (#[trigger] files[k]).0, (#[trigger] files[k]).1, now) is Some && x == silo_of(rows, files[k].0, files[k].1, now)->0,
        silos(rows, files, now).len() <= files.len(),
    decreases files.len(),
{
    if files.len() > 0 {
        let front = files.drop_last();
        let last = files.last();
        let was = silos(rows, front, now);
        let is = silos(rows, files, now);
        lemma_silos(front, rows, now, x);
        assert(files[files.len() - 1] == last);
        assert(forall|k: int| 0 <= k < front.len() ==> front[k] == files[k]);
        if is.contains(x) {
            let i = choose|i: int| 0 <= i < is.len() && is[i] == x;
            if i < was.len() {
                assert(was[i] == x);
                let k = choose|k: int|
                    0 <= k < front.len() && silo_of(rows, (#[trigger] front[k]).0, (#[trigger] front[k]).1, now) is Some && x == silo_of(rows, front[k].0, front[k].1, now)->0;
                assert(files[k] == front[k]);
            }
        }
        if exists|k: int| 0 <= k < files.len() && silo_of(rows, (#[trigger] files[k]).0, (#[trigger] files[k]).1, now) is Some && x == silo_of(rows, files[k].0, files[k].1, now)->0 {
            let k = choose|k: int|
                0 <= k < files.len() && silo_of(rows, (#[trigger] files[k]).0, (#[trigger] files[k]).1, now) is Some && x == silo_of(rows, files[k].0, files[k].1, now)->0;
            if k < front.len() {
                assert(front[k] == files[k]);
                let i = choose|i: int| 0 <= i < was.len() && was[i] == x;
                assert(is[i] == x);
            } else {
                assert(is[is.len() - 1] == x);
            }
        }
    }
}

/// Every silo is shown with its owner, unless there are more files than the
/// report holds.
pub proof fn every_silo_is_shown(given: Seq<SiloRowModel>, now: int, rows: Seq<SiloRowModel>, files: tally::Groups, k: int)
    requires
        rows == busiest::busiest::<SiloRow>(given, 2000),
        files == lines_by_file(rows),
        0 <= k < files.len(),
        silo_of(rows, files[k].0, files[k].1, now) is Some,
        files.len() <= 150,
    ensures
        exists|i: int|
            0 <= i < silo_report(given, now).entries.len() && ({
                let e = #[trigger] silo_report(given, now).entries[i];
                let r = files[k];
                &&& e.key == r.0
                &&& e.values["owner"@] == ValueModel::Text(silo_of(rows, r.0, r.1, now)->0.owner)
                &&& e.values["ownership_pct"@] == ValueModel::Count(silo_of(rows, r.0, r.1, now)->0.ownership_pct)
                &&& e.values["owner_last_touch"@] == ValueModel::Date(types::day_of(silo_of(rows, r.0, r.1, now)->0.owner_last))
                &&& e.values["owner_idle_days"@] == ValueModel::Count(silo_of(rows, r.0, r.1, now)->0.idle_days)
                &&& e.values["total_lines"@] == ValueModel::Count(tally::sum(r.1) as int)
                &&& e.values["risk"@] == ValueModel::Message(risk_message(silo_of(rows, r.0, r.1, now)->0))
            }),
{
    let s = silos(rows, files, now);
    let x = silo_of(rows, files[k].0, files[k].1, now)->0;
    let ranked = report::top_ranked::<Silo>(silos(rows, files, now), 150);
    lemma_silos(files, rows, now, x);
    report::top_ranked_members::<Silo>(silos(rows, files, now), 150);
    report::top_ranked_len::<Silo>(silos(rows, files, now), 150);
    assert(s.contains(x));
    assert(ranked.contains(x));
    let i = choose|i: int| 0 <= i < ranked.len() && ranked[i] == x;
    assert(silo_report(given, now).entries[i] == Silo::entry(x));
    reveal_strlit("owner");
    reveal_strlit("ownership_pct");
    reveal_strlit("owner_last_touch");
    reveal_strlit("owner_idle_days");
    reveal_strlit("total_lines");
    reveal_strlit("risk");
    assert("owner"@.len() != "ownership_pct"@.len());
    assert("owner"@.len() != "owner_last_touch"@.len());
    assert("owner"@.len() != "owner_idle_days"@.len());
    assert("owner"@.len() != "total_lines"@.len());
    assert("owner"@.len() != "risk"@.len());
    assert("ownership_pct"@.len() != "owner_last_touch"@.len());
    assert("ownership_pct"@.len() != "owner_idle_days"@.len());
    assert("ownership_pct"@.len() != "total_lines"@.len());
    assert("ownership_pct"@.len() != "risk"@.len());
    assert("owner_last_touch"@.len() != "owner_idle_days"@.len());
    assert("owner_last_touch"@.len() != "total_lines"@.len());
    assert("owner_last_touch"@.len() != "risk"@.len());
    assert("owner_idle_days"@.len() != "total_lines"@.len());
    assert("owner_idle_days"@.len() != "risk"@.len());
    assert("total_lines"@.len() != "risk"@.len());
}

/// Whatever is shown is a silo, and there are at most a hundred and fifty.
pub proof fn only_silos_are_shown(given: Seq<SiloRowModel>, now: int, rows: Seq<SiloRowModel>, files: tally::Groups, i: int)
    requires
        rows == busiest::busiest::<SiloRow>(given, 2000),
        files == lines_by_file(rows),
        0 <= i < silo_report(given, now).entries.len(),
    ensures
        silo_report(given, now).entries.len() <= 150,
        exists|k: int|
            0 <= k < files.len() && ({
                let e = silo_report(given, now).entries[i];
                let r = #[trigger] files[k];
                &&& silo_of(rows, r.0, r.1, now) is Some
                &&& e.key == r.0
                &&& e.values["owner"@] == ValueModel::Text(silo_of(rows, r.0, r.1, now)->0.owner)
                &&& e.values["ownership_pct"@] == ValueModel::Count(silo_of(rows, r.0, r.1, now)->0.ownership_pct)
                &&& e.values["owner_last_touch"@] == ValueModel::Date(types::day_of(silo_of(rows, r.0, r.1, now)->0.owner_last))
                &&& e.values["owner_idle_days"@] == ValueModel::Count(silo_of(rows, r.0, r.1, now)->0.idle_days)
                &&& e.values["total_lines"@] == ValueModel::Count(tally::sum(r.1) as int)
                &&& e.values["risk"@] == ValueModel::Message(risk_message(silo_of(rows, r.0, r.1, now)->0))
            }),
{
    let s = silos(rows, files, now);
    let ranked = report::top_ranked::<Silo>(silos(rows, files, now), 150);
    let x = ranked[i];
    report::top_ranked_members::<Silo>(silos(rows, files, now), 150);
    report::top_ranked_len::<Silo>(silos(rows, files, now), 150);
    assert(ranked.contains(x));
    assert(s.contains(x));
    lemma_silos(files, rows, now, x);
    assert(silo_report(given, now).entries[i] == Silo::entry(x));
    let k = choose|k: int| 0 <= k < files.len() && silo_of(rows, (#[trigger] files[k]).0, (#[trigger] files[k]).1, now) is Some && x == silo_of(rows, files[k].0, files[k].1, now)->0;
    assert(files[k] == files[k]);
    reveal_strlit("owner");
    reveal_strlit("ownership_pct");
    reveal_strlit("owner_last_touch");
    reveal_strlit("owner_idle_days");
    reveal_strlit("total_lines");
    reveal_strlit("risk");
    assert("owner"@.len() != "ownership_pct"@.len());
    assert("owner"@.len() != "owner_last_touch"@.len());
    assert("owner"@.len() != "owner_idle_days"@.len());
    assert("owner"@.len() != "total_lines"@.len());
    assert("owner"@.len() != "risk"@.len());
    assert("ownership_pct"@.len() != "owner_last_touch"@.len());
    assert("ownership_pct"@.len() != "owner_idle_days"@.len());
    assert("ownership_pct"@.len() != "total_lines"@.len());
    assert("ownership_pct"@.len() != "risk"@.len());
    assert("owner_last_touch"@.len() != "owner_idle_days"@.len());
    assert("owner_last_touch"@.len() != "total_lines"@.len());
    assert("owner_last_touch"@.len() != "risk"@.len());
    assert("owner_idle_days"@.len() != "total_lines"@.len());
    assert("owner_idle_days"@.len() != "risk"@.len());
    assert("total_lines"@.len() != "risk"@.len());
}

/// The files whose owners were gone longest stand first.
pub proof fn longest_gone_first(given: Seq<SiloRowModel>, now: int, rows: Seq<SiloRowModel>, files: tally::Groups, i: int, j: int)
    requires
        rows == busiest::busiest::<SiloRow>(given, 2000),
        files == lines_by_file(rows),
        0 <= i < j < silo_report(given, now).entries.len(),
    ensures
        ({
            let a = silo_report(given, now).entries[i].values;
            let b = silo_report(given, now).entries[j].values;
            a["owner_idle_days"@]->Count_0 >= b["owner_idle_days"@]->Count_0
        }),
{
    let ranked = report::top_ranked::<Silo>(silos(rows, files, now), 150);
    report::top_ranked_leads::<Silo>(silos(rows, files, now), 150);
    assert(silo_report(given, now).entries[i] == Silo::entry(ranked[i]));
    assert(silo_report(given, now).entries[j] == Silo::entry(ranked[j]));
    assert(Silo::le(ranked[i], ranked[j]));
    reveal_strlit("owner");
    reveal_strlit("ownership_pct");
    reveal_strlit("owner_last_touch");
    reveal_strlit("owner_idle_days");
    reveal_strlit("total_lines");
    reveal_strlit("risk");
    assert("owner"@.len() != "ownership_pct"@.len());
    assert("owner"@.len() != "owner_last_touch"@.len());
    assert("owner"@.len() != "owner_idle_days"@.len());
    assert("owner"@.len() != "total_lines"@.len());
    assert("owner"@.len() != "risk"@.len());
    assert("ownership_pct"@.len() != "owner_last_touch"@.len());
    assert("ownership_pct"@.len() != "owner_idle_days"@.len());
    assert("ownership_pct"@.len() != "total_lines"@.len());
    assert("ownership_pct"@.len() != "risk"@.len());
    assert("owner_last_touch"@.len() != "owner_idle_days"@.len());
    assert("owner_last_touch"@.len() != "total_lines"@.len());
    assert("owner_last_touch"@.len() != "risk"@.len());
    assert("owner_idle_days"@.len() != "total_lines"@.len());
    assert("owner_idle_days"@.len() != "risk"@.len());
    assert("total_lines"@.len() != "risk"@.len());
}

/// The report has these columns, in this order.
pub proof fn the_columns_are_these(given: Seq<SiloRowModel>, now: int)
    ensures
        silo_report(given, now).name == "knowledge_silos"@,
        silo_report(given, now).columns.len() == 6,
        silo_report(given, now).columns[0].value == "owner"@,
        silo_report(given, now).columns[1].value == "ownership_pct"@,
        silo_report(given, now).columns[2].value == "owner_last_touch"@,
        silo_report(given, now).columns[3].value == "owner_idle_days"@,
        silo_report(given, now).columns[4].value == "total_lines"@,
        silo_report(given, now).columns[5].value == "risk"@,
{
}

/// The limits that hold here.
pub proof fn the_limits_are_these()
    ensures
        SILO_PCT == 80,
        IDLE_DAYS == 180,
        MAX_SILOS == 150,
        TOP_FILES == 2000,
{
}

/// The description of the report tells both limits.
pub proof fn the_description_tells_the_limits(given: Seq<SiloRowModel>, now: int)
    ensures
        silo_report(given, now).description.params == seq![
            ("silo_pct"@, types::ParamModel::Number(80)),
            ("idle_days"@, types::ParamModel::Number(180)),
        ],
{
    reveal_with_fuel(types::params_with, 3);
    reveal_strlit("silo_pct");
    reveal_strlit("idle_days");
    assert("silo_pct"@.len() != "idle_days"@.len());
    assert(silo_description().params =~= seq![
        ("silo_pct"@, types::ParamModel::Number(80)),
        ("idle_days"@, types::ParamModel::Number(180)),
    ]);
}

/// Files are looked at by how many lines were added to them.
pub proof fn files_are_chosen_by_activity(r: SiloRowModel)
    ensures
        SiloRow::place(r) == r.file,
        SiloRow::amount(r) == r.added,
{
}

} // verus!
