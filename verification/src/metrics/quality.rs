//! Commit quality signals: short and low-quality messages, oversized commits,
//! reverts and merges.

use vstd::prelude::*;

use crate::double;
use crate::double::Double;
use crate::fold;
use crate::messages;
use crate::text;
use crate::types;
use crate::types::{
    EntryModel, LocalizedMessage, MessageModel, MetricEntry, MetricResult, MetricValue, ResultModel,
    Severity, ValueModel, Values,
};

verus! {

/// A commit that changes more lines than this is a mega commit.
pub const MEGA_COMMIT_THRESHOLD: u64 = 1000;

/// A first line with fewer characters than this is short.
pub const SHORT_MSG_THRESHOLD: usize = 10;

/// One commit: its message, the lines it changed and its number of parents.
#[derive(Debug)]
pub struct CommitRow {
    pub message: String,
    pub lines: u64,
    pub parents: u64,
}

/// The first line of a message, without white space around it.
pub open spec fn first_line(msg: Seq<char>) -> Seq<char> {
    let lines = text::lines_of(msg);
    text::trim(
        if lines.len() > 0 {
            lines[0]
        } else {
            Seq::empty()
        },
    )
}

/// A message that says nothing, in small letters.
pub open spec fn is_lazy_phrase(l: Seq<char>) -> bool {
    ||| l == "wip"@
    ||| l == "fix"@
    ||| l == "fix."@
    ||| l == "fixes"@
    ||| l == "typo"@
    ||| l == "update"@
    ||| l == "updates"@
    ||| l == "changes"@
    ||| l == "."@
    ||| l == ".."@
    ||| l == "..."@
    ||| l == "tmp"@
    ||| l == "temp"@
    ||| l == "minor"@
    ||| l == "misc"@
    ||| l == "stuff"@
    ||| "wip "@.is_prefix_of(l)
    ||| "wip:"@.is_prefix_of(l)
    ||| "temp "@.is_prefix_of(l)
    ||| "tmp "@.is_prefix_of(l)
}

pub open spec fn is_low_quality(msg: Seq<char>) -> bool {
    is_lazy_phrase(text::lower_ascii(text::trim(msg)))
}

pub open spec fn is_revert(msg: Seq<char>) -> bool {
    let l = text::lower_ascii(text::trim(msg));
    "revert "@.is_prefix_of(l) || "revert:"@.is_prefix_of(l) || "revert \""@.is_prefix_of(l)
}

/// Whether a message is one of the phrases that say nothing.
pub fn is_low_quality_message(msg: &str) -> (r: bool)
    ensures
        r == is_low_quality(msg@),
{
    let trimmed = text::trimmed(msg);
    let lower = text::to_lower_ascii(trimmed.as_str());
    let l = lower.as_str();
    text::same(l, "wip") || text::same(l, "fix") || text::same(l, "fix.") || text::same(l, "fixes")
        || text::same(l, "typo") || text::same(l, "update") || text::same(l, "updates")
        || text::same(l, "changes") || text::same(l, ".") || text::same(l, "..") || text::same(
        l,
        "...",
    ) || text::same(l, "tmp") || text::same(l, "temp") || text::same(l, "minor") || text::same(
        l,
        "misc",
    ) || text::same(l, "stuff") || text::starts_with(l, "wip ") || text::starts_with(l, "wip:")
        || text::starts_with(l, "temp ") || text::starts_with(l, "tmp ")
}

/// Whether a message announces a revert.
pub fn is_revert_message(msg: &str) -> (r: bool)
    ensures
        r == is_revert(msg@),
{
    let trimmed = text::trimmed(msg);
    let lower = text::to_lower_ascii(trimmed.as_str());
    let l = lower.as_str();
    text::starts_with(l, "revert ") || text::starts_with(l, "revert:") || text::starts_with(
        l,
        "revert \"",
    )
}

/// The first line of a message, without white space around it.
pub fn subject_line(msg: &str) -> (r: String)
    ensures
        r@ == first_line(msg@),
{
    let ls = text::lines(msg);
    proof {
        assert(text::views(ls@).len() == ls@.len());
    }
    if ls.len() > 0 {
        proof {
            assert(text::views(ls@)[0] == ls@[0]@);
        }
        text::trimmed(ls[0].as_str())
    } else {
        let none = String::new();
        text::trimmed(none.as_str())
    }
}

pub open spec fn subject_len() -> spec_fn(CommitRow) -> nat {
    |r: CommitRow| first_line(r.message@).len()
}

pub open spec fn has_short_subject() -> spec_fn(CommitRow) -> bool {
    |r: CommitRow| first_line(r.message@).len() < SHORT_MSG_THRESHOLD
}

pub open spec fn has_lazy_subject() -> spec_fn(CommitRow) -> bool {
    |r: CommitRow| is_low_quality(first_line(r.message@))
}

pub open spec fn has_revert_subject() -> spec_fn(CommitRow) -> bool {
    |r: CommitRow| is_revert(first_line(r.message@))
}

pub open spec fn is_mega() -> spec_fn(CommitRow) -> bool {
    |r: CommitRow| r.lines > MEGA_COMMIT_THRESHOLD
}

pub open spec fn is_merge() -> spec_fn(CommitRow) -> bool {
    |r: CommitRow| r.parents > 1
}

pub open spec fn ok_message() -> MessageModel {
    MessageModel::of(messages::QUALITY_RECOMMENDATION_OK@)
}

/// A warning with `code` when the share `n` of `of` exceeds `limit` percent.
pub open spec fn advice(n: int, of: int, limit: int, code: Seq<char>) -> MessageModel {
    if double::less(double::of(limit), double::percentage(n, of)) {
        MessageModel::of(code).severe(Severity::Warning)
    } else {
        ok_message()
    }
}

pub open spec fn signal_row(
    signal: Seq<char>,
    commits: int,
    percent: ValueModel,
    recommendation: MessageModel,
) -> EntryModel {
    EntryModel {
        key: signal,
        values: Map::empty().insert("commits"@, ValueModel::Count(commits)).insert(
            "percent"@,
            percent,
        ).insert("recommendation"@, ValueModel::Message(recommendation)),
    }
}

/// The row of a signal that `n` of `of` commits show.
pub open spec fn share_row(
    signal: Seq<char>,
    n: int,
    of: int,
    limit: int,
    code: Seq<char>,
) -> EntryModel {
    signal_row(signal, n, ValueModel::Percent(n, of), advice(n, of, limit, code))
}

/// `num / den` rounded to the nearest number, halves upwards; 0 when `den` is.
pub open spec fn rounded(num: int, den: int) -> int {
    double::held(double::rounded(double::share(num, den)))
}

/// The seven signals of a history.
pub open spec fn quality_rows(rows: Seq<CommitRow>) -> Seq<EntryModel> {
    let all = rows.len() as int;
    let chars = fold::total(rows, subject_len()) as int;
    seq![
        signal_row(
            "total_commits"@,
            all,
            ValueModel::Percent(1, 1),
            MessageModel::of(messages::QUALITY_RECOMMENDATION_BASELINE@),
        ),
        share_row(
            "short_messages"@,
            fold::count(rows, has_short_subject()) as int,
            all,
            20,
            messages::QUALITY_RECOMMENDATION_ENFORCE_MSG_LENGTH@,
        ),
        share_row(
            "low_quality_messages"@,
            fold::count(rows, has_lazy_subject()) as int,
            all,
            5,
            messages::QUALITY_RECOMMENDATION_SQUASH_WIP@,
        ),
        share_row(
            "mega_commits"@,
            fold::count(rows, is_mega()) as int,
            all,
            10,
            messages::QUALITY_RECOMMENDATION_SPLIT_MEGA@,
        ),
        share_row(
            "revert_commits"@,
            fold::count(rows, has_revert_subject()) as int,
            all,
            3,
            messages::QUALITY_RECOMMENDATION_STRENGTHEN_REVIEW@,
        ),
        share_row(
            "merge_commits"@,
            fold::count(rows, is_merge()) as int,
            all,
            30,
            messages::QUALITY_RECOMMENDATION_REBASE_WORKFLOW@,
        ),
        signal_row(
            "avg_message_length"@,
            rounded(chars, all),
            ValueModel::Ratio(chars, all),
            if double::less(double::share(chars, all), double::of(30)) {
                MessageModel::of(messages::QUALITY_RECOMMENDATION_REQUIRE_DESCRIPTIONS@).severe(
                    Severity::Warning,
                )
            } else {
                ok_message()
            },
        ),
    ]
}

pub open spec fn quality_columns() -> Seq<Seq<char>> {
    seq!["commits"@, "percent"@, "recommendation"@]
}

pub open spec fn quality_report(rows: Seq<CommitRow>) -> ResultModel {
    types::report_of("quality"@, quality_columns(), quality_rows(rows))
}

fn warn(code: &str) -> (r: LocalizedMessage)
    ensures
        r@ == MessageModel::of(code@).severe(Severity::Warning),
{
    LocalizedMessage::code(code).with_severity(Severity::Warning)
}

fn make_row(
    signal: &str,
    commits: u64,
    percent: MetricValue,
    recommendation: LocalizedMessage,
) -> (r: MetricEntry)
    ensures
        r@ == signal_row(signal@, commits as int, percent@, recommendation@),
{
    let mut values = Values::new();
    values.insert("commits", MetricValue::Count(commits));
    values.insert("percent", percent);
    values.insert("recommendation", MetricValue::Message(recommendation));
    MetricEntry { key: text::copy_text(signal), values }
}

fn make_share_row(signal: &str, n: u64, of: u64, limit: u64, code: &str) -> (r: MetricEntry)
    ensures
        r@ == share_row(signal@, n as int, of as int, limit as int, code@),
{
    let rec = if Double::of(limit).is_less(Double::percentage(n, of)) {
        warn(code)
    } else {
        LocalizedMessage::code(messages::QUALITY_RECOMMENDATION_OK)
    };
    make_row(signal, n, MetricValue::Percent { num: n, den: of }, rec)
}

pub struct QualityCollector;

impl Default for QualityCollector {
    fn default() -> (r: Self)
        ensures
            r == (QualityCollector {  }),
    {
        QualityCollector::new()
    }
}

impl QualityCollector {
    pub fn new() -> (r: Self)
        ensures
            r == (QualityCollector {  }),
    {
        QualityCollector
    }

    pub fn name(&self) -> (r: &str)
        ensures
            r@ == "quality"@,
    {
        "quality"
    }

    /// The report of a history without any rows to draw on.
    pub fn finalize(&mut self) -> (r: MetricResult)
        ensures
            r@ == types::empty_report("quality"@),
    {
        MetricResult::empty("quality")
    }

    /// The report of a history, given one row per commit. The lengths of the
    /// first lines add up to at most `u64::MAX`.
    pub fn finalize_from_rows(&mut self, rows: &[CommitRow]) -> (r: MetricResult)
        requires
            fold::total(rows@, subject_len()) <= u64::MAX,
        ensures
            r@ == quality_report(rows@),
    {
        let mut short: u64 = 0;
        let mut lazy: u64 = 0;
        let mut revert: u64 = 0;
        let mut mega: u64 = 0;
        let mut merge: u64 = 0;
        let mut chars: u64 = 0;
        let n: usize = rows.len();
        let mut i: usize = 0;
        while i < n
            invariant
                i <= n,
                n == rows@.len(),
                fold::total(rows@, subject_len()) <= u64::MAX,
                short == fold::count(rows@.take(i as int), has_short_subject()),
                lazy == fold::count(rows@.take(i as int), has_lazy_subject()),
                revert == fold::count(rows@.take(i as int), has_revert_subject()),
                mega == fold::count(rows@.take(i as int), is_mega()),
                merge == fold::count(rows@.take(i as int), is_merge()),
                chars == fold::total(rows@.take(i as int), subject_len()),
            decreases n - i,
        {
            proof {
                fold::lemma_count_step(rows@, has_short_subject(), i as int);
                fold::lemma_count_step(rows@, has_lazy_subject(), i as int);
                fold::lemma_count_step(rows@, has_revert_subject(), i as int);
                fold::lemma_count_step(rows@, is_mega(), i as int);
                fold::lemma_count_step(rows@, is_merge(), i as int);
                fold::lemma_total_step(rows@, subject_len(), i as int);
            }
            let row = &rows[i];
            let subject = subject_line(row.message.as_str());
            let letters = text::to_chars(subject.as_str());
            let len: usize = letters.len();
            chars += len as u64;
            if len < SHORT_MSG_THRESHOLD {
                short += 1;
            }
            if is_low_quality_message(subject.as_str()) {
                lazy += 1;
            }
            if is_revert_message(subject.as_str()) {
                revert += 1;
            }
            if row.lines > MEGA_COMMIT_THRESHOLD {
                mega += 1;
            }
            if row.parents > 1 {
                merge += 1;
            }
            i += 1;
        }
        proof {
            assert(rows@.take(n as int) =~= rows@);
        }
        let all: u64 = n as u64;
        let avg: u64 = round_quotient(chars, all);
        let rec = if Double::share(chars, all).is_less(Double::of(30)) {
            warn(messages::QUALITY_RECOMMENDATION_REQUIRE_DESCRIPTIONS)
        } else {
            LocalizedMessage::code(messages::QUALITY_RECOMMENDATION_OK)
        };
        let entries = vec![
            make_row(
                "total_commits",
                all,
                MetricValue::Percent { num: 1, den: 1 },
                LocalizedMessage::code(messages::QUALITY_RECOMMENDATION_BASELINE),
            ),
            make_share_row(
                "short_messages",
                short,
                all,
                20,
                messages::QUALITY_RECOMMENDATION_ENFORCE_MSG_LENGTH,
            ),
            make_share_row(
                "low_quality_messages",
                lazy,
                all,
                5,
                messages::QUALITY_RECOMMENDATION_SQUASH_WIP,
            ),
            make_share_row(
                "mega_commits",
                mega,
                all,
                10,
                messages::QUALITY_RECOMMENDATION_SPLIT_MEGA,
            ),
            make_share_row(
                "revert_commits",
                revert,
                all,
                3,
                messages::QUALITY_RECOMMENDATION_STRENGTHEN_REVIEW,
            ),
            make_share_row(
                "merge_commits",
                merge,
                all,
                30,
                messages::QUALITY_RECOMMENDATION_REBASE_WORKFLOW,
            ),
            make_row(
                "avg_message_length",
                avg,
                MetricValue::Ratio { num: chars, den: all },
                rec,
            ),
        ];
        let columns = ["commits", "percent", "recommendation"];
        proof {
            assert(types::entry_models(entries@) =~= quality_rows(rows@));
            assert(types::str_views(columns@) =~= quality_columns());
        }
        MetricResult::report("quality", &columns, entries)
    }
}

/// `num / den` rounded to the nearest number, halves upwards; 0 when `den` is.
pub fn round_quotient(num: u64, den: u64) -> (r: u64)
    ensures
        r == rounded(num as int, den as int),
{
    Double::share(num, den).nearest_whole()
}

/// No signal is seen in more commits than there are.
pub proof fn signals_within_history(rows: Seq<CommitRow>)
    ensures
        fold::count(rows, has_short_subject()) <= rows.len(),
        fold::count(rows, has_lazy_subject()) <= rows.len(),
        fold::count(rows, has_revert_subject()) <= rows.len(),
        fold::count(rows, is_mega()) <= rows.len(),
        fold::count(rows, is_merge()) <= rows.len(),
{
    fold::lemma_count_bound(rows, has_short_subject());
    fold::lemma_count_bound(rows, has_lazy_subject());
    fold::lemma_count_bound(rows, has_revert_subject());
    fold::lemma_count_bound(rows, is_mega());
    fold::lemma_count_bound(rows, is_merge());
}

/// The first row counts all commits, and each of the next ones those that show
/// its signal, as a share of all; too large a share is warned of.
pub proof fn signals_are_counted(rows: Seq<CommitRow>)
    ensures
        ({
            let q = quality_report(rows).entries;
            let all = rows.len() as int;
            &&& q.len() == 7
            &&& q[0].key == "total_commits"@
            &&& q[0].values["commits"@] == ValueModel::Count(all)
            &&& q[1].key == "short_messages"@
            &&& q[1].values["commits"@] == ValueModel::Count(
                fold::count(rows, |r: CommitRow| first_line(r.message@).len() < 10) as int,
            )
            &&& q[1].values["percent"@] == ValueModel::Percent(
                fold::count(rows, |r: CommitRow| first_line(r.message@).len() < 10) as int,
                all,
            )
            &&& q[1].values["recommendation"@] == ValueModel::Message(
                advice(
                    fold::count(rows, |r: CommitRow| first_line(r.message@).len() < 10) as int,
                    all,
                    20,
                    messages::QUALITY_RECOMMENDATION_ENFORCE_MSG_LENGTH@,
                ),
            )
            &&& q[2].key == "low_quality_messages"@
            &&& q[2].values["commits"@] == ValueModel::Count(
                fold::count(rows, |r: CommitRow| is_low_quality(first_line(r.message@))) as int,
            )
            &&& q[2].values["percent"@] == ValueModel::Percent(
                fold::count(rows, |r: CommitRow| is_low_quality(first_line(r.message@))) as int,
                all,
            )
            &&& q[2].values["recommendation"@] == ValueModel::Message(
                advice(
                    fold::count(rows, |r: CommitRow| is_low_quality(first_line(r.message@))) as int,
                    all,
                    5,
                    messages::QUALITY_RECOMMENDATION_SQUASH_WIP@,
                ),
            )
            &&& q[3].key == "mega_commits"@
            &&& q[3].values["commits"@] == ValueModel::Count(
                fold::count(rows, |r: CommitRow| r.lines > 1000) as int,
            )
            &&& q[3].values["percent"@] == ValueModel::Percent(
                fold::count(rows, |r: CommitRow| r.lines > 1000) as int,
                all,
            )
            &&& q[3].values["recommendation"@] == ValueModel::Message(
                advice(
                    fold::count(rows, |r: CommitRow| r.lines > 1000) as int,
                    all,
                    10,
                    messages::QUALITY_RECOMMENDATION_SPLIT_MEGA@,
                ),
            )
            &&& q[4].key == "revert_commits"@
            &&& q[4].values["commits"@] == ValueModel::Count(
                fold::count(rows, |r: CommitRow| is_revert(first_line(r.message@))) as int,
            )
            &&& q[4].values["percent"@] == ValueModel::Percent(
                fold::count(rows, |r: CommitRow| is_revert(first_line(r.message@))) as int,
                all,
            )
            &&& q[4].values["recommendation"@] == ValueModel::Message(
                advice(
                    fold::count(rows, |r: CommitRow| is_revert(first_line(r.message@))) as int,
                    all,
                    3,
                    messages::QUALITY_RECOMMENDATION_STRENGTHEN_REVIEW@,
                ),
            )
            &&& q[5].key == "merge_commits"@
            &&& q[5].values["commits"@] == ValueModel::Count(
                fold::count(rows, |r: CommitRow| r.parents >= 2) as int,
            )
            &&& q[5].values["percent"@] == ValueModel::Percent(
                fold::count(rows, |r: CommitRow| r.parents >= 2) as int,
                all,
            )
            &&& q[5].values["recommendation"@] == ValueModel::Message(
                advice(
                    fold::count(rows, |r: CommitRow| r.parents >= 2) as int,
                    all,
                    30,
                    messages::QUALITY_RECOMMENDATION_REBASE_WORKFLOW@,
                ),
            )
            &&& q[6].key == "avg_message_length"@
        }),
{
    reveal_strlit("commits");
    reveal_strlit("percent");
    reveal_strlit("recommendation");
    assert("commits"@[0] != "percent"@[0]);
    assert("commits"@.len() != "recommendation"@.len());
    assert("percent"@.len() != "recommendation"@.len());
    fold::count_agrees(rows, has_short_subject(), |r: CommitRow| first_line(r.message@).len() < 10);
    fold::count_agrees(rows, has_lazy_subject(), |r: CommitRow| is_low_quality(first_line(r.message@)));
    fold::count_agrees(rows, is_mega(), |r: CommitRow| r.lines > 1000);
    fold::count_agrees(rows, has_revert_subject(), |r: CommitRow| is_revert(first_line(r.message@)));
    fold::count_agrees(rows, is_merge(), |r: CommitRow| r.parents >= 2);
}

/// The more commits show a signal, the sooner it is warned of: never where none
/// does, always where all do.
pub proof fn warnings_grow_with_signals(a: int, b: int, all: int, limit: int, code: Seq<char>)
    requires
        0 <= a <= b <= all,
        0 < all,
        0 <= limit < 100,
    ensures
        advice(a, all, limit, code).severity is Some ==> advice(b, all, limit, code).severity
            is Some,
        advice(0, all, limit, code).severity is None,
        advice(all, all, limit, code).severity == Some(Severity::Warning),
        advice(all, all, limit, code).code == code,
{
    double::shares_grow_with_parts(a, b, all);
    double::shares_grow_with_parts(0, b, all);
    double::shares_are_normal(a, all);
    double::shares_are_normal(b, all);
    double::lemma_nearest_normal(100, 1);
    if limit > 0 {
        double::lemma_nearest_normal(limit, 1);
        double::small_numbers_are_ordered(limit, 100);
    }
}

/// The last row shows how long subjects are on average, and warns where they have
/// fewer than thirty characters.
pub proof fn short_averages_are_warned_of(rows: Seq<CommitRow>)
    requires
        0 < rows.len() < 0x1_0000_0000,
        fold::total(rows, |r: CommitRow| first_line(r.message@).len()) < double::HIGH,
    ensures
        ({
            let e = quality_report(rows).entries[6];
            let chars = fold::total(rows, |r: CommitRow| first_line(r.message@).len()) as int;
            let m = e.values["recommendation"@]->Message_0;
            &&& e.values["percent"@] == ValueModel::Ratio(chars, rows.len() as int)
            &&& chars < 30 * rows.len() ==> m.severity == Some(Severity::Warning)
            &&& chars >= 30 * rows.len() ==> m.severity is None
        }),
{
    fold::total_agrees(rows, subject_len(), |r: CommitRow| first_line(r.message@).len());
    let chars = fold::total(rows, subject_len()) as int;
    double::whole_bounds_are_exact(chars, rows.len() as int, 30);
    reveal_strlit("commits");
    reveal_strlit("percent");
    reveal_strlit("recommendation");
    assert("commits"@[0] != "percent"@[0]);
    assert("commits"@.len() != "recommendation"@.len());
    assert("percent"@.len() != "recommendation"@.len());
}

/// A message is lazy where it says one of these and no more, or starts so, in
/// letters of either case.
pub proof fn lazy_messages_are_these(msg: Seq<char>)
    ensures
        ({
            let l = text::lower_ascii(text::trim(msg));
            is_low_quality(msg) <==> l == "wip"@
                || l == "fix"@
                || l == "fix."@
                || l == "fixes"@
                || l == "typo"@
                || l == "update"@
                || l == "updates"@
                || l == "changes"@
                || l == "."@
                || l == ".."@
                || l == "..."@
                || l == "tmp"@
                || l == "temp"@
                || l == "minor"@
                || l == "misc"@
                || l == "stuff"@
                || "wip "@.is_prefix_of(l)
                || "wip:"@.is_prefix_of(l)
                || "temp "@.is_prefix_of(l)
                || "tmp "@.is_prefix_of(l)
        }),
{
}

/// A message reverts something where it starts by saying so, in letters of either
/// case.
pub proof fn reverts_say_so(msg: Seq<char>)
    ensures
        ({
            let l = text::lower_ascii(text::trim(msg));
            is_revert(msg) <==> "revert "@.is_prefix_of(l) || "revert:"@.is_prefix_of(l)
        }),
{
    let l = text::lower_ascii(text::trim(msg));
    reveal_strlit("revert \"");
    reveal_strlit("revert ");
    if "revert \""@.is_prefix_of(l) {
        assert("revert "@ =~= l.take(7)) by {
            assert forall|i: int| 0 <= i < 7 implies "revert "@[i] == l[i] by {
                assert("revert \""@[i] == l[i]);
            }
        }
    }
}

/// The report has these columns, in this order.
pub proof fn the_columns_are_these(rows: Seq<CommitRow>)
    ensures
        quality_report(rows).name == "quality"@,
        quality_report(rows).columns.len() == 3,
        quality_report(rows).columns[0].value == "commits"@,
        quality_report(rows).columns[1].value == "percent"@,
        quality_report(rows).columns[2].value == "recommendation"@,
{
}

/// The limits that hold here.
pub proof fn the_limits_are_these()
    ensures
        MEGA_COMMIT_THRESHOLD == 1000,
        SHORT_MSG_THRESHOLD == 10,
{
}

/// An average lies between the whole numbers around it, and is exact where it is
/// one of them.
pub proof fn averages_are_near(num: int, den: int)
    requires
        0 <= num < double::HIGH - 1,
        0 < den < double::HIGH,
    ensures
        num / den <= rounded(num, den) <= num / den + 1,
        num % den == 0 ==> rounded(num, den) == num / den,
        rounded(num, 0) == 0,
{
    let k = num / den;
    assert(k * den <= num < (k + 1) * den && 0 <= k <= num) by (nonlinear_arith)
        requires
            num >= 0,
            den > 0,
            k == num / den,
    ;
    double::shares_are_normal(num, den);
    double::lemma_nearest_normal(k + 1, 1);
    double::small_numbers_round_to_themselves(0);
    assert(double::of(0) == double::zero());
    if num > 0 {
        double::small_shares_are_nearest(num, den);
        double::lemma_nearest_normal(num, den);
        double::nearest_is_ordered(num, den, k + 1, 1);
        double::small_numbers_round_to_themselves(k + 1);
        double::roundings_are_ordered(double::share(num, den), double::of(k + 1));
        if k > 0 {
            double::nearest_is_ordered(k, 1, num, den);
            double::lemma_nearest_normal(k, 1);
            double::small_numbers_round_to_themselves(k);
            double::roundings_are_ordered(double::of(k), double::share(num, den));
        } else {
            double::roundings_are_ordered(double::of(0), double::share(num, den));
        }
        if num % den == 0 {
            assert(num == k * den) by (nonlinear_arith)
                requires
                    den > 0,
                    k == num / den,
                    num % den == 0,
            ;
            assert(k > 0) by (nonlinear_arith)
                requires
                    num > 0,
                    den > 0,
                    num == k * den,
            ;
            double::nearest_is_ordered(num, den, k, 1);
            double::small_numbers_round_to_themselves(k);
            double::roundings_are_ordered(double::share(num, den), double::of(k));
        }
    } else {
        double::roundings_are_ordered(double::of(0), double::share(0, den));
        double::roundings_are_ordered(double::share(0, den), double::of(0));
    }
}

} // verus!
