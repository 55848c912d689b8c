//! The branches of a repository and what to do with each.

use vstd::prelude::*;

use crate::messages;
use crate::order;
use crate::order::Ranked;
use crate::report;
use crate::report::Row;
use crate::text;
use crate::types;
use crate::types::{Date, EntryGroup, EntryModel, GroupModel, LocalizedMessage, MessageModel, MetricEntry, MetricResult, MetricValue, ResultModel, Severity, ValueModel, Values};

verus! {

/// Fewer branches are not worth a report.
pub const MIN_BRANCHES: usize = 2;

/// From this many idle days on, an unmerged branch is stale.
pub const STALE_DAYS: i64 = 60;

/// From this many idle days on, an unmerged branch is abandoned.
pub const ABANDONED_DAYS: i64 = 180;

/// A branch and its last commit. It is merged if its tip is reached from HEAD.
#[derive(Debug)]
pub struct BranchInfo {
    pub name: String,
    pub last_commit_date: Date,
    pub days_since: i64,
    pub author: String,
    pub merged: bool,
    pub is_head: bool,
}

pub struct BranchInfoModel {
    pub name: Seq<char>,
    pub last_commit_date: int,
    pub days_since: int,
    pub author: Seq<char>,
    pub merged: bool,
    pub is_head: bool,
}

impl View for BranchInfo {
    type V = BranchInfoModel;

    open spec fn view(&self) -> BranchInfoModel {
        BranchInfoModel {
            name: self.name@,
            last_commit_date: self.last_commit_date.days as int,
            days_since: self.days_since as int,
            author: self.author@,
            merged: self.merged,
            is_head: self.is_head,
        }
    }
}

#[derive(Debug, Clone, Copy, PartialEq, Eq, Hash, Structural)]
pub enum BranchStatus {
    Head,
    Active,
    Stale,
    Abandoned,
    MergedRecent,
    MergedStale,
}

pub open spec fn status_name(s: BranchStatus) -> Seq<char> {
    match s {
        BranchStatus::Head => "head"@,
        BranchStatus::Active => "active"@,
        BranchStatus::Stale => "stale"@,
        BranchStatus::Abandoned => "abandoned"@,
        BranchStatus::MergedRecent => "merged_recent"@,
        BranchStatus::MergedStale => "merged_stale"@,
    }
}

pub open spec fn status_label(s: BranchStatus) -> Seq<char> {
    match s {
        BranchStatus::Head => "branches.group.head"@,
        BranchStatus::Active => "branches.group.active"@,
        BranchStatus::Stale => "branches.group.stale"@,
        BranchStatus::Abandoned => "branches.group.abandoned"@,
        BranchStatus::MergedRecent => "branches.group.merged_recent"@,
        BranchStatus::MergedStale => "branches.group.merged_stale"@,
    }
}

impl BranchStatus {
    pub fn name(self) -> (r: &'static str)
        ensures
            r@ == status_name(self),
    {
        match self {
            BranchStatus::Head => "head",
            BranchStatus::Active => "active",
            BranchStatus::Stale => "stale",
            BranchStatus::Abandoned => "abandoned",
            BranchStatus::MergedRecent => "merged_recent",
            BranchStatus::MergedStale => "merged_stale",
        }
    }

    pub fn label_code(self) -> (r: &'static str)
        ensures
            r@ == status_label(self),
    {
        match self {
            BranchStatus::Head => "branches.group.head",
            BranchStatus::Active => "branches.group.active",
            BranchStatus::Stale => "branches.group.stale",
            BranchStatus::Abandoned => "branches.group.abandoned",
            BranchStatus::MergedRecent => "branches.group.merged_recent",
            BranchStatus::MergedStale => "branches.group.merged_stale",
        }
    }
}

/// How a branch stands.
pub open spec fn status_of(merged: bool, days_since: int, is_head: bool) -> BranchStatus {
    if is_head {
        BranchStatus::Head
    } else if merged && days_since >= STALE_DAYS {
        BranchStatus::MergedStale
    } else if merged {
        BranchStatus::MergedRecent
    } else if days_since >= ABANDONED_DAYS {
        BranchStatus::Abandoned
    } else if days_since >= STALE_DAYS {
        BranchStatus::Stale
    } else {
        BranchStatus::Active
    }
}

pub open spec fn status(b: BranchInfoModel) -> BranchStatus {
    status_of(b.merged, b.days_since, b.is_head)
}

pub fn classify(b: &BranchInfo) -> (r: BranchStatus)
    ensures
        r == status(b@),
{
    if b.is_head {
        return BranchStatus::Head;
    }
    if b.merged {
        if b.days_since >= STALE_DAYS {
            BranchStatus::MergedStale
        } else {
            BranchStatus::MergedRecent
        }
    } else if b.days_since >= ABANDONED_DAYS {
        BranchStatus::Abandoned
    } else if b.days_since >= STALE_DAYS {
        BranchStatus::Stale
    } else {
        BranchStatus::Active
    }
}

/// What to do with a branch. Where the age is the reason, the message gives it.
pub open spec fn recommendation(merged: bool, days_since: int, is_head: bool) -> MessageModel {
    match status_of(merged, days_since, is_head) {
        BranchStatus::Head => MessageModel::of(messages::BRANCHES_RECOMMENDATION_HEAD@),
        BranchStatus::Active => MessageModel::of(messages::BRANCHES_RECOMMENDATION_ACTIVE@),
        BranchStatus::MergedRecent => MessageModel::of(
            messages::BRANCHES_RECOMMENDATION_MERGED_RECENT@,
        ).severe(Severity::Info),
        BranchStatus::MergedStale => MessageModel::of(
            messages::BRANCHES_RECOMMENDATION_MERGED_STALE@,
        ).severe(Severity::Warning).with_number("days"@, days_since),
        BranchStatus::Stale => MessageModel::of(messages::BRANCHES_RECOMMENDATION_STALE@).severe(
            Severity::Warning,
        ).with_number("days"@, days_since),
        BranchStatus::Abandoned => MessageModel::of(
            messages::BRANCHES_RECOMMENDATION_ABANDONED@,
        ).severe(Severity::Critical).with_number("days"@, days_since),
    }
}

pub fn build_recommendation(merged: bool, days_since: i64, is_head: bool) -> (r: LocalizedMessage)
    ensures
        r@ == recommendation(merged, days_since as int, is_head),
{
    if is_head {
        return LocalizedMessage::code(messages::BRANCHES_RECOMMENDATION_HEAD);
    }
    if merged {
        if days_since >= STALE_DAYS {
            LocalizedMessage::code(messages::BRANCHES_RECOMMENDATION_MERGED_STALE).with_severity(
                Severity::Warning,
            ).with_param("days", days_since as u64)
        } else {
            LocalizedMessage::code(messages::BRANCHES_RECOMMENDATION_MERGED_RECENT).with_severity(
                Severity::Info,
            )
        }
    } else if days_since >= ABANDONED_DAYS {
        LocalizedMessage::code(messages::BRANCHES_RECOMMENDATION_ABANDONED).with_severity(
            Severity::Critical,
        ).with_param("days", days_since as u64)
    } else if days_since >= STALE_DAYS {
        LocalizedMessage::code(messages::BRANCHES_RECOMMENDATION_STALE).with_severity(
            Severity::Warning,
        ).with_param("days", days_since as u64)
    } else {
        LocalizedMessage::code(messages::BRANCHES_RECOMMENDATION_ACTIVE)
    }
}

pub open spec fn yes_no(b: bool) -> Seq<char> {
    if b {
        "yes"@
    } else {
        "no"@
    }
}

fn in_words(b: bool) -> (r: String)
    ensures
        r@ == yes_no(b),
{
    if b {
        text::copy_text("yes")
    } else {
        text::copy_text("no")
    }
}

/// The number of idle days; a negative one counts as none.
pub open spec fn idle(days: int) -> int {
    if days > 0 {
        days
    } else {
        0
    }
}

fn idle_days(days: i64) -> (r: u64)
    ensures
        r == idle(days as int),
{
    if days > 0 {
        days as u64
    } else {
        0
    }
}

/// The longest idle first.
impl Ranked for BranchInfo {
    open spec fn le(a: BranchInfoModel, b: BranchInfoModel) -> bool {
        idle(a.days_since) >= idle(b.days_since)
    }

    proof fn le_total(a: BranchInfoModel, b: BranchInfoModel) {
    }

    proof fn le_transitive(a: BranchInfoModel, b: BranchInfoModel, c: BranchInfoModel) {
    }

    fn not_after(&self, other: &BranchInfo) -> (r: bool) {
        idle_days(self.days_since) >= idle_days(other.days_since)
    }
}

impl Row for BranchInfo {
    open spec fn entry(b: BranchInfoModel) -> EntryModel {
        EntryModel {
            key: b.name,
            values: Map::empty().insert(
                "last_commit"@,
                ValueModel::Date(b.last_commit_date),
            ).insert(
                "days_since"@,
                ValueModel::Count(idle(b.days_since)),
            ).insert(
                "author"@,
                ValueModel::Text(b.author),
            ).insert(
                "merged"@,
                ValueModel::Text(yes_no(b.merged)),
            ).insert(
                "is_head"@,
                ValueModel::Text(yes_no(b.is_head)),
            ).insert(
                "recommendation"@,
                ValueModel::Message(recommendation(b.merged, b.days_since, b.is_head)),
            ),
        }
    }

    fn to_entry(self) -> (r: MetricEntry) {
        let mut values = Values::new();
        values.insert("last_commit", MetricValue::Date(self.last_commit_date));
        values.insert("days_since", MetricValue::Count(idle_days(self.days_since)));
        values.insert("author", MetricValue::Text(self.author));
        values.insert("merged", MetricValue::Text(in_words(self.merged)));
        values.insert("is_head", MetricValue::Text(in_words(self.is_head)));
        values.insert("recommendation", MetricValue::Message(
            build_recommendation(self.merged, self.days_since, self.is_head),
        ));
        MetricEntry { key: self.name, values }
    }
}

/// The branches with a status, in their order.
pub open spec fn of_status(s: Seq<BranchInfoModel>, want: BranchStatus) -> Seq<BranchInfoModel>
    decreases s.len(),
{
    if s.len() == 0 {
        Seq::empty()
    } else if status(s.last()) == want {
        of_status(s.drop_last(), want).push(s.last())
    } else {
        of_status(s.drop_last(), want)
    }
}

/// The order of the groups: what needs attention most comes first.
pub open spec fn worst_first() -> Seq<BranchStatus> {
    seq![
        BranchStatus::Abandoned,
        BranchStatus::Stale,
        BranchStatus::MergedStale,
        BranchStatus::MergedRecent,
        BranchStatus::Active,
        BranchStatus::Head,
    ]
}

pub open spec fn status_group(s: Seq<BranchInfoModel>, want: BranchStatus) -> GroupModel {
    GroupModel {
        name: status_name(want),
        label: status_label(want),
        entries: report::entries_of::<BranchInfo>(
            order::sort_ranked::<BranchInfo>(of_status(s, want)),
        ),
    }
}

/// The groups of the first `n` statuses; those without branches are left out.
pub open spec fn branch_groups(s: Seq<BranchInfoModel>, n: int) -> Seq<GroupModel>
    decreases n,
{
    if n <= 0 {
        Seq::empty()
    } else {
        let want = worst_first()[n - 1];
        if of_status(s, want).len() > 0 {
            branch_groups(s, n - 1).push(status_group(s, want))
        } else {
            branch_groups(s, n - 1)
        }
    }
}

pub open spec fn branch_columns() -> Seq<Seq<char>> {
    seq![
        "last_commit"@,
        "days_since"@,
        "author"@,
        "merged"@,
        "is_head"@,
        "recommendation"@,
    ]
}

pub open spec fn branch_report(s: Seq<BranchInfoModel>) -> ResultModel {
    if s.len() < MIN_BRANCHES {
        types::empty_report("branches"@)
    } else {
        types::grouped_report_of("branches"@, branch_columns(), branch_groups(s, 6))
    }
}

/// How many of the branches fall under the first `n` statuses.
pub open spec fn grouped_count(s: Seq<BranchInfoModel>, n: int) -> nat
    decreases n,
{
    if n <= 0 {
        0
    } else {
        grouped_count(s, n - 1) + of_status(s, worst_first()[n - 1]).len()
    }
}

/// Every branch falls under exactly one status.
pub proof fn every_branch_is_grouped(s: Seq<BranchInfoModel>)
    ensures
        grouped_count(s, 6) == s.len(),
    decreases s.len(),
{
    reveal_with_fuel(grouped_count, 7);
    if s.len() > 0 {
        every_branch_is_grouped(s.drop_last());
    }
}

/// The name of a remote-tracking branch without its remote. The pointer to a
/// remote's default branch is no branch of its own.
pub open spec fn remote_short(full: Seq<char>) -> Option<Seq<char>> {
    let prefix = "refs/remotes/"@;
    if "/HEAD"@.is_suffix_of(full) || !prefix.is_prefix_of(full) {
        None
    } else {
        let rest = full.skip(prefix.len() as int);
        if rest.contains('/') {
            Some(rest.skip(text::before_first(rest, seq!['/']).len() as int + 1))
        } else {
            Some(rest)
        }
    }
}

pub fn remote_branch_name(full: &str) -> (r: Option<String>)
    ensures
        match r {
            Some(s) => remote_short(full@) == Some(s@),
            None => remote_short(full@) is None,
        },
{
    if text::ends_with(full, "/HEAD") {
        return None;
    }
    match text::strip_prefix(full, "refs/remotes/") {
        None => None,
        Some(rest) => {
            let v = text::to_chars(rest.as_str());
            let n: usize = v.len();
            let mut i: usize = 0;
            while i < n && v[i] != '/'
                invariant
                    n == v@.len(),
                    i <= n,
                    forall|j: int| 0 <= j < i ==> v@[j] != '/',
                decreases n - i,
            {
                i += 1;
            }
            let ghost slash = seq!['/'];
            if i < n {
                let tail = vstd::slice::slice_subrange(v.as_slice(), i + 1, n);
                proof {
                    assert(v@[i as int] == '/');
                    assert(rest@.contains('/'));
                    assert(text::occurs_at(rest@, slash, i as int)) by {
                        assert(rest@.subrange(i as int, i + 1) =~= slash);
                    }
                    assert forall|j: int| 0 <= j < i implies !text::occurs_at(rest@, slash, j) by {
                        if text::occurs_at(rest@, slash, j) {
                            assert(rest@.subrange(j, j + 1)[0] == slash[0]);
                        }
                    }
                    text::lemma_before_first(rest@, slash, i as int);
                    assert(rest@.skip(i + 1) =~= tail@);
                }
                Some(text::to_text(tail))
            } else {
                proof {
                    if rest@.contains('/') {
                        let j = choose|j: int| 0 <= j < rest@.len() && rest@[j] == '/';
                        assert(v@[j] != '/');
                    }
                }
                Some(rest)
            }
        },
    }
}

/// The name of a local branch without its namespace.
pub open spec fn local_short(full: Seq<char>) -> Seq<char> {
    if "refs/heads/"@.is_prefix_of(full) {
        full.skip("refs/heads/"@.len() as int)
    } else {
        full
    }
}

pub fn local_branch_name(full: &str) -> (r: String)
    ensures
        r@ == local_short(full@),
{
    match text::strip_prefix(full, "refs/heads/") {
        Some(rest) => rest,
        None => text::copy_text(full),
    }
}

/// A branch, given its short name, the author's address and time of its last
/// commit as far as they could be read, whether it is merged, the short name of
/// the branch that HEAD is on, and the day it is now.
pub open spec fn branch(
    short: Seq<char>,
    author: Option<(Seq<char>, Option<int>)>,
    merged: bool,
    head: Option<Seq<char>>,
    now: int,
) -> BranchInfoModel {
    let secs = match author {
        Some((_, Some(t))) => t,
        _ => 0,
    };
    BranchInfoModel {
        name: short,
        last_commit_date: types::day_of(secs),
        days_since: types::days_from(types::day_of(secs), now),
        author: match author {
            Some((email, _)) => email,
            None => "<unknown>"@,
        },
        merged,
        is_head: head == Some(short),
    }
}

pub open spec fn author_view(a: Option<(String, Option<i64>)>) -> Option<(Seq<char>, Option<int>)> {
    match a {
        Some((email, Some(t))) => Some((email@, Some(t as int))),
        Some((email, None)) => Some((email@, None)),
        None => None,
    }
}

pub open spec fn text_view(s: Option<&str>) -> Option<Seq<char>> {
    match s {
        Some(t) => Some(t@),
        None => None,
    }
}

pub fn resolve_branch(
    short: &str,
    author: Option<(String, Option<i64>)>,
    merged: bool,
    head_short: Option<&str>,
    now: Date,
) -> (r: BranchInfo)
    requires
        -96465293 <= now.days <= 95026236,
    ensures
        r@ == branch(
            short@,
            author_view(author),
            merged,
            text_view(head_short),
            now.days as int,
        ),
{
    let (email, secs): (String, i64) = match author {
        Some((email, time)) => (
            email,
            match time {
                Some(t) => t,
                None => 0,
            },
        ),
        None => (text::copy_text("<unknown>"), 0),
    };
    let last_commit_date = types::ts_to_date(secs);
    let days_since = types::days_since(last_commit_date, now) as i64;
    let is_head = match head_short {
        Some(h) => text::same(h, short),
        None => false,
    };
    BranchInfo {
        name: text::copy_text(short),
        last_commit_date,
        days_since,
        author: email,
        merged,
        is_head,
    }
}

fn copy_branch(b: &BranchInfo) -> (r: BranchInfo)
    ensures
        r@ == b@,
{
    BranchInfo {
        name: text::copy_text(b.name.as_str()),
        last_commit_date: b.last_commit_date,
        days_since: b.days_since,
        author: text::copy_text(b.author.as_str()),
        merged: b.merged,
        is_head: b.is_head,
    }
}

fn select(branches: &[BranchInfo], want: BranchStatus) -> (r: Vec<BranchInfo>)
    ensures
        order::models(r@) == of_status(order::models(branches@), want),
{
    let ghost all = order::models(branches@);
    let mut out: Vec<BranchInfo> = Vec::new();
    let n: usize = branches.len();
    let mut i: usize = 0;
    proof {
        assert(all.take(0).len() == 0);
        assert(order::models(out@) =~= Seq::empty());
    }
    while i < n
        invariant
            n == branches@.len(),
            i <= n,
            all == order::models(branches@),
            order::models(out@) == of_status(all.take(i as int), want),
        decreases n - i,
    {
        let ghost before = order::models(out@);
        proof {
            assert(all.take(i + 1).drop_last() =~= all.take(i as int));
            assert(all.take(i + 1).last() == branches@[i as int]@);
        }
        if classify(&branches[i]) == want {
            let b = copy_branch(&branches[i]);
            out.push(b);
            proof {
                assert(order::models(out@) =~= before.push(b@));
            }
        }
        i += 1;
    }
    proof {
        assert(all.take(n as int) =~= all);
    }
    out
}

#[derive(Debug)]
pub struct BranchesCollector {
    pub branches: Vec<BranchInfo>,
}

impl Default for BranchesCollector {
    fn default() -> (r: Self)
        ensures
            r.branches@.len() == 0,
    {
        BranchesCollector::new()
    }
}

impl BranchesCollector {
    pub fn new() -> (r: Self)
        ensures
            r.branches@.len() == 0,
    {
        BranchesCollector { branches: Vec::new() }
    }

    pub fn name(&self) -> (r: &str)
        ensures
            r@ == "branches"@,
    {
        "branches"
    }

    /// Reports the collected branches and forgets them.
    pub fn finalize(&mut self) -> (r: MetricResult)
        ensures
            r@ == branch_report(order::models(old(self).branches@)),
            final(self).branches@.len() == 0,
    {
        let ghost all = order::models(self.branches@);
        if self.branches.len() < MIN_BRANCHES {
            self.branches = Vec::new();
            return MetricResult::empty("branches");
        }
        let order = [
            BranchStatus::Abandoned,
            BranchStatus::Stale,
            BranchStatus::MergedStale,
            BranchStatus::MergedRecent,
            BranchStatus::Active,
            BranchStatus::Head,
        ];
        proof {
            assert(order@ =~= worst_first());
        }
        let mut groups: Vec<EntryGroup> = Vec::new();
        proof {
            assert(types::group_models(groups@) =~= Seq::empty());
        }
        let mut i: usize = 0;
        while i < 6
            invariant
                i <= 6,
                order@ == worst_first(),
                all == order::models(self.branches@),
                types::group_models(groups@) == branch_groups(all, i as int),
            decreases 6 - i,
        {
            let want = order[i];
            let found = select(self.branches.as_slice(), want);
            proof {
                assert(order::models(found@).len() == found@.len());
            }
            if found.len() > 0 {
                let ghost before = types::group_models(groups@);
                let entries = report::to_entries(order::sort_rows(found));
                let group = EntryGroup::of(want.name(), want.label_code(), entries);
                groups.push(group);
                proof {
                    assert(types::group_models(groups@) =~= before.push(group@));
                }
            }
            i += 1;
        }
        self.branches = Vec::new();
        let columns = [
            "last_commit",
            "days_since",
            "author",
            "merged",
            "is_head",
            "recommendation",
        ];
        proof {
            assert(types::str_views(columns@) =~= branch_columns());
        }
        MetricResult::grouped("branches", &columns, groups)
    }
}

proof fn lemma_of_status(rows: Seq<BranchInfoModel>, want: BranchStatus, x: BranchInfoModel)
    ensures
        of_status(rows, want).contains(x) <==> exists|k: int|
            0 <= k < rows.len() && status((#[trigger] rows[k])) == want && x == rows[k],
        of_status(rows, want).len() <= rows.len(),
    decreases rows.len(),
{
    if rows.len() > 0 {
        let front = rows.drop_last();
        let last = rows.last();
        let was = of_status(front, want);
        let is = of_status(rows, want);
        lemma_of_status(front, want, x);
        assert(rows[rows.len() - 1] == last);
        assert(forall|k: int| 0 <= k < front.len() ==> front[k] == rows[k]);
        if is.contains(x) {
            let i = choose|i: int| 0 <= i < is.len() && is[i] == x;
            if i < was.len() {
                assert(was[i] == x);
                let k = choose|k: int|
                    0 <= k < front.len() && status((#[trigger] front[k])) == want && x == front[k];
                assert(rows[k] == front[k]);
            }
        }
        if exists|k: int| 0 <= k < rows.len() && status((#[trigger] rows[k])) == want && x == rows[k] {
            let k = choose|k: int|
                0 <= k < rows.len() && status((#[trigger] rows[k])) == want && x == rows[k];
            if k < front.len() {
                assert(front[k] == rows[k]);
                let i = choose|i: int| 0 <= i < was.len() && was[i] == x;
                assert(is[i] == x);
            } else {
                assert(is[is.len() - 1] == x);
            }
        }
    }
}

/// Merging and age alone decide how a branch other than the current one stands:
/// it is recent for sixty days, and an unmerged one is stale for another hundred
/// and twenty before it is abandoned.
pub proof fn branches_go_stale(merged: bool, days: int)
    ensures
        status_of(merged, days, true) == BranchStatus::Head,
        days < 60 ==> status_of(false, days, false) == BranchStatus::Active,
        60 <= days < 180 ==> status_of(false, days, false) == BranchStatus::Stale,
        180 <= days ==> status_of(false, days, false) == BranchStatus::Abandoned,
        days < 60 ==> status_of(true, days, false) == BranchStatus::MergedRecent,
        60 <= days ==> status_of(true, days, false) == BranchStatus::MergedStale,
{
}

/// The current branch and an active one are left alone; the longer another one
/// lies, the more urgent is what is said of it, and its age is given.
pub proof fn older_branches_are_more_urgent(merged: bool, days: int)
    ensures
        recommendation(merged, days, true).severity is None,
        days < 60 ==> recommendation(false, days, false).severity is None,
        60 <= days < 180 ==> recommendation(false, days, false).severity == Some(
            Severity::Warning,
        ),
        180 <= days ==> recommendation(false, days, false).severity == Some(Severity::Critical),
        days < 60 ==> recommendation(true, days, false).severity == Some(Severity::Info),
        60 <= days ==> recommendation(true, days, false).severity == Some(Severity::Warning),
        60 <= days ==> recommendation(merged, days, false).params == seq![
            ("days"@, types::ParamModel::Number(days)),
        ],
{
}

/// With two branches or more, each is shown in the group of its status, with
/// its age and what to do about it.
pub proof fn every_branch_is_shown(s: Seq<BranchInfoModel>, k: int)
    requires
        s.len() >= 2,
        0 <= k < s.len(),
    ensures
        exists|g: int, i: int|
            0 <= g < branch_report(s).groups.len() && 0 <= i < branch_report(
                s,
            ).groups[g].entries.len() && ({
                let e = #[trigger] branch_report(s).groups[g].entries[i];
                let b = s[k];
                &&& branch_report(s).groups[g].name == status_name(status(b))
                &&& e.key == b.name
                &&& e.values["last_commit"@] == ValueModel::Date(b.last_commit_date)
                &&& b.days_since >= 0 ==> e.values["days_since"@] == ValueModel::Count(b.days_since)
                &&& b.days_since < 0 ==> e.values["days_since"@] == ValueModel::Count(0)
                &&& e.values["author"@] == ValueModel::Text(b.author)
                &&& b.merged ==> e.values["merged"@] == ValueModel::Text("yes"@)
                &&& !b.merged ==> e.values["merged"@] == ValueModel::Text("no"@)
                &&& b.is_head ==> e.values["is_head"@] == ValueModel::Text("yes"@)
                &&& !b.is_head ==> e.values["is_head"@] == ValueModel::Text("no"@)
                &&& e.values["recommendation"@] == ValueModel::Message(
                    recommendation(b.merged, b.days_since, b.is_head),
                )
            }),
{
    let want = status(s[k]);
    lemma_of_status(s, want, s[k]);
    let members = of_status(s, want);
    let ranked = order::sort_ranked::<BranchInfo>(members);
    order::sort_same_members::<BranchInfo>(members);
    let m = choose|m: int| 0 <= m < worst_first().len() && worst_first()[m] == want;
    assert(worst_first()[0] == BranchStatus::Abandoned);
    assert(worst_first()[1] == BranchStatus::Stale);
    assert(worst_first()[2] == BranchStatus::MergedStale);
    assert(worst_first()[3] == BranchStatus::MergedRecent);
    assert(worst_first()[4] == BranchStatus::Active);
    assert(worst_first()[5] == BranchStatus::Head);
    lemma_group_is_there(s, m, 6);
    let g = choose|g: int|
        0 <= g < branch_groups(s, 6).len() && branch_groups(s, 6)[g] == status_group(s, want);
    assert(ranked.contains(s[k]));
    let i = choose|i: int| 0 <= i < ranked.len() && ranked[i] == s[k];
    let e = branch_report(s).groups[g].entries[i];
    assert(e == BranchInfo::entry(s[k]));
    reveal_strlit("last_commit");
    reveal_strlit("days_since");
    reveal_strlit("author");
    reveal_strlit("merged");
    reveal_strlit("is_head");
    reveal_strlit("recommendation");
    assert("last_commit"@.len() != "days_since"@.len());
    assert("last_commit"@.len() != "author"@.len());
    assert("last_commit"@.len() != "merged"@.len());
    assert("last_commit"@.len() != "is_head"@.len());
    assert("last_commit"@.len() != "recommendation"@.len());
    assert("days_since"@.len() != "author"@.len());
    assert("days_since"@.len() != "merged"@.len());
    assert("days_since"@.len() != "is_head"@.len());
    assert("days_since"@.len() != "recommendation"@.len());
    assert("author"@[0] != "merged"@[0]);
    assert("author"@.len() != "is_head"@.len());
    assert("author"@.len() != "recommendation"@.len());
    assert("merged"@.len() != "is_head"@.len());
    assert("merged"@.len() != "recommendation"@.len());
    assert("is_head"@.len() != "recommendation"@.len());
}

proof fn lemma_group_is_there(s: Seq<BranchInfoModel>, m: int, n: int)
    requires
        0 <= m < n <= 6,
        of_status(s, worst_first()[m]).len() > 0,
    ensures
        exists|g: int|
            0 <= g < branch_groups(s, n).len() && branch_groups(s, n)[g] == status_group(
                s,
                worst_first()[m],
            ),
    decreases n,
{
    if m == n - 1 {
        assert(branch_groups(s, n)[branch_groups(s, n).len() - 1] == status_group(
            s,
            worst_first()[m],
        ));
    } else {
        lemma_group_is_there(s, m, n - 1);
        let was = branch_groups(s, n - 1);
        let g = choose|g: int|
            0 <= g < was.len() && #[trigger] was[g] == status_group(s, worst_first()[m]);
        assert(branch_groups(s, n)[g] == was[g]);
    }
}

proof fn lemma_groups_are_statuses(s: Seq<BranchInfoModel>, n: int)
    requires
        0 <= n <= 6,
    ensures
        forall|g: int|
            0 <= g < branch_groups(s, n).len() ==> exists|m: int|
                0 <= m < n && #[trigger] branch_groups(s, n)[g] == status_group(
                    s,
                    #[trigger] worst_first()[m],
                ) && of_status(s, worst_first()[m]).len() > 0,
    decreases n,
{
    if n > 0 {
        lemma_groups_are_statuses(s, n - 1);
        let was = branch_groups(s, n - 1);
        assert forall|g: int| 0 <= g < branch_groups(s, n).len() implies exists|m: int|
            0 <= m < n && #[trigger] branch_groups(s, n)[g] == status_group(
                s,
                #[trigger] worst_first()[m],
            ) && of_status(s, worst_first()[m]).len() > 0 by {
            if g < was.len() {
                let m = choose|m: int|
                    0 <= m < n - 1 && was[g] == status_group(s, #[trigger] worst_first()[m])
                        && of_status(s, worst_first()[m]).len() > 0;
                assert(branch_groups(s, n)[g] == status_group(s, worst_first()[m]));
            } else {
                assert(branch_groups(s, n)[g] == status_group(s, worst_first()[n - 1]));
            }
        }
    }
}

/// No group is empty, and in each the branches that lay idle longest stand
/// first.
pub proof fn longest_idle_first(s: Seq<BranchInfoModel>, g: int, i: int, j: int)
    requires
        0 <= g < branch_report(s).groups.len(),
        0 <= i <= j < branch_report(s).groups[g].entries.len(),
    ensures
        ({
            let rows = branch_report(s).groups[g].entries;
            rows[i].values["days_since"@]->Count_0 >= rows[j].values["days_since"@]->Count_0
        }),
{
    lemma_groups_are_statuses(s, 6);
    let m = choose|m: int|
        0 <= m < 6 && branch_groups(s, 6)[g] == status_group(s, #[trigger] worst_first()[m])
            && of_status(s, worst_first()[m]).len() > 0;
    let members = of_status(s, worst_first()[m]);
    let ranked = order::sort_ranked::<BranchInfo>(members);
    order::sort_orders::<BranchInfo>(members);
    let rows = branch_report(s).groups[g].entries;
    assert(rows[i] == BranchInfo::entry(ranked[i]));
    assert(rows[j] == BranchInfo::entry(ranked[j]));
    if i < j {
        assert(BranchInfo::le(ranked[i], ranked[j]));
    }
    reveal_strlit("last_commit");
    reveal_strlit("days_since");
    reveal_strlit("author");
    reveal_strlit("merged");
    reveal_strlit("is_head");
    reveal_strlit("recommendation");
    assert("last_commit"@.len() != "days_since"@.len());
    assert("last_commit"@.len() != "author"@.len());
    assert("last_commit"@.len() != "merged"@.len());
    assert("last_commit"@.len() != "is_head"@.len());
    assert("last_commit"@.len() != "recommendation"@.len());
    assert("days_since"@.len() != "author"@.len());
    assert("days_since"@.len() != "merged"@.len());
    assert("days_since"@.len() != "is_head"@.len());
    assert("days_since"@.len() != "recommendation"@.len());
    assert("author"@[0] != "merged"@[0]);
    assert("author"@.len() != "is_head"@.len());
    assert("author"@.len() != "recommendation"@.len());
    assert("merged"@.len() != "is_head"@.len());
    assert("merged"@.len() != "recommendation"@.len());
    assert("is_head"@.len() != "recommendation"@.len());
}

/// A single branch is nothing to report on.
pub proof fn one_branch_is_no_report(s: Seq<BranchInfoModel>)
    requires
        s.len() < 2,
    ensures
        branch_report(s).groups.len() == 0,
        branch_report(s).entries.len() == 0,
{
}

/// What is said of a branch is what was read of its last commit: its age runs
/// from that day to today, and it is the current one if HEAD names it.
pub proof fn a_branch_is_as_old_as_its_commit(
    short: Seq<char>,
    email: Seq<char>,
    secs: int,
    merged: bool,
    head: Option<Seq<char>>,
    now: int,
)
    ensures
        ({
            let b = branch(short, Some((email, Some(secs))), merged, head, now);
            &&& b.name == short
            &&& b.author == email
            &&& b.merged == merged
            &&& b.last_commit_date == types::day_of(secs)
            &&& b.last_commit_date <= now ==> b.last_commit_date + b.days_since == now
            &&& b.last_commit_date > now ==> b.days_since == 0
            &&& (head is None || head->0 != short) ==> !b.is_head
            &&& head == Some(short) ==> b.is_head
        }),
        branch(short, None, merged, head, now).author == "<unknown>"@,
        branch(short, None, merged, head, now).last_commit_date == 0,
        branch(short, Some((email, None)), merged, head, now).author == email,
        branch(short, Some((email, None)), merged, head, now).last_commit_date == 0,
{
}

/// The report has these columns, in this order.
pub proof fn the_columns_are_these(s: Seq<BranchInfoModel>)
    requires
        s.len() >= 2,
    ensures
        branch_report(s).name == "branches"@,
        branch_report(s).columns.len() == 6,
        branch_report(s).columns[0].value == "last_commit"@,
        branch_report(s).columns[1].value == "days_since"@,
        branch_report(s).columns[2].value == "author"@,
        branch_report(s).columns[3].value == "merged"@,
        branch_report(s).columns[4].value == "is_head"@,
        branch_report(s).columns[5].value == "recommendation"@,
{
}

/// The limits that hold here.
pub proof fn the_limits_are_these()
    ensures
        MIN_BRANCHES == 2,
        STALE_DAYS == 60,
        ABANDONED_DAYS == 180,
{
}

/// A remote branch is called by what follows its remote; the pointer to a default
/// branch and anything that is not remote is none.
pub proof fn remote_branches_lose_their_remote(remote: Seq<char>, name: Seq<char>)
    requires
        !remote.contains('/'),
        !"/HEAD"@.is_suffix_of("refs/remotes/"@ + remote + seq!['/'] + name),
    ensures
        remote_short("refs/remotes/"@ + remote + seq!['/'] + name) == Some(name),
{
    let prefix = "refs/remotes/"@;
    let full = prefix + remote + seq!['/'] + name;
    let rest = remote + seq!['/'] + name;
    reveal_strlit("refs/remotes/");
    assert(prefix =~= full.take(prefix.len() as int));
    assert(full.skip(prefix.len() as int) =~= rest);
    assert(rest[remote.len() as int] == '/');
    assert(text::occurs_at(rest, seq!['/'], remote.len() as int)) by {
        assert(rest.subrange(remote.len() as int, remote.len() as int + 1) =~= seq!['/']);
    }
    assert forall|j: int| 0 <= j < remote.len() implies !text::occurs_at(rest, seq!['/'], j) by {
        if text::occurs_at(rest, seq!['/'], j) {
            assert(rest.subrange(j, j + 1)[0] == rest[j]);
            assert(remote[j] == '/');
        }
    }
    text::lemma_before_first(rest, seq!['/'], remote.len() as int);
    assert(rest.take(remote.len() as int).len() == remote.len());
    assert(rest.skip(remote.len() as int + 1) =~= name);
}

/// What is no remote branch, and the pointer to a default branch, has no such
/// name.
pub proof fn other_references_are_no_remote_branches(full: Seq<char>)
    ensures
        "/HEAD"@.is_suffix_of(full) ==> remote_short(full) is None,
        !"refs/remotes/"@.is_prefix_of(full) ==> remote_short(full) is None,
{
}

/// A local branch is called by what follows its namespace.
pub proof fn local_branches_lose_their_namespace(name: Seq<char>)
    ensures
        local_short("refs/heads/"@ + name) == name,
        !"refs/heads/"@.is_prefix_of(name) ==> local_short(name) == name,
{
    let full = "refs/heads/"@ + name;
    assert("refs/heads/"@ =~= full.take("refs/heads/"@.len() as int));
    assert(full.skip("refs/heads/"@.len() as int) =~= name);
}

/// The groups stand in this order, each under its name and label.
pub proof fn groups_are_ordered_by_urgency()
    ensures
        worst_first() == seq![
            BranchStatus::Abandoned,
            BranchStatus::Stale,
            BranchStatus::MergedStale,
            BranchStatus::MergedRecent,
            BranchStatus::Active,
            BranchStatus::Head,
        ],
        status_name(BranchStatus::Head) == "head"@,
        status_label(BranchStatus::Head) == "branches.group.head"@,
        status_name(BranchStatus::Active) == "active"@,
        status_label(BranchStatus::Active) == "branches.group.active"@,
        status_name(BranchStatus::Stale) == "stale"@,
        status_label(BranchStatus::Stale) == "branches.group.stale"@,
        status_name(BranchStatus::Abandoned) == "abandoned"@,
        status_label(BranchStatus::Abandoned) == "branches.group.abandoned"@,
        status_name(BranchStatus::MergedRecent) == "merged_recent"@,
        status_label(BranchStatus::MergedRecent) == "branches.group.merged_recent"@,
        status_name(BranchStatus::MergedStale) == "merged_stale"@,
        status_label(BranchStatus::MergedStale) == "branches.group.merged_stale"@,
{
}

/// One more status adds its group behind the others, if any branch has it.
pub proof fn groups_follow_each_other(s: Seq<BranchInfoModel>, n: int)
    requires
        0 <= n < 6,
    ensures
        ({
            let want = worst_first()[n];
            let some = exists|k: int| 0 <= k < s.len() && status(#[trigger] s[k]) == want;
            &&& some ==> branch_groups(s, n + 1).len() == branch_groups(s, n).len() + 1
                && branch_groups(s, n + 1).last().name == status_name(want) && branch_groups(
                s,
                n + 1,
            ).last().label == status_label(want)
            &&& !some ==> branch_groups(s, n + 1) == branch_groups(s, n)
        }),
{
    let want = worst_first()[n];
    let members = of_status(s, want);
    if members.len() > 0 {
        lemma_of_status(s, want, members[0]);
        assert(members.contains(members[0]));
    }
    if exists|k: int| 0 <= k < s.len() && status(#[trigger] s[k]) == want {
        let k = choose|k: int| 0 <= k < s.len() && status(#[trigger] s[k]) == want;
        lemma_of_status(s, want, s[k]);
        assert(members.contains(s[k]));
    }
}

} // verus!
