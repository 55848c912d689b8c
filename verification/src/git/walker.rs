//! Which commits a walk through the history takes.
//!
//! Commits come newest first by the time of the committer. A walk stops at the
//! first that was committed before the range, and takes those whose author's
//! time lies in the range.

use vstd::prelude::*;

use crate::types::{Duration, TimeRange, FIRST_SECOND, LAST_SECOND};

verus! {

/// The times of a commit, in seconds since 1970, and how far the author's clock
/// was ahead of UTC.
#[derive(Debug, Clone, Copy)]
pub struct CommitTimes {
    pub committer: i64,
    pub author: i64,
    pub offset: i32,
}

/// What a walk does at a commit.
#[derive(Debug, Clone, Copy, PartialEq, Eq, Structural)]
pub enum Step {
    /// It ends.
    Stop,
    /// It goes on.
    Skip,
    /// It takes the commit and goes on.
    Take,
}

/// A timestamp on the calendar; the start of 1970 for one that is off it.
pub open spec fn instant(secs: int) -> int {
    if FIRST_SECOND <= secs <= LAST_SECOND {
        secs
    } else {
        0
    }
}

/// An offset of less than a day; none for one that is not.
pub open spec fn clock_offset(offset: int) -> int {
    if -86400 < offset < 86400 {
        offset
    } else {
        0
    }
}

/// The day on which a timestamp falls, by a clock ahead of UTC.
pub open spec fn local_day(secs: int, offset: int) -> int {
    (instant(secs) + clock_offset(offset)) / 86400
}

/// The nanoseconds since 1970 from which on a span up to `now` counts.
pub open spec fn cutoff(d: Duration, now: int) -> int {
    now - d.days * 86_400_000_000_000
}

/// Whether a time lies in the range, as seen at `now`.
pub open spec fn in_range(range: TimeRange, now: int, secs: int, offset: int) -> bool {
    match range {
        TimeRange::All => true,
        TimeRange::Since(d) => instant(secs) * 1_000_000_000 >= cutoff(d, now),
        TimeRange::Between { from, to } => from.days <= local_day(secs, offset) <= to.days,
    }
}

/// Whether a time, by UTC, lies before the range, as seen at `now`.
pub open spec fn before_range(range: TimeRange, now: int, secs: int) -> bool {
    match range {
        TimeRange::All => false,
        TimeRange::Since(d) => instant(secs) * 1_000_000_000 < cutoff(d, now),
        TimeRange::Between { from, to } => local_day(secs, 0) < from.days,
    }
}

/// What a walk does at a commit.
pub open spec fn step(range: TimeRange, now: int, c: CommitTimes) -> Step {
    if before_range(range, now, c.committer as int) {
        Step::Stop
    } else if in_range(range, now, c.author as int, c.offset as int) {
        Step::Take
    } else {
        Step::Skip
    }
}

/// The commits that a walk takes.
pub open spec fn walked(range: TimeRange, now: int, s: Seq<CommitTimes>) -> Seq<CommitTimes>
    decreases s.len(),
{
    if s.len() == 0 {
        Seq::empty()
    } else {
        match step(range, now, s[0]) {
            Step::Stop => Seq::empty(),
            Step::Skip => walked(range, now, s.skip(1)),
            Step::Take => seq![s[0]] + walked(range, now, s.skip(1)),
        }
    }
}

/// The commits whose author's time lies in the range.
pub open spec fn authored_in(range: TimeRange, now: int, s: Seq<CommitTimes>) -> Seq<CommitTimes>
    decreases s.len(),
{
    if s.len() == 0 {
        Seq::empty()
    } else if in_range(range, now, s[0].author as int, s[0].offset as int) {
        seq![s[0]] + authored_in(range, now, s.skip(1))
    } else {
        authored_in(range, now, s.skip(1))
    }
}

/// Commits as a walk meets them: newest first by the committer's time.
pub open spec fn newest_first(s: Seq<CommitTimes>) -> bool {
    forall|i: int, j: int|
        0 <= i <= j < s.len() ==> instant((#[trigger] s[j]).committer as int) <= instant(
            (#[trigger] s[i]).committer as int,
        )
}

/// A commit was not written after it was committed, by what a range looks at:
/// the moment for a span up to now, and otherwise the author's day as against
/// the committer's by UTC.
pub open spec fn written_before(range: TimeRange, c: CommitTimes) -> bool {
    match range {
        TimeRange::All => true,
        TimeRange::Since(_) => instant(c.author as int) <= instant(c.committer as int),
        TimeRange::Between { .. } => local_day(c.author as int, c.offset as int) <= local_day(
            c.committer as int,
            0,
        ),
    }
}

/// No commit was written after it was committed.
pub open spec fn all_written_before(range: TimeRange, s: Seq<CommitTimes>) -> bool {
    forall|i: int| 0 <= i < s.len() ==> written_before(range, #[trigger] s[i])
}

proof fn lemma_none_after(range: TimeRange, now: int, s: Seq<CommitTimes>, limit: int)
    requires
        newest_first(s),
        all_written_before(range, s),
        before_range(range, now, limit),
        forall|i: int|
            0 <= i < s.len() ==> instant((#[trigger] s[i]).committer as int) <= instant(limit),
    ensures
        authored_in(range, now, s).len() == 0,
    decreases s.len(),
{
    if s.len() > 0 {
        let c = s[0];
        assert(written_before(range, c));
        assert(instant(c.committer as int) <= instant(limit));
        lemma_tail(range, s);
        let rest = s.skip(1);
        assert forall|i: int| 0 <= i < rest.len() implies instant(
            (#[trigger] rest[i]).committer as int,
        ) <= instant(limit) by {
            assert(rest[i] == s[i + 1]);
        }
        lemma_none_after(range, now, rest, limit);
    }
}

proof fn lemma_tail(range: TimeRange, s: Seq<CommitTimes>)
    requires
        newest_first(s),
        all_written_before(range, s),
        s.len() > 0,
    ensures
        newest_first(s.skip(1)),
        all_written_before(range, s.skip(1)),
{
    let rest = s.skip(1);
    assert forall|i: int, j: int| 0 <= i <= j < rest.len() implies instant(
        (#[trigger] rest[j]).committer as int,
    ) <= instant((#[trigger] rest[i]).committer as int) by {
        assert(rest[i] == s[i + 1]);
        assert(rest[j] == s[j + 1]);
    }
    assert forall|i: int| 0 <= i < rest.len() implies written_before(range, #[trigger] rest[i]) by {
        assert(rest[i] == s[i + 1]);
    }
}

/// A walk that stops early takes every commit of the range all the same, where
/// no commit was written after it was committed.
pub proof fn stopping_loses_nothing(range: TimeRange, now: int, s: Seq<CommitTimes>)
    requires
        newest_first(s),
        all_written_before(range, s),
    ensures
        walked(range, now, s) == authored_in(range, now, s),
    decreases s.len(),
{
    if s.len() > 0 {
        if before_range(range, now, s[0].committer as int) {
            lemma_none_after(range, now, s, s[0].committer as int);
            assert(authored_in(range, now, s) =~= Seq::empty());
        } else {
            lemma_tail(range, s);
            stopping_loses_nothing(range, now, s.skip(1));
        }
    }
}

/// A commit that is written where and when it is committed.
pub open spec fn at_once(committer: i64) -> CommitTimes {
    CommitTimes { committer, author: committer, offset: 0 }
}

/// How many commits a walk would take if each was written when it was
/// committed.
pub open spec fn counted(range: TimeRange, now: int, s: Seq<i64>) -> nat
    decreases s.len(),
{
    if s.len() == 0 {
        0
    } else {
        match step(range, now, at_once(s[0])) {
            Step::Stop => 0,
            Step::Skip => counted(range, now, s.skip(1)),
            Step::Take => 1 + counted(range, now, s.skip(1)),
        }
    }
}

/// Counting and walking agree on commits that were written when they were
/// committed.
pub proof fn counting_is_walking(range: TimeRange, now: int, s: Seq<i64>)
    ensures
        counted(range, now, s) == walked(range, now, s.map_values(|t: i64| at_once(t))).len(),
    decreases s.len(),
{
    let all = s.map_values(|t: i64| at_once(t));
    if s.len() > 0 {
        counting_is_walking(range, now, s.skip(1));
        assert(all.skip(1) =~= s.skip(1).map_values(|t: i64| at_once(t)));
    }
}

proof fn lemma_counted_bound(range: TimeRange, now: int, s: Seq<i64>)
    ensures
        counted(range, now, s) <= s.len(),
    decreases s.len(),
{
    if s.len() > 0 {
        lemma_counted_bound(range, now, s.skip(1));
    }
}

fn to_instant(secs: i64) -> (r: i64)
    ensures
        r == instant(secs as int),
{
    if FIRST_SECOND <= secs && secs <= LAST_SECOND {
        secs
    } else {
        0
    }
}

fn day_at(secs: i64, offset: i32) -> (r: i64)
    ensures
        r == local_day(secs as int, offset as int),
{
    let ahead: i64 = if -86400 < offset && offset < 86400 {
        offset as i64
    } else {
        0
    };
    let t: i64 = to_instant(secs) + ahead;
    let q: i64 = t / 86400;
    if t < 0 && t % 86400 != 0 {
        q - 1
    } else {
        q
    }
}

fn reaches(secs: i64, d: Duration, now: i64, nanos: u32) -> (r: bool)
    requires
        nanos < 1_000_000_000,
    ensures
        r == (instant(secs as int) * 1_000_000_000 >= cutoff(d, now * 1_000_000_000 + nanos)),
{
    let t: i128 = to_instant(secs) as i128 * 1_000_000_000;
    let at: i128 = now as i128 * 1_000_000_000 + nanos as i128;
    let span: i128 = d.days as i128 * 86_400_000_000_000;
    t >= at - span
}

/// A walk through the history.
#[derive(Debug)]
pub struct GitWalker {
    pub time_range: TimeRange,
    /// The number of commits taken.
    pub taken: u64,
    pub stopped: bool,
}

impl GitWalker {
    /// A walk that has not begun.
    pub fn new(time_range: TimeRange) -> (r: Self)
        ensures
            r.time_range == time_range,
            r.taken == 0,
            !r.stopped,
    {
        GitWalker { time_range, taken: 0, stopped: false }
    }

    /// Whether a time lies in the range. The moment of asking is given in
    /// seconds since 1970 and nanoseconds.
    pub fn in_time_range(&self, secs: i64, offset: i32, now: i64, nanos: u32) -> (r: bool)
        requires
            nanos < 1_000_000_000,
        ensures
            r == in_range(
                self.time_range,
                now * 1_000_000_000 + nanos,
                secs as int,
                offset as int,
            ),
    {
        match self.time_range {
            TimeRange::All => true,
            TimeRange::Since(d) => reaches(secs, d, now, nanos),
            TimeRange::Between { from, to } => {
                let day = day_at(secs, offset);
                from.days <= day && day <= to.days
            },
        }
    }

    /// Whether a time lies before the range.
    pub fn before_time_range(&self, secs: i64, now: i64, nanos: u32) -> (r: bool)
        requires
            nanos < 1_000_000_000,
        ensures
            r == before_range(self.time_range, now * 1_000_000_000 + nanos, secs as int),
    {
        match self.time_range {
            TimeRange::All => false,
            TimeRange::Since(d) => !reaches(secs, d, now, nanos),
            TimeRange::Between { from, to } => day_at(secs, 0) < from.days,
        }
    }

    /// How many commits are in the range by the committer's time alone, given
    /// these times, newest first.
    pub fn count(&self, committed: &[i64], now: i64, nanos: u32) -> (r: u64)
        requires
            nanos < 1_000_000_000,
        ensures
            r == counted(self.time_range, now * 1_000_000_000 + nanos, committed@),
    {
        let ghost range = self.time_range;
        let ghost at = now * 1_000_000_000 + nanos;
        let ghost s = committed@;
        let n: usize = committed.len();
        let mut found: u64 = 0;
        let mut i: usize = 0;
        proof {
            assert(s.skip(0) =~= s);
            lemma_counted_bound(range, at, s);
        }
        while i < n
            invariant
                n == s.len(),
                s == committed@,
                i <= n,
                nanos < 1_000_000_000,
                range == self.time_range,
                at == now * 1_000_000_000 + nanos,
                found <= i,
                counted(range, at, s) == found + counted(range, at, s.skip(i as int)),
            decreases n - i,
        {
            proof {
                assert(s.skip(i as int).skip(1) =~= s.skip(i + 1));
                assert(s.skip(i as int)[0] == s[i as int]);
            }
            if self.before_time_range(committed[i], now, nanos) {
                return found;
            }
            if self.in_time_range(committed[i], 0, now, nanos) {
                found += 1;
            }
            i += 1;
        }
        proof {
            assert(s.skip(n as int).len() == 0);
        }
        found
    }

    /// What to do at the next commit. Once the walk has stopped, it stays so.
    pub fn step(&mut self, commit: CommitTimes, now: i64, nanos: u32) -> (r: Step)
        requires
            nanos < 1_000_000_000,
            old(self).taken < u64::MAX,
        ensures
            r == (if old(self).stopped {
                Step::Stop
            } else {
                step(old(self).time_range, now * 1_000_000_000 + nanos, commit)
            }),
            final(self).time_range == old(self).time_range,
            final(self).stopped == (r == Step::Stop),
            final(self).taken == old(self).taken + if r == Step::Take {
                1int
            } else {
                0
            },
    {
        if self.stopped || self.before_time_range(commit.committer, now, nanos) {
            self.stopped = true;
            return Step::Stop;
        }
        if self.in_time_range(commit.author, commit.offset, now, nanos) {
            self.taken += 1;
            Step::Take
        } else {
            Step::Skip
        }
    }
}

/// A span reaches back as many days as it says, to the nanosecond.
pub proof fn spans_reach_back(d: Duration, now: int, secs: int, offset: int)
    requires
        -8334601315200 <= secs <= 8210266876799,
    ensures
        in_range(TimeRange::Since(d), now, secs, offset) <==> now - secs * 1_000_000_000 <= d.days
            * 24 * 60 * 60 * 1_000_000_000,
        before_range(TimeRange::Since(d), now, secs) <==> now - secs * 1_000_000_000 > d.days * 24
            * 60 * 60 * 1_000_000_000,
        in_range(TimeRange::All, now, secs, offset),
        !before_range(TimeRange::All, now, secs),
{
}

/// A range of days holds both its first and its last day, by the author's clock;
/// a walk stops before the first, by UTC.
pub proof fn ranges_hold_both_ends(range: TimeRange, now: int, secs: int, offset: int)
    requires
        range is Between,
        -8334601315200 <= secs <= 8210266876799,
        -86400 < offset < 86400,
    ensures
        in_range(range, now, secs, offset) <==> range->from.days * 86400 <= secs + offset < (
        range->to.days + 1) * 86400,
        before_range(range, now, secs) <==> secs < range->from.days * 86400,
{
}

/// A time off the calendar counts as the start of 1970, and an offset of a day or
/// more as none.
pub proof fn odd_times_count_as_none(secs: int, offset: int)
    ensures
        secs < -8334601315200 || secs > 8210266876799 ==> instant(secs) == 0,
        -8334601315200 <= secs <= 8210266876799 ==> instant(secs) == secs,
        offset <= -86400 || offset >= 86400 ==> clock_offset(offset) == 0,
        -86400 < offset < 86400 ==> clock_offset(offset) == offset,
{
}

/// A walk stops at a commit that was made before the range, takes one that was
/// written in it and passes over the others.
pub proof fn a_walk_stops_takes_or_skips(range: TimeRange, now: int, c: CommitTimes)
    ensures
        before_range(range, now, c.committer as int) ==> step(range, now, c) == Step::Stop,
        !before_range(range, now, c.committer as int) && in_range(
            range,
            now,
            c.author as int,
            c.offset as int,
        ) ==> step(range, now, c) == Step::Take,
        !before_range(range, now, c.committer as int) && !in_range(
            range,
            now,
            c.author as int,
            c.offset as int,
        ) ==> step(range, now, c) == Step::Skip,
        step(TimeRange::All, now, c) == Step::Take,
{
}

/// With no range every commit is taken, in its order.
pub proof fn without_a_range_all_are_taken(now: int, s: Seq<CommitTimes>)
    ensures
        walked(TimeRange::All, now, s) == s,
    decreases s.len(),
{
    if s.len() > 0 {
        without_a_range_all_are_taken(now, s.skip(1));
        assert(seq![s[0]] + s.skip(1) =~= s);
    }
}

} // verus!
