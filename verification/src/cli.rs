//! What the command line asks for.

use vstd::prelude::*;

use crate::calendar;
use crate::calendar::parse_date;
use crate::text;
use crate::types;
use crate::types::{Duration, OutputFormat, ReportKind, TimeRange};

verus! {

/// What the command line says.
#[derive(Debug)]
pub struct Cli {
    /// Path to the repository.
    pub path: String,
    pub format: OutputFormat,
    /// Names of the reports to make, separated by commas.
    pub only: Option<String>,
    /// How far back to look, such as `6m`.
    pub since: Option<String>,
    /// The first day, such as `2025-01-31`.
    pub from: Option<String>,
    /// The last day.
    pub to: Option<String>,
    /// The number of entries to show of each report.
    pub top: Option<usize>,
    /// The file to write to.
    pub output: Option<String>,
    pub quiet: bool,
    /// The number of threads; as many as suit the machine if it is zero.
    pub threads: usize,
    pub channel_capacity: usize,
    pub batch_size: usize,
    pub object_cache_mb: usize,
    pub unshallow: bool,
    pub quick_composition: bool,
}

/// What is wrong with a command line.
#[derive(Debug)]
pub enum CliError {
    EmptyDuration,
    InvalidNumber(String),
    NotPositive(i64),
    UnknownSuffix(String),
    /// Longer than a span of time can be.
    TooLong(i64),
    SinceWithDates,
    InvalidFrom(String),
    InvalidTo(String),
    Reversed,
    FromWithoutTo,
    ToWithoutFrom,
    UnknownReport(String),
    NoReport,
}

pub enum CliErrorModel {
    EmptyDuration,
    InvalidNumber(Seq<char>),
    NotPositive(int),
    UnknownSuffix(Seq<char>),
    TooLong(int),
    SinceWithDates,
    InvalidFrom(Seq<char>),
    InvalidTo(Seq<char>),
    Reversed,
    FromWithoutTo,
    ToWithoutFrom,
    UnknownReport(Seq<char>),
    NoReport,
}

impl View for CliError {
    type V = CliErrorModel;

    open spec fn view(&self) -> CliErrorModel {
        match self {
            CliError::EmptyDuration => CliErrorModel::EmptyDuration,
            CliError::InvalidNumber(s) => CliErrorModel::InvalidNumber(s@),
            CliError::NotPositive(n) => CliErrorModel::NotPositive(*n as int),
            CliError::UnknownSuffix(s) => CliErrorModel::UnknownSuffix(s@),
            CliError::TooLong(n) => CliErrorModel::TooLong(*n as int),
            CliError::SinceWithDates => CliErrorModel::SinceWithDates,
            CliError::InvalidFrom(s) => CliErrorModel::InvalidFrom(s@),
            CliError::InvalidTo(s) => CliErrorModel::InvalidTo(s@),
            CliError::Reversed => CliErrorModel::Reversed,
            CliError::FromWithoutTo => CliErrorModel::FromWithoutTo,
            CliError::ToWithoutFrom => CliErrorModel::ToWithoutFrom,
            CliError::UnknownReport(s) => CliErrorModel::UnknownReport(s@),
            CliError::NoReport => CliErrorModel::NoReport,
        }
    }
}

/// What an error says.
pub open spec fn error_text(e: CliErrorModel) -> Seq<char> {
    match e {
        CliErrorModel::EmptyDuration => "Empty duration string"@,
        CliErrorModel::InvalidNumber(s) => "Invalid duration number: '"@ + s + "'"@,
        CliErrorModel::NotPositive(n) => "Duration must be positive, got "@ + text::decimal_int(n),
        CliErrorModel::UnknownSuffix(s) => "Unknown duration suffix: '"@ + s
            + "'. Use d, w, m, or y."@,
        CliErrorModel::TooLong(n) => "Duration is too long: "@ + text::decimal_int(n),
        CliErrorModel::SinceWithDates => "Cannot combine --since with --from/--to"@,
        CliErrorModel::InvalidFrom(s) => "Invalid --from date: "@ + s,
        CliErrorModel::InvalidTo(s) => "Invalid --to date: "@ + s,
        CliErrorModel::Reversed => "--from date must be before --to date"@,
        CliErrorModel::FromWithoutTo => "--from requires --to"@,
        CliErrorModel::ToWithoutFrom => "--to requires --from"@,
        CliErrorModel::UnknownReport(s) => "Unknown report kind: '"@ + s + "'"@,
        CliErrorModel::NoReport => "--only requires at least one report kind"@,
    }
}

impl CliError {
    /// What the error says.
    pub fn message(&self) -> (r: String)
        ensures
            r@ == error_text(self@),
    {
        match self {
            CliError::EmptyDuration => text::copy_text("Empty duration string"),
            CliError::InvalidNumber(s) => text::cat3(
                "Invalid duration number: '",
                s.as_str(),
                "'",
            ),
            CliError::NotPositive(n) => {
                let d = text::decimal_signed(*n);
                text::cat("Duration must be positive, got ", d.as_str())
            },
            CliError::UnknownSuffix(s) => text::cat3(
                "Unknown duration suffix: '",
                s.as_str(),
                "'. Use d, w, m, or y.",
            ),
            CliError::TooLong(n) => {
                let d = text::decimal_signed(*n);
                text::cat("Duration is too long: ", d.as_str())
            },
            CliError::SinceWithDates => text::copy_text("Cannot combine --since with --from/--to"),
            CliError::InvalidFrom(s) => text::cat("Invalid --from date: ", s.as_str()),
            CliError::InvalidTo(s) => text::cat("Invalid --to date: ", s.as_str()),
            CliError::Reversed => text::copy_text("--from date must be before --to date"),
            CliError::FromWithoutTo => text::copy_text("--from requires --to"),
            CliError::ToWithoutFrom => text::copy_text("--to requires --from"),
            CliError::UnknownReport(s) => text::cat3("Unknown report kind: '", s.as_str(), "'"),
            CliError::NoReport => text::copy_text("--only requires at least one report kind"),
        }
    }
}

// ---------------------------------------------------------------------------
// Spans of time
// ---------------------------------------------------------------------------

/// The most days that a span of time can have, kept in milliseconds of 64 bits.
pub const MAX_DAYS: i64 = 106751991167;

/// The days that a suffix stands for; months have 30, years 365.
pub open spec fn unit_days(c: char) -> Option<int> {
    if c == 'd' {
        Some(1)
    } else if c == 'w' {
        Some(7)
    } else if c == 'm' {
        Some(30)
    } else if c == 'y' {
        Some(365)
    } else {
        None
    }
}

/// The days that a text such as `6m` stands for: a positive number and a
/// suffix.
pub open spec fn duration_read(s: Seq<char>) -> Result<int, CliErrorModel> {
    let t = text::trim(s);
    if t.len() == 0 {
        Err(CliErrorModel::EmptyDuration)
    } else {
        match text::number_read(t.drop_last()) {
            None => Err(CliErrorModel::InvalidNumber(t.drop_last())),
            Some(n) => if n <= 0 {
                Err(CliErrorModel::NotPositive(n))
            } else {
                match unit_days(t.last()) {
                    None => Err(CliErrorModel::UnknownSuffix(seq![t.last()])),
                    Some(u) => if n * u <= MAX_DAYS {
                        Ok(n * u)
                    } else {
                        Err(CliErrorModel::TooLong(n))
                    },
                }
            },
        }
    }
}

/// Reads a span of time such as `30d`, `2w`, `6m` or `1y`.
pub fn parse_duration(s: &str) -> (r: Result<Duration, CliError>)
    ensures
        match r {
            Ok(d) => duration_read(s@) == Ok::<int, CliErrorModel>(d.days as int),
            Err(e) => duration_read(s@) == Err::<int, CliErrorModel>(e@),
        },
{
    let trimmed = text::trimmed(s);
    let v = text::to_chars(trimmed.as_str());
    let n: usize = v.len();
    if n == 0 {
        return Err(CliError::EmptyDuration);
    }
    let head = vstd::slice::slice_subrange(v.as_slice(), 0, n - 1);
    let number = text::to_text(head);
    let c = v[n - 1];
    proof {
        assert(number@ =~= trimmed@.drop_last());
        assert(c == trimmed@.last());
    }
    let count = match text::parse_number(number.as_str()) {
        Some(k) => k,
        None => {
            return Err(CliError::InvalidNumber(number));
        },
    };
    if count <= 0 {
        return Err(CliError::NotPositive(count));
    }
    let unit: i128 = if c == 'd' {
        1
    } else if c == 'w' {
        7
    } else if c == 'm' {
        30
    } else if c == 'y' {
        365
    } else {
        let last = vstd::slice::slice_subrange(v.as_slice(), n - 1, n);
        proof {
            assert(last@ =~= seq![trimmed@.last()]);
        }
        return Err(CliError::UnknownSuffix(text::to_text(last)));
    };
    proof {
        assert(0 <= count as i128 * unit <= 0x7fff_ffff_ffff_ffff * 365) by (nonlinear_arith)
            requires
                0 < count <= 0x7fff_ffff_ffff_ffff,
                0 < unit <= 365,
        ;
    }
    let days: i128 = count as i128 * unit;
    if days <= MAX_DAYS as i128 {
        Ok(Duration { days: days as i64 })
    } else {
        Err(CliError::TooLong(count))
    }
}

/// A number with the suffix of a unit reads as so many of them.
pub proof fn durations_read_back(n: int, unit: char)
    requires
        0 < n <= i64::MAX,
        unit_days(unit) is Some,
    ensures
        duration_read(text::decimal(n as nat).push(unit)) == (if n * unit_days(unit)->0
            <= MAX_DAYS {
            Ok::<int, CliErrorModel>(n * unit_days(unit)->0)
        } else {
            Err::<int, CliErrorModel>(CliErrorModel::TooLong(n))
        }),
{
    let d = text::decimal(n as nat);
    let s = d.push(unit);
    text::number_reads_back(n);
    text::lemma_decimal_digits(n as nat);
    assert(text::is_digit_ascii(d[0]));
    assert(!text::is_white(s[0]));
    assert(!text::is_white(s.last()));
    assert(text::trim_start(s) == s);
    assert(text::trim(s) == s);
    assert(s.drop_last() =~= d);
    assert(text::number_read(s.drop_last()) == Some(n));
}

// ---------------------------------------------------------------------------
// The range of commits
// ---------------------------------------------------------------------------

/// The time range that a command line asks for.
pub open spec fn range_read(
    since: Option<Seq<char>>,
    from: Option<Seq<char>>,
    to: Option<Seq<char>>,
) -> Result<TimeRange, CliErrorModel> {
    match (since, from, to) {
        (Some(s), None, None) => match duration_read(s) {
            Ok(d) => Ok(TimeRange::Since(Duration { days: d as i64 })),
            Err(e) => Err(e),
        },
        (Some(_), _, _) => Err(CliErrorModel::SinceWithDates),
        (None, Some(f), Some(t)) => match calendar::day_read(f, "%Y-%m-%d"@) {
            Err(e) => Err(CliErrorModel::InvalidFrom(e)),
            Ok(a) => match calendar::day_read(t, "%Y-%m-%d"@) {
                Err(e) => Err(CliErrorModel::InvalidTo(e)),
                Ok(b) => if a > b {
                    Err(CliErrorModel::Reversed)
                } else {
                    Ok(
                        TimeRange::Between {
                            from: types::Date { days: a as i64 },
                            to: types::Date { days: b as i64 },
                        },
                    )
                },
            },
        },
        (None, Some(_), None) => Err(CliErrorModel::FromWithoutTo),
        (None, None, Some(_)) => Err(CliErrorModel::ToWithoutFrom),
        (None, None, None) => Ok(TimeRange::All),
    }
}

pub open spec fn opt_view(s: Option<String>) -> Option<Seq<char>> {
    match s {
        Some(t) => Some(t@),
        None => None,
    }
}

/// The time range between two days, in order.
pub fn range_between(from: types::Date, to: types::Date) -> (r: Result<TimeRange, CliError>)
    ensures
        match r {
            Ok(t) => from.days <= to.days && t == (TimeRange::Between { from, to }),
            Err(e) => from.days > to.days && e@ == CliErrorModel::Reversed,
        },
{
    if from.days > to.days {
        Err(CliError::Reversed)
    } else {
        Ok(TimeRange::Between { from, to })
    }
}

// ---------------------------------------------------------------------------
// The reports
// ---------------------------------------------------------------------------

/// The reports that the parts name, without empty parts; the first part that
/// names none is an error.
pub open spec fn kinds_read(parts: Seq<Seq<char>>) -> Result<Seq<ReportKind>, CliErrorModel>
    decreases parts.len(),
{
    if parts.len() == 0 {
        Ok(Seq::empty())
    } else {
        match kinds_read(parts.drop_last()) {
            Err(e) => Err(e),
            Ok(before) => {
                let name = text::trim(parts.last());
                if name.len() == 0 {
                    Ok(before)
                } else {
                    match types::kind_named(name) {
                        Some(k) => Ok(before.push(k)),
                        None => Err(CliErrorModel::UnknownReport(name)),
                    }
                }
            },
        }
    }
}

/// The reports that a command line asks for.
pub open spec fn reports_read(only: Option<Seq<char>>) -> Result<Seq<ReportKind>, CliErrorModel> {
    match only {
        None => Ok(types::default_kinds()),
        Some(s) => match kinds_read(text::split_on(s, ',')) {
            Ok(kinds) => if kinds.len() == 0 {
                Err(CliErrorModel::NoReport)
            } else {
                Ok(kinds)
            },
            Err(e) => Err(e),
        },
    }
}

proof fn lemma_error_stays(parts: Seq<Seq<char>>, i: int)
    requires
        0 <= i <= parts.len(),
        kinds_read(parts.take(i)) is Err,
    ensures
        kinds_read(parts) == kinds_read(parts.take(i)),
    decreases parts.len() - i,
{
    if i < parts.len() {
        assert(parts.take(i + 1).drop_last() =~= parts.take(i));
        lemma_error_stays(parts, i + 1);
    } else {
        assert(parts.take(i) =~= parts);
    }
}

/// What to do about a clone whose history is cut off.
#[derive(Debug, Clone, Copy, PartialEq, Eq, Structural)]
pub enum ShallowStep {
    /// Fetch the rest.
    Fetch,
    /// Ask whether to fetch the rest.
    Ask,
    /// Give up.
    Abort,
}

/// What the work needs besides the time range and the reports.
#[derive(Debug, Clone, Copy)]
pub struct Tuning {
    /// The number of threads, or what suits the machine.
    pub threads: Option<usize>,
    pub channel_capacity: usize,
    pub batch_size: usize,
    pub object_cache_mb: usize,
}

pub open spec fn at_least_one(n: usize) -> usize {
    if n == 0 {
        1
    } else {
        n
    }
}

fn one_at_least(n: usize) -> (r: usize)
    ensures
        r == at_least_one(n),
{
    if n == 0 {
        1
    } else {
        n
    }
}

impl Cli {
    /// The time range that is asked for.
    pub fn parse_time_range(&self) -> (r: Result<TimeRange, CliError>)
        ensures
            match r {
                Ok(t) => range_read(opt_view(self.since), opt_view(self.from), opt_view(self.to))
                    == Ok::<TimeRange, CliErrorModel>(t),
                Err(e) => range_read(opt_view(self.since), opt_view(self.from), opt_view(self.to))
                    == Err::<TimeRange, CliErrorModel>(e@),
            },
    {
        match (&self.since, &self.from, &self.to) {
            (Some(s), None, None) => match parse_duration(s.as_str()) {
                Ok(d) => Ok(TimeRange::Since(d)),
                Err(e) => Err(e),
            },
            (Some(_), _, _) => Err(CliError::SinceWithDates),
            (None, Some(f), Some(t)) => {
                let from = match parse_date(f.as_str()) {
                    Ok(d) => d,
                    Err(e) => {
                        return Err(CliError::InvalidFrom(e));
                    },
                };
                let to = match parse_date(t.as_str()) {
                    Ok(d) => d,
                    Err(e) => {
                        return Err(CliError::InvalidTo(e));
                    },
                };
                range_between(from, to)
            },
            (None, Some(_), None) => Err(CliError::FromWithoutTo),
            (None, None, Some(_)) => Err(CliError::ToWithoutFrom),
            (None, None, None) => Ok(TimeRange::All),
        }
    }

    /// The reports that are asked for; all but the costly one if none is.
    pub fn parse_report_kinds(&self) -> (r: Result<Vec<ReportKind>, CliError>)
        ensures
            match r {
                Ok(kinds) => reports_read(opt_view(self.only)) == Ok::<
                    Seq<ReportKind>,
                    CliErrorModel,
                >(kinds@),
                Err(e) => reports_read(opt_view(self.only)) == Err::<
                    Seq<ReportKind>,
                    CliErrorModel,
                >(e@),
            },
    {
        let only = match &self.only {
            None => {
                return Ok(ReportKind::default_set());
            },
            Some(s) => s,
        };
        let parts = text::split(only.as_str(), ',');
        let ghost all = text::views(parts@);
        let mut kinds: Vec<ReportKind> = Vec::new();
        let n: usize = parts.len();
        let mut i: usize = 0;
        proof {
            assert(all.take(0).len() == 0);
            assert(kinds@ =~= Seq::empty());
        }
        while i < n
            invariant
                n == parts@.len(),
                all == text::views(parts@),
                all == text::split_on(only@, ','),
                self.only == Some(*only),
                i <= n,
                kinds_read(all.take(i as int)) == Ok::<Seq<ReportKind>, CliErrorModel>(kinds@),
            decreases n - i,
        {
            proof {
                assert(all.take(i + 1).drop_last() =~= all.take(i as int));
                assert(all.take(i + 1).last() == parts@[i as int]@);
            }
            let name = text::trimmed(parts[i].as_str());
            if text::to_chars(name.as_str()).len() > 0 {
                match ReportKind::parse(name.as_str()) {
                    Some(k) => {
                        kinds.push(k);
                    },
                    None => {
                        proof {
                            lemma_error_stays(all, i + 1);
                        }
                        return Err(CliError::UnknownReport(name));
                    },
                }
            }
            i += 1;
        }
        proof {
            assert(all.take(n as int) =~= all);
        }
        if kinds.len() == 0 {
            Err(CliError::NoReport)
        } else {
            Ok(kinds)
        }
    }

    /// What to do about a clone whose history is cut off: fetch the rest where
    /// that was asked for, and otherwise ask, unless nothing may be said.
    pub fn on_shallow(&self) -> (r: ShallowStep)
        ensures
            r == (if self.unshallow {
                ShallowStep::Fetch
            } else if self.quiet {
                ShallowStep::Abort
            } else {
                ShallowStep::Ask
            }),
    {
        if self.unshallow {
            ShallowStep::Fetch
        } else if self.quiet {
            ShallowStep::Abort
        } else {
            ShallowStep::Ask
        }
    }

    /// How the work is spread: at least one of everything, and as many threads
    /// as suit the machine where none are asked for.
    pub fn tuning(&self) -> (r: Tuning)
        ensures
            r.threads == (if self.threads == 0 {
                None::<usize>
            } else {
                Some(self.threads)
            }),
            r.channel_capacity == at_least_one(self.channel_capacity),
            r.batch_size == at_least_one(self.batch_size),
            r.object_cache_mb == at_least_one(self.object_cache_mb),
    {
        Tuning {
            threads: if self.threads == 0 {
                None
            } else {
                Some(self.threads)
            },
            channel_capacity: one_at_least(self.channel_capacity),
            batch_size: one_at_least(self.batch_size),
            object_cache_mb: one_at_least(self.object_cache_mb),
        }
    }
}

/// A day, a week, a month of thirty days and a year of three hundred and
/// sixty-five are the units.
pub proof fn units_are_these(c: char)
    ensures
        unit_days('d') == Some(1int),
        unit_days('w') == Some(7int),
        unit_days('m') == Some(30int),
        unit_days('y') == Some(365int),
        c != 'd' && c != 'w' && c != 'm' && c != 'y' ==> unit_days(c) is None,
{
}

/// A duration is a positive number and a unit; what is missing or wrong is told.
pub proof fn durations_are_told_from_errors(s: Seq<char>)
    ensures
        ({
            let t = text::trim(s);
            let number = text::number_read(t.drop_last());
            let r = duration_read(s);
            &&& t.len() == 0 <==> r == Err::<int, CliErrorModel>(CliErrorModel::EmptyDuration)
            &&& t.len() > 0 && number is None ==> r == Err::<int, CliErrorModel>(
                CliErrorModel::InvalidNumber(t.drop_last()),
            )
            &&& t.len() > 0 && number is Some && number->0 <= 0 ==> r == Err::<int, CliErrorModel>(
                CliErrorModel::NotPositive(number->0),
            )
            &&& t.len() > 0 && number is Some && number->0 > 0 && unit_days(t.last()) is None ==> r
                == Err::<int, CliErrorModel>(CliErrorModel::UnknownSuffix(seq![t.last()]))
            &&& r is Ok ==> 0 < r->Ok_0 <= 106_751_991_167 && r->Ok_0 == number->0 * unit_days(
                t.last(),
            )->0
            &&& t.len() > 0 && number is Some && number->0 > 0 && unit_days(t.last()) is Some
                && number->0 * unit_days(t.last())->0 <= 106_751_991_167 ==> r is Ok
            &&& t.len() > 0 && number is Some && number->0 > 0 && unit_days(t.last()) is Some
                && number->0 * unit_days(t.last())->0 > 106_751_991_167 ==> r == Err::<
                int,
                CliErrorModel,
            >(CliErrorModel::TooLong(number->0))
        }),
{
    let t = text::trim(s);
    let number = text::number_read(t.drop_last());
    if t.len() > 0 && number is Some && number->0 > 0 && unit_days(t.last()) is Some {
        let n = number->0;
        let u = unit_days(t.last())->0;
        assert(n * u > 0) by (nonlinear_arith)
            requires
                n > 0,
                u > 0,
        ;
    }
}

/// A range is a span up to now, or two days in their order, or all time; anything
/// else is told to be wrong.
pub proof fn ranges_are_told_from_errors(
    since: Seq<char>,
    from: Seq<char>,
    to: Seq<char>,
    other: Option<Seq<char>>,
)
    ensures
        range_read(None, None, None) == Ok::<TimeRange, CliErrorModel>(TimeRange::All),
        duration_read(since) matches Ok(d) ==> range_read(Some(since), None, None) == Ok::<
            TimeRange,
            CliErrorModel,
        >(TimeRange::Since(Duration { days: d as i64 })),
        duration_read(since) matches Err(e) ==> range_read(Some(since), None, None) == Err::<
            TimeRange,
            CliErrorModel,
        >(e),
        range_read(Some(since), Some(from), other) == Err::<TimeRange, CliErrorModel>(
            CliErrorModel::SinceWithDates,
        ),
        range_read(Some(since), other, Some(to)) == Err::<TimeRange, CliErrorModel>(
            CliErrorModel::SinceWithDates,
        ),
        range_read(None, Some(from), None) == Err::<TimeRange, CliErrorModel>(
            CliErrorModel::FromWithoutTo,
        ),
        range_read(None, None, Some(to)) == Err::<TimeRange, CliErrorModel>(
            CliErrorModel::ToWithoutFrom,
        ),
        ({
            let a = calendar::day_read(from, "%Y-%m-%d"@);
            let b = calendar::day_read(to, "%Y-%m-%d"@);
            let r = range_read(None, Some(from), Some(to));
            &&& a matches Err(e) ==> r == Err::<TimeRange, CliErrorModel>(
                CliErrorModel::InvalidFrom(e),
            )
            &&& a is Ok && b is Err ==> r == Err::<TimeRange, CliErrorModel>(
                CliErrorModel::InvalidTo(b->Err_0),
            )
            &&& a is Ok && b is Ok && a->Ok_0 > b->Ok_0 ==> r == Err::<TimeRange, CliErrorModel>(
                CliErrorModel::Reversed,
            )
            &&& a is Ok && b is Ok && a->Ok_0 <= b->Ok_0 ==> r == Ok::<TimeRange, CliErrorModel>(
                TimeRange::Between {
                    from: types::Date { days: a->Ok_0 as i64 },
                    to: types::Date { days: b->Ok_0 as i64 },
                },
            )
        }),
{
}

/// One more part adds the report that it names; an empty one adds nothing, and
/// one that names none is an error, unless there was one before.
pub proof fn parts_name_reports(parts: Seq<Seq<char>>, part: Seq<char>)
    ensures
        ({
            let was = kinds_read(parts);
            let is = kinds_read(parts.push(part));
            let name = text::trim(part);
            &&& was is Err ==> is == was
            &&& was is Ok && name.len() == 0 ==> is == was
            &&& was is Ok && name.len() > 0 && types::kind_named(name) is None ==> is == Err::<
                Seq<ReportKind>,
                CliErrorModel,
            >(CliErrorModel::UnknownReport(name))
            &&& was is Ok && name.len() > 0 && types::kind_named(name) is Some ==> is == Ok::<
                Seq<ReportKind>,
                CliErrorModel,
            >(was->Ok_0.push(types::kind_named(name)->0))
        }),
        kinds_read(Seq::empty()) == Ok::<Seq<ReportKind>, CliErrorModel>(Seq::empty()),
{
    assert(parts.push(part).drop_last() =~= parts);
}

/// Without a choice the default reports are made; a choice of nothing is an
/// error.
pub proof fn a_choice_is_not_empty(only: Seq<char>)
    ensures
        reports_read(None) == Ok::<Seq<ReportKind>, CliErrorModel>(types::default_kinds()),
        reports_read(Some(only)) matches Ok(kinds) ==> kinds.len() > 0 && kinds_read(
            text::split_on(only, ','),
        ) == Ok::<Seq<ReportKind>, CliErrorModel>(kinds),
        kinds_read(text::split_on(only, ',')) matches Ok(kinds) ==> (kinds.len() == 0
            ==> reports_read(Some(only)) == Err::<Seq<ReportKind>, CliErrorModel>(
            CliErrorModel::NoReport,
        )) && (kinds.len() > 0 ==> reports_read(Some(only)) == Ok::<Seq<ReportKind>, CliErrorModel>(
            kinds,
        )),
        kinds_read(text::split_on(only, ',')) matches Err(e) ==> reports_read(Some(only)) == Err::<
            Seq<ReportKind>,
            CliErrorModel,
        >(e),
        at_least_one(0) == 1,
{
}

/// The limits that hold here.
pub proof fn the_limits_are_these()
    ensures
        MAX_DAYS == 106751991167,
{
}

/// Each error says what is wrong.
pub proof fn errors_say_what_is_wrong(s: Seq<char>, n: int)
    ensures
        error_text(CliErrorModel::EmptyDuration) == "Empty duration string"@,
        error_text(CliErrorModel::InvalidNumber(s)) == "Invalid duration number: '"@ + s + "'"@,
        error_text(CliErrorModel::NotPositive(n)) == "Duration must be positive, got "@ + text::decimal_int(n),
        error_text(CliErrorModel::UnknownSuffix(s)) == "Unknown duration suffix: '"@ + s + "'. Use d, w, m, or y."@,
        error_text(CliErrorModel::TooLong(n)) == "Duration is too long: "@ + text::decimal_int(n),
        error_text(CliErrorModel::SinceWithDates) == "Cannot combine --since with --from/--to"@,
        error_text(CliErrorModel::InvalidFrom(s)) == "Invalid --from date: "@ + s,
        error_text(CliErrorModel::InvalidTo(s)) == "Invalid --to date: "@ + s,
        error_text(CliErrorModel::Reversed) == "--from date must be before --to date"@,
        error_text(CliErrorModel::FromWithoutTo) == "--from requires --to"@,
        error_text(CliErrorModel::ToWithoutFrom) == "--to requires --from"@,
        error_text(CliErrorModel::UnknownReport(s)) == "Unknown report kind: '"@ + s + "'"@,
        error_text(CliErrorModel::NoReport) == "--only requires at least one report kind"@,
{
}

} // verus!
