//! Calendar days as text.

use vstd::prelude::*;

use crate::types::Date;

verus! {

/// What `NaiveDate::parse_from_str` reads from a text in a format: the day,
/// counted from 1970-01-01, or what it says is wrong.
pub uninterp spec fn day_read(s: Seq<char>, format: Seq<char>) -> Result<int, Seq<char>>;

pub open spec fn read_model(r: Result<i32, String>) -> Result<int, Seq<char>> {
    match r {
        Ok(d) => Ok(d as int),
        Err(e) => Err(e@),
    }
}

/// `NaiveDate::parse_from_str`: what it reads, or the text of its error, depends
/// on the text and the format alone.
#[verifier::external_body]
fn parse_day(s: &str, format: &str) -> (r: Result<i32, String>)
    ensures
        read_model(r) == day_read(s@, format@),
{
    match chrono::NaiveDate::parse_from_str(s, format) {
        Ok(d) => Ok(d.to_epoch_days()),
        Err(e) => Err(e.to_string()),
    }
}

/// The day that a text such as `2025-01-31` names, or what is wrong with it.
pub fn parse_date(s: &str) -> (r: Result<Date, String>)
    ensures
        match r {
            Ok(d) => day_read(s@, "%Y-%m-%d"@) == Ok::<int, Seq<char>>(d.days as int),
            Err(e) => day_read(s@, "%Y-%m-%d"@) == Err::<int, Seq<char>>(e@),
        },
{
    match parse_day(s, "%Y-%m-%d") {
        Ok(d) => Ok(Date { days: d as i64 }),
        Err(e) => Err(e),
    }
}

/// The text that `NaiveDate` shows for a day counted from 1970-01-01; none for
/// one off its calendar.
pub uninterp spec fn day_shown(days: int) -> Option<Seq<char>>;

/// `NaiveDate::from_epoch_days` and its text: both depend on the number alone.
#[verifier::external_body]
fn show_day(days: i32) -> (r: Option<String>)
    ensures
        match r {
            Some(s) => day_shown(days as int) == Some(s@),
            None => day_shown(days as int) is None,
        },
{
    chrono::NaiveDate::from_epoch_days(days).map(|d| d.to_string())
}

/// The text of a day; nothing for one off the calendar.
pub open spec fn date_shown(d: int) -> Seq<char> {
    if i32::MIN <= d <= i32::MAX {
        match day_shown(d) {
            Some(s) => s,
            None => Seq::empty(),
        }
    } else {
        Seq::empty()
    }
}

pub fn date_text(d: Date) -> (r: String)
    ensures
        r@ == date_shown(d.days as int),
{
    if i32::MIN as i64 <= d.days && d.days <= i32::MAX as i64 {
        if let Some(s) = show_day(d.days as i32) {
            return s;
        }
    }
    String::new()
}

/// A day on the calendar shows as the text of its date, any other as nothing.
pub proof fn days_show_as_dates(d: int)
    requires
        -0x8000_0000 <= d <= 0x7fff_ffff,
    ensures
        day_shown(d) matches Some(s) ==> date_shown(d) == s,
        day_shown(d) is None ==> date_shown(d).len() == 0,
{
}

} // verus!
