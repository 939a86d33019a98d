//! Calendar dates, held as a day count so that differences are plain
//! arithmetic. The calendar itself comes from `chrono`.

use vstd::prelude::*;

verus! {

/// Day number of the first date that `chrono::NaiveDate` can hold,
/// 1 January of year -262143.
pub const MIN_DAYS: i32 = -95_746_129;

/// Day number of the last date that `chrono::NaiveDate` can hold,
/// 31 December of year 262142.
pub const MAX_DAYS: i32 = 95_745_399;

/// A calendar date: its day number in the proleptic Gregorian calendar,
/// where 1 January of year 1 is day 1.
#[derive(Debug, Clone, Copy, PartialEq, Eq, Structural)]
pub struct Date {
    pub days: i32,
}

/// Whether a day number names a date of the calendar.
pub open spec fn in_calendar(days: int) -> bool {
    MIN_DAYS <= days <= MAX_DAYS
}

/// The date with day number `days`, when the calendar has one.
pub open spec fn date_at(days: int) -> Option<Date> {
    if in_calendar(days) {
        Some(Date { days: days as i32 })
    } else {
        None
    }
}

/// The day number that `chrono::NaiveDate::parse_from_str` reads from
/// `text` under the format `format`; `None` where it reports an error.
pub uninterp spec fn date_of_text(text: Seq<char>, format: Seq<char>) -> Option<int>;

/// The day number that `chrono::NaiveDate::checked_add_months` gives for
/// the date with day number `days` and `months` months; `None` where it
/// gives none or `days` names no date.
pub uninterp spec fn months_later(days: int, months: int) -> Option<int>;

/// The calendar year of the date with day number `days`, as
/// `chrono::Datelike::year` gives it.
pub uninterp spec fn year_of(days: int) -> int;

/// The calendar month, 1 to 12, of the date with day number `days`, as
/// `chrono::Datelike::month` gives it.
pub uninterp spec fn month_of(days: int) -> int;

impl Date {
    /// Whether the calendar has this date.
    pub open spec fn valid(self) -> bool {
        in_calendar(self.days as int)
    }

    /// Whole days from `today` until this date; negative once it has passed.
    pub fn days_after(self, today: Date) -> (left: i64)
        ensures
            left == self.days - today.days,
    {
        self.days as i64 - today.days as i64
    }
}

/// Today's date on this machine's clock, in its time zone. Calls
/// `chrono::Local::now` and `date_naive`. The result depends on when and
/// where it runs; all that is known of it is that the calendar has it.
#[verifier::external_body]
pub(crate) fn local_today() -> (date: Date)
    ensures
        date.valid(),
{
    Date { days: chrono::Datelike::num_days_from_ce(&chrono::Local::now().date_naive()) }
}

/// Reads a date from `text` under the format `format`. Calls
/// `chrono::NaiveDate::parse_from_str`; the result is named, not described.
#[verifier::external_body]
pub(crate) fn parse_date(text: &str, format: &str) -> (date: Option<Date>)
    ensures
        match date {
            Some(d) => date_of_text(text@, format@) == Some(d.days as int) && d.valid(),
            None => date_of_text(text@, format@) is None,
        },
{
    let parsed = chrono::NaiveDate::parse_from_str(text, format).ok()?;
    Some(Date { days: chrono::Datelike::num_days_from_ce(&parsed) })
}

/// The date `days` days after `date`. Calls
/// `chrono::NaiveDate::checked_add_days`, which adds to the day number and
/// gives nothing when the calendar ends before the sum.
#[verifier::external_body]
pub(crate) fn plus_days(date: Date, days: u64) -> (later: Option<Date>)
    ensures
        later == if date.valid() {
            date_at(date.days + days)
        } else {
            None
        },
{
    let from = chrono::NaiveDate::from_num_days_from_ce_opt(date.days)?;
    let to = from.checked_add_days(chrono::Days::new(days))?;
    Some(Date { days: chrono::Datelike::num_days_from_ce(&to) })
}

/// The date `months` months after `date`, on the same day of the month or
/// the month's last. Calls `chrono::NaiveDate::checked_add_months`; the
/// result is named, not described.
#[verifier::external_body]
pub(crate) fn plus_months(date: Date, months: u32) -> (later: Option<Date>)
    ensures
        match later {
            Some(d) => months_later(date.days as int, months as int) == Some(d.days as int)
                && d.valid(),
            None => months_later(date.days as int, months as int) is None,
        },
{
    let from = chrono::NaiveDate::from_num_days_from_ce_opt(date.days)?;
    let to = from.checked_add_months(chrono::Months::new(months))?;
    Some(Date { days: chrono::Datelike::num_days_from_ce(&to) })
}

/// The day after `date`. Calls `chrono::NaiveDate::succ_opt`, which gives
/// nothing for the calendar's last date.
#[verifier::external_body]
pub(crate) fn next_day(date: Date) -> (next: Option<Date>)
    ensures
        next == if date.valid() {
            date_at(date.days + 1)
        } else {
            None
        },
{
    let to = chrono::NaiveDate::from_num_days_from_ce_opt(date.days)?.succ_opt()?;
    Some(Date { days: chrono::Datelike::num_days_from_ce(&to) })
}

/// The day before `date`. Calls `chrono::NaiveDate::pred_opt`, which gives
/// nothing for the calendar's first date.
#[verifier::external_body]
pub(crate) fn previous_day(date: Date) -> (previous: Option<Date>)
    ensures
        previous == if date.valid() {
            date_at(date.days - 1)
        } else {
            None
        },
{
    let to = chrono::NaiveDate::from_num_days_from_ce_opt(date.days)?.pred_opt()?;
    Some(Date { days: chrono::Datelike::num_days_from_ce(&to) })
}

/// The calendar year of `date`; nothing when the calendar does not have the
/// date. Calls `chrono::Datelike::year`; the result is named, not
/// described.
#[verifier::external_body]
pub(crate) fn calendar_year(date: Date) -> (year: Option<i32>)
    ensures
        year is Some <==> date.valid(),
        year matches Some(y) ==> y == year_of(date.days as int),
{
    let on = chrono::NaiveDate::from_num_days_from_ce_opt(date.days)?;
    Some(chrono::Datelike::year(&on))
}

/// The calendar month of `date`, 1 to 12; nothing when the calendar does
/// not have the date. Calls `chrono::Datelike::month`; the result is named,
/// not described.
#[verifier::external_body]
pub(crate) fn calendar_month(date: Date) -> (month: Option<u32>)
    ensures
        month is Some <==> date.valid(),
        month matches Some(m) ==> m == month_of(date.days as int) && 1 <= m <= 12,
{
    let on = chrono::NaiveDate::from_num_days_from_ce_opt(date.days)?;
    Some(chrono::Datelike::month(&on))
}

} // verus!
