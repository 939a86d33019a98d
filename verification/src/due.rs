//! Reading a due date from what the user typed.
//!
//! A full date is taken as written. Otherwise a count of days, weeks or
//! months found anywhere in the text is added to today; `tomorrow` is
//! tomorrow; anything else is today.

use crate::date::{
    date_at, date_of_text, local_today, months_later, parse_date, plus_days, plus_months, Date,
};
use vstd::prelude::*;
use vstd::utf8::encode_utf8;

verus! {

/// What an answer to the due-date prompt does to a task's due date.
#[derive(Debug, Clone, Copy, PartialEq, Eq, Structural)]
pub enum DueChange {
    /// Leave the due date as it is.
    Keep,
    /// Remove the due date.
    Clear,
    /// Make this date the due date.
    On(Date),
}

/// What an answer asks for, before the calendar has been consulted.
#[derive(Debug, Clone, Copy, PartialEq, Eq, Structural)]
pub enum DuePlan {
    /// Leave the due date as it is.
    Keep,
    /// Remove the due date.
    Clear,
    /// Set the due date to this date.
    On(Date),
    /// Set the due date this many days after today.
    InDays(u64),
    /// Set the due date this many months after today.
    InMonths(u32),
}

/// What capture group `group` holds for the leftmost match of `pattern` in
/// `text` from byte offset `start` on, as `regex::Regex::captures_at` finds
/// it; `None` where the pattern does not compile, nothing matches, or the
/// group took no part.
pub uninterp spec fn captured(
    pattern: Seq<char>,
    text: Seq<char>,
    start: int,
    group: int,
) -> Option<Seq<char>>;

/// Compiles `pattern` with `regex::Regex::new`, searches `text` with
/// `regex::Regex::captures_at` from byte offset `start`, which must lie
/// within the text, and returns what capture group `group` matched. The
/// result is named, not described.
#[verifier::external_body]
pub(crate) fn capture_group(pattern: &str, text: &str, start: usize, group: usize) -> (found:
    Option<String>)
    requires
        start <= encode_utf8(text@).len(),
    ensures
        match found {
            Some(g) => captured(pattern@, text@, start as int, group as int) == Some(g@),
            None => captured(pattern@, text@, start as int, group as int) is None,
        },
{
    let matched = regex::Regex::new(pattern).ok()?.captures_at(text, start)?;
    Some(matched.get(group)?.as_str().to_string())
}

/// The count that stands before the word for a unit in `text`: the digits
/// that the pattern for the unit captures.
pub open spec fn count_before(pattern: Seq<char>, text: Seq<char>) -> Option<Seq<char>> {
    captured(pattern, text, 0, 1)
}

/// Whether `c` is one of the ten digits `0` to `9`.
pub open spec fn is_digit(c: char) -> bool {
    '0' <= c <= '9'
}

/// The number written by the digits of `s`, read as base ten.
pub open spec fn digits_value(s: Seq<char>) -> nat
    decreases s.len(),
{
    if s.len() == 0 {
        0
    } else {
        digits_value(s.drop_last()) * 10 + (s.last() as u32 - '0' as u32) as nat
    }
}

/// The count that `s` writes: its value when `s` is one or more digits and
/// the value is at most `limit`, and zero otherwise.
pub open spec fn count_of(s: Seq<char>, limit: nat) -> nat {
    if s.len() > 0 && (forall|i: int| 0 <= i < s.len() ==> is_digit(#[trigger] s[i]))
        && digits_value(s) <= limit {
        digits_value(s)
    } else {
        0
    }
}

/// The value of the first `n` digits is at most the value of all of them.
proof fn lemma_digits_value_grows(s: Seq<char>, n: int)
    requires
        0 <= n <= s.len(),
        forall|i: int| 0 <= i < s.len() ==> is_digit(#[trigger] s[i]),
    ensures
        digits_value(s.subrange(0, n)) <= digits_value(s),
    decreases s.len() - n,
{
    if n < s.len() {
        let longer = s.subrange(0, n + 1);
        assert(longer.drop_last() =~= s.subrange(0, n));
        assert(is_digit(s[n]));
        assert(longer.last() == s[n]);
        lemma_digits_value_grows(s, n + 1);
    } else {
        assert(s.subrange(0, n) =~= s);
    }
}

/// Reads a count: the value of `s` when it is one or more digits and the
/// value is at most `limit`, zero otherwise.
pub fn parse_count(s: &str, limit: u64) -> (count: u64)
    ensures
        count == count_of(s@, limit as nat),
        count <= limit,
{
    let n = s.unicode_len();
    if n == 0 {
        return 0;
    }
    let mut value: u64 = 0;
    let mut i: usize = 0;
    while i < n
        invariant
            i <= n,
            n == s@.len(),
            value == digits_value(s@.subrange(0, i as int)),
            value <= limit,
            forall|j: int| 0 <= j < i ==> is_digit(#[trigger] s@[j]),
        decreases n - i,
    {
        let c = s.get_char(i);
        if c < '0' || c > '9' {
            assert(!is_digit(s@[i as int]));
            return 0;
        }
        let digit: u64 = (c as u32 - '0' as u32) as u64;
        proof {
            let longer = s@.subrange(0, i + 1);
            assert(longer.drop_last() =~= s@.subrange(0, i as int));
            assert(longer.last() == c);
        }
        if digit > limit || value > (limit - digit) / 10 {
            proof {
                let longer = s@.subrange(0, i + 1);
                assert(digits_value(longer) > limit);
                if forall|j: int| 0 <= j < s@.len() ==> is_digit(#[trigger] s@[j]) {
                    lemma_digits_value_grows(s@, i + 1);
                }
            }
            return 0;
        }
        value = value * 10 + digit;
        i += 1;
    }
    proof {
        assert(s@.subrange(0, n as int) =~= s@);
    }
    value
}

/// The plan that an answer calls for, given what the calendar read from it
/// as a full date (`iso`) and the counts found before the words for days,
/// weeks and months.
///
/// An empty answer keeps the due date and the answer `None` clears it. A
/// full date wins over a count of days, that over a count of weeks, that
/// over a count of months. A count that is not a number, or is too large
/// for its unit, counts as zero. With none of these, `tomorrow` is one day
/// from today and anything else is today.
pub open spec fn due_plan(
    input: Seq<char>,
    iso: Option<Date>,
    days: Option<Seq<char>>,
    weeks: Option<Seq<char>>,
    months: Option<Seq<char>>,
) -> DuePlan {
    if input.len() == 0 {
        DuePlan::Keep
    } else if input == "None"@ {
        DuePlan::Clear
    } else if iso is Some {
        DuePlan::On(iso->0)
    } else if days is Some {
        DuePlan::InDays(count_of(days->0, u64::MAX as nat) as u64)
    } else if weeks is Some {
        let w = count_of(weeks->0, i64::MAX as nat);
        if w * 7 <= u64::MAX {
            DuePlan::InDays((w * 7) as u64)
        } else {
            DuePlan::Keep
        }
    } else if months is Some {
        DuePlan::InMonths(count_of(months->0, u32::MAX as nat) as u32)
    } else if input == "tomorrow"@ {
        DuePlan::InDays(1)
    } else {
        DuePlan::InDays(0)
    }
}

/// What a plan does once the calendar has been consulted: a date that the
/// calendar does not reach keeps the due date as it is.
pub open spec fn plan_outcome(plan: DuePlan, today: Date) -> DueChange {
    match plan {
        DuePlan::Keep => DueChange::Keep,
        DuePlan::Clear => DueChange::Clear,
        DuePlan::On(d) => DueChange::On(d),
        DuePlan::InDays(n) => if today.valid() && date_at(today.days + n) is Some {
            DueChange::On(date_at(today.days + n)->0)
        } else {
            DueChange::Keep
        },
        DuePlan::InMonths(m) => match months_later(today.days as int, m as int) {
            Some(d) => DueChange::On(Date { days: d as i32 }),
            None => DueChange::Keep,
        },
    }
}

/// The full date that the calendar reads from `text`, written as year,
/// month and day with `-` between them, if any.
pub open spec fn iso_date(text: Seq<char>) -> Option<Date> {
    match date_of_text(text, "%Y-%m-%d"@) {
        Some(d) => Some(Date { days: d as i32 }),
        None => None,
    }
}

/// What the answer `input`, given on the day `today`, does to a due date.
pub open spec fn due_change(input: Seq<char>, today: Date) -> DueChange {
    plan_outcome(
        due_plan(
            input,
            iso_date(input),
            count_before("(\\d+) days?"@, input),
            count_before("(\\d+) weeks?"@, input),
            count_before("(\\d+) months?"@, input),
        ),
        today,
    )
}

/// Whether two strings hold the same characters.
fn same_text(a: &str, b: &str) -> (same: bool)
    ensures
        same == (a@ == b@),
{
    String::from_str(a) == String::from_str(b)
}

/// A captured group as a string slice.
fn group_view(group: &Option<String>) -> (out: Option<&str>)
    ensures
        match out {
            Some(s) => *group matches Some(g) && g@ == s@,
            None => *group is None,
        },
{
    match group {
        Some(g) => Some(g.as_str()),
        None => None,
    }
}

/// Decides what an answer calls for, given what the calendar read from it
/// as a full date and the counts found before the words for days, weeks and
/// months.
pub fn plan_due(
    input: &str,
    iso: Option<Date>,
    days: Option<String>,
    weeks: Option<String>,
    months: Option<String>,
) -> (plan: DuePlan)
    ensures
        plan == due_plan(
            input@,
            iso,
            match days {
                Some(s) => Some(s@),
                None => None,
            },
            match weeks {
                Some(s) => Some(s@),
                None => None,
            },
            match months {
                Some(s) => Some(s@),
                None => None,
            },
        ),
{
    if input.is_empty() {
        return DuePlan::Keep;
    }
    if same_text(input, "None") {
        return DuePlan::Clear;
    }
    if let Some(d) = iso {
        return DuePlan::On(d);
    }
    if let Some(g) = group_view(&days) {
        return DuePlan::InDays(parse_count(g, u64::MAX));
    }
    if let Some(g) = group_view(&weeks) {
        let w = parse_count(g, 0x7fff_ffff_ffff_ffff);
        if w > u64::MAX / 7 {
            return DuePlan::Keep;
        }
        return DuePlan::InDays(w * 7);
    }
    if let Some(g) = group_view(&months) {
        let m = parse_count(g, 0xffff_ffff);
        return DuePlan::InMonths(m as u32);
    }
    if same_text(input, "tomorrow") {
        return DuePlan::InDays(1);
    }
    DuePlan::InDays(0)
}

/// Carries a plan out, given the dates that the calendar has found for it:
/// `in_days` for a plan that counts days and `in_months` for one that
/// counts months. A plan whose date the calendar does not have keeps the
/// due date as it is.
pub fn finish_plan(plan: DuePlan, in_days: Option<Date>, in_months: Option<Date>) -> (change:
    DueChange)
    ensures
        change == match plan {
            DuePlan::Keep => DueChange::Keep,
            DuePlan::Clear => DueChange::Clear,
            DuePlan::On(d) => DueChange::On(d),
            DuePlan::InDays(_) => match in_days {
                Some(d) => DueChange::On(d),
                None => DueChange::Keep,
            },
            DuePlan::InMonths(_) => match in_months {
                Some(d) => DueChange::On(d),
                None => DueChange::Keep,
            },
        },
{
    match plan {
        DuePlan::Keep => DueChange::Keep,
        DuePlan::Clear => DueChange::Clear,
        DuePlan::On(d) => DueChange::On(d),
        DuePlan::InDays(_) => match in_days {
            Some(d) => DueChange::On(d),
            None => DueChange::Keep,
        },
        DuePlan::InMonths(_) => match in_months {
            Some(d) => DueChange::On(d),
            None => DueChange::Keep,
        },
    }
}

/// Reads the answer `input` to the due-date prompt, given on the day
/// `today`.
pub fn resolve_due(input: &str, today: Date) -> (change: DueChange)
    ensures
        change == due_change(input@, today),
{
    let iso = parse_date(input, "%Y-%m-%d");
    let days = capture_group("(\\d+) days?", input, 0, 1);
    let weeks = capture_group("(\\d+) weeks?", input, 0, 1);
    let months = capture_group("(\\d+) months?", input, 0, 1);
    let plan = plan_due(input, iso, days, weeks, months);
    let in_days = match plan {
        DuePlan::InDays(n) => plus_days(today, n),
        _ => None,
    };
    let in_months = match plan {
        DuePlan::InMonths(m) => plus_months(today, m),
        _ => None,
    };
    finish_plan(plan, in_days, in_months)
}

/// Reads the answer `input` to the due-date prompt, given now.
pub fn resolve_due_today(input: &str) -> (out: (DueChange, Date))
    ensures
        out.0 == due_change(input@, out.1),
        out.1.valid(),
{
    let today = local_today();
    (resolve_due(input, today), today)
}

} // verus!
