//! The calendar from which a due date can be picked: today, and a cursor
//! that moves by days and weeks.

use crate::date::{
    calendar_month, calendar_year, in_calendar, local_today, month_of, next_day, previous_day,
    year_of, Date, MAX_DAYS, MIN_DAYS,
};
use vstd::prelude::*;

verus! {

/// The calendar.
#[derive(Debug, Clone, Copy, PartialEq, Eq, Structural)]
pub struct CalendarWidget {
    pub today: Date,
    pub cursor: Date,
}

/// The day number `steps` days before `days`, but no earlier than the
/// calendar's first date. A day number outside the calendar stays as it is.
pub open spec fn days_back(days: int, steps: int) -> int {
    if !in_calendar(days) {
        days
    } else if days - steps < MIN_DAYS {
        MIN_DAYS as int
    } else {
        days - steps
    }
}

/// The day number `steps` days after `days`, but no later than the
/// calendar's last date. A day number outside the calendar stays as it is.
pub open spec fn days_on(days: int, steps: int) -> int {
    if !in_calendar(days) {
        days
    } else if days + steps > MAX_DAYS {
        MAX_DAYS as int
    } else {
        days + steps
    }
}

impl CalendarWidget {
    /// A calendar for the day `today`, with the cursor on it.
    pub fn at(today: Date) -> (widget: Self)
        ensures
            widget.today == today,
            widget.cursor == today,
    {
        CalendarWidget { today, cursor: today }
    }

    /// A calendar for today, with the cursor on today.
    pub fn new() -> (widget: Self)
        ensures
            widget.cursor == widget.today,
            widget.today.valid(),
    {
        CalendarWidget::at(local_today())
    }

    /// Moves the cursor one week back, stopping at the calendar's first
    /// date.
    pub fn move_up(&mut self)
        ensures
            final(self).cursor.days == days_back(old(self).cursor.days as int, 7),
            final(self).today == old(self).today,
    {
        let mut step: u8 = 0;
        while step < 7
            invariant
                step <= 7,
                self.today == old(self).today,
                self.cursor.days == days_back(old(self).cursor.days as int, step as int),
            decreases 7 - step,
        {
            self.move_left();
            step += 1;
        }
    }

    /// Moves the cursor one week on, stopping at the calendar's last date.
    pub fn move_down(&mut self)
        ensures
            final(self).cursor.days == days_on(old(self).cursor.days as int, 7),
            final(self).today == old(self).today,
    {
        let mut step: u8 = 0;
        while step < 7
            invariant
                step <= 7,
                self.today == old(self).today,
                self.cursor.days == days_on(old(self).cursor.days as int, step as int),
            decreases 7 - step,
        {
            self.move_right();
            step += 1;
        }
    }

    /// Moves the cursor one day back; it stays on the calendar's first date.
    pub fn move_left(&mut self)
        ensures
            final(self).cursor.days == days_back(old(self).cursor.days as int, 1),
            final(self).today == old(self).today,
    {
        match previous_day(self.cursor) {
            Some(day) => {
                self.cursor = day;
            },
            None => {},
        }
    }

    /// Moves the cursor one day on; it stays on the calendar's last date.
    pub fn move_right(&mut self)
        ensures
            final(self).cursor.days == days_on(old(self).cursor.days as int, 1),
            final(self).today == old(self).today,
    {
        match next_day(self.cursor) {
            Some(day) => {
                self.cursor = day;
            },
            None => {},
        }
    }

    /// Whether the cursor is in the month of today.
    pub fn same_month(&self) -> (same: bool)
        ensures
            same == (self.cursor.valid() && self.today.valid() && month_of(
                self.cursor.days as int,
            ) == month_of(self.today.days as int) && year_of(self.cursor.days as int) == year_of(
                self.today.days as int,
            )),
    {
        same_year_month(
            calendar_year(self.cursor),
            calendar_month(self.cursor),
            calendar_year(self.today),
            calendar_month(self.today),
        )
    }
}

/// Whether two dates, given by year and month, fall in the same month of
/// the same year. A date without year or month is in no month.
pub fn same_year_month(
    year_a: Option<i32>,
    month_a: Option<u32>,
    year_b: Option<i32>,
    month_b: Option<u32>,
) -> (same: bool)
    ensures
        same == (year_a is Some && month_a is Some && year_a == year_b && month_a == month_b),
{
    match (year_a, month_a, year_b, month_b) {
        (Some(ya), Some(ma), Some(yb), Some(mb)) => ya == yb && ma == mb,
        _ => false,
    }
}

} // verus!
