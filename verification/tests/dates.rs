use chrono::{Datelike, NaiveDate};
use tui_todo::date::{Date, MAX_DAYS, MIN_DAYS};
use tui_todo::due::{
    finish_plan, parse_count, plan_due, resolve_due, resolve_due_today, DueChange, DuePlan,
};
use tui_todo::ui::calendarwidget::{same_year_month, CalendarWidget};

fn ymd(y: i32, m: u32, d: u32) -> Date {
    Date { days: NaiveDate::from_ymd_opt(y, m, d).unwrap().num_days_from_ce() }
}

#[test]
fn calendar_range_matches_chrono() {
    assert_eq!(NaiveDate::MIN.num_days_from_ce(), MIN_DAYS);
    assert_eq!(NaiveDate::MAX.num_days_from_ce(), MAX_DAYS);
}

#[test]
fn days_after_is_a_difference() {
    assert_eq!(ymd(2024, 3, 1).days_after(ymd(2024, 2, 28)), 2);
    assert_eq!(ymd(2024, 2, 28).days_after(ymd(2024, 3, 1)), -2);
    assert_eq!(Date { days: MAX_DAYS }.days_after(Date { days: MIN_DAYS }), 191_491_528);
}

#[test]
fn parse_count_reads_digits() {
    assert_eq!(parse_count("0", u64::MAX), 0);
    assert_eq!(parse_count("42", u64::MAX), 42);
    assert_eq!(parse_count("007", u64::MAX), 7);
    assert_eq!(parse_count("18446744073709551615", u64::MAX), u64::MAX);
}

#[test]
fn parse_count_gives_zero_for_anything_else() {
    assert_eq!(parse_count("", u64::MAX), 0);
    assert_eq!(parse_count("4a", u64::MAX), 0);
    assert_eq!(parse_count("-4", u64::MAX), 0);
    assert_eq!(parse_count("+4", u64::MAX), 0);
    assert_eq!(parse_count("٣", u64::MAX), 0);
    assert_eq!(parse_count("18446744073709551616", u64::MAX), 0);
    assert_eq!(parse_count("4294967296", 4_294_967_295), 0);
    assert_eq!(parse_count("4294967295", 4_294_967_295), 4_294_967_295);
    assert_eq!(parse_count("9", 5), 0);
    assert_eq!(parse_count("5", 5), 5);
}

#[test]
fn plan_follows_precedence() {
    let d = ymd(2020, 1, 1);
    let s = |x: &str| Some(x.to_string());
    assert_eq!(plan_due("", Some(d), s("1"), s("2"), s("3")), DuePlan::Keep);
    assert_eq!(plan_due("None", Some(d), s("1"), s("2"), s("3")), DuePlan::Clear);
    assert_eq!(plan_due("x", Some(d), s("1"), s("2"), s("3")), DuePlan::On(d));
    assert_eq!(plan_due("x", None, s("1"), s("2"), s("3")), DuePlan::InDays(1));
    assert_eq!(plan_due("x", None, None, s("2"), s("3")), DuePlan::InDays(14));
    assert_eq!(plan_due("x", None, None, None, s("3")), DuePlan::InMonths(3));
    assert_eq!(plan_due("tomorrow", None, None, None, None), DuePlan::InDays(1));
    assert_eq!(plan_due("today", None, None, None, None), DuePlan::InDays(0));
    assert_eq!(plan_due("whenever", None, None, None, None), DuePlan::InDays(0));
    assert_eq!(plan_due("none", None, None, None, None), DuePlan::InDays(0));
}

#[test]
fn plan_counts_that_do_not_fit() {
    let s = |x: &str| Some(x.to_string());
    assert_eq!(plan_due("x", None, s("99999999999999999999"), None, None), DuePlan::InDays(0));
    assert_eq!(plan_due("x", None, None, s("9223372036854775808"), None), DuePlan::InDays(0));
    assert_eq!(plan_due("x", None, None, s("9223372036854775807"), None), DuePlan::Keep);
    assert_eq!(
        plan_due("x", None, None, s("2635249153387078802"), None),
        DuePlan::InDays(18446744073709551614)
    );
    assert_eq!(plan_due("x", None, None, s("2635249153387078803"), None), DuePlan::Keep);
    assert_eq!(plan_due("x", None, None, None, s("4294967296")), DuePlan::InMonths(0));
    assert_eq!(plan_due("x", None, None, None, s("4294967295")), DuePlan::InMonths(4294967295));
}

#[test]
fn finish_plan_uses_the_matching_date() {
    let t = ymd(2020, 1, 1);
    let a = ymd(2020, 1, 2);
    let b = ymd(2020, 2, 1);
    assert_eq!(finish_plan(DuePlan::Keep, Some(a), Some(b)), DueChange::Keep);
    assert_eq!(finish_plan(DuePlan::Clear, Some(a), Some(b)), DueChange::Clear);
    assert_eq!(finish_plan(DuePlan::On(t), Some(a), Some(b)), DueChange::On(t));
    assert_eq!(finish_plan(DuePlan::InDays(1), Some(a), Some(b)), DueChange::On(a));
    assert_eq!(finish_plan(DuePlan::InDays(1), None, Some(b)), DueChange::Keep);
    assert_eq!(finish_plan(DuePlan::InMonths(1), Some(a), Some(b)), DueChange::On(b));
    assert_eq!(finish_plan(DuePlan::InMonths(1), Some(a), None), DueChange::Keep);
}

#[test]
fn resolve_full_date() {
    let today = ymd(2024, 1, 10);
    assert_eq!(resolve_due("2015-09-05", today), DueChange::On(ymd(2015, 9, 5)));
    assert_eq!(resolve_due("2024-02-29", today), DueChange::On(ymd(2024, 2, 29)));
    assert_eq!(resolve_due("2023-02-29", today), DueChange::On(today));
}

#[test]
fn resolve_counts() {
    let today = ymd(2022, 7, 31);
    assert_eq!(resolve_due("3 days", today), DueChange::On(ymd(2022, 8, 3)));
    assert_eq!(resolve_due("1 day", today), DueChange::On(ymd(2022, 8, 1)));
    assert_eq!(resolve_due("in 10 days or so", today), DueChange::On(ymd(2022, 8, 10)));
    assert_eq!(resolve_due("2 weeks", today), DueChange::On(ymd(2022, 8, 14)));
    assert_eq!(resolve_due("2 months", today), DueChange::On(ymd(2022, 9, 30)));
    assert_eq!(resolve_due("1 month", ymd(2024, 1, 31)), DueChange::On(ymd(2024, 2, 29)));
    assert_eq!(resolve_due("0 days", today), DueChange::On(today));
}

#[test]
fn resolve_words_and_fallback() {
    let today = ymd(2024, 12, 31);
    assert_eq!(resolve_due("today", today), DueChange::On(today));
    assert_eq!(resolve_due("tomorrow", today), DueChange::On(ymd(2025, 1, 1)));
    assert_eq!(resolve_due("someday", today), DueChange::On(today));
    assert_eq!(resolve_due("", today), DueChange::Keep);
    assert_eq!(resolve_due("None", today), DueChange::Clear);
}

#[test]
fn resolve_beyond_the_calendar_keeps() {
    let last = Date { days: MAX_DAYS };
    assert_eq!(resolve_due("tomorrow", last), DueChange::Keep);
    assert_eq!(resolve_due("1 month", last), DueChange::Keep);
    assert_eq!(resolve_due("today", last), DueChange::On(last));
    assert_eq!(resolve_due("4000000000 days", ymd(2024, 1, 1)), DueChange::Keep);
    assert_eq!(resolve_due("today", Date { days: MAX_DAYS + 1 }), DueChange::Keep);
}

#[test]
fn resolve_today_uses_the_clock() {
    let before = chrono::Local::now().date_naive().num_days_from_ce();
    let (change, today) = resolve_due_today("tomorrow");
    let after = chrono::Local::now().date_naive().num_days_from_ce();
    assert!(before <= today.days && today.days <= after);
    assert_eq!(change, DueChange::On(Date { days: today.days + 1 }));
}

#[test]
fn calendar_starts_on_today() {
    let before = chrono::Local::now().date_naive().num_days_from_ce();
    let c = CalendarWidget::new();
    let after = chrono::Local::now().date_naive().num_days_from_ce();
    assert_eq!(c.cursor, c.today);
    assert!(before <= c.today.days && c.today.days <= after);
    assert!(c.same_month());
}

#[test]
fn calendar_moves_by_day_and_week() {
    let mut c = CalendarWidget::at(ymd(2024, 3, 1));
    c.move_left();
    assert_eq!(c.cursor, ymd(2024, 2, 29));
    c.move_right();
    c.move_right();
    assert_eq!(c.cursor, ymd(2024, 3, 2));
    c.move_up();
    assert_eq!(c.cursor, ymd(2024, 2, 24));
    c.move_down();
    c.move_down();
    assert_eq!(c.cursor, ymd(2024, 3, 9));
    assert_eq!(c.today, ymd(2024, 3, 1));
}

#[test]
fn calendar_stops_at_the_ends() {
    let mut c = CalendarWidget::at(Date { days: MIN_DAYS + 3 });
    c.move_up();
    assert_eq!(c.cursor.days, MIN_DAYS);
    c.move_left();
    assert_eq!(c.cursor.days, MIN_DAYS);
    let mut c = CalendarWidget::at(Date { days: MAX_DAYS - 3 });
    c.move_down();
    assert_eq!(c.cursor.days, MAX_DAYS);
    c.move_right();
    assert_eq!(c.cursor.days, MAX_DAYS);
}

#[test]
fn calendar_same_month() {
    let mut c = CalendarWidget::at(ymd(2024, 3, 31));
    assert!(c.same_month());
    c.move_right();
    assert!(!c.same_month());
    c.cursor = ymd(2025, 3, 31);
    assert!(!c.same_month());
    c.cursor = ymd(2024, 3, 1);
    assert!(c.same_month());
    c.cursor = Date { days: MAX_DAYS + 1 };
    assert!(!c.same_month());
}

#[test]
fn same_year_month_needs_both() {
    assert!(same_year_month(Some(2024), Some(3), Some(2024), Some(3)));
    assert!(!same_year_month(Some(2024), Some(3), Some(2024), Some(4)));
    assert!(!same_year_month(Some(2024), Some(3), Some(2023), Some(3)));
    assert!(!same_year_month(None, Some(3), None, Some(3)));
    assert!(!same_year_month(Some(2024), None, Some(2024), None));
}
