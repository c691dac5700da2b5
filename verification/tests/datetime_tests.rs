use unicom::datetime::{
    baseline_plan, baseline_refresh, calc_time_interval, calc_time_interval_at, cookie_needs_refresh,
    diff_basis, seconds_since, should_refresh_cookie_at,
    interval_for_elapsed, scheduled_diff_plan, should_refresh_cookie, stored_day,
    stored_time_format, CalendarDay, DiffBasis,
};

fn day(year: i32, month: u32, day: u32) -> CalendarDay {
    CalendarDay { year, month, day }
}

#[test]
fn parsing_stored_times() {
    assert_eq!(stored_time_format(), "%Y-%m-%d %H:%M:%S");
    assert_eq!(stored_day("2025-01-15 10:00:00"), Some(day(2025, 1, 15)));
    assert_eq!(stored_day("2025-13-15 10:00:00"), None);
    assert_eq!(stored_day("2023-02-29 10:00:00"), None);
    assert_eq!(stored_day("yesterday"), None);
    assert_eq!(stored_day("2024-02-29 23:59:59"), Some(day(2024, 2, 29)));
}

#[test]
fn elapsed_intervals() {
    assert_eq!(interval_for_elapsed(0), "");
    assert_eq!(interval_for_elapsed(-10), "");
    assert_eq!(interval_for_elapsed(125), "2分钟5秒");
    assert_eq!(calc_time_interval(""), "");
    assert_eq!(calc_time_interval("not a time"), "");
    assert!(calc_time_interval("2000-01-01 00:00:00").contains("小时"));
}

#[test]
fn cookie_refresh() {
    assert!(cookie_needs_refresh(6601, 7200));
    assert!(!cookie_needs_refresh(6600, 7200));
    assert!(cookie_needs_refresh(0, 599));
    assert!(should_refresh_cookie("", 7200));
    assert!(!should_refresh_cookie("garbage", 7200));
    assert!(should_refresh_cookie("2000-01-01 00:00:00", 7200));
    assert!(!should_refresh_cookie("2999-01-01 00:00:00", 7200));
}

#[test]
fn diff_bases() {
    let today = day(2025, 3, 10);
    assert_eq!(diff_basis(true, false, true, Some(today), today), DiffBasis::Initial);
    assert_eq!(diff_basis(false, true, true, Some(today), today), DiffBasis::Initial);
    assert_eq!(diff_basis(false, false, false, Some(today), today), DiffBasis::Initial);
    assert_eq!(diff_basis(false, false, true, None, today), DiffBasis::Initial);
    assert_eq!(diff_basis(false, false, true, Some(day(2025, 2, 28)), today), DiffBasis::MonthReset);
    assert_eq!(diff_basis(false, false, true, Some(day(2024, 12, 31)), today), DiffBasis::MonthReset);
    assert_eq!(diff_basis(false, false, true, Some(today), today), DiffBasis::SameDay);
    assert_eq!(diff_basis(false, false, true, Some(day(2025, 3, 9)), today), DiffBasis::NewDay);
}

#[test]
fn baselines() {
    let today = day(2025, 3, 10);
    let p = baseline_plan(None, today);
    assert!(p.cross_day && p.cross_month);
    let p = baseline_plan(Some(today), today);
    assert!(!p.cross_day && !p.cross_month);
    let p = baseline_plan(Some(day(2025, 3, 1)), today);
    assert!(p.cross_day && !p.cross_month);
    let p = baseline_plan(Some(day(2025, 2, 10)), today);
    assert!(p.cross_day && p.cross_month);
    assert!(baseline_refresh(true, Some(today), today, false));
    assert!(baseline_refresh(false, Some(day(2025, 2, 1)), today, false));
    assert!(baseline_refresh(false, Some(today), today, true));
    assert!(!baseline_refresh(false, Some(today), today, false));
    assert!(!baseline_refresh(false, None, today, false));
}

#[test]
fn scheduled_diffs() {
    let p = scheduled_diff_plan(true, false, false, false);
    assert!(p.display_from_baseline && p.notify_from_baseline && p.daily_from_today);
    let p = scheduled_diff_plan(false, true, false, true);
    assert!(!p.display_from_baseline && !p.notify_from_baseline && !p.daily_from_today);
    let p = scheduled_diff_plan(false, false, true, false);
    assert!(!p.notify_from_baseline && p.daily_from_today);
}

/// 2025-01-15 10:00:00 as seconds since 1970.
const STORED: i64 = 1_736_935_200;

#[test]
fn seconds_since_counts_toward_zero() {
    assert_eq!(seconds_since(STORED + 125, 0, STORED), 125);
    assert_eq!(seconds_since(STORED + 125, 999_999_999, STORED), 125);
    assert_eq!(seconds_since(STORED - 3, 0, STORED), -3);
    assert_eq!(seconds_since(STORED - 3, 400_000_000, STORED), -2);
    assert_eq!(seconds_since(STORED - 1, 1, STORED), 0);
}

#[test]
fn elapsed_intervals_at_a_clock_reading() {
    let t = "2025-01-15 10:00:00";
    assert_eq!(calc_time_interval_at(t, STORED + 3661, 500), "1小时1分钟");
    assert_eq!(calc_time_interval_at(t, STORED + 65, 0), "1分钟5秒");
    assert_eq!(calc_time_interval_at(t, STORED, 0), "");
    assert_eq!(calc_time_interval_at(t, STORED - 100, 0), "");
    assert_eq!(calc_time_interval_at("", STORED + 65, 0), "");
    assert_eq!(calc_time_interval_at("garbage", STORED + 65, 0), "");
}

#[test]
fn cookie_refresh_at_a_clock_reading() {
    let t = "2025-01-15 10:00:00";
    assert!(!should_refresh_cookie_at(t, 7200, STORED + 6600, 0));
    assert!(!should_refresh_cookie_at(t, 7200, STORED + 6600, 999_999_999));
    assert!(should_refresh_cookie_at(t, 7200, STORED + 6601, 0));
    assert!(!should_refresh_cookie_at(t, 7200, STORED - 10, 0));
    assert!(should_refresh_cookie_at("", 7200, STORED, 0));
    assert!(!should_refresh_cookie_at("garbage", 7200, STORED + 9000, 0));
}
