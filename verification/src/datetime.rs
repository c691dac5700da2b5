//! Local date-times as the service stores them ("%Y-%m-%d %H:%M:%S"), and
//! the decisions that compare them with today.
use chrono::{Datelike, NaiveDateTime};
use vstd::prelude::*;

use crate::flow::{format_interval, interval_text};

verus! {

/// A calendar date: year, month (1–12) and day of month.
#[derive(Clone, Copy, Debug, PartialEq, Eq)]
pub struct CalendarDay {
    pub year: i32,
    pub month: u32,
    pub day: u32,
}

/// Months counted from year zero, the measure by which two dates are
/// compared for a change of month.
pub open spec fn month_index(d: CalendarDay) -> int {
    d.year * 12 + d.month
}

/// What chrono's `NaiveDateTime::parse_from_str(s, fmt)` gives: `None`
/// when it fails, else the year, month and day of the date-time it parsed,
/// and that date-time as whole seconds since 1970-01-01 00:00:00 (read as
/// UTC, `and_utc().timestamp()`).
pub uninterp spec fn parsed_datetime(s: Seq<char>, fmt: Seq<char>) -> Option<(int, int, int, int)>;

/// Whether chrono's `NaiveDateTime::parse_from_str(s, fmt)` succeeds.
pub open spec fn datetime_parses(s: Seq<char>, fmt: Seq<char>) -> bool {
    parsed_datetime(s, fmt) is Some
}

/// The seconds of a stored time that parses (see `parsed_datetime`).
pub open spec fn stamp_of(s: Seq<char>, fmt: Seq<char>) -> int {
    match parsed_datetime(s, fmt) {
        Some((_, _, _, t)) => t,
        None => 0,
    }
}

/// A bound on the seconds of any date-time chrono can hold: its years lie
/// within ±262143 (`MIN_YEAR`, `MAX_YEAR`), under 10^13 seconds from 1970.
pub open spec fn stamp_in_range(t: int) -> bool {
    -10_000_000_000_000 < t < 10_000_000_000_000
}

/// The layout in which query times are stored.
pub fn stored_time_format() -> (r: &'static str)
    ensures
        r@ == "%Y-%m-%d %H:%M:%S"@,
{
    "%Y-%m-%d %H:%M:%S"
}

/// chrono's `NaiveDateTime::parse_from_str(s, fmt)` read as whole seconds
/// since 1970 (`and_utc().timestamp()`), its error dropped. Stated: the
/// result is present exactly when chrono parses `s` in `fmt`, and is then
/// the named seconds, which lie in chrono's range.
#[verifier::external_body]
fn parse_timestamp(s: &str, fmt: &str) -> (r: Option<i64>)
    ensures
        r is Some <==> parsed_datetime(s@, fmt@) is Some,
        r matches Some(t) ==> t == stamp_of(s@, fmt@) && stamp_in_range(t as int),
{
    match NaiveDateTime::parse_from_str(s, fmt) {
        Ok(t) => Some(t.and_utc().timestamp()),
        Err(_) => None,
    }
}

/// chrono's `Local::now().naive_local()` read as whole seconds since 1970
/// (`and_utc().timestamp()`) and the nanoseconds past them
/// (`timestamp_subsec_nanos()`). The reading rests on the moment of the
/// call; stated only that the seconds lie in chrono's range.
#[verifier::external_body]
pub(crate) fn local_now_stamp() -> (r: (i64, u32))
    ensures
        stamp_in_range(r.0 as int),
{
    let t = chrono::Local::now().naive_local().and_utc();
    (t.timestamp(), t.timestamp_subsec_nanos())
}

/// chrono's `NaiveDateTime::parse_from_str(s, fmt)`, read as a calendar
/// day with `Datelike`'s `year()`, `month()` and `day()`; its error dropped.
/// Stated: the result is present exactly when chrono parses `s` in `fmt`, and
/// is then the parsed date, whose month lies in 1–12 and day in 1–31 as
/// chrono documents.
#[verifier::external_body]
fn parse_calendar_day(s: &str, fmt: &str) -> (r: Option<CalendarDay>)
    ensures
        r is Some <==> parsed_datetime(s@, fmt@) is Some,
        r matches Some(c) ==> {
            &&& parsed_datetime(s@, fmt@) == Some(
                (c.year as int, c.month as int, c.day as int, stamp_of(s@, fmt@)),
            )
            &&& 1 <= c.month <= 12
            &&& 1 <= c.day <= 31
        },
{
    match NaiveDateTime::parse_from_str(s, fmt) {
        Ok(t) => Some(CalendarDay { year: t.year(), month: t.month(), day: t.day() }),
        Err(_) => None,
    }
}

/// The calendar day of a time stored in the stored layout, or `None` when
/// the text does not parse.
pub fn stored_day(text: &str) -> (r: Option<CalendarDay>)
    ensures
        (r is Some) == datetime_parses(text@, "%Y-%m-%d %H:%M:%S"@),
        r matches Some(d) ==> {
            &&& parsed_datetime(text@, "%Y-%m-%d %H:%M:%S"@) == Some(
                (
                    d.year as int,
                    d.month as int,
                    d.day as int,
                    stamp_of(text@, "%Y-%m-%d %H:%M:%S"@),
                ),
            )
            &&& 1 <= d.month <= 12
            &&& 1 <= d.day <= 31
        },
{
    parse_calendar_day(text, stored_time_format())
}

/// The whole seconds from `then` to the clock reading `now_secs` seconds
/// and `now_nanos` nanoseconds, counted toward zero, as chrono's
/// `(now - then).num_seconds()` counts them for a `then` on a whole second.
pub open spec fn seconds_toward_zero(now_secs: int, now_nanos: int, then: int) -> int {
    let d = now_secs - then;
    if d < 0 && now_nanos > 0 {
        d + 1
    } else {
        d
    }
}

/// Whole seconds from `then` to a clock reading, counted toward zero.
pub fn seconds_since(now_secs: i64, now_nanos: u32, then: i64) -> (r: i64)
    requires
        stamp_in_range(now_secs as int),
        stamp_in_range(then as int),
    ensures
        r == seconds_toward_zero(now_secs as int, now_nanos as int, then as int),
{
    let d = now_secs - then;
    if d < 0 && now_nanos > 0 {
        d + 1
    } else {
        d
    }
}

/// The readable interval for a number of elapsed seconds: empty unless positive.
pub open spec fn elapsed_text(secs: int) -> Seq<char> {
    if secs > 0 {
        interval_text(secs)
    } else {
        Seq::empty()
    }
}

/// The readable interval for a number of elapsed seconds.
pub fn interval_for_elapsed(secs: i64) -> (r: String)
    ensures
        r@ == elapsed_text(secs as int),
{
    if secs > 0 {
        format_interval(secs)
    } else {
        String::new()
    }
}

/// The readable time since the stored time `last`, at the clock reading
/// `now_secs` seconds and `now_nanos` nanoseconds: empty when `last` is
/// empty, does not parse, or is not in the past.
pub open spec fn time_since_text(last: Seq<char>, now_secs: int, now_nanos: int) -> Seq<char> {
    if last.len() == 0 || !datetime_parses(last, "%Y-%m-%d %H:%M:%S"@) {
        Seq::empty()
    } else {
        elapsed_text(
            seconds_toward_zero(now_secs, now_nanos, stamp_of(last, "%Y-%m-%d %H:%M:%S"@)),
        )
    }
}

/// Readable time since the stored query time `last_query_time`, at the
/// given clock reading.
pub fn calc_time_interval_at(last_query_time: &str, now_secs: i64, now_nanos: u32) -> (r: String)
    requires
        stamp_in_range(now_secs as int),
    ensures
        r@ == time_since_text(last_query_time@, now_secs as int, now_nanos as int),
{
    if last_query_time.unicode_len() == 0 {
        return String::new();
    }
    match parse_timestamp(last_query_time, stored_time_format()) {
        Some(last) => interval_for_elapsed(seconds_since(now_secs, now_nanos, last)),
        None => String::new(),
    }
}

/// Readable time since the stored query time `last_query_time`: empty when
/// it is empty, does not parse, or is not in the past.
pub fn calc_time_interval(last_query_time: &str) -> (r: String)
    ensures
        exists|now_secs: int, now_nanos: int|
            r@ == time_since_text(last_query_time@, now_secs, now_nanos),
{
    let (now_secs, now_nanos) = local_now_stamp();
    calc_time_interval_at(last_query_time, now_secs, now_nanos)
}

/// Whether a cookie of the given age needs refreshing: when less than ten
/// minutes of its lifetime remain.
pub open spec fn cookie_expiring(age_secs: int, cookie_ttl: u64) -> bool {
    (cookie_ttl as i64) as int - age_secs < 600
}

/// Whether a cookie `age_secs` old, living `cookie_ttl` seconds, needs refreshing.
pub fn cookie_needs_refresh(age_secs: i64, cookie_ttl: u64) -> (r: bool)
    ensures
        r == cookie_expiring(age_secs as int, cookie_ttl),
{
    let remaining: i128 = (cookie_ttl as i64) as i128 - age_secs as i128;
    remaining < 600
}

/// Whether the cookie created at the stored time `created` should be
/// renewed at the clock reading `now_secs` seconds and `now_nanos`
/// nanoseconds: always when the time is unknown (empty), never when it does
/// not parse, else when less than ten minutes of its lifetime remain.
pub open spec fn cookie_refresh_due(created: Seq<char>, cookie_ttl: u64, now_secs: int, now_nanos: int) -> bool {
    if created.len() == 0 {
        true
    } else if !datetime_parses(created, "%Y-%m-%d %H:%M:%S"@) {
        false
    } else {
        cookie_expiring(
            seconds_toward_zero(now_secs, now_nanos, stamp_of(created, "%Y-%m-%d %H:%M:%S"@)),
            cookie_ttl,
        )
    }
}

/// Whether the cookie created at `cookie_created_at` should be renewed, at
/// the given clock reading.
pub fn should_refresh_cookie_at(cookie_created_at: &str, cookie_ttl: u64, now_secs: i64, now_nanos: u32) -> (r: bool)
    requires
        stamp_in_range(now_secs as int),
    ensures
        r == cookie_refresh_due(cookie_created_at@, cookie_ttl, now_secs as int, now_nanos as int),
{
    if cookie_created_at.unicode_len() == 0 {
        return true;
    }
    match parse_timestamp(cookie_created_at, stored_time_format()) {
        Some(created) => cookie_needs_refresh(seconds_since(now_secs, now_nanos, created), cookie_ttl),
        None => false,
    }
}

/// Whether the cookie created at `cookie_created_at` should be renewed
/// before the next query, judged at the moment of the call.
pub fn should_refresh_cookie(cookie_created_at: &str, cookie_ttl: u64) -> (r: bool)
    ensures
        exists|now_secs: int, now_nanos: int|
            r == cookie_refresh_due(cookie_created_at@, cookie_ttl, now_secs, now_nanos),
{
    let (now_secs, now_nanos) = local_now_stamp();
    should_refresh_cookie_at(cookie_created_at, cookie_ttl, now_secs, now_nanos)
}

/// Which earlier figures a difference is measured against.
#[derive(Clone, Copy, Debug, PartialEq, Eq)]
pub enum DiffBasis {
    /// No usable earlier query: the usage so far counts in full.
    Initial,
    /// The month changed since: quotas were reset, the usage counts in full.
    MonthReset,
    /// Same day as the earlier query: today's total keeps growing.
    SameDay,
    /// A later day of the same month: today's total starts anew.
    NewDay,
}

pub open spec fn diff_basis_spec(
    previous_empty: bool,
    last_time_empty: bool,
    previous_readable: bool,
    last: Option<CalendarDay>,
    today: CalendarDay,
) -> DiffBasis {
    if previous_empty || last_time_empty || !previous_readable || last is None {
        DiffBasis::Initial
    } else if month_index(today) > month_index(last->0) {
        DiffBasis::MonthReset
    } else if today == last->0 {
        DiffBasis::SameDay
    } else {
        DiffBasis::NewDay
    }
}

/// How a query's usage difference is computed: from whether the stored
/// figures and their time are present, whether the figures could be read,
/// the stored query's date (`None` when its time did not parse), and today.
pub fn diff_basis(
    previous_empty: bool,
    last_time_empty: bool,
    previous_readable: bool,
    last: Option<CalendarDay>,
    today: CalendarDay,
) -> (r: DiffBasis)
    ensures
        r == diff_basis_spec(previous_empty, last_time_empty, previous_readable, last, today),
{
    if previous_empty || last_time_empty || !previous_readable {
        return DiffBasis::Initial;
    }
    match last {
        None => DiffBasis::Initial,
        Some(l) => {
            let cur = today.year as i64 * 12 + today.month as i64;
            let prev = l.year as i64 * 12 + l.month as i64;
            if cur > prev {
                DiffBasis::MonthReset
            } else if today.year == l.year && today.month == l.month && today.day == l.day {
                DiffBasis::SameDay
            } else {
                DiffBasis::NewDay
            }
        },
    }
}

/// What a scheduled query does with its baselines: whether the day and the
/// month changed since the last query (both count as changed when there
/// was none).
#[derive(Clone, Copy, Debug, PartialEq, Eq)]
pub struct BaselinePlan {
    pub cross_day: bool,
    pub cross_month: bool,
}

/// The baseline plan of a scheduled query, from the date of the last query.
pub fn baseline_plan(last: Option<CalendarDay>, today: CalendarDay) -> (r: BaselinePlan)
    ensures
        last is None ==> r.cross_day && r.cross_month,
        last matches Some(l) ==> r.cross_day == (l != today) && r.cross_month == (month_index(
            today,
        ) > month_index(l)),
{
    match last {
        None => BaselinePlan { cross_day: true, cross_month: true },
        Some(l) => {
            let cur = today.year as i64 * 12 + today.month as i64;
            let prev = l.year as i64 * 12 + l.month as i64;
            BaselinePlan {
                cross_day: !(today.year == l.year && today.month == l.month && today.day == l.day),
                cross_month: cur > prev,
            }
        },
    }
}

/// Whether an on-demand query resets the notification baseline: when there
/// is none yet, when the month changed since the last query, or when a
/// notification goes out.
pub fn baseline_refresh(last_data_empty: bool, last: Option<CalendarDay>, today: CalendarDay, notifying: bool) -> (r: bool)
    ensures
        r == (last_data_empty || notifying || (last matches Some(l) && month_index(today) > month_index(l))),
{
    let cross_month = match last {
        Some(l) => today.year as i64 * 12 + today.month as i64 > l.year as i64 * 12 + l.month as i64,
        None => false,
    };
    last_data_empty || cross_month || notifying
}

/// Which stored figures the differences of a scheduled query are measured
/// against.
#[derive(Clone, Copy, Debug, PartialEq, Eq)]
pub struct ScheduledDiffPlan {
    /// The shown difference uses the notification baseline (on a new day),
    /// else today's first figures.
    pub display_from_baseline: bool,
    /// The notification difference is measured on its own against the
    /// baseline (else it is the shown one).
    pub notify_from_baseline: bool,
    /// Today's difference is measured on its own against today's first
    /// figures (else it is the shown one).
    pub daily_from_today: bool,
}

/// The differences of a scheduled query: the shown one against the baseline
/// on a new day, else against today's first figures; the notification one
/// against the baseline when it and its time are stored; today's one
/// against today's first figures when they are stored.
pub fn scheduled_diff_plan(cross_day: bool, baseline_empty: bool, baseline_time_empty: bool, today_empty: bool) -> (r: ScheduledDiffPlan)
    ensures
        r.display_from_baseline == cross_day,
        r.notify_from_baseline == (!baseline_empty && !baseline_time_empty),
        r.daily_from_today == !today_empty,
{
    ScheduledDiffPlan {
        display_from_baseline: cross_day,
        notify_from_baseline: !baseline_empty && !baseline_time_empty,
        daily_from_today: !today_empty,
    }
}

} // verus!
