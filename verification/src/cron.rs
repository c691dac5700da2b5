//! Schedules: matching cron expressions against the clock, the schedule
//! that a query interval stands for, and which tasks are due.
use vstd::prelude::*;
use vstd::string::*;
use vstd::arithmetic::div_mod::{lemma_fundamental_div_mod, lemma_mod_multiples_basic};
use vstd::arithmetic::mul::{lemma_mul_is_commutative, lemma_mul_unary_negation};

use crate::text::{
    all_ascii_digits, is_ascii_digit, is_white_space, lemma_nat_decimal_digits, lemma_piece_len_shape,
    parse_int_seq, piece_len, trim_start_seq,
    lemma_parse_nat_decimal, lemma_split_ws_single, lemma_split_ws_word, nat_decimal,
    contains, i64_to_decimal, int_decimal, seq_contains,
    parse_i32, parse_i32_seq, seq_starts_with, split_char, split_char_seq, split_whitespace,
    split_ws_seq, starts_with, str_eq, trim, trim_seq,
};

verus! {

/// Local wall-clock time, as chrono's `Timelike` and `Datelike` accessors
/// give it: the time of day, the day of the month (from 1), the month (from
/// 1) and the weekday counted from Sunday (Sunday 0 … Saturday 6).
#[derive(Clone, Copy, Debug, PartialEq, Eq)]
pub struct ClockTime {
    pub hour: u32,
    pub minute: u32,
    pub second: u32,
    pub day: u32,
    pub month: u32,
    pub weekday: u32,
}

/// The readings a calendar time can have.
pub open spec fn clock_valid(t: ClockTime) -> bool {
    &&& t.hour <= 23
    &&& t.minute <= 59
    &&& t.second <= 59
    &&& 1 <= t.day <= 31
    &&& 1 <= t.month <= 12
    &&& t.weekday <= 6
}

/// Whether one field of a cron expression admits `value`:
/// `*`; `*/N` (every N-th value counted from `min`); a single number inside
/// `[min, max]`; or a comma list of numbers (each piece trimmed).
pub open spec fn cron_field_matches(field: Seq<char>, value: int, min: int, max: int) -> bool {
    if field == "*"@ {
        true
    } else if seq_starts_with(field, "*/"@) {
        match parse_i32_seq(field.subrange(2, field.len() as int)) {
            Some(step) => step > 0 && (value - min) % (step as int) == 0,
            None => false,
        }
    } else {
        match parse_i32_seq(field) {
            Some(n) => min <= n <= max && value == n,
            None => exists|k: int|
                0 <= k < split_char_seq(field, ',').len() && #[trigger] parse_i32_seq(
                    trim_seq(split_char_seq(field, ',')[k]),
                ) == Some(value as i32),
        }
    }
}

/// Whether the date fields of an expression (day of month, month, weekday,
/// from position `first`) admit the date of `t`.
pub open spec fn cron_date_due(parts: Seq<Seq<char>>, first: int, t: ClockTime) -> bool {
    &&& cron_field_matches(parts[first], t.day as int, 1, 31)
    &&& cron_field_matches(parts[first + 1], t.month as int, 1, 12)
    &&& cron_field_matches(parts[first + 2], t.weekday as int, 0, 6)
}

/// Whether a cron expression fires at `t`. Six fields read as
/// `sec min hour day month weekday`, five as `min hour day month weekday`
/// (any second); every field must admit its part of `t`; fewer than five
/// fields never fire.
pub open spec fn cron_due(expr: Seq<char>, t: ClockTime) -> bool {
    let parts = split_ws_seq(expr);
    if parts.len() < 5 {
        false
    } else if parts.len() >= 6 {
        &&& cron_field_matches(parts[1], t.minute as int, 0, 59)
        &&& cron_field_matches(parts[2], t.hour as int, 0, 23)
        &&& cron_field_matches(parts[0], t.second as int, 0, 59)
        &&& cron_date_due(parts, 3, t)
    } else {
        &&& cron_field_matches(parts[0], t.minute as int, 0, 59)
        &&& cron_field_matches(parts[1], t.hour as int, 0, 23)
        &&& cron_date_due(parts, 2, t)
    }
}

proof fn lemma_neg_divisible(x: int, m: int)
    requires
        m > 0,
    ensures
        ((-x) % m == 0) == (x % m == 0),
{
    lemma_fundamental_div_mod(x, m);
    lemma_fundamental_div_mod(-x, m);
    if x % m == 0 {
        let q = x / m;
        lemma_mul_is_commutative(m, q);
        lemma_mul_unary_negation(q, m);
        assert(-x == (-q) * m);
        lemma_mod_multiples_basic(-q, m);
    }
    if (-x) % m == 0 {
        let q = (-x) / m;
        lemma_mul_is_commutative(m, q);
        lemma_mul_unary_negation(q, m);
        assert(x == (-q) * m);
        lemma_mod_multiples_basic(-q, m);
    }
}

proof fn lemma_digits_trim(x: Seq<char>)
    requires
        all_ascii_digits(x),
    ensures
        trim_seq(x) == x,
{
    if x.len() > 0 {
        assert(is_ascii_digit(x[0]));
        assert(!is_white_space(x[0]));
        assert(trim_start_seq(x) == x);
        assert(is_ascii_digit(x.last()));
        assert(!is_white_space(x.last()));
    }
}

proof fn lemma_digits_piece(x: Seq<char>)
    requires
        all_ascii_digits(x),
    ensures
        split_char_seq(x, ',') == seq![x],
{
    lemma_piece_len_shape(x, ',');
    if piece_len(x, ',') < x.len() {
        assert(is_ascii_digit(x[piece_len(x, ',') as int]));
    }
}

proof fn lemma_split_digits_pair(x: Seq<char>, y: Seq<char>)
    requires
        all_ascii_digits(x),
        all_ascii_digits(y),
    ensures
        split_char_seq(x + seq![','] + y, ',') == seq![x, y],
{
    let f = x + seq![','] + y;
    lemma_piece_len_shape(f, ',');
    let k = piece_len(f, ',');
    if k < x.len() {
        assert(f[k as int] == x[k as int]);
        assert(is_ascii_digit(x[k as int]));
    }
    if k > x.len() {
        assert(f[x.len() as int] == ',');
    }
    assert(k == x.len());
    assert(f.subrange(0, k as int) =~= x);
    assert(f.subrange(k as int + 1, f.len() as int) =~= y);
    lemma_digits_piece(y);
}

/// In a comma list of numbers every listed number counts, the first as much
/// as the last: a field `a,b` admits both `a` and `b`, whatever the range
/// the field stands for.
pub proof fn law_comma_list_admits_each_number(a: nat, b: nat, min: int, max: int)
    requires
        a <= i32::MAX,
        b <= i32::MAX,
    ensures
        cron_field_matches(nat_decimal(a) + ","@ + nat_decimal(b), a as int, min, max),
        cron_field_matches(nat_decimal(a) + ","@ + nat_decimal(b), b as int, min, max),
{
    reveal_strlit(",");
    reveal_strlit("*");
    reveal_strlit("*/");
    let x = nat_decimal(a);
    let y = nat_decimal(b);
    lemma_nat_decimal_digits(a);
    lemma_nat_decimal_digits(b);
    lemma_parse_nat_decimal(a);
    lemma_parse_nat_decimal(b);
    let f = x + ","@ + y;
    assert(","@ =~= seq![',']);
    assert(f =~= x + seq![','] + y);
    assert(f[0] == x[0]);
    assert(is_ascii_digit(f[0]));
    assert(f != "*"@) by {
        if f == "*"@ {
            assert(f[0] == '*');
        }
    }
    assert(!seq_starts_with(f, "*/"@)) by {
        if seq_starts_with(f, "*/"@) {
            assert(f.subrange(0, 2)[0] == f[0]);
            assert("*/"@[0] == '*');
        }
    }
    assert(!all_ascii_digits(f)) by {
        assert(f[x.len() as int] == ',');
    }
    assert(f[0] != '+' && f[0] != '-');
    assert(parse_int_seq(f) is None);
    assert(parse_i32_seq(f) is None);
    lemma_split_digits_pair(x, y);
    let ps = split_char_seq(f, ',');
    assert(ps == seq![x, y]);
    lemma_digits_trim(x);
    lemma_digits_trim(y);
    assert(parse_i32_seq(trim_seq(ps[0])) == Some(a as i32));
    assert(parse_i32_seq(trim_seq(ps[1])) == Some(b as i32));
}

/// Matches one cron field against a value.
pub fn cron_matches(field: &str, value: i32, min: i32, max: i32) -> (r: bool)
    requires
        i32::MIN <= value - min <= i32::MAX,
    ensures
        r == cron_field_matches(field@, value as int, min as int, max as int),
{
    proof {
        reveal_strlit("*/");
    }
    if str_eq(field, "*") {
        return true;
    }
    if starts_with(field, "*/") {
        let n = field.unicode_len();
        let rest = field.substring_char(2, n);
        match parse_i32(rest) {
            Some(step) => {
                if step > 0 {
                    let d = value - min;
                    let dd: i64 = if d < 0 {
                        -(d as i64)
                    } else {
                        d as i64
                    };
                    let r = dd % (step as i64) == 0;
                    proof {
                        lemma_neg_divisible(d as int, step as int);
                    }
                    return r;
                }
                return false;
            },
            None => {
                return false;
            },
        }
    }
    if let Some(n) = parse_i32(field) {
        return n >= min && n <= max && value == n;
    }
    let pieces = split_char(field, ',');
    let ghost ps = split_char_seq(field@, ',');
    assert(pieces@.map_values(|w: &str| w@).len() == ps.len());
    let mut k: usize = 0;
    while k < pieces.len()
        invariant
            pieces@.map_values(|w: &str| w@) == ps,
            ps == split_char_seq(field@, ','),
            field@ != "*"@,
            !seq_starts_with(field@, "*/"@),
            parse_i32_seq(field@) is None,
            k <= pieces.len(),
            forall|j: int| 0 <= j < k ==> #[trigger] parse_i32_seq(trim_seq(ps[j])) != Some(value),
        decreases pieces.len() - k,
    {
        assert(pieces@.map_values(|w: &str| w@)[k as int] == pieces@[k as int]@);
        if let Some(n) = parse_i32(trim(pieces[k])) {
            if value == n {
                assert(parse_i32_seq(trim_seq(ps[k as int])) == Some(value));
                return true;
            }
        }
        k += 1;
    }
    false
}

/// Whether a cron expression fires at the calendar time `now`.
pub fn should_run_now(cron_expr: &str, now: ClockTime) -> (r: bool)
    requires
        clock_valid(now),
    ensures
        r == cron_due(cron_expr@, now),
{
    let parts = split_whitespace(cron_expr);
    let ghost ps = split_ws_seq(cron_expr@);
    assert(parts@.map_values(|w: &str| w@).len() == ps.len());
    if parts.len() < 5 {
        return false;
    }
    let sec = now.second as i32;
    let min = now.minute as i32;
    let hour = now.hour as i32;
    let day = now.day as i32;
    let month = now.month as i32;
    let weekday = now.weekday as i32;
    assert forall|k: int| 0 <= k < parts.len() implies parts@.map_values(|w: &str| w@)[k]
        == #[trigger] parts@[k]@ by {}
    if parts.len() >= 6 {
        cron_matches(parts[1], min, 0, 59) && cron_matches(parts[2], hour, 0, 23) && cron_matches(
            parts[0],
            sec,
            0,
            59,
        ) && cron_matches(parts[3], day, 1, 31) && cron_matches(parts[4], month, 1, 12)
            && cron_matches(parts[5], weekday, 0, 6)
    } else {
        cron_matches(parts[0], min, 0, 59) && cron_matches(parts[1], hour, 0, 23) && cron_matches(
            parts[2],
            day,
            1,
            31,
        ) && cron_matches(parts[3], month, 1, 12) && cron_matches(parts[4], weekday, 0, 6)
    }
}

// ───────────────────────── credential failures ─────────────────────────

/// The messages by which a failed query shows that the stored credentials no
/// longer work (expired or missing cookie, failed login).
pub open spec fn is_credential_message(msg: Seq<char>) -> bool {
    ||| seq_contains(msg, "Cookie已失效"@)
    ||| seq_contains(msg, "Cookie 为空"@)
    ||| seq_contains(msg, "Cookie为空"@)
    ||| seq_contains(msg, "缺少登录凭证"@)
    ||| seq_contains(msg, "未获取到Cookie"@)
    ||| seq_contains(msg, "登录失败"@)
    ||| seq_contains(msg, "登录请求失败"@)
}

/// Whether a query error means the credentials have expired.
pub fn is_credential_error(err_msg: &str) -> (r: bool)
    ensures
        r == is_credential_message(err_msg@),
{
    contains(err_msg, "Cookie已失效") || contains(err_msg, "Cookie 为空") || contains(
        err_msg,
        "Cookie为空",
    ) || contains(err_msg, "缺少登录凭证") || contains(err_msg, "未获取到Cookie") || contains(
        err_msg,
        "登录失败",
    ) || contains(err_msg, "登录请求失败")
}

// ───────────────────────── per-user schedules ─────────────────────────

/// The schedule that a query interval (in minutes) stands for: every N
/// minutes below an hour, else every `interval / 60` hours on the hour.
pub open spec fn interval_schedule(interval: i32) -> Seq<char> {
    if interval >= 60 {
        "0 0 */"@ + int_decimal(interval / 60) + " * * *"@
    } else {
        "0 */"@ + int_decimal(interval as int) + " * * * *"@
    }
}

/// Whether a user's settings call for a periodic query: a notification
/// channel other than `none`, a positive threshold and a positive interval.
pub open spec fn wants_schedule(notify_type: Seq<char>, threshold: i32, interval: i32) -> bool {
    notify_type.len() > 0 && notify_type != "none"@ && threshold > 0 && interval > 0
}

/// The cron expression for a query interval in minutes.
pub fn cron_expression_for_interval(query_interval: i32) -> (r: String)
    ensures
        r@ == interval_schedule(query_interval),
{
    if query_interval >= 60 {
        let hours = query_interval / 60;
        let mut s = "0 0 */".to_owned();
        s.append(i64_to_decimal(hours as i64).as_str());
        s.append(" * * *");
        s
    } else {
        let mut s = "0 */".to_owned();
        s.append(i64_to_decimal(query_interval as i64).as_str());
        s.append(" * * * *");
        s
    }
}

/// The schedule a user's saved settings call for: `Some(expression)` to
/// create or refresh the task, `None` to drop it.
pub fn schedule_for_settings(notify_type: &str, notify_threshold: i32, query_interval: i32) -> (r:
    Option<String>)
    ensures
        wants_schedule(notify_type@, notify_threshold, query_interval) ==> (r matches Some(e)
            && e@ == interval_schedule(query_interval)),
        !wants_schedule(notify_type@, notify_threshold, query_interval) ==> r is None,
{
    if notify_type.unicode_len() > 0 && !str_eq(notify_type, "none") && notify_threshold > 0
        && query_interval > 0 {
        Some(cron_expression_for_interval(query_interval))
    } else {
        None
    }
}

proof fn lemma_zero_field(value: int, min: int, max: int)
    requires
        min <= 0 <= max,
    ensures
        cron_field_matches(seq!['0'], value, min, max) == (value == 0),
{
    reveal_strlit("*");
    reveal_strlit("*/");
    assert(seq!['0'][0] != "*"@[0]);
    assert(nat_decimal(0) =~= seq!['0']);
    lemma_parse_nat_decimal(0);
}

proof fn lemma_star_field(value: int, min: int, max: int)
    ensures
        cron_field_matches(seq!['*'], value, min, max),
{
    reveal_strlit("*");
    assert(seq!['*'] =~= "*"@);
}

proof fn lemma_step_field(n: int, value: int, min: int, max: int)
    requires
        0 < n <= i32::MAX,
    ensures
        cron_field_matches(seq!['*', '/'] + nat_decimal(n as nat), value, min, max) == ((value - min)
            % n == 0),
{
    reveal_strlit("*");
    reveal_strlit("*/");
    let f = seq!['*', '/'] + nat_decimal(n as nat);
    lemma_nat_decimal_digits(n as nat);
    assert(f.len() > 1);
    assert(f != "*"@);
    assert(f.subrange(0, 2) =~= "*/"@);
    assert(f.subrange(2, f.len() as int) =~= nat_decimal(n as nat));
    lemma_parse_nat_decimal(n as nat);
}

proof fn lemma_no_white_space_digits(n: nat)
    ensures
        nat_decimal(n).len() >= 1,
        forall|j: int| 0 <= j < nat_decimal(n).len() ==> !is_white_space(#[trigger] nat_decimal(n)[j]),
{
    lemma_nat_decimal_digits(n);
    assert forall|j: int| 0 <= j < nat_decimal(n).len() implies !is_white_space(
        #[trigger] nat_decimal(n)[j],
    ) by {
        assert(is_ascii_digit(nat_decimal(n)[j]));
    }
}

/// The schedule saved for a query interval fires exactly when that interval
/// says: below an hour, at second 0 of each minute that is a multiple of the
/// interval; from an hour up, at second 0 of minute 0 of each hour that is a
/// multiple of the interval's whole hours.
pub proof fn law_interval_schedule_fires(interval: i32, t: ClockTime)
    requires
        interval > 0,
    ensures
        interval < 60 ==> (cron_due(interval_schedule(interval), t) <==> (t.second == 0 && (
        t.minute as int) % (interval as int) == 0)),
        interval >= 60 ==> (cron_due(interval_schedule(interval), t) <==> (t.second == 0
            && t.minute == 0 && (t.hour as int) % ((interval / 60) as int) == 0)),
{
    reveal_strlit("0 */");
    reveal_strlit(" * * * *");
    reveal_strlit("0 0 */");
    reveal_strlit(" * * *");
    let zero = seq!['0'];
    let star = seq!['*'];
    let sp = ' ';
    assert(is_white_space(sp));
    assert(forall|j: int| 0 <= j < 1 ==> !is_white_space(#[trigger] zero[j]));
    assert(forall|j: int| 0 <= j < 1 ==> !is_white_space(#[trigger] star[j]));
    lemma_split_ws_single(star);
    lemma_split_ws_word(star, sp, star);
    let tail2 = star + seq![sp] + star;
    lemma_split_ws_word(star, sp, tail2);
    let tail3 = star + seq![sp] + tail2;
    if interval < 60 {
        let n = interval;
        let d = nat_decimal(n as nat);
        lemma_no_white_space_digits(n as nat);
        let step = seq!['*', '/'] + d;
        assert forall|j: int| 0 <= j < step.len() implies !is_white_space(#[trigger] step[j]) by {
            if j >= 2 {
                assert(step[j] == d[j - 2]);
            }
        }
        lemma_split_ws_word(star, sp, tail3);
        let tail4 = star + seq![sp] + tail3;
        lemma_split_ws_word(step, sp, tail4);
        let tail5 = step + seq![sp] + tail4;
        lemma_split_ws_word(zero, sp, tail5);
        assert(interval_schedule(interval) =~= zero + seq![sp] + tail5);
        let parts = split_ws_seq(interval_schedule(interval));
        assert(parts =~= seq![zero, step, star, star, star, star]);
        lemma_zero_field(t.second as int, 0, 59);
        lemma_step_field(n as int, t.minute as int, 0, 59);
        lemma_star_field(t.hour as int, 0, 23);
        lemma_star_field(t.day as int, 1, 31);
        lemma_star_field(t.month as int, 1, 12);
        lemma_star_field(t.weekday as int, 0, 6);
    } else {
        let h = interval / 60;
        let d = nat_decimal(h as nat);
        lemma_no_white_space_digits(h as nat);
        let step = seq!['*', '/'] + d;
        assert forall|j: int| 0 <= j < step.len() implies !is_white_space(#[trigger] step[j]) by {
            if j >= 2 {
                assert(step[j] == d[j - 2]);
            }
        }
        lemma_split_ws_word(step, sp, tail3);
        let tail4 = step + seq![sp] + tail3;
        lemma_split_ws_word(zero, sp, tail4);
        let tail5 = zero + seq![sp] + tail4;
        lemma_split_ws_word(zero, sp, tail5);
        assert(int_decimal(h as int) == d);
        assert(interval_schedule(interval) =~= zero + seq![sp] + tail5);
        let parts = split_ws_seq(interval_schedule(interval));
        assert(parts =~= seq![zero, zero, step, star, star, star]);
        lemma_zero_field(t.second as int, 0, 59);
        lemma_zero_field(t.minute as int, 0, 59);
        lemma_step_field(h, t.hour as int, 0, 23);
        lemma_star_field(t.day as int, 1, 31);
        lemma_star_field(t.month as int, 1, 12);
        lemma_star_field(t.weekday as int, 0, 6);
    }
}

// ───────────────────────── due tasks ─────────────────────────

/// An active periodic query: the task, its user, and its schedule.
pub struct CronTask {
    pub id: i64,
    pub user_id: i64,
    pub mobile: String,
    pub cron_expression: String,
}

pub open spec fn task_due(t: CronTask, now: ClockTime) -> bool {
    cron_due(t.cron_expression@, now)
}

/// Positions, in increasing order, of the tasks whose schedule fires now.
pub fn due_tasks(tasks: &Vec<CronTask>, now: ClockTime) -> (r: Vec<usize>)
    requires
        clock_valid(now),
    ensures
        forall|k: int| 0 <= k < r.len() ==> #[trigger] r@[k] < tasks.len() && task_due(
            tasks@[r@[k] as int],
            now,
        ),
        forall|k: int, l: int| 0 <= k < l < r.len() ==> r@[k] < r@[l],
        forall|i: int| 0 <= i < tasks.len() && task_due(#[trigger] tasks@[i], now) ==> r@.contains(
            i as usize,
        ),
{
    let mut out: Vec<usize> = Vec::new();
    let mut i: usize = 0;
    while i < tasks.len()
        invariant
            i <= tasks.len(),
            clock_valid(now),
            forall|k: int| 0 <= k < out.len() ==> #[trigger] out@[k] < i && task_due(
                tasks@[out@[k] as int],
                now,
            ),
            forall|k: int, l: int| 0 <= k < l < out.len() ==> out@[k] < out@[l],
            forall|j: int| 0 <= j < i && task_due(#[trigger] tasks@[j], now) ==> out@.contains(
                j as usize,
            ),
        decreases tasks.len() - i,
    {
        let ghost old_out = out@;
        if should_run_now(tasks[i].cron_expression.as_str(), now) {
            out.push(i);
            assert(out@[out.len() - 1] == i);
        }
        assert forall|j: int| 0 <= j < i + 1 && task_due(#[trigger] tasks@[j], now) implies out@.contains(
            j as usize,
        ) by {
            if j < i {
                let w = choose|w: int| 0 <= w < old_out.len() && old_out[w] == j as usize;
                assert(out@[w] == old_out[w]);
            } else {
                assert(out@[out.len() - 1] == i);
            }
        }
        i += 1;
    }
    out
}

/// What a finished scheduled run records: its status, its message and the
/// level of the log line.
pub struct RunRecord {
    pub status: String,
    pub message: String,
    pub level: String,
}

/// The record of a scheduled run: `success` with a fixed message, or
/// `failed` with the error's text.
pub fn run_record(error: Option<&str>) -> (r: RunRecord)
    ensures
        error is None ==> r.status@ == "success"@ && r.message@ == "查询成功"@ && r.level@
            == "info"@,
        error matches Some(e) ==> r.status@ == "failed"@ && r.message@ == e@ && r.level@
            == "error"@,
{
    match error {
        None => RunRecord {
            status: "success".to_owned(),
            message: "查询成功".to_owned(),
            level: "info".to_owned(),
        },
        Some(e) => RunRecord {
            status: "failed".to_owned(),
            message: e.to_owned(),
            level: "error".to_owned(),
        },
    }
}

// ───────────────────────── what a scheduled query writes ─────────────────────────

/// What a scheduled query of one user does to the user's row and which
/// notices it sends.
#[derive(Clone, Copy, Debug, PartialEq, Eq)]
pub struct QueryWrites {
    /// Store the new cookie, the query time and today's figures.
    pub today: bool,
    /// Replace the baseline (`last_query_data`) with the new figures.
    pub baseline: bool,
    /// Send a traffic notification and record its time with the baseline.
    pub notify: bool,
    /// Record only the time of the query (the credentials have expired).
    pub touch_query_time: bool,
    /// Send a notice that the credentials have expired.
    pub credential_notice: bool,
}

/// The writes of a scheduled query: a failed query writes nothing but, when
/// its message shows expired credentials, the query time, and sends the
/// credential notice; a query that went through stores today's figures,
/// notifies when notifications may go out and the threshold is reached,
/// and replaces the baseline when it notifies or the month changed.
pub open spec fn query_writes(
    failure: Option<Seq<char>>,
    cross_month: bool,
    may_notify: bool,
    threshold_reached: bool,
) -> QueryWrites {
    match failure {
        Some(msg) => QueryWrites {
            today: false,
            baseline: false,
            notify: false,
            touch_query_time: is_credential_message(msg),
            credential_notice: is_credential_message(msg),
        },
        None => QueryWrites {
            today: true,
            baseline: cross_month || (may_notify && threshold_reached),
            notify: may_notify && threshold_reached,
            touch_query_time: false,
            credential_notice: false,
        },
    }
}

/// The writes of a scheduled query whose error message, if it failed, is
/// `failure`.
pub fn scheduled_query_writes(
    failure: Option<&str>,
    cross_month: bool,
    may_notify: bool,
    threshold_reached: bool,
) -> (r: QueryWrites)
    ensures
        r == query_writes(
            match failure {
                Some(m) => Some(m@),
                None => None,
            },
            cross_month,
            may_notify,
            threshold_reached,
        ),
{
    match failure {
        Some(msg) => {
            let expired = is_credential_error(msg);
            QueryWrites {
                today: false,
                baseline: false,
                notify: false,
                touch_query_time: expired,
                credential_notice: expired,
            }
        },
        None => {
            let notify = may_notify && threshold_reached;
            QueryWrites {
                today: true,
                baseline: cross_month || notify,
                notify,
                touch_query_time: false,
                credential_notice: false,
            }
        },
    }
}

/// A failed scheduled query leaves the stored figures, the baseline and the
/// cookie as they were and sends no traffic notification; it records the
/// query time and sends the credential notice exactly when its message
/// shows expired credentials.
pub proof fn law_failed_query_keeps_data(
    msg: Seq<char>,
    cross_month: bool,
    may_notify: bool,
    threshold_reached: bool,
)
    ensures
        ({
            let w = query_writes(Some(msg), cross_month, may_notify, threshold_reached);
            &&& !w.today && !w.baseline && !w.notify
            &&& w.touch_query_time == is_credential_message(msg)
            &&& w.credential_notice == is_credential_message(msg)
        }),
{
}

/// A scheduled query that went through always stores today's figures; it
/// replaces the baseline exactly when it notifies or the month changed, and
/// it notifies exactly when notifications may go out and the threshold is
/// reached.
pub proof fn law_successful_query_baseline(cross_month: bool, may_notify: bool, threshold_reached: bool)
    ensures
        ({
            let w = query_writes(None, cross_month, may_notify, threshold_reached);
            &&& w.today
            &&& w.notify == (may_notify && threshold_reached)
            &&& w.baseline == (w.notify || cross_month)
            &&& !w.touch_query_time && !w.credential_notice
        }),
{
}

} // verus!
