use unicom::cron::{
    cron_expression_for_interval, cron_matches, due_tasks, is_credential_error, run_record,
    schedule_for_settings, scheduled_query_writes, should_run_now, ClockTime, CronTask,
    QueryWrites,
};

/// A time on Wednesday 2025-01-15.
fn at(hour: u32, minute: u32, second: u32) -> ClockTime {
    ClockTime { hour, minute, second, day: 15, month: 1, weekday: 3 }
}

#[test]
fn field_star_and_steps() {
    assert!(cron_matches("*", 17, 0, 59));
    assert!(cron_matches("*/5", 10, 0, 59));
    assert!(!cron_matches("*/5", 12, 0, 59));
    assert!(!cron_matches("*/0", 0, 0, 59));
    assert!(!cron_matches("*/x", 0, 0, 59));
    assert!(cron_matches("*/3", 7, 1, 12));
}

#[test]
fn field_numbers_and_lists() {
    assert!(cron_matches("30", 30, 0, 59));
    assert!(!cron_matches("30", 31, 0, 59));
    assert!(!cron_matches("75", 75, 0, 59));
    assert!(cron_matches("5,10, 15", 15, 0, 59));
    assert!(cron_matches("5,10,15", 10, 0, 59));
    assert!(!cron_matches("5,10,15", 11, 0, 59));
    assert!(!cron_matches("abc", 1, 0, 59));
}

#[test]
fn six_and_five_field_expressions() {
    assert!(should_run_now("0 */5 * * * *", at(10, 15, 0)));
    assert!(!should_run_now("0 */5 * * * *", at(10, 15, 1)));
    assert!(!should_run_now("0 */5 * * * *", at(10, 16, 0)));
    assert!(should_run_now("*/10 8 * * *", at(8, 20, 33)));
    assert!(!should_run_now("*/10 8 * * *", at(9, 20, 33)));
    assert!(!should_run_now("* * *", at(0, 0, 0)));
    assert!(!should_run_now("", at(0, 0, 0)));
}

#[test]
fn date_fields_are_checked() {
    let now = at(8, 0, 0);
    assert!(!should_run_now("0 0 8 1 * *", now));
    assert!(should_run_now("0 0 8 15 * *", now));
    assert!(should_run_now("0 0 8 * * *", now));
    assert!(should_run_now("0 */5 * * * *", now));
    assert!(!should_run_now("30 0 8 * * *", now));
    assert!(should_run_now("0 8 * * *", now));
    assert!(!should_run_now("* * *", now));
    assert!(should_run_now("0 0 8 * 1 *", now));
    assert!(!should_run_now("0 0 8 * 2 *", now));
    assert!(should_run_now("0 0 8 * * 3", now));
    assert!(!should_run_now("0 0 8 * * 0", now));
    assert!(should_run_now("0 8 15 1 3", now));
    assert!(!should_run_now("0 8 15 1 4", now));
    assert!(should_run_now("0 8 */7 * 1,3,5", now));
}

#[test]
fn interval_schedules() {
    assert_eq!(cron_expression_for_interval(5), "0 */5 * * * *");
    assert_eq!(cron_expression_for_interval(59), "0 */59 * * * *");
    assert_eq!(cron_expression_for_interval(60), "0 0 */1 * * *");
    assert_eq!(cron_expression_for_interval(150), "0 0 */2 * * *");
}

#[test]
fn interval_schedule_fires_on_its_minutes() {
    let e = cron_expression_for_interval(15);
    for minute in 0..60 {
        assert_eq!(should_run_now(&e, at(3, minute, 0)), minute % 15 == 0);
        assert!(!should_run_now(&e, at(3, minute, 30)));
    }
    let e = cron_expression_for_interval(180);
    for hour in 0..24 {
        assert_eq!(should_run_now(&e, at(hour, 0, 0)), hour % 3 == 0);
        assert!(!should_run_now(&e, at(hour, 1, 0)));
    }
}

#[test]
fn schedules_for_settings() {
    assert_eq!(schedule_for_settings("telegram", 100, 30), Some("0 */30 * * * *".to_string()));
    assert_eq!(schedule_for_settings("none", 100, 30), None);
    assert_eq!(schedule_for_settings("", 100, 30), None);
    assert_eq!(schedule_for_settings("telegram", 0, 30), None);
    assert_eq!(schedule_for_settings("telegram", 100, 0), None);
}

#[test]
fn credential_errors() {
    assert!(is_credential_error("Cookie已失效"));
    assert!(is_credential_error("查询失败: 登录失败：未获取到Cookie"));
    assert!(is_credential_error("Cookie为空且缺少登录凭证"));
    assert!(!is_credential_error("网络超时"));
}

#[test]
fn due_tasks_in_order() {
    let task = |id: i64, e: &str| CronTask {
        id,
        user_id: id * 10,
        mobile: format!("1380000000{}", id),
        cron_expression: e.to_string(),
    };
    let tasks = vec![
        task(1, "0 */5 * * * *"),
        task(2, "0 */7 * * * *"),
        task(3, "* * * * *"),
        task(4, "bad"),
    ];
    assert_eq!(due_tasks(&tasks, at(1, 10, 0)), vec![0, 2]);
    assert_eq!(due_tasks(&tasks, at(1, 14, 0)), vec![1, 2]);
    assert_eq!(due_tasks(&tasks, at(1, 35, 0)), vec![0, 1, 2]);
}

#[test]
fn run_records() {
    let ok = run_record(None);
    assert_eq!((ok.status.as_str(), ok.message.as_str(), ok.level.as_str()), ("success", "查询成功", "info"));
    let failed = run_record(Some("Cookie已失效"));
    assert_eq!(
        (failed.status.as_str(), failed.message.as_str(), failed.level.as_str()),
        ("failed", "Cookie已失效", "error")
    );
}

#[test]
fn scheduled_query_writes_on_failure() {
    let w = scheduled_query_writes(Some("查询失败: Cookie已失效"), true, true, true);
    assert_eq!(
        w,
        QueryWrites { today: false, baseline: false, notify: false, touch_query_time: true, credential_notice: true }
    );
    let w = scheduled_query_writes(Some("网络超时"), true, true, true);
    assert_eq!(
        w,
        QueryWrites { today: false, baseline: false, notify: false, touch_query_time: false, credential_notice: false }
    );
}

#[test]
fn scheduled_query_writes_on_success() {
    let w = scheduled_query_writes(None, false, true, true);
    assert!(w.today && w.notify && w.baseline && !w.touch_query_time && !w.credential_notice);
    let w = scheduled_query_writes(None, true, false, false);
    assert!(w.today && !w.notify && w.baseline);
    let w = scheduled_query_writes(None, false, true, false);
    assert!(w.today && !w.notify && !w.baseline);
}
