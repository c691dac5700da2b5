use unicom::unicom::{
    balance_from_reply, check_flow_fields, is_missing_user_error, join_cookies, login_needed,
    plan_login, plan_login_at, query_begin, query_next, reply_is_bare_number, should_relogin, QueryAction,
    QueryEvent, QueryPhase, UnicomError,
};

#[test]
fn cookies_from_headers() {
    let h = vec![
        "JSESSIONID=abc; Path=/; HttpOnly".to_string(),
        "token=xyz".to_string(),
        "c_id=1;Domain=.10010.com".to_string(),
    ];
    assert_eq!(join_cookies(&h).unwrap(), "JSESSIONID=abc; token=xyz; c_id=1");
    assert_eq!(join_cookies(&vec![]).unwrap_err(), UnicomError::NoCookie);
    assert_eq!(join_cookies(&vec![";x".to_string()]).unwrap(), "");
}

#[test]
fn flow_replies() {
    assert!(reply_is_bare_number(" 999 \n"));
    assert!(reply_is_bare_number("-1"));
    assert!(!reply_is_bare_number("{\"code\":\"0000\"}"));
    assert_eq!(check_flow_fields(Some("0000"), true, false, false), Ok(()));
    assert_eq!(check_flow_fields(None, false, false, true), Ok(()));
    assert_eq!(check_flow_fields(Some("9999"), true, true, true), Err(UnicomError::CookieExpired));
    assert_eq!(check_flow_fields(None, false, false, false), Err(UnicomError::CookieExpired));
}

#[test]
fn balance_replies() {
    let b = balance_from_reply(Some("0000"), None, Some("12.30"), None, Some("5.00")).unwrap();
    assert_eq!((b.balance.as_str(), b.real_fee.as_str(), b.can_use_fee.as_str()), ("12.30", "0.00", "5.00"));
    let e = balance_from_reply(Some("1001"), Some("系统繁忙"), None, None, None).err().unwrap();
    assert_eq!(e.message(), "余额查询失败: 系统繁忙");
    let e = balance_from_reply(Some("1001"), None, None, None, None).err().unwrap();
    assert_eq!(e.message(), "余额查询失败: Cookie已失效");
    assert!(balance_from_reply(None, None, None, None, None).is_ok());
}

#[test]
fn login_planning() {
    assert_eq!(login_needed(true, true, false), Ok(true));
    assert_eq!(login_needed(true, false, true), Ok(true));
    assert_eq!(login_needed(true, false, false), Ok(false));
    assert_eq!(login_needed(false, true, false), Err(UnicomError::MissingCredentials));
    assert_eq!(login_needed(false, false, true), Ok(false));
    assert_eq!(plan_login("app", "tok", "", "", 7200), Ok(true));
    assert_eq!(plan_login("app", "tok", "c=1", "", 7200), Ok(true));
    assert_eq!(plan_login("app", "tok", "c=1", "bad", 7200), Ok(false));
    assert_eq!(plan_login("app", "tok", "c=1", "2000-01-01 00:00:00", 7200), Ok(true));
    assert_eq!(plan_login("", "tok", "", "", 7200), Err(UnicomError::MissingCredentials));
    assert_eq!(plan_login("", "", "c=1", "", 7200), Ok(false));
}

#[test]
fn error_messages() {
    assert_eq!(UnicomError::NoCookie.message(), "登录失败：未获取到Cookie");
    assert_eq!(UnicomError::CookieExpired.message(), "Cookie已失效");
    assert_eq!(UnicomError::MissingCredentials.message(), "Cookie为空且缺少登录凭证");
    assert!(should_relogin("查询失败: Cookie已失效", "app"));
    assert!(!should_relogin("查询失败: Cookie已失效", ""));
    assert!(!should_relogin("网络错误", "app"));
    assert!(is_missing_user_error("用户不存在"));
    assert!(!is_missing_user_error("x"));
}

#[test]
fn query_with_fresh_cookie() {
    let (p, a) = query_begin(false);
    assert_eq!(a, QueryAction::QueryFlow);
    let (p, a) = query_next(p, QueryEvent::FlowSucceeded, "app");
    assert_eq!(a, QueryAction::QueryBalance);
    let (p, a) = query_next(p, QueryEvent::BalanceAnswered, "app");
    assert_eq!(a, QueryAction::Finish { cookie_renewed: false });
    assert_eq!(p, QueryPhase::Finished);
}

#[test]
fn query_logs_in_again_once() {
    let (p, a) = query_begin(true);
    assert_eq!(a, QueryAction::Login);
    let (p, _) = query_next(p, QueryEvent::LoginSucceeded, "app");
    let (p, a) = query_next(p, QueryEvent::FlowFailed("Cookie已失效".to_string()), "app");
    assert_eq!(a, QueryAction::Login);
    let (p, a) = query_next(p, QueryEvent::LoginSucceeded, "app");
    assert_eq!(a, QueryAction::QueryFlow);
    let (p, a) = query_next(p, QueryEvent::FlowFailed("Cookie已失效".to_string()), "app");
    assert_eq!(a, QueryAction::Fail("Cookie已失效".to_string()));
    assert_eq!(p, QueryPhase::Failed);
}

#[test]
fn query_failures() {
    let (p, _) = query_begin(false);
    let (_, a) = query_next(p, QueryEvent::FlowFailed("Cookie已失效".to_string()), "");
    assert_eq!(a, QueryAction::Fail("Cookie已失效".to_string()));
    let (_, a) = query_next(p, QueryEvent::FlowFailed("HTTP 500".to_string()), "app");
    assert_eq!(a, QueryAction::Fail("HTTP 500".to_string()));
    let (p, _) = query_begin(true);
    let (_, a) = query_next(p, QueryEvent::LoginFailed("登录请求失败".to_string()), "app");
    assert_eq!(a, QueryAction::Fail("登录请求失败".to_string()));
    let (q, a) = query_next(p, QueryEvent::BalanceAnswered, "app");
    assert_eq!((q, a), (p, QueryAction::Login));
    let (p, _) = query_begin(true);
    let (p, _) = query_next(p, QueryEvent::LoginSucceeded, "app");
    let (p, _) = query_next(p, QueryEvent::FlowSucceeded, "app");
    let (_, a) = query_next(p, QueryEvent::BalanceAnswered, "app");
    assert_eq!(a, QueryAction::Finish { cookie_renewed: true });
}

#[test]
fn relogin_after_expired_cookie_stores_the_new_cookie() {
    let (p, a) = query_begin(false);
    assert_eq!(a, QueryAction::QueryFlow);
    let (p, a) = query_next(p, QueryEvent::FlowFailed("查询失败: Cookie已失效".to_string()), "app");
    assert_eq!(a, QueryAction::Login);
    let (p, a) = query_next(p, QueryEvent::LoginSucceeded, "app");
    assert_eq!(a, QueryAction::QueryFlow);
    let (p, a) = query_next(p, QueryEvent::FlowSucceeded, "app");
    assert_eq!(a, QueryAction::QueryBalance);
    let (_, a) = query_next(p, QueryEvent::BalanceAnswered, "app");
    assert_eq!(a, QueryAction::Finish { cookie_renewed: true });
}

#[test]
fn login_plan_at_a_clock_reading() {
    let created = "2025-01-15 10:00:00";
    let stored: i64 = 1_736_935_200;
    assert_eq!(plan_login_at("app", "tok", "c=1", created, 7200, stored + 60, 0), Ok(false));
    assert_eq!(plan_login_at("app", "tok", "c=1", created, 7200, stored + 7000, 0), Ok(true));
    assert_eq!(plan_login_at("", "", "c=1", created, 7200, stored + 7000, 0), Ok(false));
    assert_eq!(plan_login_at("app", "tok", "", created, 7200, stored + 60, 0), Ok(true));
}
