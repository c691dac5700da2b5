use unicom::admin::{
    build_config_update, build_saved_config_update, build_user_update, guest_register_flag,
    guest_register_verb, log_query, retention_days, setting_i32, setting_i64, setting_text,
    toggle_message, toggle_verb, toggled_status,
    SaveConfigRequest, SqlParam, UpdateConfigRequest, UpdateUserRequest,
};

fn empty_update(id: i64) -> UpdateUserRequest {
    UpdateUserRequest {
        id,
        mobile: None,
        nickname: None,
        query_password: None,
        auth_type: None,
        cookie: None,
        appid: None,
        token_online: None,
        status: None,
        notify_enabled: None,
        notify_type: None,
        notify_params: None,
        notify_threshold: None,
        query_interval: None,
        notify_title: None,
        notify_content: None,
    }
}

fn text(p: &SqlParam) -> Option<&str> {
    match p {
        SqlParam::Text(s) => Some(s.as_str()),
        SqlParam::Int(_) => None,
    }
}

fn number(p: &SqlParam) -> Option<i64> {
    match p {
        SqlParam::Int(i) => Some(*i),
        SqlParam::Text(_) => None,
    }
}

#[test]
fn user_update_with_nothing_is_none() {
    assert!(build_user_update(&empty_update(3)).is_none());
}

#[test]
fn user_update_numbers_its_parameters() {
    let mut req = empty_update(42);
    req.nickname = Some("小明".to_string());
    req.notify_threshold = Some(500);
    let st = build_user_update(&req).unwrap();
    assert_eq!(
        st.sql,
        "UPDATE users SET nickname = ?1, notify_threshold = ?2, updated_at = datetime('now') WHERE id = ?3"
    );
    assert_eq!(st.params.len(), 3);
    assert_eq!(text(&st.params[0]), Some("小明"));
    assert_eq!(number(&st.params[1]), Some(500));
    assert_eq!(number(&st.params[2]), Some(42));
}

#[test]
fn toggles() {
    assert_eq!(toggled_status("active"), "disabled");
    assert_eq!(toggled_status("disabled"), "active");
    assert_eq!(toggled_status(toggled_status("active")), "active");
    assert_eq!(toggled_status("weird"), "active");
}

#[test]
fn settings() {
    assert_eq!(setting_i64(Some("12"), 7), 12);
    assert_eq!(setting_i64(Some("x"), 7), 7);
    assert_eq!(setting_i64(None, 7), 7);
    assert_eq!(setting_i32(Some("-3"), 1), -3);
    assert_eq!(retention_days(Some("30")), 30);
    assert_eq!(retention_days(None), 7);
    assert_eq!(guest_register_flag(Some("1")), 1);
    assert_eq!(guest_register_flag(None), 0);
    assert_eq!(setting_text(None, "info"), "info");
    assert_eq!(setting_text(Some("debug"), "info"), "debug");
}

#[test]
fn log_queries() {
    let q = log_query(None, None);
    assert_eq!(q.where_clause, "");
    assert_eq!(q.count_sql, "SELECT COUNT(*) FROM system_logs ");
    assert!(q.select_sql.ends_with("ORDER BY created_at DESC LIMIT ?1 OFFSET ?2"));
    let q = log_query(Some("cron"), Some("error"));
    assert_eq!(q.where_clause, "WHERE log_type = ?1 AND log_level = ?2");
    assert!(q.select_sql.ends_with("LIMIT ?3 OFFSET ?4"));
    assert_eq!(q.params, vec!["cron".to_string(), "error".to_string()]);
    let q = log_query(None, Some("warn"));
    assert_eq!(q.where_clause, "WHERE log_level = ?1");
    assert_eq!(q.params, vec!["warn".to_string()]);
}

#[test]
fn config_update_stamps_cookie() {
    let req = UpdateConfigRequest {
        nickname: None,
        query_password: None,
        cookie: Some("c=1".to_string()),
        notify_enabled: Some(1),
        notify_type: None,
        notify_params: None,
        notify_threshold: None,
        query_interval: None,
    };
    let st = build_config_update(&req, 9).unwrap();
    assert_eq!(
        st.sql,
        "UPDATE users SET cookie = ?, cookie_created_at = datetime('now', 'localtime'), notify_enabled = ?, updated_at = datetime('now', 'localtime') WHERE id = ?"
    );
    assert_eq!(st.params.len(), 3);
    assert_eq!(text(&st.params[0]), Some("c=1"));
    assert_eq!(number(&st.params[1]), Some(1));
    assert_eq!(number(&st.params[2]), Some(9));
    let none = UpdateConfigRequest {
        nickname: None,
        query_password: None,
        cookie: None,
        notify_enabled: None,
        notify_type: None,
        notify_params: None,
        notify_threshold: None,
        query_interval: None,
    };
    assert!(build_config_update(&none, 9).is_none());
}

#[test]
fn saved_config_update() {
    let req = SaveConfigRequest {
        nickname: None,
        query_password: None,
        auth_type: Some("token".to_string()),
        appid: None,
        token_online: None,
        notify_enabled: None,
        notify_type: Some("telegram".to_string()),
        notify_params: None,
        notify_threshold: None,
        query_interval: None,
        notify_title: None,
        notify_subtitle: None,
        notify_content: None,
    };
    let st = build_saved_config_update(&req, 5).unwrap();
    assert_eq!(
        st.sql,
        "UPDATE users SET auth_type = ?, notify_type = ?, updated_at = datetime('now', 'localtime') WHERE id = ?"
    );
    assert_eq!(number(&st.params[2]), Some(5));
}

#[test]
fn toggle_words() {
    assert_eq!(toggle_verb("active"), "启用");
    assert_eq!(toggle_verb("disabled"), "禁用");
    assert_eq!(toggle_message("active"), "已启用");
    assert_eq!(toggle_message("disabled"), "已禁用");
    assert_eq!(guest_register_verb(1), "启用");
    assert_eq!(guest_register_verb(0), "禁用");
    assert_eq!(guest_register_verb(2), "禁用");
}
