use unicom::notify::{
    build_notify_content, credential_notice_text, flow_notify_texts, credential_notice_title, credential_notice_wanted,
    default_api_host, flow_notify_gate, flow_notify_message, query_may_notify, render_notify_content, telegram_outcome,
    telegram_request, template_buckets, test_notice, trim_end_char, BucketFigures, BucketRow,
    NotifyError, NotifyGate, NotifyParams,
};

fn figs(tag: &str) -> BucketFigures {
    BucketFigures {
        total: format!("{}T", tag),
        used: format!("{}U", tag),
        remain: format!("{}R", tag),
        usage: format!("{}D", tag),
        today: format!("{}Y", tag),
    }
}

fn nine() -> Vec<BucketFigures> {
    (0..9).map(|k| figs(&k.to_string())).collect()
}

#[test]
fn telegram_requests() {
    let p = NotifyParams {
        bot_token: "123:abc".to_string(),
        chat_id: "42".to_string(),
        api_host: "https://proxy.example//".to_string(),
    };
    let m = telegram_request(&p, "标题", "内容").unwrap();
    assert_eq!(m.url, "https://proxy.example/bot123:abc/sendMessage");
    assert_eq!(m.chat_id, "42");
    assert_eq!(m.text, "*标题*\n\n内容");
    let blank = NotifyParams { api_host: "  ".to_string(), ..p_clone(&p) };
    assert_eq!(telegram_request(&blank, "t", "c").unwrap().url, "https://api.telegram.org/bot123:abc/sendMessage");
    let incomplete = NotifyParams { chat_id: String::new(), ..p_clone(&p) };
    assert!(matches!(telegram_request(&incomplete, "t", "c"), Err(NotifyError::Incomplete)));
}

fn p_clone(p: &NotifyParams) -> NotifyParams {
    NotifyParams { bot_token: p.bot_token.clone(), chat_id: p.chat_id.clone(), api_host: p.api_host.clone() }
}

#[test]
fn telegram_outcomes() {
    assert_eq!(telegram_outcome(true, Some(true), None, "200 OK"), Ok(()));
    assert_eq!(
        telegram_outcome(true, Some(false), Some("Bad Request: chat not found"), "400 Bad Request"),
        Err(NotifyError::Rejected("Telegram 发送失败: Bad Request: chat not found (HTTP 400 Bad Request)".to_string()))
    );
    assert_eq!(
        telegram_outcome(false, None, None, "502 Bad Gateway"),
        Err(NotifyError::Rejected("Telegram 发送失败: 未知错误 (HTTP 502 Bad Gateway)".to_string()))
    );
}

#[test]
fn api_host_helpers() {
    assert_eq!(default_api_host(), "https://api.telegram.org");
    assert_eq!(trim_end_char("a///", '/'), "a");
    assert_eq!(trim_end_char("///", '/'), "");
}

#[test]
fn template_placeholders_are_filled() {
    let t = "[套餐] [时长]\n跳: [所有通用.用量] 钉: [免流不限.用量]\n剩余: [免流不限.剩余] [时间] [日期]";
    let out = render_notify_content(t, "冰激凌", "2025-01-01 10:00:00", "10:00:00", "2025-01-01", "5分钟", &nine(), &vec![]);
    assert_eq!(out, "冰激凌 5分钟\n跳: 0D 钉: 8D\n剩余: 8R 10:00:00 2025-01-01");
    let names: Vec<&str> = template_buckets().iter().map(|b| b.0).collect();
    assert_eq!(names[3], "通用有限");
    assert_eq!(template_buckets()[8].1, "targeted_unlimited");
}

#[test]
fn plain_template_gets_default_text() {
    let rows = vec![BucketRow { key: "common_limited".to_string(), figures: figs("a") }];
    let out = render_notify_content("没有占位符", "套餐A", "2025-01-01 10:00:00", "t", "d", "i", &nine(), &rows);
    assert_eq!(
        out,
        "套餐: 套餐A\n查询时间: 2025-01-01 10:00:00\n通用有限: 总量 aT / 已用 aU / 剩余 aR / 用量 aD / 今日 aY"
    );
    let empty = render_notify_content("", "P", "ts", "t", "d", "i", &nine(), &vec![]);
    assert_eq!(empty, "套餐: P\n查询时间: ts");
}

#[test]
fn flow_notify_titles() {
    let (title, content) = flow_notify_texts("", "[套餐]", "P", "ts", "i", &nine(), &vec![]);
    assert_eq!(title, "📊 流量查询通知");
    assert_eq!(content, "P");
    let (title, _) = flow_notify_texts("[套餐] 提醒", "x", "P", "ts", "i", &nine(), &vec![]);
    assert_eq!(title, "P 提醒");
    let (_, content) = flow_notify_texts("", "[时长] [日期]", "P", "ts", "5分钟", &nine(), &vec![]);
    assert!(content.starts_with("5分钟 20"));
    assert_eq!(build_notify_content("[所有流量.总量]", "P", "ts", "i", &nine(), &vec![]), "2T");
}

#[test]
fn gates() {
    assert_eq!(flow_notify_gate(0, "telegram"), NotifyGate::Disabled);
    assert_eq!(flow_notify_gate(1, "telegram"), NotifyGate::Telegram);
    assert_eq!(flow_notify_gate(1, "bark"), NotifyGate::Unsupported);
    assert!(query_may_notify(1, "telegram"));
    assert!(!query_may_notify(2, "telegram"));
    assert!(!query_may_notify(1, ""));
    assert!(credential_notice_wanted(2, "telegram"));
    assert!(!credential_notice_wanted(0, "telegram"));
}

#[test]
fn notices() {
    assert_eq!(credential_notice_title(), "⚠️ 凭证失效通知");
    assert_eq!(
        credential_notice_text("小王", "138", "Cookie已失效", "10:00"),
        "用户: 小王\n手机号: 138\n错误: Cookie已失效\n时间: 10:00\n\n请尽快更新凭证。"
    );
    assert_eq!(
        test_notice("telegram", "138", "10:00"),
        Ok(("🔔 通知测试".to_string(), "这是一条测试通知\n用户: 138\n时间: 10:00".to_string()))
    );
    assert_eq!(
        test_notice("bark", "138", "10:00"),
        Err(NotifyError::UnsupportedType("暂不支持的通知类型: bark".to_string()))
    );
}

#[test]
fn notify_error_messages() {
    assert_eq!(NotifyError::Incomplete.message(), "Telegram 配置不完整：bot_token 或 chat_id 为空");
    assert_eq!(NotifyError::Rejected("x".to_string()).message(), "x");
    assert_eq!(NotifyError::UnsupportedType("暂不支持的通知类型: bark".to_string()).message(), "暂不支持的通知类型: bark");
}

#[test]
fn single_placeholders_become_their_values() {
    let names = ["所有通用", "所有免流", "所有流量", "通用有限", "通用不限", "区域有限", "区域不限", "免流有限", "免流不限"];
    let fields = ["总量", "已用", "剩余", "用量", "今日用量"];
    let letters = ["T", "U", "R", "D", "Y"];
    for (k, name) in names.iter().enumerate() {
        for (g, field) in fields.iter().enumerate() {
            let t = format!("[{}.{}]", name, field);
            let out = render_notify_content(&t, "P", "ts", "t", "d", "i", &nine(), &vec![]);
            assert_eq!(out, format!("{}{}", k, letters[g]));
        }
    }
    for (t, v) in [("[套餐]", "P"), ("[时间]", "t"), ("[日期]", "d"), ("[时长]", "i")] {
        assert_eq!(render_notify_content(t, "P", "ts", "t", "d", "i", &nine(), &vec![]), v);
    }
}

#[test]
fn flow_notification_messages() {
    let p = NotifyParams { bot_token: "1:a".to_string(), chat_id: "7".to_string(), api_host: String::new() };
    let empty = NotifyParams { bot_token: String::new(), chat_id: "7".to_string(), api_host: String::new() };
    let f = nine();
    let rows: Vec<BucketRow> = Vec::new();
    let send = |enabled: i32, kind: &str, params: Option<&NotifyParams>| {
        flow_notify_message(enabled, kind, params, "", "[套餐]", "主套餐", "ts", "1分钟", &f, &rows)
    };
    assert!(send(0, "telegram", Some(&p)).is_none());
    assert!(send(1, "email", Some(&p)).is_none());
    assert!(send(1, "telegram", None).is_none());
    assert!(matches!(send(1, "telegram", Some(&empty)), Some(Err(NotifyError::Incomplete))));
    match send(1, "telegram", Some(&p)) {
        Some(Ok(m)) => {
            assert_eq!(m.url, "https://api.telegram.org/bot1:a/sendMessage");
            assert_eq!(m.chat_id, "7");
            assert_eq!(m.text, "*📊 流量查询通知*\n\n主套餐");
        }
        _ => panic!("expected a message"),
    }
}
