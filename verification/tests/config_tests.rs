use unicom::config::{
    default_balance_url, default_connect_timeout, default_cookie_ttl, default_database_path,
    default_log_level, default_login_url, default_query_url, default_timeout, default_user_agent,
    Config, ConfigError, ConfigSource, NotifyConfig, NotifySource, UnicomConfig, UnicomSource,
};

fn minimal() -> ConfigSource {
    ConfigSource {
        host: Some("0.0.0.0".to_string()),
        port: Some(8080),
        database_path: None,
        log_level: None,
        unicom: None,
        notify: None,
    }
}

#[test]
fn minimal_config_takes_defaults() {
    let c = Config::load(minimal()).unwrap();
    assert_eq!(c.host, "0.0.0.0");
    assert_eq!(c.port, 8080);
    assert_eq!(c.database_path, "unicom.db");
    assert_eq!(c.log_level, "info");
    assert_eq!(c.unicom.login_url, "https://m.client.10010.com/mobileService/onLine.htm");
    assert_eq!(c.unicom.timeout, 30);
    assert_eq!(c.unicom.connect_timeout, 10);
    assert_eq!(c.unicom.cookie_ttl, 7200);
    assert!(c.notify.telegram_bot_token.is_none());
    assert!(c.notify.allowed_origins.is_empty());
}

#[test]
fn missing_and_invalid_fields() {
    let mut s = minimal();
    s.host = None;
    assert_eq!(Config::load(s).unwrap_err(), ConfigError::MissingField("host".to_string()));
    let mut s = minimal();
    s.port = None;
    let e = Config::load(s).unwrap_err();
    assert_eq!(e, ConfigError::MissingField("port".to_string()));
    assert_eq!(e.message(), "missing field `port`");
    let mut s = minimal();
    s.port = Some(70000);
    assert_eq!(Config::load(s).unwrap_err(), ConfigError::InvalidPort(70000));
    let mut s = minimal();
    s.port = Some(-1);
    assert_eq!(Config::load(s).unwrap_err(), ConfigError::InvalidPort(-1));
    let mut s = minimal();
    s.port = Some(65535);
    assert_eq!(Config::load(s).unwrap().port, 65535);
}

#[test]
fn sections_fill_their_gaps() {
    let mut s = minimal();
    s.log_level = Some("debug".to_string());
    s.unicom = Some(UnicomSource {
        login_url: None,
        query_url: Some("http://q".to_string()),
        balance_url: None,
        timeout: Some(5),
        connect_timeout: None,
        user_agent: None,
        cookie_ttl: Some(60),
    });
    s.notify = Some(NotifySource {
        telegram_bot_token: Some("t".to_string()),
        telegram_chat_id: None,
        allowed_origins: Some(vec!["https://a".to_string()]),
    });
    let c = Config::load(s).unwrap();
    assert_eq!(c.log_level, "debug");
    assert_eq!(c.unicom.query_url, "http://q");
    assert_eq!(c.unicom.login_url, default_login_url());
    assert_eq!(c.unicom.timeout, 5);
    assert_eq!(c.unicom.connect_timeout, 10);
    assert_eq!(c.unicom.cookie_ttl, 60);
    assert_eq!(c.notify.telegram_bot_token.as_deref(), Some("t"));
    assert_eq!(c.notify.allowed_origins, vec!["https://a".to_string()]);
}

#[test]
fn defaults() {
    assert_eq!(default_database_path(), "unicom.db");
    assert_eq!(default_log_level(), "info");
    assert!(default_query_url().ends_with("queryOcsPackageFlowLeftContentRevisedInJune"));
    assert!(default_balance_url().ends_with("accountBalancenew.htm"));
    assert_eq!(default_timeout(), 30);
    assert_eq!(default_connect_timeout(), 10);
    assert!(default_user_agent().starts_with("Mozilla/5.0 (iPhone"));
    assert_eq!(default_cookie_ttl(), 7200);
    let u = UnicomConfig::default();
    assert_eq!(u.user_agent, default_user_agent());
    assert_eq!(u.balance_url, default_balance_url());
    let n = NotifyConfig::default();
    assert!(n.telegram_chat_id.is_none());
}
