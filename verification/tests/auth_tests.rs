use unicom::auth::{
    admin_login_decision, admin_login_refusal, bearer_token, check_user_password, extract_user_token,
    guest_registration_open, password_matches, registration_fields, registration_schedule,
    user_login_decision, user_login_rate_key, AdminLoginOutcome, UserLoginOutcome,
    UserRegisterRequest,
};

#[test]
fn bearer_tokens() {
    assert_eq!(bearer_token("Bearer abc"), Some("abc"));
    assert_eq!(bearer_token("Bearer "), Some(""));
    assert_eq!(bearer_token("bearer abc"), None);
    assert_eq!(bearer_token("Basic x"), None);
}

#[test]
fn token_from_header_before_path() {
    assert_eq!(extract_user_token(Some("Bearer h"), Some("p")), Some("h".to_string()));
    assert_eq!(extract_user_token(Some("Token h"), Some("p")), Some("p".to_string()));
    assert_eq!(extract_user_token(None, Some("p")), Some("p".to_string()));
    assert_eq!(extract_user_token(None, None), None);
}

#[test]
fn bcrypt_passwords() {
    let h = bcrypt::hash("secret", 4).unwrap();
    assert!(password_matches("secret", &h));
    assert!(!password_matches("Secret", &h));
    assert!(!password_matches("secret", "not a hash"));
}

#[test]
fn user_logins() {
    let h = bcrypt::hash("pw1", 4).unwrap();
    assert_eq!(check_user_password(&h, "plain", "pw1"), UserLoginOutcome::Hashed);
    assert_eq!(check_user_password(&h, "plain", "plain"), UserLoginOutcome::Plain);
    assert_eq!(check_user_password(&h, "plain", "nope"), UserLoginOutcome::Rejected);
    assert_eq!(check_user_password("", "plain", "plain"), UserLoginOutcome::Plain);
    assert_eq!(user_login_decision("", "a", "a", Some(true)), UserLoginOutcome::Plain);
    assert_eq!(user_login_decision("h", "a", "b", Some(true)), UserLoginOutcome::Hashed);
    assert_eq!(user_login_decision("h", "a", "b", None), UserLoginOutcome::Rejected);
}

#[test]
fn admin_logins() {
    assert_eq!(admin_login_decision(false, true, true), AdminLoginOutcome::TooManyAttempts);
    assert_eq!(admin_login_decision(true, false, true), AdminLoginOutcome::UnknownUser);
    assert_eq!(admin_login_decision(true, true, false), AdminLoginOutcome::WrongPassword);
    assert_eq!(admin_login_decision(true, true, true), AdminLoginOutcome::Success);
}

#[test]
fn registrations() {
    assert_eq!(user_login_rate_key("10.0.0.1:5"), "user_10.0.0.1:5");
    assert!(guest_registration_open(Some("1")));
    assert!(!guest_registration_open(Some("0")));
    assert!(!guest_registration_open(None));
    assert_eq!(registration_schedule(), "0 */5 * * * *");
    let req = UserRegisterRequest {
        mobile: "13800000000".to_string(),
        query_password: "pw".to_string(),
        nickname: None,
        auth_type: None,
        cookie: Some("c".to_string()),
        appid: None,
        token_online: None,
    };
    let f = registration_fields(&req);
    assert_eq!(f.nickname, "");
    assert_eq!(f.auth_type, "cookie");
    assert_eq!(f.cookie, "c");
    assert_eq!(f.appid, "");
}

#[test]
fn unknown_name_and_wrong_password_answered_alike() {
    let unknown = admin_login_refusal(admin_login_decision(true, false, false));
    let wrong = admin_login_refusal(admin_login_decision(true, true, false));
    assert_eq!(unknown, Some((401, "用户名或密码错误")));
    assert_eq!(unknown, wrong);
    assert_eq!(admin_login_refusal(admin_login_decision(false, true, true)), Some((429, "登录尝试过于频繁，请稍后再试")));
    assert_eq!(admin_login_refusal(admin_login_decision(true, true, true)), None);
}
