use unicom::accounts::{
    added_user_record, admin_record, guest_user_record, new_token, password_change,
    random_credential, reset_admin_credentials, reset_statement, PasswordChange,
};
use unicom::admin::AddUserRequest;
use unicom::auth::{password_matches, RegisterRequest, UserRegisterRequest};

const ALPHABET: &str = "abcdefghijklmnopqrstuvwxyzABCDEFGHIJKLMNOPQRSTUVWXYZ0123456789";

#[test]
fn tokens_are_uuids() {
    let a = new_token();
    let b = new_token();
    assert_eq!(a.chars().count(), 36);
    assert_ne!(a, b);
    assert_eq!(a.matches('-').count(), 4);
}

#[test]
fn random_credentials() {
    let c = random_credential(16);
    assert_eq!(c.chars().count(), 16);
    assert!(c.chars().all(|ch| ALPHABET.contains(ch)));
    assert_eq!(random_credential(0), "");
    let r = reset_admin_credentials().unwrap();
    assert!(r.username.starts_with("admin_"));
    assert_eq!(r.username.chars().count(), 14);
    assert_eq!(r.password.chars().count(), 16);
    assert!(password_matches(&r.password, &r.password_hash));
}

#[test]
fn reset_statements() {
    assert!(reset_statement(1).starts_with("UPDATE admins"));
    assert!(reset_statement(0).starts_with("INSERT INTO admins"));
}

#[test]
fn guest_records() {
    let req = UserRegisterRequest {
        mobile: "13800000000".to_string(),
        query_password: "pw".to_string(),
        nickname: Some("n".to_string()),
        auth_type: None,
        cookie: None,
        appid: None,
        token_online: None,
    };
    let u = guest_user_record(&req).unwrap();
    assert_eq!(u.mobile, "13800000000");
    assert_eq!(u.nickname, "n");
    assert_eq!(u.auth_type, "cookie");
    assert_eq!(u.token.chars().count(), 36);
    assert!(password_matches("pw", u.login_password_hash.as_deref().unwrap()));
}

#[test]
fn added_records() {
    let req = AddUserRequest {
        mobile: "139".to_string(),
        nickname: None,
        query_password: "q".to_string(),
        auth_type: "token".to_string(),
        cookie: None,
        appid: Some("a".to_string()),
        token_online: None,
    };
    let u = added_user_record(&req);
    assert_eq!(u.auth_type, "token");
    assert_eq!(u.appid, "a");
    assert_eq!(u.cookie, "");
    assert!(u.login_password_hash.is_none());
}

#[test]
fn admin_records_and_password_changes() {
    let a = admin_record(&RegisterRequest {
        username: "root".to_string(),
        password: "pw".to_string(),
        real_name: None,
    })
    .unwrap();
    assert_eq!(a.username, "root");
    assert_eq!(a.real_name, "");
    assert!(password_matches("pw", &a.password_hash));
    assert!(matches!(password_change("wrong", &a.password_hash, "new"), PasswordChange::WrongPassword));
    match password_change("pw", &a.password_hash, "new") {
        PasswordChange::Hashed(h) => assert!(password_matches("new", &h)),
        _ => panic!("expected a new hash"),
    }
}
