//! Logins and registrations: bearer tokens, password checks, and the
//! defaults a new user gets.
use vstd::prelude::*;
use vstd::string::*;

use crate::cron::{cron_due, interval_schedule, law_interval_schedule_fires, ClockTime};
use crate::text::{int_decimal, nat_decimal, seq_starts_with, starts_with, str_eq};

verus! {

/// An admin's login form.
pub struct LoginRequest {
    pub username: String,
    pub password: String,
}

/// An admin's registration form.
pub struct RegisterRequest {
    pub username: String,
    pub password: String,
    pub real_name: Option<String>,
}

/// A user's login form: mobile number and query password.
pub struct UserLoginRequest {
    pub mobile: String,
    pub query_password: String,
}

/// A guest's registration form.
pub struct UserRegisterRequest {
    pub mobile: String,
    pub query_password: String,
    pub nickname: Option<String>,
    pub auth_type: Option<String>,
    pub cookie: Option<String>,
    pub appid: Option<String>,
    pub token_online: Option<String>,
}

// ───────────────────────── tokens ─────────────────────────

/// The token of an `Authorization` header of the form `Bearer <token>`.
pub open spec fn bearer_of(header: Seq<char>) -> Option<Seq<char>> {
    if seq_starts_with(header, "Bearer "@) {
        Some(header.subrange(7, header.len() as int))
    } else {
        None
    }
}

/// A token sent as `Bearer <token>` is read back unchanged.
pub proof fn law_bearer_round_trip(token: Seq<char>)
    ensures
        bearer_of("Bearer "@ + token) == Some(token),
{
    reveal_strlit("Bearer ");
    let h = "Bearer "@ + token;
    assert(h.subrange(0, 7) =~= "Bearer "@);
    assert(h.subrange(7, h.len() as int) =~= token);
}

/// The token of a bearer `Authorization` header.
pub fn bearer_token(header: &str) -> (r: Option<&str>)
    ensures
        r matches Some(t) ==> bearer_of(header@) == Some(t@),
        r is None ==> bearer_of(header@) is None,
{
    proof {
        reveal_strlit("Bearer ");
    }
    if starts_with(header, "Bearer ") {
        let n = header.unicode_len();
        Some(header.substring_char(7, n))
    } else {
        None
    }
}

/// The token a user request carries: from a bearer `Authorization` header
/// if there is one, else from the URL path.
pub fn extract_user_token(auth_header: Option<&str>, path_token: Option<&str>) -> (r: Option<String>)
    ensures
        (auth_header matches Some(h) && bearer_of(h@) is Some) ==> (r matches Some(t) && Some(t@)
            == bearer_of(auth_header->0@)),
        !(auth_header matches Some(h) && bearer_of(h@) is Some) ==> (match path_token {
            Some(p) => r matches Some(t) && t@ == p@,
            None => r is None,
        }),
{
    if let Some(h) = auth_header {
        if let Some(t) = bearer_token(h) {
            return Some(t.to_owned());
        }
    }
    match path_token {
        Some(p) => Some(p.to_owned()),
        None => None,
    }
}

// ───────────────────────── passwords ─────────────────────────

/// What bcrypt's `verify(password, hash)` returns: `Some(matches)`, or
/// `None` when `hash` is not a bcrypt hash.
pub uninterp spec fn bcrypt_verifies(password: Seq<char>, hash: Seq<char>) -> Option<bool>;

/// bcrypt's `verify(password, hash)`, its error dropped. A function of its
/// two arguments alone; its result is named, not restated.
#[verifier::external_body]
fn bcrypt_verify(password: &str, hash: &str) -> (r: Option<bool>)
    ensures
        r == bcrypt_verifies(password@, hash@),
{
    bcrypt::verify(password, hash).ok()
}

/// Whether `password` matches the bcrypt `hash` (a malformed hash matches nothing).
pub fn password_matches(password: &str, hash: &str) -> (r: bool)
    ensures
        r == (bcrypt_verifies(password@, hash@) == Some(true)),
{
    match bcrypt_verify(password, hash) {
        Some(ok) => ok,
        None => false,
    }
}

/// How a user's login went.
#[derive(Clone, Copy, Debug, PartialEq, Eq)]
pub enum UserLoginOutcome {
    /// The password matched the stored bcrypt hash.
    Hashed,
    /// The password equals the stored plain query password (older accounts).
    Plain,
    /// Neither.
    Rejected,
}

pub open spec fn user_login_spec(hash: Seq<char>, stored: Seq<char>, supplied: Seq<char>, verified: Option<bool>) -> UserLoginOutcome {
    if hash.len() > 0 && verified == Some(true) {
        UserLoginOutcome::Hashed
    } else if stored == supplied {
        UserLoginOutcome::Plain
    } else {
        UserLoginOutcome::Rejected
    }
}

/// The login decision, given what bcrypt answered for the supplied password
/// and the stored hash (consulted only when a hash is stored).
pub fn user_login_decision(login_password_hash: &str, query_password: &str, supplied: &str, verified: Option<bool>) -> (r: UserLoginOutcome)
    ensures
        r == user_login_spec(login_password_hash@, query_password@, supplied@, verified),
{
    if login_password_hash.unicode_len() > 0 && verified == Some(true) {
        return UserLoginOutcome::Hashed;
    }
    if str_eq(query_password, supplied) {
        UserLoginOutcome::Plain
    } else {
        UserLoginOutcome::Rejected
    }
}

/// Checks a user's password: first against the bcrypt hash, if one is
/// stored, then against the plain query password.
pub fn check_user_password(login_password_hash: &str, query_password: &str, supplied: &str) -> (r: UserLoginOutcome)
    ensures
        r == user_login_spec(
            login_password_hash@,
            query_password@,
            supplied@,
            bcrypt_verifies(supplied@, login_password_hash@),
        ),
{
    let verified = if login_password_hash.unicode_len() > 0 {
        bcrypt_verify(supplied, login_password_hash)
    } else {
        None
    };
    proof {
        if login_password_hash@.len() > 0 {
            assert(verified == bcrypt_verifies(supplied@, login_password_hash@));
        }
    }
    user_login_decision(login_password_hash, query_password, supplied, verified)
}

/// How an admin's login went.
#[derive(Clone, Copy, Debug, PartialEq, Eq)]
pub enum AdminLoginOutcome {
    /// Too many attempts from this address.
    TooManyAttempts,
    /// No admin of that name.
    UnknownUser,
    /// The password does not match.
    WrongPassword,
    /// Logged in.
    Success,
}

/// The admin login decision: the rate limit first, then the account, then
/// the password.
pub fn admin_login_decision(attempt_allowed: bool, account_found: bool, password_ok: bool) -> (r: AdminLoginOutcome)
    ensures
        r == admin_outcome(attempt_allowed, account_found, password_ok),
        !attempt_allowed ==> r == AdminLoginOutcome::TooManyAttempts,
        attempt_allowed && !account_found ==> r == AdminLoginOutcome::UnknownUser,
        attempt_allowed && account_found && !password_ok ==> r == AdminLoginOutcome::WrongPassword,
        attempt_allowed && account_found && password_ok ==> r == AdminLoginOutcome::Success,
{
    if !attempt_allowed {
        AdminLoginOutcome::TooManyAttempts
    } else if !account_found {
        AdminLoginOutcome::UnknownUser
    } else if !password_ok {
        AdminLoginOutcome::WrongPassword
    } else {
        AdminLoginOutcome::Success
    }
}

/// The admin login outcome for a rate-limit answer, whether the name was
/// found, and whether the password matched.
pub open spec fn admin_outcome(attempt_allowed: bool, account_found: bool, password_ok: bool) -> AdminLoginOutcome {
    if !attempt_allowed {
        AdminLoginOutcome::TooManyAttempts
    } else if !account_found {
        AdminLoginOutcome::UnknownUser
    } else if !password_ok {
        AdminLoginOutcome::WrongPassword
    } else {
        AdminLoginOutcome::Success
    }
}

/// What a refused admin login answers: the HTTP status and the error text;
/// nothing for a login that succeeded.
pub open spec fn admin_refusal(outcome: AdminLoginOutcome) -> Option<(u16, Seq<char>)> {
    match outcome {
        AdminLoginOutcome::TooManyAttempts => Some((429u16, "登录尝试过于频繁，请稍后再试"@)),
        AdminLoginOutcome::UnknownUser => Some((401u16, "用户名或密码错误"@)),
        AdminLoginOutcome::WrongPassword => Some((401u16, "用户名或密码错误"@)),
        AdminLoginOutcome::Success => None,
    }
}

/// The status and error text a refused admin login is answered with.
pub fn admin_login_refusal(outcome: AdminLoginOutcome) -> (r: Option<(u16, &'static str)>)
    ensures
        match r {
            Some((status, error)) => admin_refusal(outcome) == Some((status, error@)),
            None => admin_refusal(outcome) is None,
        },
{
    match outcome {
        AdminLoginOutcome::TooManyAttempts => Some((429, "登录尝试过于频繁，请稍后再试")),
        AdminLoginOutcome::UnknownUser => Some((401, "用户名或密码错误")),
        AdminLoginOutcome::WrongPassword => Some((401, "用户名或密码错误")),
        AdminLoginOutcome::Success => None,
    }
}

/// An admin login for a name that does not exist is answered exactly as one
/// with a wrong password, so an answer does not tell which names exist;
/// neither is a success.
pub proof fn law_unknown_name_answered_as_wrong_password(password_ok: bool)
    ensures
        admin_refusal(admin_outcome(true, false, password_ok)) == admin_refusal(
            admin_outcome(true, true, false),
        ),
        admin_refusal(admin_outcome(true, false, password_ok)) is Some,
{
}

/// The rate-limit key of a user login from `ip` (kept apart from admin logins).
pub fn user_login_rate_key(ip: &str) -> (r: String)
    ensures
        r@ == "user_"@ + ip@,
{
    let mut k = "user_".to_owned();
    k.append(ip);
    k
}

// ───────────────────────── registrations ─────────────────────────

/// Whether guests may register: the setting is present and exactly "1".
pub fn guest_registration_open(setting: Option<&str>) -> (r: bool)
    ensures
        r == (setting matches Some(s) && s@ == "1"@),
{
    match setting {
        Some(s) => str_eq(s, "1"),
        None => false,
    }
}

/// The stored fields of a new user, absent form fields filled with defaults.
pub struct NewUserFields {
    pub nickname: String,
    pub auth_type: String,
    pub cookie: String,
    pub appid: String,
    pub token_online: String,
}

pub open spec fn or_default(v: Option<String>, d: Seq<char>) -> Seq<char> {
    match v {
        Some(s) => s@,
        None => d,
    }
}

fn value_or(v: &Option<String>, d: &str) -> (r: String)
    ensures
        r@ == or_default(*v, d@),
{
    match v {
        Some(s) => s.clone(),
        None => d.to_owned(),
    }
}

/// The fields a guest registration stores: absent nickname, cookie, app id
/// and online token are empty; the sign-in method defaults to `cookie`.
pub fn registration_fields(req: &UserRegisterRequest) -> (r: NewUserFields)
    ensures
        r.nickname@ == or_default(req.nickname, ""@),
        r.auth_type@ == or_default(req.auth_type, "cookie"@),
        r.cookie@ == or_default(req.cookie, ""@),
        r.appid@ == or_default(req.appid, ""@),
        r.token_online@ == or_default(req.token_online, ""@),
{
    NewUserFields {
        nickname: value_or(&req.nickname, ""),
        auth_type: value_or(&req.auth_type, "cookie"),
        cookie: value_or(&req.cookie, ""),
        appid: value_or(&req.appid, ""),
        token_online: value_or(&req.token_online, ""),
    }
}

/// A newly registered user's schedule fires at second 0 of every fifth minute.
pub proof fn law_registration_schedule_every_five_minutes(t: ClockTime)
    ensures
        cron_due("0 */5 * * * *"@, t) <==> (t.second == 0 && (t.minute as int) % 5 == 0),
{
    reveal_strlit("0 */5 * * * *");
    reveal_strlit("0 */");
    reveal_strlit(" * * * *");
    assert(nat_decimal(5) =~= seq!['5']);
    assert(int_decimal(5) =~= seq!['5']);
    assert(interval_schedule(5) =~= "0 */5 * * * *"@);
    law_interval_schedule_fires(5, t);
}

/// The schedule a newly registered user's periodic query starts with:
/// every five minutes.
pub fn registration_schedule() -> (r: &'static str)
    ensures
        r@ == "0 */5 * * * *"@,
{
    "0 */5 * * * *"
}

} // verus!
