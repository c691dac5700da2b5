//! New accounts and secrets: the records that registrations store, password
//! changes, session tokens, and the random credentials of a reset admin.
use vstd::prelude::*;
use vstd::string::*;
use rand::Rng;

use crate::admin::AddUserRequest;
use crate::auth::{
    bcrypt_verifies, or_default, password_matches, registration_fields, RegisterRequest,
    UserRegisterRequest,
};

verus! {

// ───────────────────────── outside calls ─────────────────────────

/// bcrypt's `hash(password, DEFAULT_COST)`, its error dropped. Each call
/// draws a fresh random salt, so the text itself is not named, and the call
/// fails when the system's random source does, so success is not promised.
/// What is promised is what bcrypt's source shows of a hash it made: its
/// `verify` takes back the salt and cost from the hash, hashes the same
/// password again and finds the same digest, so the password matches it.
#[verifier::external_body]
fn bcrypt_hash(password: &str) -> (r: Option<String>)
    ensures
        r matches Some(h) ==> bcrypt_verifies(password@, h@) == Some(true),
{
    bcrypt::hash(password, bcrypt::DEFAULT_COST).ok()
}

/// uuid's `Uuid::new_v4().to_string()`: a random identifier in its
/// hyphenated form, which is always 36 characters long.
#[verifier::external_body]
fn uuid_v4_text() -> (r: String)
    ensures
        r@.len() == 36,
{
    uuid::Uuid::new_v4().to_string()
}

/// rand's `OsRng.gen_range(0..n)`: a number drawn from the system's random
/// source, below `n`. The range is never empty here (rand panics on an empty
/// one); rand also panics if the system's random source fails.
#[verifier::external_body]
fn random_below(n: usize) -> (r: usize)
    requires
        n > 0,
    ensures
        r < n,
{
    rand::rngs::OsRng.gen_range(0..n)
}

// ───────────────────────── tokens ─────────────────────────

/// A fresh session or access token: a random identifier of 36 characters.
pub fn new_token() -> (r: String)
    ensures
        r@.len() == 36,
{
    uuid_v4_text()
}

// ───────────────────────── new records ─────────────────────────

/// What a new user row holds besides its status and empty query data.
pub struct NewUserRecord {
    pub mobile: String,
    pub nickname: String,
    pub query_password: String,
    /// The bcrypt hash used to sign in with the query password, when the
    /// user registered as a guest.
    pub login_password_hash: Option<String>,
    pub auth_type: String,
    pub cookie: String,
    pub appid: String,
    pub token_online: String,
    pub token: String,
}

/// The row a guest registration stores: the form's fields with their
/// defaults, a fresh token, and a bcrypt hash of the query password; `None`
/// when the hash could not be made.
pub fn guest_user_record(req: &UserRegisterRequest) -> (r: Option<NewUserRecord>)
    ensures
        r matches Some(u) ==> {
            &&& u.mobile@ == req.mobile@
            &&& u.query_password@ == req.query_password@
            &&& u.nickname@ == or_default(req.nickname, ""@)
            &&& u.auth_type@ == or_default(req.auth_type, "cookie"@)
            &&& u.cookie@ == or_default(req.cookie, ""@)
            &&& u.appid@ == or_default(req.appid, ""@)
            &&& u.token_online@ == or_default(req.token_online, ""@)
            &&& u.token@.len() == 36
            &&& u.login_password_hash matches Some(h) && bcrypt_verifies(
                req.query_password@,
                h@,
            ) == Some(true)
        },
{
    let hash = match bcrypt_hash(req.query_password.as_str()) {
        Some(h) => h,
        None => return None,
    };
    let f = registration_fields(req);
    Some(NewUserRecord {
        mobile: req.mobile.clone(),
        nickname: f.nickname,
        query_password: req.query_password.clone(),
        login_password_hash: Some(hash),
        auth_type: f.auth_type,
        cookie: f.cookie,
        appid: f.appid,
        token_online: f.token_online,
        token: new_token(),
    })
}

fn text_or_empty(v: &Option<String>) -> (r: String)
    ensures
        r@ == or_default(*v, ""@),
{
    proof {
        reveal_strlit("");
    }
    match v {
        Some(s) => s.clone(),
        None => String::new(),
    }
}

/// The row an admin's new user stores: the form's fields, absent ones
/// empty, and a fresh token; no sign-in hash.
pub fn added_user_record(req: &AddUserRequest) -> (r: NewUserRecord)
    ensures
        r.mobile@ == req.mobile@,
        r.query_password@ == req.query_password@,
        r.nickname@ == or_default(req.nickname, ""@),
        r.auth_type@ == req.auth_type@,
        r.cookie@ == or_default(req.cookie, ""@),
        r.appid@ == or_default(req.appid, ""@),
        r.token_online@ == or_default(req.token_online, ""@),
        r.token@.len() == 36,
        r.login_password_hash is None,
{
    NewUserRecord {
        mobile: req.mobile.clone(),
        nickname: text_or_empty(&req.nickname),
        query_password: req.query_password.clone(),
        login_password_hash: None,
        auth_type: req.auth_type.clone(),
        cookie: text_or_empty(&req.cookie),
        appid: text_or_empty(&req.appid),
        token_online: text_or_empty(&req.token_online),
        token: new_token(),
    }
}

/// What a new admin row holds.
pub struct NewAdminRecord {
    pub username: String,
    pub password_hash: String,
    pub real_name: String,
}

/// The row an admin registration stores: the name, a bcrypt hash of the
/// password, and the real name or nothing; `None` when the hash could not
/// be made.
pub fn admin_record(req: &RegisterRequest) -> (r: Option<NewAdminRecord>)
    ensures
        r matches Some(a) ==> {
            &&& a.username@ == req.username@
            &&& a.real_name@ == or_default(req.real_name, ""@)
            &&& bcrypt_verifies(req.password@, a.password_hash@) == Some(true)
        },
{
    match bcrypt_hash(req.password.as_str()) {
        Some(h) => Some(
            NewAdminRecord {
                username: req.username.clone(),
                password_hash: h,
                real_name: text_or_empty(&req.real_name),
            },
        ),
        None => None,
    }
}

// ───────────────────────── password changes ─────────────────────────

/// How an admin's password change went.
pub enum PasswordChange {
    /// The old password does not match the stored hash.
    WrongPassword,
    /// The new password's hash, to be stored.
    Hashed(String),
    /// The new hash could not be made.
    HashFailed,
}

/// Checks the old password against the stored hash and, when it matches,
/// hashes the new one.
pub fn password_change(old_password: &str, stored_hash: &str, new_password: &str) -> (r: PasswordChange)
    ensures
        (r is WrongPassword) == (bcrypt_verifies(old_password@, stored_hash@) != Some(true)),
        r matches PasswordChange::Hashed(h) ==> bcrypt_verifies(new_password@, h@) == Some(true),
{
    if !password_matches(old_password, stored_hash) {
        return PasswordChange::WrongPassword;
    }
    match bcrypt_hash(new_password) {
        Some(h) => PasswordChange::Hashed(h),
        None => PasswordChange::HashFailed,
    }
}

// ───────────────────────── credential reset ─────────────────────────

/// The characters that generated user names and passwords are drawn from.
pub open spec fn credential_alphabet() -> Seq<char> {
    "abcdefghijklmnopqrstuvwxyzABCDEFGHIJKLMNOPQRSTUVWXYZ0123456789"@
}

/// Every character of `s` is drawn from the credential alphabet.
pub open spec fn drawn_from_alphabet(s: Seq<char>) -> bool {
    forall|i: int| 0 <= i < s.len() ==> credential_alphabet().contains(#[trigger] s[i])
}

/// `len` characters drawn at random from the credential alphabet.
pub fn random_credential(len: usize) -> (r: String)
    ensures
        r@.len() == len,
        drawn_from_alphabet(r@),
{
    let alphabet = "abcdefghijklmnopqrstuvwxyzABCDEFGHIJKLMNOPQRSTUVWXYZ0123456789";
    proof {
        reveal_strlit("abcdefghijklmnopqrstuvwxyzABCDEFGHIJKLMNOPQRSTUVWXYZ0123456789");
    }
    let n = alphabet.unicode_len();
    let mut out = String::new();
    let mut i: usize = 0;
    while i < len
        invariant
            n == alphabet@.len(),
            n == 62,
            alphabet@ == credential_alphabet(),
            i <= len,
            out@.len() == i,
            drawn_from_alphabet(out@),
        decreases len - i,
    {
        let k = random_below(n);
        let c = alphabet.substring_char(k, k + 1);
        let ghost before = out@;
        out.append(c);
        proof {
            assert(c@ =~= seq![credential_alphabet()[k as int]]);
            assert(out@ =~= before + c@);
            assert forall|j: int| 0 <= j < out@.len() implies credential_alphabet().contains(
                #[trigger] out@[j],
            ) by {
                if j < before.len() {
                    assert(out@[j] == before[j]);
                } else {
                    assert(out@[j] == credential_alphabet()[k as int]);
                }
            }
        }
        i += 1;
    }
    out
}

/// A reset admin account: the generated name and password, and the hash to store.
pub struct AdminReset {
    pub username: String,
    pub password: String,
    pub password_hash: String,
}

/// Fresh admin credentials: `admin_` and eight random characters as the
/// name, sixteen random characters as the password (both drawn from the
/// credential alphabet), and the password's bcrypt hash; `None` when the
/// hash could not be made.
pub fn reset_admin_credentials() -> (r: Option<AdminReset>)
    ensures
        r matches Some(a) ==> {
            &&& a.username@.len() == 14
            &&& a.username@.subrange(0, 6) == "admin_"@
            &&& drawn_from_alphabet(a.username@.subrange(6, 14))
            &&& a.password@.len() == 16
            &&& drawn_from_alphabet(a.password@)
            &&& bcrypt_verifies(a.password@, a.password_hash@) == Some(true)
        },
{
    let name = random_credential(8);
    let password = random_credential(16);
    let mut username = "admin_".to_owned();
    username.append(name.as_str());
    proof {
        reveal_strlit("admin_");
        assert(username@.subrange(0, 6) =~= "admin_"@);
        assert(username@.subrange(6, 14) =~= name@);
    }
    match bcrypt_hash(password.as_str()) {
        Some(h) => Some(AdminReset { username, password, password_hash: h }),
        None => None,
    }
}

/// The statement that stores reset credentials: the first admin is updated
/// when there is one, else an admin is created.
pub fn reset_statement(admin_count: i64) -> (r: &'static str)
    ensures
        admin_count > 0 ==> r@
            == "UPDATE admins SET username = ?1, password = ?2 WHERE id = (SELECT id FROM admins LIMIT 1)"@,
        admin_count <= 0 ==> r@ == "INSERT INTO admins (username, password) VALUES (?1, ?2)"@,
{
    if admin_count > 0 {
        "UPDATE admins SET username = ?1, password = ?2 WHERE id = (SELECT id FROM admins LIMIT 1)"
    } else {
        "INSERT INTO admins (username, password) VALUES (?1, ?2)"
    }
}

} // verus!
