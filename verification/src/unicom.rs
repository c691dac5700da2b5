//! The carrier API: what a login returns, how replies are judged, and when
//! a query must log in first.
use vstd::prelude::*;
use vstd::string::*;

use crate::datetime::{cookie_refresh_due, local_now_stamp, should_refresh_cookie_at, stamp_in_range};
use crate::text::{
    contains, join, join_seq, parse_i64, parse_i64_seq, piece_len, seq_contains, str_eq, trim,
    trim_seq,
};

verus! {

/// A successful login: the session cookie and when it was obtained.
pub struct LoginResult {
    pub cookie: String,
    pub created_at: String,
}

/// The account balance as the carrier reports it.
pub struct BalanceData {
    pub balance: String,
    pub real_fee: String,
    pub can_use_fee: String,
}

/// Why a carrier request failed.
#[derive(Debug, PartialEq, Eq)]
pub enum UnicomError {
    /// The login answered without any cookie.
    NoCookie,
    /// The stored cookie is no longer accepted.
    CookieExpired,
    /// Neither a cookie nor the credentials to log in are stored.
    MissingCredentials,
    /// The balance query was refused, with the carrier's message.
    BalanceRefused(String),
}

impl UnicomError {
    /// The error's message, as the service reports it.
    pub fn message(&self) -> (r: String)
        ensures
            *self == UnicomError::NoCookie ==> r@ == "登录失败：未获取到Cookie"@,
            *self == UnicomError::CookieExpired ==> r@ == "Cookie已失效"@,
            *self == UnicomError::MissingCredentials ==> r@ == "Cookie为空且缺少登录凭证"@,
            self matches UnicomError::BalanceRefused(m) ==> r@ == "余额查询失败: "@ + m@,
    {
        match self {
            UnicomError::NoCookie => "登录失败：未获取到Cookie".to_owned(),
            UnicomError::CookieExpired => "Cookie已失效".to_owned(),
            UnicomError::MissingCredentials => "Cookie为空且缺少登录凭证".to_owned(),
            UnicomError::BalanceRefused(m) => {
                let mut s = "余额查询失败: ".to_owned();
                s.append(m.as_str());
                s
            },
        }
    }
}

/// The `name=value` part of a `Set-Cookie` header: the text before the first `;`.
pub open spec fn cookie_pair(header: Seq<char>) -> Seq<char> {
    header.subrange(0, piece_len(header, ';') as int)
}

/// The `name=value` part of one `Set-Cookie` header.
fn pair_of(header: &str) -> (r: &str)
    ensures
        r@ == cookie_pair(header@),
{
    let n = header.unicode_len();
    let mut j: usize = 0;
    assert(header@.subrange(0, n as int) =~= header@);
    while j < n && header.get_char(j) != ';'
        invariant
            n == header@.len(),
            j <= n,
            piece_len(header@, ';') == j + piece_len(header@.subrange(j as int, n as int), ';'),
        decreases n - j,
    {
        assert(header@.subrange(j as int, n as int).drop_first() =~= header@.subrange(j + 1, n as int));
        j += 1;
    }
    proof {
        if j < n {
            assert(header@.subrange(j as int, n as int)[0] == header@[j as int]);
        }
    }
    header.substring_char(0, j)
}

/// The cookie a login sets: the `name=value` parts of its `Set-Cookie`
/// headers joined with `; `, or `NoCookie` when there is none.
pub fn join_cookies(set_cookie: &Vec<String>) -> (r: Result<String, UnicomError>)
    ensures
        set_cookie.len() == 0 ==> r == Err::<String, UnicomError>(UnicomError::NoCookie),
        set_cookie.len() > 0 ==> (r matches Ok(c) && c@ == join_seq(
            set_cookie@.map_values(|h: String| cookie_pair(h@)),
            "; "@,
        )),
{
    if set_cookie.len() == 0 {
        return Err(UnicomError::NoCookie);
    }
    let mut pairs: Vec<String> = Vec::new();
    let mut i: usize = 0;
    assert(pairs@.map_values(|p: String| p@) =~= set_cookie@.take(0).map_values(|h: String| cookie_pair(h@)));
    while i < set_cookie.len()
        invariant
            i <= set_cookie.len(),
            pairs@.map_values(|p: String| p@) == set_cookie@.take(i as int).map_values(|h: String| cookie_pair(h@)),
        decreases set_cookie.len() - i,
    {
        let piece = pair_of(set_cookie[i].as_str());
        let ghost before = pairs@.map_values(|p: String| p@);
        pairs.push(piece.to_owned());
        proof {
            assert(set_cookie@.take(i + 1).map_values(|h: String| cookie_pair(h@)) =~= set_cookie@.take(i as int).map_values(|h: String| cookie_pair(h@)).push(cookie_pair(set_cookie@[i as int]@)));
            assert(pairs@.map_values(|p: String| p@) =~= before.push(piece@));
        }
        i += 1;
    }
    assert(set_cookie@.take(set_cookie.len() as int) =~= set_cookie@);
    Ok(join(&pairs, "; "))
}

/// Whether a flow reply is a bare number (the carrier's way of refusing an
/// expired cookie).
pub fn reply_is_bare_number(text: &str) -> (r: bool)
    ensures
        r == (parse_i64_seq(trim_seq(text@)) is Some),
{
    parse_i64(trim(text)).is_some()
}

/// Judges the fields of a flow reply: a result code other than `0000`, or
/// none of the package name, shared data and resources, means the cookie
/// has expired.
pub fn check_flow_fields(code: Option<&str>, has_package_name: bool, has_share_data: bool, has_resources: bool) -> (r: Result<(), UnicomError>)
    ensures
        r is Ok <==> (!(code matches Some(c) && c@ != "0000"@) && (has_package_name || has_share_data || has_resources)),
        r matches Err(e) ==> e == UnicomError::CookieExpired,
{
    if let Some(c) = code {
        if !str_eq(c, "0000") {
            return Err(UnicomError::CookieExpired);
        }
    }
    if !has_package_name && !has_share_data && !has_resources {
        return Err(UnicomError::CookieExpired);
    }
    Ok(())
}

pub open spec fn or_text(v: Option<&str>, d: Seq<char>) -> Seq<char> {
    match v {
        Some(s) => s@,
        None => d,
    }
}

fn text_or(v: Option<&str>, d: &str) -> (r: String)
    ensures
        r@ == or_text(v, d@),
{
    match v {
        Some(s) => s.to_owned(),
        None => d.to_owned(),
    }
}

/// The balance from the fields of a balance reply: refused when the result
/// code is not `0000` (with the carrier's message, or 'Cookie已失效'),
/// else the three figures, `0.00` where absent.
pub fn balance_from_reply(
    code: Option<&str>,
    msg: Option<&str>,
    balance: Option<&str>,
    real_fee: Option<&str>,
    can_use_fee: Option<&str>,
) -> (r: Result<BalanceData, UnicomError>)
    ensures
        (code matches Some(c) && c@ != "0000"@) ==> (r matches Err(UnicomError::BalanceRefused(m)) && m@ == or_text(msg, "Cookie已失效"@)),
        !(code matches Some(c) && c@ != "0000"@) ==> (r matches Ok(b) && b.balance@ == or_text(balance, "0.00"@)
            && b.real_fee@ == or_text(real_fee, "0.00"@) && b.can_use_fee@ == or_text(can_use_fee, "0.00"@)),
{
    if let Some(c) = code {
        if !str_eq(c, "0000") {
            return Err(UnicomError::BalanceRefused(text_or(msg, "Cookie已失效")));
        }
    }
    Ok(BalanceData {
        balance: text_or(balance, "0.00"),
        real_fee: text_or(real_fee, "0.00"),
        can_use_fee: text_or(can_use_fee, "0.00"),
    })
}

// ───────────────────────── when to log in ─────────────────────────

/// Whether a query must log in first: when login credentials (app id and
/// online token) are stored and the cookie is missing or about to expire;
/// without credentials a missing cookie is an error.
pub open spec fn login_needed_spec(has_credentials: bool, cookie_empty: bool, refresh_due: bool) -> Result<bool, UnicomError> {
    if has_credentials {
        Ok(cookie_empty || refresh_due)
    } else if cookie_empty {
        Err(UnicomError::MissingCredentials)
    } else {
        Ok(false)
    }
}

/// The login decision, given whether the cookie is due for renewal.
pub fn login_needed(has_credentials: bool, cookie_empty: bool, refresh_due: bool) -> (r: Result<bool, UnicomError>)
    ensures
        r == login_needed_spec(has_credentials, cookie_empty, refresh_due),
{
    if has_credentials {
        Ok(cookie_empty || refresh_due)
    } else if cookie_empty {
        Err(UnicomError::MissingCredentials)
    } else {
        Ok(false)
    }
}

/// The login decision for stored credentials, cookie and cookie time, at
/// the clock reading `now_secs` seconds and `now_nanos` nanoseconds: the
/// cookie's age is judged only when credentials and a cookie are stored.
pub open spec fn login_plan(
    appid: Seq<char>,
    token_online: Seq<char>,
    cookie: Seq<char>,
    cookie_created_at: Seq<char>,
    cookie_ttl: u64,
    now_secs: int,
    now_nanos: int,
) -> Result<bool, UnicomError> {
    let has_credentials = appid.len() > 0 && token_online.len() > 0;
    login_needed_spec(
        has_credentials,
        cookie.len() == 0,
        has_credentials && cookie.len() > 0 && cookie_refresh_due(
            cookie_created_at,
            cookie_ttl,
            now_secs,
            now_nanos,
        ),
    )
}

/// Whether a query must log in first, at the given clock reading.
pub fn plan_login_at(
    appid: &str,
    token_online: &str,
    cookie: &str,
    cookie_created_at: &str,
    cookie_ttl: u64,
    now_secs: i64,
    now_nanos: u32,
) -> (r: Result<bool, UnicomError>)
    requires
        stamp_in_range(now_secs as int),
    ensures
        r == login_plan(appid@, token_online@, cookie@, cookie_created_at@, cookie_ttl, now_secs as int, now_nanos as int),
{
    let has_credentials = appid.unicode_len() > 0 && token_online.unicode_len() > 0;
    let cookie_empty = cookie.unicode_len() == 0;
    let refresh_due = if has_credentials && !cookie_empty {
        should_refresh_cookie_at(cookie_created_at, cookie_ttl, now_secs, now_nanos)
    } else {
        false
    };
    login_needed(has_credentials, cookie_empty, refresh_due)
}

/// Whether a query must log in first, reading the clock to judge the
/// cookie's age when it matters.
pub fn plan_login(appid: &str, token_online: &str, cookie: &str, cookie_created_at: &str, cookie_ttl: u64) -> (r: Result<bool, UnicomError>)
    ensures
        exists|now_secs: int, now_nanos: int|
            r == login_plan(appid@, token_online@, cookie@, cookie_created_at@, cookie_ttl, now_secs, now_nanos),
{
    let (now_secs, now_nanos) = local_now_stamp();
    plan_login_at(appid, token_online, cookie, cookie_created_at, cookie_ttl, now_secs, now_nanos)
}

/// Whether a failed flow query is retried after a fresh login: the cookie
/// expired and an app id is stored.
pub fn should_relogin(error: &str, appid: &str) -> (r: bool)
    ensures
        r == (seq_contains(error@, "Cookie已失效"@) && appid@.len() > 0),
{
    contains(error, "Cookie已失效") && appid.unicode_len() > 0
}

/// Whether a query error means the user is unknown (answered with 404).
pub fn is_missing_user_error(error: &str) -> (r: bool)
    ensures
        r == seq_contains(error@, "用户不存在"@),
{
    contains(error, "用户不存在")
}

// ───────────────────────── a query, step by step ─────────────────────────

/// Where a flow query stands. `renewed` records that the query has logged
/// in (at its start, or again after an expired cookie), so the cookie it
/// ends with is a new one and is to be stored.
#[derive(Clone, Copy, Debug, PartialEq, Eq)]
pub enum QueryPhase {
    /// Waiting for a login; `retry` when it follows an expired cookie.
    LoggingIn { retry: bool, renewed: bool },
    /// Waiting for the flow reply; `retried` once a fresh login was made for it.
    QueryingFlow { retried: bool, renewed: bool },
    /// Waiting for the balance reply.
    QueryingBalance { renewed: bool },
    Finished,
    Failed,
}

/// What a query does next.
#[derive(Debug, PartialEq, Eq)]
pub enum QueryAction {
    Login,
    QueryFlow,
    QueryBalance,
    /// The query is done; `cookie_renewed` when the cookie it used must be stored.
    Finish { cookie_renewed: bool },
    /// The query failed with this message.
    Fail(String),
}

/// What came back from the last action.
pub enum QueryEvent {
    LoginSucceeded,
    LoginFailed(String),
    FlowSucceeded,
    FlowFailed(String),
    /// The balance reply came, usable or not (a balance failure is not an error).
    BalanceAnswered,
}

/// The first step of a query: log in first when it is needed.
pub fn query_begin(need_login: bool) -> (r: (QueryPhase, QueryAction))
    ensures
        need_login ==> r == (QueryPhase::LoggingIn { retry: false, renewed: true }, QueryAction::Login),
        !need_login ==> r == (QueryPhase::QueryingFlow { retried: false, renewed: false }, QueryAction::QueryFlow),
        login_recorded(r.0),
{
    if need_login {
        (QueryPhase::LoggingIn { retry: false, renewed: true }, QueryAction::Login)
    } else {
        (QueryPhase::QueryingFlow { retried: false, renewed: false }, QueryAction::QueryFlow)
    }
}

/// A phase that follows a login records it: waiting for a login, or for the
/// flow reply after a fresh login, always carries `renewed`.
pub open spec fn login_recorded(p: QueryPhase) -> bool {
    match p {
        QueryPhase::LoggingIn { renewed, .. } => renewed,
        QueryPhase::QueryingFlow { retried, renewed } => retried ==> renewed,
        _ => true,
    }
}

/// The action a phase waits on (`None` once the query is over).
pub open spec fn pending_action(p: QueryPhase) -> Option<QueryAction> {
    match p {
        QueryPhase::LoggingIn { .. } => Some(QueryAction::Login),
        QueryPhase::QueryingFlow { .. } => Some(QueryAction::QueryFlow),
        QueryPhase::QueryingBalance { .. } => Some(QueryAction::QueryBalance),
        _ => None,
    }
}

/// How many more answered steps a query can take at most from a phase.
pub open spec fn steps_left(p: QueryPhase) -> nat {
    match p {
        QueryPhase::LoggingIn { retry, .. } => if retry { 3 } else { 5 },
        QueryPhase::QueryingFlow { retried, .. } => if retried { 2 } else { 4 },
        QueryPhase::QueryingBalance { .. } => 1,
        _ => 0,
    }
}

/// Whether an event answers the action a phase waits on.
pub open spec fn answers(p: QueryPhase, e: QueryEvent) -> bool {
    match (p, e) {
        (QueryPhase::LoggingIn { .. }, QueryEvent::LoginSucceeded) => true,
        (QueryPhase::LoggingIn { .. }, QueryEvent::LoginFailed(_)) => true,
        (QueryPhase::QueryingFlow { .. }, QueryEvent::FlowSucceeded) => true,
        (QueryPhase::QueryingFlow { .. }, QueryEvent::FlowFailed(_)) => true,
        (QueryPhase::QueryingBalance { .. }, QueryEvent::BalanceAnswered) => true,
        _ => false,
    }
}

/// The next step of a query, given what its last action gave back. A login
/// leads to the flow query and a failed login ends it; a flow reply leads to
/// the balance query; a flow failure that means an expired cookie leads, once
/// and only when an app id is stored, to a fresh login and a second flow
/// query, and otherwise ends it; the balance reply finishes it, saying that
/// the cookie is to be stored when the query logged in at any point. An event that
/// does not answer the pending action changes nothing. Each answered step
/// brings the query closer to its end, which it reaches in at most five.
pub fn query_next(phase: QueryPhase, event: QueryEvent, appid: &str) -> (r: (QueryPhase, QueryAction))
    ensures
        answers(phase, event) ==> steps_left(r.0) < steps_left(phase),
        login_recorded(phase) ==> login_recorded(r.0),
        match (phase, event) {
            (QueryPhase::LoggingIn { retry, renewed }, QueryEvent::LoginSucceeded) => r == (
                QueryPhase::QueryingFlow { retried: retry, renewed },
                QueryAction::QueryFlow,
            ),
            (QueryPhase::LoggingIn { .. }, QueryEvent::LoginFailed(m)) => r.0 == QueryPhase::Failed
                && (r.1 matches QueryAction::Fail(x) && x@ == m@),
            (QueryPhase::QueryingFlow { renewed, .. }, QueryEvent::FlowSucceeded) => r == (
                QueryPhase::QueryingBalance { renewed },
                QueryAction::QueryBalance,
            ),
            (QueryPhase::QueryingFlow { retried, renewed }, QueryEvent::FlowFailed(m)) => if !retried
                && seq_contains(m@, "Cookie已失效"@) && appid@.len() > 0 {
                r == (QueryPhase::LoggingIn { retry: true, renewed: true }, QueryAction::Login)
            } else {
                r.0 == QueryPhase::Failed && (r.1 matches QueryAction::Fail(x) && x@ == m@)
            },
            (QueryPhase::QueryingBalance { renewed }, QueryEvent::BalanceAnswered) => r == (
                QueryPhase::Finished,
                QueryAction::Finish { cookie_renewed: renewed },
            ),
            _ => r.0 == phase && (match pending_action(phase) {
                Some(a) => r.1 == a,
                None => r.1 matches QueryAction::Fail(_),
            }),
        },
{
    match (phase, event) {
        (QueryPhase::LoggingIn { retry, renewed }, QueryEvent::LoginSucceeded) => {
            (QueryPhase::QueryingFlow { retried: retry, renewed }, QueryAction::QueryFlow)
        },
        (QueryPhase::LoggingIn { .. }, QueryEvent::LoginFailed(m)) => {
            (QueryPhase::Failed, QueryAction::Fail(m))
        },
        (QueryPhase::QueryingFlow { renewed, .. }, QueryEvent::FlowSucceeded) => {
            (QueryPhase::QueryingBalance { renewed }, QueryAction::QueryBalance)
        },
        (QueryPhase::QueryingFlow { retried, renewed }, QueryEvent::FlowFailed(m)) => {
            if !retried && should_relogin(m.as_str(), appid) {
                (QueryPhase::LoggingIn { retry: true, renewed: true }, QueryAction::Login)
            } else {
                (QueryPhase::Failed, QueryAction::Fail(m))
            }
        },
        (QueryPhase::QueryingBalance { renewed }, QueryEvent::BalanceAnswered) => {
            (QueryPhase::Finished, QueryAction::Finish { cookie_renewed: renewed })
        },
        (p, _) => match p {
            QueryPhase::LoggingIn { .. } => (p, QueryAction::Login),
            QueryPhase::QueryingFlow { .. } => (p, QueryAction::QueryFlow),
            QueryPhase::QueryingBalance { .. } => (p, QueryAction::QueryBalance),
            _ => (p, QueryAction::Fail("查询已结束".to_owned())),
        },
    }
}

} // verus!
