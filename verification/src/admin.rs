//! Administration: the statements that update users, the log filter, and
//! the small settings the admin pages read and write.
use vstd::prelude::*;
use vstd::string::*;

use crate::text::{join, join_seq, nat_decimal, parse_i32, parse_i32_seq, parse_i64, parse_i64_seq, str_eq, u64_to_decimal};

verus! {

/// A user added by an admin.
pub struct AddUserRequest {
    pub mobile: String,
    pub nickname: Option<String>,
    pub query_password: String,
    pub auth_type: String,
    pub cookie: Option<String>,
    pub appid: Option<String>,
    pub token_online: Option<String>,
}

/// An admin's change to a user: the fields that are present are written.
pub struct UpdateUserRequest {
    pub id: i64,
    pub mobile: Option<String>,
    pub nickname: Option<String>,
    pub query_password: Option<String>,
    pub auth_type: Option<String>,
    pub cookie: Option<String>,
    pub appid: Option<String>,
    pub token_online: Option<String>,
    pub status: Option<String>,
    pub notify_enabled: Option<i32>,
    pub notify_type: Option<String>,
    pub notify_params: Option<String>,
    pub notify_threshold: Option<i32>,
    pub query_interval: Option<i32>,
    pub notify_title: Option<String>,
    pub notify_content: Option<String>,
}

/// A request naming a user.
pub struct UserIdRequest {
    pub id: i64,
}

/// A schedule for a user's periodic query.
pub struct CronCreateRequest {
    pub user_id: i64,
    pub cron_expression: String,
}

/// A request to switch a scheduled task on or off.
pub struct CronToggleRequest {
    pub id: i64,
}

/// A request to delete a scheduled task.
pub struct CronDeleteRequest {
    pub id: i64,
}

/// An admin's password change.
pub struct ChangePasswordRequest {
    pub old_password: String,
    pub new_password: String,
}

/// An admin's new user name.
pub struct ChangeUsernameRequest {
    pub new_username: String,
}

/// The guest-registration switch, as text ("1" on).
pub struct GuestRegisterRequest {
    pub enabled: String,
}

/// The log settings: level and retention in days (as text).
pub struct LogConfigRequest {
    pub log_level: String,
    pub log_retention_days: String,
}

/// A statement parameter.
pub enum SqlParam {
    Text(String),
    Int(i64),
}

/// A parameter as a value.
pub enum ParamView {
    Text(Seq<char>),
    Int(i64),
}

pub open spec fn param_view(p: SqlParam) -> ParamView {
    match p {
        SqlParam::Text(s) => ParamView::Text(s@),
        SqlParam::Int(i) => ParamView::Int(i),
    }
}

pub open spec fn slot_view(s: Option<SqlParam>) -> Option<ParamView> {
    match s {
        Some(p) => Some(param_view(p)),
        None => None,
    }
}

/// The present fields among the candidates, in order, with their values.
pub open spec fn present(cands: Seq<(Seq<char>, Option<ParamView>)>) -> Seq<(Seq<char>, ParamView)>
    decreases cands.len(),
{
    if cands.len() == 0 {
        Seq::empty()
    } else {
        let p = present(cands.drop_last());
        match cands.last().1 {
            Some(v) => p.push((cands.last().0, v)),
            None => p,
        }
    }
}

/// `<column> = ?`, numbered `?<k + 1>` when `numbered`.
pub open spec fn set_fragment(column: Seq<char>, k: int, numbered: bool) -> Seq<char> {
    column + " = ?"@ + if numbered {
        nat_decimal((k + 1) as nat)
    } else {
        Seq::empty()
    }
}

pub open spec fn set_fragments(ps: Seq<(Seq<char>, ParamView)>, numbered: bool) -> Seq<Seq<char>> {
    Seq::new(ps.len(), |k: int| set_fragment(ps[k].0, k, numbered))
}

pub open spec fn set_params(ps: Seq<(Seq<char>, ParamView)>) -> Seq<ParamView> {
    Seq::new(ps.len(), |k: int| ps[k].1)
}

fn clone_param(p: &SqlParam) -> (r: SqlParam)
    ensures
        param_view(r) == param_view(*p),
{
    match p {
        SqlParam::Text(s) => SqlParam::Text(s.clone()),
        SqlParam::Int(i) => SqlParam::Int(*i),
    }
}

/// The assignments and parameters for the present candidates.
fn collect_sets(cands: &Vec<(&'static str, Option<SqlParam>)>, numbered: bool) -> (r: (Vec<String>, Vec<SqlParam>))
    ensures
        r.0@.map_values(|s: String| s@) == set_fragments(
            present(cands@.map_values(|c: (&str, Option<SqlParam>)| (c.0@, slot_view(c.1)))),
            numbered,
        ),
        r.1@.map_values(|p: SqlParam| param_view(p)) == set_params(
            present(cands@.map_values(|c: (&str, Option<SqlParam>)| (c.0@, slot_view(c.1)))),
        ),
{
    let ghost cv = cands@.map_values(|c: (&str, Option<SqlParam>)| (c.0@, slot_view(c.1)));
    let mut frags: Vec<String> = Vec::new();
    let mut params: Vec<SqlParam> = Vec::new();
    let mut i: usize = 0;
    assert(cv.take(0) =~= Seq::<(Seq<char>, Option<ParamView>)>::empty());
    assert(frags@.map_values(|s: String| s@) =~= set_fragments(present(cv.take(0)), numbered));
    assert(params@.map_values(|p: SqlParam| param_view(p)) =~= set_params(present(cv.take(0))));
    while i < cands.len()
        invariant
            i <= cands.len(),
            cv == cands@.map_values(|c: (&str, Option<SqlParam>)| (c.0@, slot_view(c.1))),
            frags@.map_values(|s: String| s@) == set_fragments(present(cv.take(i as int)), numbered),
            params@.map_values(|p: SqlParam| param_view(p)) == set_params(present(cv.take(i as int))),
            frags.len() == params.len(),
            frags.len() == present(cv.take(i as int)).len(),
            frags.len() <= i,
        decreases cands.len() - i,
    {
        proof {
            assert(cv.take(i + 1).drop_last() =~= cv.take(i as int));
            assert(cv.take(i + 1).last() == cv[i as int]);
        }
        match &cands[i].1 {
            Some(p) => {
                let ghost pre = present(cv.take(i as int));
                let mut f = cands[i].0.to_owned();
                f.append(" = ?");
                if numbered {
                    f.append(u64_to_decimal(frags.len() as u64 + 1).as_str());
                }
                let ghost fb = frags@.map_values(|s: String| s@);
                let ghost pb = params@.map_values(|p: SqlParam| param_view(p));
                let q = clone_param(p);
                frags.push(f);
                params.push(q);
                proof {
                    let np = present(cv.take(i + 1));
                    assert(np == pre.push((cands@[i as int].0@, param_view(*p))));
                    assert(frags@.map_values(|s: String| s@) =~= set_fragments(np, numbered)) by {
                        assert(fb =~= set_fragments(pre, numbered));
                        let nf = frags@.map_values(|s: String| s@);
                        assert forall|k: int| 0 <= k < np.len() implies nf[k] == set_fragments(np, numbered)[k] by {
                            if k < pre.len() {
                                assert(nf[k] == fb[k]);
                                assert(np[k] == pre[k]);
                            } else {
                                assert((pre.len() + 1) as nat == (k + 1) as nat);
                            }
                        }
                    }
                    assert(params@.map_values(|p: SqlParam| param_view(p)) =~= set_params(np)) by {
                        let nq = params@.map_values(|p: SqlParam| param_view(p));
                        assert forall|k: int| 0 <= k < np.len() implies nq[k] == set_params(np)[k] by {
                            if k < pre.len() {
                                assert(nq[k] == pb[k]);
                                assert(np[k] == pre[k]);
                            }
                        }
                    }
                }
            },
            None => {
            },
        }
        i += 1;
    }
    assert(cv.take(cands.len() as int) =~= cv);
    (frags, params)
}

fn text_slot(v: &Option<String>) -> (r: Option<SqlParam>)
    ensures
        slot_view(r) == match v {
            Some(s) => Some(ParamView::Text(s@)),
            None => None,
        },
{
    match v {
        Some(s) => Some(SqlParam::Text(s.clone())),
        None => None,
    }
}

fn int_slot(v: Option<i32>) -> (r: Option<SqlParam>)
    ensures
        slot_view(r) == match v {
            Some(i) => Some(ParamView::Int(i as i64)),
            None => None,
        },
{
    match v {
        Some(i) => Some(SqlParam::Int(i as i64)),
        None => None,
    }
}

pub open spec fn text_cand(col: Seq<char>, v: Option<String>) -> (Seq<char>, Option<ParamView>) {
    (col, match v {
        Some(s) => Some(ParamView::Text(s@)),
        None => None,
    })
}

pub open spec fn int_cand(col: Seq<char>, v: Option<i32>) -> (Seq<char>, Option<ParamView>) {
    (col, match v {
        Some(i) => Some(ParamView::Int(i as i64)),
        None => None,
    })
}

/// The columns an admin's update may write, in order, with their values.
pub open spec fn user_update_candidates(req: UpdateUserRequest) -> Seq<(Seq<char>, Option<ParamView>)> {
    seq![
        text_cand("mobile"@, req.mobile),
        text_cand("nickname"@, req.nickname),
        text_cand("query_password"@, req.query_password),
        text_cand("auth_type"@, req.auth_type),
        text_cand("cookie"@, req.cookie),
        text_cand("appid"@, req.appid),
        text_cand("token_online"@, req.token_online),
        text_cand("status"@, req.status),
        int_cand("notify_enabled"@, req.notify_enabled),
        text_cand("notify_type"@, req.notify_type),
        text_cand("notify_params"@, req.notify_params),
        int_cand("notify_threshold"@, req.notify_threshold),
        int_cand("query_interval"@, req.query_interval),
        text_cand("notify_title"@, req.notify_title),
        text_cand("notify_content"@, req.notify_content),
    ]
}

/// The statement for an admin's update of a user, with numbered parameters:
/// the present fields, then the update time, for the user's id.
pub open spec fn user_update_sql(req: UpdateUserRequest) -> Seq<char> {
    let ps = present(user_update_candidates(req));
    "UPDATE users SET "@ + join_seq(
        set_fragments(ps, true).push("updated_at = datetime('now')"@),
        ", "@,
    ) + " WHERE id = ?"@ + nat_decimal((ps.len() + 1) as nat)
}

/// Whether the admin update of a user assigns `v` to `column`: one of the
/// statement's assignments is `column = ?k` and its `k`-th parameter is `v`.
pub open spec fn update_assigns(req: UpdateUserRequest, column: Seq<char>, v: ParamView) -> bool {
    let ps = present(user_update_candidates(req));
    exists|k: int|
        0 <= k < ps.len() && #[trigger] set_fragments(ps, true)[k] == column + " = ?"@ + nat_decimal(
            (k + 1) as nat,
        ) && set_params(ps)[k] == v
}

/// Whether an admin's update carries no field at all.
pub open spec fn no_user_field(req: UpdateUserRequest) -> bool {
    &&& req.mobile is None
    &&& req.nickname is None
    &&& req.query_password is None
    &&& req.auth_type is None
    &&& req.cookie is None
    &&& req.appid is None
    &&& req.token_online is None
    &&& req.status is None
    &&& req.notify_enabled is None
    &&& req.notify_type is None
    &&& req.notify_params is None
    &&& req.notify_threshold is None
    &&& req.query_interval is None
    &&& req.notify_title is None
    &&& req.notify_content is None
}

proof fn lemma_present_has(cands: Seq<(Seq<char>, Option<ParamView>)>, i: int)
    requires
        0 <= i < cands.len(),
        cands[i].1 is Some,
    ensures
        exists|k: int|
            0 <= k < present(cands).len() && #[trigger] present(cands)[k] == (
                cands[i].0,
                cands[i].1->0,
            ),
    decreases cands.len(),
{
    let p = present(cands.drop_last());
    if i == cands.len() - 1 {
        assert(present(cands) == p.push((cands.last().0, cands.last().1->0)));
        assert(present(cands)[p.len() as int] == (cands[i].0, cands[i].1->0));
    } else {
        assert(cands.drop_last()[i] == cands[i]);
        lemma_present_has(cands.drop_last(), i);
        let k = choose|k: int|
            0 <= k < p.len() && #[trigger] p[k] == (cands[i].0, cands[i].1->0);
        assert(present(cands)[k] == p[k]);
    }
}

proof fn lemma_present_none(cands: Seq<(Seq<char>, Option<ParamView>)>)
    requires
        forall|i: int| 0 <= i < cands.len() ==> (#[trigger] cands[i]).1 is None,
    ensures
        present(cands).len() == 0,
    decreases cands.len(),
{
    if cands.len() > 0 {
        assert forall|i: int| 0 <= i < cands.drop_last().len() implies (
        #[trigger] cands.drop_last()[i]).1 is None by {
            assert(cands.drop_last()[i] == cands[i]);
        }
        lemma_present_none(cands.drop_last());
        assert(cands[cands.len() - 1].1 is None);
    }
}

/// An admin's update writes every field it carries and nothing is dropped:
/// for each of the fifteen fields, a present value is assigned to its
/// column with that value as the assignment's parameter; and there is
/// nothing to update exactly when no field is present.
pub proof fn law_user_update_writes_every_field(req: UpdateUserRequest)
    ensures
        (present(user_update_candidates(req)).len() == 0) == no_user_field(req),
        req.mobile matches Some(v) ==> update_assigns(req, "mobile"@, ParamView::Text(v@)),
        req.nickname matches Some(v) ==> update_assigns(req, "nickname"@, ParamView::Text(v@)),
        req.query_password matches Some(v) ==> update_assigns(req, "query_password"@, ParamView::Text(v@)),
        req.auth_type matches Some(v) ==> update_assigns(req, "auth_type"@, ParamView::Text(v@)),
        req.cookie matches Some(v) ==> update_assigns(req, "cookie"@, ParamView::Text(v@)),
        req.appid matches Some(v) ==> update_assigns(req, "appid"@, ParamView::Text(v@)),
        req.token_online matches Some(v) ==> update_assigns(req, "token_online"@, ParamView::Text(v@)),
        req.status matches Some(v) ==> update_assigns(req, "status"@, ParamView::Text(v@)),
        req.notify_enabled matches Some(v) ==> update_assigns(req, "notify_enabled"@, ParamView::Int(v as i64)),
        req.notify_type matches Some(v) ==> update_assigns(req, "notify_type"@, ParamView::Text(v@)),
        req.notify_params matches Some(v) ==> update_assigns(req, "notify_params"@, ParamView::Text(v@)),
        req.notify_threshold matches Some(v) ==> update_assigns(req, "notify_threshold"@, ParamView::Int(v as i64)),
        req.query_interval matches Some(v) ==> update_assigns(req, "query_interval"@, ParamView::Int(v as i64)),
        req.notify_title matches Some(v) ==> update_assigns(req, "notify_title"@, ParamView::Text(v@)),
        req.notify_content matches Some(v) ==> update_assigns(req, "notify_content"@, ParamView::Text(v@)),
{
    let cands = user_update_candidates(req);
    let ps = present(cands);
    assert forall|k: int| 0 <= k < ps.len() implies #[trigger] set_fragments(ps, true)[k]
        == ps[k].0 + " = ?"@ + nat_decimal((k + 1) as nat) && set_params(ps)[k] == ps[k].1 by {}
    if let Some(v) = req.mobile {
        assert(cands[0] == text_cand("mobile"@, req.mobile));
        lemma_present_has(cands, 0);
        let k = choose|k: int| 0 <= k < ps.len() && #[trigger] ps[k] == ("mobile"@, ParamView::Text(v@));
        assert(set_fragments(ps, true)[k] == "mobile"@ + " = ?"@ + nat_decimal((k + 1) as nat));
    }
    if let Some(v) = req.nickname {
        assert(cands[1] == text_cand("nickname"@, req.nickname));
        lemma_present_has(cands, 1);
        let k = choose|k: int| 0 <= k < ps.len() && #[trigger] ps[k] == ("nickname"@, ParamView::Text(v@));
        assert(set_fragments(ps, true)[k] == "nickname"@ + " = ?"@ + nat_decimal((k + 1) as nat));
    }
    if let Some(v) = req.query_password {
        assert(cands[2] == text_cand("query_password"@, req.query_password));
        lemma_present_has(cands, 2);
        let k = choose|k: int| 0 <= k < ps.len() && #[trigger] ps[k] == ("query_password"@, ParamView::Text(v@));
        assert(set_fragments(ps, true)[k] == "query_password"@ + " = ?"@ + nat_decimal((k + 1) as nat));
    }
    if let Some(v) = req.auth_type {
        assert(cands[3] == text_cand("auth_type"@, req.auth_type));
        lemma_present_has(cands, 3);
        let k = choose|k: int| 0 <= k < ps.len() && #[trigger] ps[k] == ("auth_type"@, ParamView::Text(v@));
        assert(set_fragments(ps, true)[k] == "auth_type"@ + " = ?"@ + nat_decimal((k + 1) as nat));
    }
    if let Some(v) = req.cookie {
        assert(cands[4] == text_cand("cookie"@, req.cookie));
        lemma_present_has(cands, 4);
        let k = choose|k: int| 0 <= k < ps.len() && #[trigger] ps[k] == ("cookie"@, ParamView::Text(v@));
        assert(set_fragments(ps, true)[k] == "cookie"@ + " = ?"@ + nat_decimal((k + 1) as nat));
    }
    if let Some(v) = req.appid {
        assert(cands[5] == text_cand("appid"@, req.appid));
        lemma_present_has(cands, 5);
        let k = choose|k: int| 0 <= k < ps.len() && #[trigger] ps[k] == ("appid"@, ParamView::Text(v@));
        assert(set_fragments(ps, true)[k] == "appid"@ + " = ?"@ + nat_decimal((k + 1) as nat));
    }
    if let Some(v) = req.token_online {
        assert(cands[6] == text_cand("token_online"@, req.token_online));
        lemma_present_has(cands, 6);
        let k = choose|k: int| 0 <= k < ps.len() && #[trigger] ps[k] == ("token_online"@, ParamView::Text(v@));
        assert(set_fragments(ps, true)[k] == "token_online"@ + " = ?"@ + nat_decimal((k + 1) as nat));
    }
    if let Some(v) = req.status {
        assert(cands[7] == text_cand("status"@, req.status));
        lemma_present_has(cands, 7);
        let k = choose|k: int| 0 <= k < ps.len() && #[trigger] ps[k] == ("status"@, ParamView::Text(v@));
        assert(set_fragments(ps, true)[k] == "status"@ + " = ?"@ + nat_decimal((k + 1) as nat));
    }
    if let Some(v) = req.notify_enabled {
        assert(cands[8] == int_cand("notify_enabled"@, req.notify_enabled));
        lemma_present_has(cands, 8);
        let k = choose|k: int| 0 <= k < ps.len() && #[trigger] ps[k] == ("notify_enabled"@, ParamView::Int(v as i64));
        assert(set_fragments(ps, true)[k] == "notify_enabled"@ + " = ?"@ + nat_decimal((k + 1) as nat));
    }
    if let Some(v) = req.notify_type {
        assert(cands[9] == text_cand("notify_type"@, req.notify_type));
        lemma_present_has(cands, 9);
        let k = choose|k: int| 0 <= k < ps.len() && #[trigger] ps[k] == ("notify_type"@, ParamView::Text(v@));
        assert(set_fragments(ps, true)[k] == "notify_type"@ + " = ?"@ + nat_decimal((k + 1) as nat));
    }
    if let Some(v) = req.notify_params {
        assert(cands[10] == text_cand("notify_params"@, req.notify_params));
        lemma_present_has(cands, 10);
        let k = choose|k: int| 0 <= k < ps.len() && #[trigger] ps[k] == ("notify_params"@, ParamView::Text(v@));
        assert(set_fragments(ps, true)[k] == "notify_params"@ + " = ?"@ + nat_decimal((k + 1) as nat));
    }
    if let Some(v) = req.notify_threshold {
        assert(cands[11] == int_cand("notify_threshold"@, req.notify_threshold));
        lemma_present_has(cands, 11);
        let k = choose|k: int| 0 <= k < ps.len() && #[trigger] ps[k] == ("notify_threshold"@, ParamView::Int(v as i64));
        assert(set_fragments(ps, true)[k] == "notify_threshold"@ + " = ?"@ + nat_decimal((k + 1) as nat));
    }
    if let Some(v) = req.query_interval {
        assert(cands[12] == int_cand("query_interval"@, req.query_interval));
        lemma_present_has(cands, 12);
        let k = choose|k: int| 0 <= k < ps.len() && #[trigger] ps[k] == ("query_interval"@, ParamView::Int(v as i64));
        assert(set_fragments(ps, true)[k] == "query_interval"@ + " = ?"@ + nat_decimal((k + 1) as nat));
    }
    if let Some(v) = req.notify_title {
        assert(cands[13] == text_cand("notify_title"@, req.notify_title));
        lemma_present_has(cands, 13);
        let k = choose|k: int| 0 <= k < ps.len() && #[trigger] ps[k] == ("notify_title"@, ParamView::Text(v@));
        assert(set_fragments(ps, true)[k] == "notify_title"@ + " = ?"@ + nat_decimal((k + 1) as nat));
    }
    if let Some(v) = req.notify_content {
        assert(cands[14] == text_cand("notify_content"@, req.notify_content));
        lemma_present_has(cands, 14);
        let k = choose|k: int| 0 <= k < ps.len() && #[trigger] ps[k] == ("notify_content"@, ParamView::Text(v@));
        assert(set_fragments(ps, true)[k] == "notify_content"@ + " = ?"@ + nat_decimal((k + 1) as nat));
    }
    if no_user_field(req) {
        assert forall|i: int| 0 <= i < cands.len() implies (#[trigger] cands[i]).1 is None by {
            assert(cands.len() == 15);
            if i == 0 {} else if i == 1 {} else if i == 2 {} else if i == 3 {} else if i == 4 {}
            else if i == 5 {} else if i == 6 {} else if i == 7 {} else if i == 8 {}
            else if i == 9 {} else if i == 10 {} else if i == 11 {} else if i == 12 {}
            else if i == 13 {} else {}
        }
        lemma_present_none(cands);
    }
}

/// An update statement and its parameters.
pub struct UpdateStatement {
    pub sql: String,
    pub params: Vec<SqlParam>,
}

/// The statement for an admin's update of a user, or `None` when no field
/// is present (nothing to update).
pub fn build_user_update(req: &UpdateUserRequest) -> (r: Option<UpdateStatement>)
    ensures
        present(user_update_candidates(*req)).len() == 0 ==> r is None,
        present(user_update_candidates(*req)).len() > 0 ==> (r matches Some(st) && st.sql@
            == user_update_sql(*req) && st.params@.map_values(|p: SqlParam| param_view(p)) == set_params(
            present(user_update_candidates(*req)),
        ).push(ParamView::Int(req.id))),
{
    let cands: Vec<(&'static str, Option<SqlParam>)> = vec![
        ("mobile", text_slot(&req.mobile)),
        ("nickname", text_slot(&req.nickname)),
        ("query_password", text_slot(&req.query_password)),
        ("auth_type", text_slot(&req.auth_type)),
        ("cookie", text_slot(&req.cookie)),
        ("appid", text_slot(&req.appid)),
        ("token_online", text_slot(&req.token_online)),
        ("status", text_slot(&req.status)),
        ("notify_enabled", int_slot(req.notify_enabled)),
        ("notify_type", text_slot(&req.notify_type)),
        ("notify_params", text_slot(&req.notify_params)),
        ("notify_threshold", int_slot(req.notify_threshold)),
        ("query_interval", int_slot(req.query_interval)),
        ("notify_title", text_slot(&req.notify_title)),
        ("notify_content", text_slot(&req.notify_content)),
    ];
    assert(cands@.map_values(|c: (&str, Option<SqlParam>)| (c.0@, slot_view(c.1))) =~= user_update_candidates(*req));
    let (mut frags, mut params) = collect_sets(&cands, true);
    assert(frags@.map_values(|s: String| s@).len() == frags.len());
    if frags.len() == 0 {
        return None;
    }
    let n = frags.len();
    let ghost fv = frags@.map_values(|s: String| s@);
    frags.push("updated_at = datetime('now')".to_owned());
    assert(frags@.map_values(|s: String| s@) =~= fv.push("updated_at = datetime('now')"@));
    let ghost pv = params@.map_values(|p: SqlParam| param_view(p));
    params.push(SqlParam::Int(req.id));
    assert(params@.map_values(|p: SqlParam| param_view(p)) =~= pv.push(ParamView::Int(req.id)));
    let mut sql = "UPDATE users SET ".to_owned();
    sql.append(join(&frags, ", ").as_str());
    sql.append(" WHERE id = ?");
    sql.append(u64_to_decimal(n as u64 + 1).as_str());
    Some(UpdateStatement { sql, params })
}

// ───────────────────────── statuses and settings ─────────────────────────

/// The status a toggle switches to: `disabled` from `active`, else `active`.
pub open spec fn toggle_of(current: Seq<char>) -> Seq<char> {
    if current == "active"@ {
        "disabled"@
    } else {
        "active"@
    }
}

/// Toggling twice gives back an `active` or `disabled` status.
pub proof fn law_toggle_twice(status: Seq<char>)
    requires
        status == "active"@ || status == "disabled"@,
    ensures
        toggle_of(toggle_of(status)) == status,
{
    reveal_strlit("active");
    reveal_strlit("disabled");
    assert("disabled"@[0] != "active"@[0]);
}

/// Switches a user's or a task's status.
pub fn toggled_status(current: &str) -> (r: &'static str)
    ensures
        r@ == toggle_of(current@),
{
    if str_eq(current, "active") {
        "disabled"
    } else {
        "active"
    }
}

/// The word for what a toggle did: 启用 (switched on) for `active`, else 禁用.
pub fn toggle_verb(new_status: &str) -> (r: &'static str)
    ensures
        new_status@ == "active"@ ==> r@ == "启用"@,
        new_status@ != "active"@ ==> r@ == "禁用"@,
{
    if str_eq(new_status, "active") {
        "启用"
    } else {
        "禁用"
    }
}

/// The answer to a toggle: 已启用 for `active`, else 已禁用.
pub fn toggle_message(new_status: &str) -> (r: &'static str)
    ensures
        new_status@ == "active"@ ==> r@ == "已启用"@,
        new_status@ != "active"@ ==> r@ == "已禁用"@,
{
    if str_eq(new_status, "active") {
        "已启用"
    } else {
        "已禁用"
    }
}

/// The word for the guest-registration switch: 启用 when it is 1, else 禁用.
pub fn guest_register_verb(enabled: i32) -> (r: &'static str)
    ensures
        enabled == 1 ==> r@ == "启用"@,
        enabled != 1 ==> r@ == "禁用"@,
{
    if enabled == 1 {
        "启用"
    } else {
        "禁用"
    }
}

/// A number read from a setting or a query parameter, with a default for
/// an absent or unreadable one.
pub fn setting_i64(value: Option<&str>, default: i64) -> (r: i64)
    ensures
        r == match value {
            Some(s) => match parse_i64_seq(s@) {
                Some(v) => v,
                None => default,
            },
            None => default,
        },
{
    match value {
        Some(s) => match parse_i64(s) {
            Some(v) => v,
            None => default,
        },
        None => default,
    }
}

/// A 32-bit number read from a setting, with a default.
pub fn setting_i32(value: Option<&str>, default: i32) -> (r: i32)
    ensures
        r == match value {
            Some(s) => match parse_i32_seq(s@) {
                Some(v) => v,
                None => default,
            },
            None => default,
        },
{
    match value {
        Some(s) => match parse_i32(s) {
            Some(v) => v,
            None => default,
        },
        None => default,
    }
}

/// How many days of logs to keep: the stored setting, else seven.
pub fn retention_days(setting: Option<&str>) -> (r: i64)
    ensures
        r == match setting {
            Some(s) => match parse_i64_seq(s@) {
                Some(v) => v,
                None => 7,
            },
            None => 7,
        },
{
    setting_i64(setting, 7)
}

/// Whether guest registration is on, as a number (unreadable reads as 0).
pub fn guest_register_flag(setting: Option<&str>) -> (r: i32)
    ensures
        r == match setting {
            Some(s) => match parse_i32_seq(s@) {
                Some(v) => v,
                None => 0,
            },
            None => 0,
        },
{
    setting_i32(setting, 0)
}

/// A setting's text, or its default when absent.
pub fn setting_text(setting: Option<&str>, default: &str) -> (r: String)
    ensures
        r@ == match setting {
            Some(s) => s@,
            None => default@,
        },
{
    match setting {
        Some(s) => s.to_owned(),
        None => default.to_owned(),
    }
}

// ───────────────────────── the log filter ─────────────────────────

/// The conditions on the system log: by type, by level, both, or none.
pub open spec fn log_conditions(log_type: bool, level: bool) -> Seq<Seq<char>> {
    if log_type && level {
        seq!["log_type = ?1"@, "log_level = ?2"@]
    } else if log_type {
        seq!["log_type = ?1"@]
    } else if level {
        seq!["log_level = ?1"@]
    } else {
        Seq::empty()
    }
}

pub open spec fn log_where(log_type: bool, level: bool) -> Seq<char> {
    let c = log_conditions(log_type, level);
    if c.len() == 0 {
        Seq::empty()
    } else {
        "WHERE "@ + join_seq(c, " AND "@)
    }
}

/// The log query: its `WHERE` clause and the statements that page through
/// and count the matching entries.
pub struct LogQuery {
    pub where_clause: String,
    pub select_sql: String,
    pub count_sql: String,
    pub params: Vec<String>,
}

/// The log query for an optional type and an optional level; the page's
/// limit and offset are the two parameters after the filter's.
pub fn log_query(log_type: Option<&str>, level: Option<&str>) -> (r: LogQuery)
    ensures
        r.where_clause@ == log_where(log_type is Some, level is Some),
        r.select_sql@ == "SELECT id, log_type, log_level, message, context, user_id, ip_address, created_at FROM system_logs "@
            + log_where(log_type is Some, level is Some) + " ORDER BY created_at DESC LIMIT ?"@
            + nat_decimal(log_conditions(log_type is Some, level is Some).len() + 1) + " OFFSET ?"@
            + nat_decimal(log_conditions(log_type is Some, level is Some).len() + 2),
        r.count_sql@ == "SELECT COUNT(*) FROM system_logs "@ + log_where(log_type is Some, level is Some),
        r.params@.map_values(|p: String| p@) == match (log_type, level) {
            (Some(t), Some(l)) => seq![t@, l@],
            (Some(t), None) => seq![t@],
            (None, Some(l)) => seq![l@],
            (None, None) => Seq::<Seq<char>>::empty(),
        },
{
    let mut conds: Vec<String> = Vec::new();
    let mut params: Vec<String> = Vec::new();
    match log_type {
        Some(t) => {
            conds.push("log_type = ?1".to_owned());
            params.push(t.to_owned());
        },
        None => {},
    }
    match level {
        Some(l) => {
            if log_type.is_some() {
                conds.push("log_level = ?2".to_owned());
            } else {
                conds.push("log_level = ?1".to_owned());
            }
            params.push(l.to_owned());
        },
        None => {},
    }
    let ghost cs = log_conditions(log_type is Some, level is Some);
    assert(conds@.map_values(|p: String| p@) =~= cs);
    assert(params@.map_values(|p: String| p@) =~= match (log_type, level) {
        (Some(t), Some(l)) => seq![t@, l@],
        (Some(t), None) => seq![t@],
        (None, Some(l)) => seq![l@],
        (None, None) => Seq::<Seq<char>>::empty(),
    });
    let where_clause = if conds.len() == 0 {
        String::new()
    } else {
        let mut w = "WHERE ".to_owned();
        w.append(join(&conds, " AND ").as_str());
        w
    };
    let n = conds.len() as u64;
    let mut select_sql = "SELECT id, log_type, log_level, message, context, user_id, ip_address, created_at FROM system_logs ".to_owned();
    select_sql.append(where_clause.as_str());
    select_sql.append(" ORDER BY created_at DESC LIMIT ?");
    select_sql.append(u64_to_decimal(n + 1).as_str());
    select_sql.append(" OFFSET ?");
    select_sql.append(u64_to_decimal(n + 2).as_str());
    let mut count_sql = "SELECT COUNT(*) FROM system_logs ".to_owned();
    count_sql.append(where_clause.as_str());
    LogQuery { where_clause, select_sql, count_sql, params }
}

// ───────────────────────── users' own settings ─────────────────────────

/// A user's change to their settings (`notify_params` as the JSON text to store).
pub struct UpdateConfigRequest {
    pub nickname: Option<String>,
    pub query_password: Option<String>,
    pub cookie: Option<String>,
    pub notify_enabled: Option<i32>,
    pub notify_type: Option<String>,
    pub notify_params: Option<String>,
    pub notify_threshold: Option<i32>,
    pub query_interval: Option<i32>,
}

/// A user's saved settings page (`notify_params` as the JSON text to store).
pub struct SaveConfigRequest {
    pub nickname: Option<String>,
    pub query_password: Option<String>,
    pub auth_type: Option<String>,
    pub appid: Option<String>,
    pub token_online: Option<String>,
    pub notify_enabled: Option<i32>,
    pub notify_type: Option<String>,
    pub notify_params: Option<String>,
    pub notify_threshold: Option<i32>,
    pub query_interval: Option<i32>,
    pub notify_title: Option<String>,
    pub notify_subtitle: Option<String>,
    pub notify_content: Option<String>,
}

pub open spec fn config_head_candidates(req: UpdateConfigRequest) -> Seq<(Seq<char>, Option<ParamView>)> {
    seq![
        text_cand("nickname"@, req.nickname),
        text_cand("query_password"@, req.query_password),
        text_cand("cookie"@, req.cookie),
    ]
}

pub open spec fn config_tail_candidates(req: UpdateConfigRequest) -> Seq<(Seq<char>, Option<ParamView>)> {
    seq![
        int_cand("notify_enabled"@, req.notify_enabled),
        text_cand("notify_type"@, req.notify_type),
        text_cand("notify_params"@, req.notify_params),
        int_cand("notify_threshold"@, req.notify_threshold),
        int_cand("query_interval"@, req.query_interval),
    ]
}

/// The assignments of a settings change: the present fields in order, a
/// new cookie also stamping its creation time.
pub open spec fn config_fragments(req: UpdateConfigRequest) -> Seq<Seq<char>> {
    set_fragments(present(config_head_candidates(req)), false) + (if req.cookie is Some {
        seq!["cookie_created_at = datetime('now', 'localtime')"@]
    } else {
        Seq::empty()
    }) + set_fragments(present(config_tail_candidates(req)), false)
}

pub open spec fn config_params(req: UpdateConfigRequest) -> Seq<ParamView> {
    set_params(present(config_head_candidates(req))) + set_params(present(config_tail_candidates(req)))
}

/// `UPDATE users SET <assignments>, <stamp> WHERE id = ?`.
pub open spec fn plain_update_sql(fragments: Seq<Seq<char>>) -> Seq<char> {
    "UPDATE users SET "@ + join_seq(fragments.push("updated_at = datetime('now', 'localtime')"@), ", "@)
        + " WHERE id = ?"@
}

fn finish_plain_update(frags: Vec<String>, params: Vec<SqlParam>, user_id: i64) -> (r: UpdateStatement)
    ensures
        r.sql@ == plain_update_sql(frags@.map_values(|s: String| s@)),
        r.params@.map_values(|p: SqlParam| param_view(p)) == params@.map_values(|p: SqlParam| param_view(p)).push(ParamView::Int(user_id)),
{
    let mut frags = frags;
    let mut params = params;
    let ghost fv = frags@.map_values(|s: String| s@);
    frags.push("updated_at = datetime('now', 'localtime')".to_owned());
    assert(frags@.map_values(|s: String| s@) =~= fv.push("updated_at = datetime('now', 'localtime')"@));
    let ghost pv = params@.map_values(|p: SqlParam| param_view(p));
    params.push(SqlParam::Int(user_id));
    assert(params@.map_values(|p: SqlParam| param_view(p)) =~= pv.push(ParamView::Int(user_id)));
    let mut sql = "UPDATE users SET ".to_owned();
    sql.append(join(&frags, ", ").as_str());
    sql.append(" WHERE id = ?");
    UpdateStatement { sql, params }
}

fn append_all(a: &mut Vec<String>, b: Vec<String>)
    ensures
        final(a)@.map_values(|s: String| s@) == old(a)@.map_values(|s: String| s@) + b@.map_values(|s: String| s@),
{
    let mut b = b;
    let ghost av = a@.map_values(|s: String| s@);
    let ghost bv = b@.map_values(|s: String| s@);
    a.append(&mut b);
    assert(a@.map_values(|s: String| s@) =~= av + bv);
}

fn append_params(a: &mut Vec<SqlParam>, b: Vec<SqlParam>)
    ensures
        final(a)@.map_values(|p: SqlParam| param_view(p)) == old(a)@.map_values(|p: SqlParam| param_view(p)) + b@.map_values(|p: SqlParam| param_view(p)),
{
    let mut b = b;
    let ghost av = a@.map_values(|p: SqlParam| param_view(p));
    let ghost bv = b@.map_values(|p: SqlParam| param_view(p));
    a.append(&mut b);
    assert(a@.map_values(|p: SqlParam| param_view(p)) =~= av + bv);
}

/// The statement for a user's settings change, or `None` when no field is present.
pub fn build_config_update(req: &UpdateConfigRequest, user_id: i64) -> (r: Option<UpdateStatement>)
    ensures
        config_fragments(*req).len() == 0 ==> r is None,
        config_fragments(*req).len() > 0 ==> (r matches Some(st) && st.sql@ == plain_update_sql(config_fragments(*req))
            && st.params@.map_values(|p: SqlParam| param_view(p)) == config_params(*req).push(ParamView::Int(user_id))),
{
    let head: Vec<(&'static str, Option<SqlParam>)> = vec![
        ("nickname", text_slot(&req.nickname)),
        ("query_password", text_slot(&req.query_password)),
        ("cookie", text_slot(&req.cookie)),
    ];
    let tail: Vec<(&'static str, Option<SqlParam>)> = vec![
        ("notify_enabled", int_slot(req.notify_enabled)),
        ("notify_type", text_slot(&req.notify_type)),
        ("notify_params", text_slot(&req.notify_params)),
        ("notify_threshold", int_slot(req.notify_threshold)),
        ("query_interval", int_slot(req.query_interval)),
    ];
    assert(head@.map_values(|c: (&str, Option<SqlParam>)| (c.0@, slot_view(c.1))) =~= config_head_candidates(*req));
    assert(tail@.map_values(|c: (&str, Option<SqlParam>)| (c.0@, slot_view(c.1))) =~= config_tail_candidates(*req));
    let (mut frags, mut params) = collect_sets(&head, false);
    if req.cookie.is_some() {
        let ghost fv = frags@.map_values(|s: String| s@);
        frags.push("cookie_created_at = datetime('now', 'localtime')".to_owned());
        assert(frags@.map_values(|s: String| s@) =~= fv.push("cookie_created_at = datetime('now', 'localtime')"@));
    } else {
        assert(frags@.map_values(|s: String| s@) =~= frags@.map_values(|s: String| s@) + Seq::<Seq<char>>::empty());
    }
    let (f2, p2) = collect_sets(&tail, false);
    append_all(&mut frags, f2);
    append_params(&mut params, p2);
    assert(frags@.map_values(|s: String| s@) =~= config_fragments(*req));
    assert(frags@.map_values(|s: String| s@).len() == frags.len());
    if frags.len() == 0 {
        return None;
    }
    Some(finish_plain_update(frags, params, user_id))
}

/// Whether a settings change assigns `v` to `column`: one of its
/// assignments is `column = ?`, and the parameter in its place (counting
/// only assignments with a placeholder: the stamp of a new cookie's time
/// has none) is `v`.
pub open spec fn config_assigns(req: UpdateConfigRequest, column: Seq<char>, v: ParamView) -> bool {
    let frags = config_fragments(req);
    let stamped = req.cookie is Some;
    let head = present(config_head_candidates(req)).len();
    exists|k: int|
        0 <= k < frags.len() && #[trigger] frags[k] == column + " = ?"@ && config_params(req)[k - (
        if stamped && k > head {
            1int
        } else {
            0int
        })] == v
}

/// Whether a settings change carries no field at all.
pub open spec fn no_config_field(req: UpdateConfigRequest) -> bool {
    &&& req.nickname is None
    &&& req.query_password is None
    &&& req.cookie is None
    &&& req.notify_enabled is None
    &&& req.notify_type is None
    &&& req.notify_params is None
    &&& req.notify_threshold is None
    &&& req.query_interval is None
}

/// A settings change writes every field it carries, each present value
/// assigned to its column with that value in the assignment's place; a new
/// cookie also stamps its creation time; and there is nothing to update
/// exactly when no field is present.
pub proof fn law_config_update_writes_every_field(req: UpdateConfigRequest)
    ensures
        (config_fragments(req).len() == 0) == no_config_field(req),
        req.cookie is Some ==> config_fragments(req).contains(
            "cookie_created_at = datetime('now', 'localtime')"@,
        ),
        req.nickname matches Some(v) ==> config_assigns(req, "nickname"@, ParamView::Text(v@)),
        req.query_password matches Some(v) ==> config_assigns(req, "query_password"@, ParamView::Text(v@)),
        req.cookie matches Some(v) ==> config_assigns(req, "cookie"@, ParamView::Text(v@)),
        req.notify_enabled matches Some(v) ==> config_assigns(req, "notify_enabled"@, ParamView::Int(v as i64)),
        req.notify_type matches Some(v) ==> config_assigns(req, "notify_type"@, ParamView::Text(v@)),
        req.notify_params matches Some(v) ==> config_assigns(req, "notify_params"@, ParamView::Text(v@)),
        req.notify_threshold matches Some(v) ==> config_assigns(req, "notify_threshold"@, ParamView::Int(v as i64)),
        req.query_interval matches Some(v) ==> config_assigns(req, "query_interval"@, ParamView::Int(v as i64)),
{
    let hc = config_head_candidates(req);
    let tc = config_tail_candidates(req);
    let hp = present(hc);
    let tp = present(tc);
    let af = set_fragments(hp, false);
    let bf = set_fragments(tp, false);
    let ap = set_params(hp);
    let bp = set_params(tp);
    let st = if req.cookie is Some {
        seq!["cookie_created_at = datetime('now', 'localtime')"@]
    } else {
        Seq::empty()
    };
    let fr = config_fragments(req);
    let pr = config_params(req);
    assert(fr == af + st + bf);
    assert(pr == ap + bp);
    assert(fr.len() == hp.len() + st.len() + tp.len());
    if let Some(v) = req.nickname {
        assert(hc[0] == text_cand("nickname"@, req.nickname));
        lemma_present_has(hc, 0);
        let k = choose|k: int| 0 <= k < hp.len() && #[trigger] hp[k] == ("nickname"@, ParamView::Text(v@));
        assert(fr[k] == af[k]);
        assert(pr[k] == ap[k]);
        assert(fr[k] == "nickname"@ + " = ?"@);
    }
    if let Some(v) = req.query_password {
        assert(hc[1] == text_cand("query_password"@, req.query_password));
        lemma_present_has(hc, 1);
        let k = choose|k: int| 0 <= k < hp.len() && #[trigger] hp[k] == ("query_password"@, ParamView::Text(v@));
        assert(fr[k] == af[k]);
        assert(pr[k] == ap[k]);
        assert(fr[k] == "query_password"@ + " = ?"@);
    }
    if let Some(v) = req.cookie {
        assert(hc[2] == text_cand("cookie"@, req.cookie));
        lemma_present_has(hc, 2);
        let k = choose|k: int| 0 <= k < hp.len() && #[trigger] hp[k] == ("cookie"@, ParamView::Text(v@));
        assert(fr[k] == af[k]);
        assert(pr[k] == ap[k]);
        assert(fr[k] == "cookie"@ + " = ?"@);
    }
    if let Some(v) = req.notify_enabled {
        assert(tc[0] == int_cand("notify_enabled"@, req.notify_enabled));
        lemma_present_has(tc, 0);
        let m = choose|m: int| 0 <= m < tp.len() && #[trigger] tp[m] == ("notify_enabled"@, ParamView::Int(v as i64));
        let k = hp.len() + st.len() + m;
        assert(fr[k] == bf[m]);
        assert(pr[hp.len() + m] == bp[m]);
        assert(fr[k] == "notify_enabled"@ + " = ?"@);
        assert(k - (if req.cookie is Some && k > hp.len() { 1int } else { 0int }) == hp.len() + m);
    }
    if let Some(v) = req.notify_type {
        assert(tc[1] == text_cand("notify_type"@, req.notify_type));
        lemma_present_has(tc, 1);
        let m = choose|m: int| 0 <= m < tp.len() && #[trigger] tp[m] == ("notify_type"@, ParamView::Text(v@));
        let k = hp.len() + st.len() + m;
        assert(fr[k] == bf[m]);
        assert(pr[hp.len() + m] == bp[m]);
        assert(fr[k] == "notify_type"@ + " = ?"@);
        assert(k - (if req.cookie is Some && k > hp.len() { 1int } else { 0int }) == hp.len() + m);
    }
    if let Some(v) = req.notify_params {
        assert(tc[2] == text_cand("notify_params"@, req.notify_params));
        lemma_present_has(tc, 2);
        let m = choose|m: int| 0 <= m < tp.len() && #[trigger] tp[m] == ("notify_params"@, ParamView::Text(v@));
        let k = hp.len() + st.len() + m;
        assert(fr[k] == bf[m]);
        assert(pr[hp.len() + m] == bp[m]);
        assert(fr[k] == "notify_params"@ + " = ?"@);
        assert(k - (if req.cookie is Some && k > hp.len() { 1int } else { 0int }) == hp.len() + m);
    }
    if let Some(v) = req.notify_threshold {
        assert(tc[3] == int_cand("notify_threshold"@, req.notify_threshold));
        lemma_present_has(tc, 3);
        let m = choose|m: int| 0 <= m < tp.len() && #[trigger] tp[m] == ("notify_threshold"@, ParamView::Int(v as i64));
        let k = hp.len() + st.len() + m;
        assert(fr[k] == bf[m]);
        assert(pr[hp.len() + m] == bp[m]);
        assert(fr[k] == "notify_threshold"@ + " = ?"@);
        assert(k - (if req.cookie is Some && k > hp.len() { 1int } else { 0int }) == hp.len() + m);
    }
    if let Some(v) = req.query_interval {
        assert(tc[4] == int_cand("query_interval"@, req.query_interval));
        lemma_present_has(tc, 4);
        let m = choose|m: int| 0 <= m < tp.len() && #[trigger] tp[m] == ("query_interval"@, ParamView::Int(v as i64));
        let k = hp.len() + st.len() + m;
        assert(fr[k] == bf[m]);
        assert(pr[hp.len() + m] == bp[m]);
        assert(fr[k] == "query_interval"@ + " = ?"@);
        assert(k - (if req.cookie is Some && k > hp.len() { 1int } else { 0int }) == hp.len() + m);
    }
    if req.cookie is Some {
        assert(fr[hp.len() as int] == st[0]);
    }
    if no_config_field(req) {
        assert forall|i: int| 0 <= i < hc.len() implies (#[trigger] hc[i]).1 is None by {
            if i == 0 {} else if i == 1 {} else {}
        }
        assert forall|i: int| 0 <= i < tc.len() implies (#[trigger] tc[i]).1 is None by {
            if i == 0 {} else if i == 1 {} else if i == 2 {} else if i == 3 {} else {}
        }
        lemma_present_none(hc);
        lemma_present_none(tc);
    } else {
        if req.nickname is Some || req.query_password is Some || req.cookie is Some {
            assert(hp.len() > 0) by {
                if req.nickname is Some { lemma_present_has(hc, 0); }
                else if req.query_password is Some { lemma_present_has(hc, 1); }
                else { lemma_present_has(hc, 2); }
            }
        } else {
            assert(tp.len() > 0) by {
                if req.notify_enabled is Some { lemma_present_has(tc, 0); }
                else if req.notify_type is Some { lemma_present_has(tc, 1); }
                else if req.notify_params is Some { lemma_present_has(tc, 2); }
                else if req.notify_threshold is Some { lemma_present_has(tc, 3); }
                else { lemma_present_has(tc, 4); }
            }
        }
    }
}

pub open spec fn saved_config_candidates(req: SaveConfigRequest) -> Seq<(Seq<char>, Option<ParamView>)> {
    seq![
        text_cand("nickname"@, req.nickname),
        text_cand("query_password"@, req.query_password),
        text_cand("auth_type"@, req.auth_type),
        text_cand("appid"@, req.appid),
        text_cand("token_online"@, req.token_online),
        int_cand("notify_enabled"@, req.notify_enabled),
        text_cand("notify_type"@, req.notify_type),
        text_cand("notify_params"@, req.notify_params),
        int_cand("notify_threshold"@, req.notify_threshold),
        int_cand("query_interval"@, req.query_interval),
        text_cand("notify_title"@, req.notify_title),
        text_cand("notify_subtitle"@, req.notify_subtitle),
        text_cand("notify_content"@, req.notify_content),
    ]
}

/// The statement for a saved settings page, or `None` when no field is present.
pub fn build_saved_config_update(req: &SaveConfigRequest, user_id: i64) -> (r: Option<UpdateStatement>)
    ensures
        present(saved_config_candidates(*req)).len() == 0 ==> r is None,
        present(saved_config_candidates(*req)).len() > 0 ==> (r matches Some(st) && st.sql@
            == plain_update_sql(set_fragments(present(saved_config_candidates(*req)), false))
            && st.params@.map_values(|p: SqlParam| param_view(p)) == set_params(present(saved_config_candidates(*req))).push(ParamView::Int(user_id))),
{
    let cands: Vec<(&'static str, Option<SqlParam>)> = vec![
        ("nickname", text_slot(&req.nickname)),
        ("query_password", text_slot(&req.query_password)),
        ("auth_type", text_slot(&req.auth_type)),
        ("appid", text_slot(&req.appid)),
        ("token_online", text_slot(&req.token_online)),
        ("notify_enabled", int_slot(req.notify_enabled)),
        ("notify_type", text_slot(&req.notify_type)),
        ("notify_params", text_slot(&req.notify_params)),
        ("notify_threshold", int_slot(req.notify_threshold)),
        ("query_interval", int_slot(req.query_interval)),
        ("notify_title", text_slot(&req.notify_title)),
        ("notify_subtitle", text_slot(&req.notify_subtitle)),
        ("notify_content", text_slot(&req.notify_content)),
    ];
    assert(cands@.map_values(|c: (&str, Option<SqlParam>)| (c.0@, slot_view(c.1))) =~= saved_config_candidates(*req));
    let (frags, params) = collect_sets(&cands, false);
    assert(frags@.map_values(|s: String| s@).len() == frags.len());
    if frags.len() == 0 {
        return None;
    }
    Some(finish_plain_update(frags, params, user_id))
}

/// Whether a saved settings page assigns `v` to `column`: one of the
/// statement's assignments is `column = ?` and the parameter in its place
/// is `v`.
pub open spec fn saved_config_assigns(req: SaveConfigRequest, column: Seq<char>, v: ParamView) -> bool {
    let ps = present(saved_config_candidates(req));
    exists|k: int|
        0 <= k < ps.len() && #[trigger] set_fragments(ps, false)[k] == column + " = ?"@ && set_params(ps)[k] == v
}

/// Whether a saved settings page carries no field at all.
pub open spec fn no_saved_field(req: SaveConfigRequest) -> bool {
    &&& req.nickname is None
    &&& req.query_password is None
    &&& req.auth_type is None
    &&& req.appid is None
    &&& req.token_online is None
    &&& req.notify_enabled is None
    &&& req.notify_type is None
    &&& req.notify_params is None
    &&& req.notify_threshold is None
    &&& req.query_interval is None
    &&& req.notify_title is None
    &&& req.notify_subtitle is None
    &&& req.notify_content is None
}

/// A saved settings page writes every field it carries: a present value is
/// assigned to its column with that value in the assignment's place; and
/// there is nothing to update exactly when no field is present.
pub proof fn law_saved_config_writes_every_field(req: SaveConfigRequest)
    ensures
        (present(saved_config_candidates(req)).len() == 0) == no_saved_field(req),
        req.nickname matches Some(v) ==> saved_config_assigns(req, "nickname"@, ParamView::Text(v@)),
        req.query_password matches Some(v) ==> saved_config_assigns(req, "query_password"@, ParamView::Text(v@)),
        req.auth_type matches Some(v) ==> saved_config_assigns(req, "auth_type"@, ParamView::Text(v@)),
        req.appid matches Some(v) ==> saved_config_assigns(req, "appid"@, ParamView::Text(v@)),
        req.token_online matches Some(v) ==> saved_config_assigns(req, "token_online"@, ParamView::Text(v@)),
        req.notify_enabled matches Some(v) ==> saved_config_assigns(req, "notify_enabled"@, ParamView::Int(v as i64)),
        req.notify_type matches Some(v) ==> saved_config_assigns(req, "notify_type"@, ParamView::Text(v@)),
        req.notify_params matches Some(v) ==> saved_config_assigns(req, "notify_params"@, ParamView::Text(v@)),
        req.notify_threshold matches Some(v) ==> saved_config_assigns(req, "notify_threshold"@, ParamView::Int(v as i64)),
        req.query_interval matches Some(v) ==> saved_config_assigns(req, "query_interval"@, ParamView::Int(v as i64)),
        req.notify_title matches Some(v) ==> saved_config_assigns(req, "notify_title"@, ParamView::Text(v@)),
        req.notify_subtitle matches Some(v) ==> saved_config_assigns(req, "notify_subtitle"@, ParamView::Text(v@)),
        req.notify_content matches Some(v) ==> saved_config_assigns(req, "notify_content"@, ParamView::Text(v@)),
{
    let cands = saved_config_candidates(req);
    let ps = present(cands);
    if let Some(v) = req.nickname {
        assert(cands[0] == text_cand("nickname"@, req.nickname));
        lemma_present_has(cands, 0);
        let k = choose|k: int| 0 <= k < ps.len() && #[trigger] ps[k] == ("nickname"@, ParamView::Text(v@));
        assert(set_fragments(ps, false)[k] == "nickname"@ + " = ?"@);
    }
    if let Some(v) = req.query_password {
        assert(cands[1] == text_cand("query_password"@, req.query_password));
        lemma_present_has(cands, 1);
        let k = choose|k: int| 0 <= k < ps.len() && #[trigger] ps[k] == ("query_password"@, ParamView::Text(v@));
        assert(set_fragments(ps, false)[k] == "query_password"@ + " = ?"@);
    }
    if let Some(v) = req.auth_type {
        assert(cands[2] == text_cand("auth_type"@, req.auth_type));
        lemma_present_has(cands, 2);
        let k = choose|k: int| 0 <= k < ps.len() && #[trigger] ps[k] == ("auth_type"@, ParamView::Text(v@));
        assert(set_fragments(ps, false)[k] == "auth_type"@ + " = ?"@);
    }
    if let Some(v) = req.appid {
        assert(cands[3] == text_cand("appid"@, req.appid));
        lemma_present_has(cands, 3);
        let k = choose|k: int| 0 <= k < ps.len() && #[trigger] ps[k] == ("appid"@, ParamView::Text(v@));
        assert(set_fragments(ps, false)[k] == "appid"@ + " = ?"@);
    }
    if let Some(v) = req.token_online {
        assert(cands[4] == text_cand("token_online"@, req.token_online));
        lemma_present_has(cands, 4);
        let k = choose|k: int| 0 <= k < ps.len() && #[trigger] ps[k] == ("token_online"@, ParamView::Text(v@));
        assert(set_fragments(ps, false)[k] == "token_online"@ + " = ?"@);
    }
    if let Some(v) = req.notify_enabled {
        assert(cands[5] == int_cand("notify_enabled"@, req.notify_enabled));
        lemma_present_has(cands, 5);
        let k = choose|k: int| 0 <= k < ps.len() && #[trigger] ps[k] == ("notify_enabled"@, ParamView::Int(v as i64));
        assert(set_fragments(ps, false)[k] == "notify_enabled"@ + " = ?"@);
    }
    if let Some(v) = req.notify_type {
        assert(cands[6] == text_cand("notify_type"@, req.notify_type));
        lemma_present_has(cands, 6);
        let k = choose|k: int| 0 <= k < ps.len() && #[trigger] ps[k] == ("notify_type"@, ParamView::Text(v@));
        assert(set_fragments(ps, false)[k] == "notify_type"@ + " = ?"@);
    }
    if let Some(v) = req.notify_params {
        assert(cands[7] == text_cand("notify_params"@, req.notify_params));
        lemma_present_has(cands, 7);
        let k = choose|k: int| 0 <= k < ps.len() && #[trigger] ps[k] == ("notify_params"@, ParamView::Text(v@));
        assert(set_fragments(ps, false)[k] == "notify_params"@ + " = ?"@);
    }
    if let Some(v) = req.notify_threshold {
        assert(cands[8] == int_cand("notify_threshold"@, req.notify_threshold));
        lemma_present_has(cands, 8);
        let k = choose|k: int| 0 <= k < ps.len() && #[trigger] ps[k] == ("notify_threshold"@, ParamView::Int(v as i64));
        assert(set_fragments(ps, false)[k] == "notify_threshold"@ + " = ?"@);
    }
    if let Some(v) = req.query_interval {
        assert(cands[9] == int_cand("query_interval"@, req.query_interval));
        lemma_present_has(cands, 9);
        let k = choose|k: int| 0 <= k < ps.len() && #[trigger] ps[k] == ("query_interval"@, ParamView::Int(v as i64));
        assert(set_fragments(ps, false)[k] == "query_interval"@ + " = ?"@);
    }
    if let Some(v) = req.notify_title {
        assert(cands[10] == text_cand("notify_title"@, req.notify_title));
        lemma_present_has(cands, 10);
        let k = choose|k: int| 0 <= k < ps.len() && #[trigger] ps[k] == ("notify_title"@, ParamView::Text(v@));
        assert(set_fragments(ps, false)[k] == "notify_title"@ + " = ?"@);
    }
    if let Some(v) = req.notify_subtitle {
        assert(cands[11] == text_cand("notify_subtitle"@, req.notify_subtitle));
        lemma_present_has(cands, 11);
        let k = choose|k: int| 0 <= k < ps.len() && #[trigger] ps[k] == ("notify_subtitle"@, ParamView::Text(v@));
        assert(set_fragments(ps, false)[k] == "notify_subtitle"@ + " = ?"@);
    }
    if let Some(v) = req.notify_content {
        assert(cands[12] == text_cand("notify_content"@, req.notify_content));
        lemma_present_has(cands, 12);
        let k = choose|k: int| 0 <= k < ps.len() && #[trigger] ps[k] == ("notify_content"@, ParamView::Text(v@));
        assert(set_fragments(ps, false)[k] == "notify_content"@ + " = ?"@);
    }
    if no_saved_field(req) {
        assert forall|i: int| 0 <= i < cands.len() implies (#[trigger] cands[i]).1 is None by {
            assert(cands.len() == 13);
            if i == 0 {} else if i == 1 {} else if i == 2 {} else if i == 3 {} else if i == 4 {} else if i == 5 {} else if i == 6 {} else if i == 7 {} else if i == 8 {} else if i == 9 {} else if i == 10 {} else if i == 11 {} else {}
        }
        lemma_present_none(cands);
    }
}

} // verus!
