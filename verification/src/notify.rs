//! Notifications: Telegram parameters and requests, and the texts sent,
//! with their placeholders filled in.
use vstd::prelude::*;
use vstd::string::*;

use crate::flow::{bucket_display_name, display_name};
use crate::text::{
    is_blank, join, join_seq, lemma_replace_absent, lemma_replace_not_occurring, lemma_replace_whole,
    occurs_at, replace, replace_seq, str_eq, trim_seq,
};

verus! {

/// Telegram parameters of a user (from the stored `notify_params`).
pub struct NotifyParams {
    pub bot_token: String,
    pub chat_id: String,
    pub api_host: String,
}

/// The Telegram API host used when none is configured.
pub fn default_api_host() -> (r: String)
    ensures
        r@ == "https://api.telegram.org"@,
{
    "https://api.telegram.org".to_owned()
}

/// `s` without its trailing `c` characters (`trim_end_matches(c)`).
pub open spec fn strip_trailing(s: Seq<char>, c: char) -> Seq<char>
    decreases s.len(),
{
    if s.len() > 0 && s.last() == c {
        strip_trailing(s.drop_last(), c)
    } else {
        s
    }
}

/// `s.trim_end_matches(c)` for one character.
pub fn trim_end_char(s: &str, c: char) -> (r: &str)
    ensures
        r@ == strip_trailing(s@, c),
{
    let n = s.unicode_len();
    let mut b: usize = n;
    assert(s@.subrange(0, n as int) =~= s@);
    while b > 0 && s.get_char(b - 1) == c
        invariant
            n == s@.len(),
            b <= n,
            strip_trailing(s@, c) == strip_trailing(s@.subrange(0, b as int), c),
        decreases b,
    {
        assert(s@.subrange(0, b as int).drop_last() =~= s@.subrange(0, b - 1));
        b -= 1;
    }
    s.substring_char(0, b)
}

/// A message ready to be posted to Telegram.
pub struct TelegramMessage {
    pub url: String,
    pub chat_id: String,
    pub text: String,
}

/// Why a notification could not be sent.
#[derive(Debug, PartialEq, Eq)]
pub enum NotifyError {
    /// The bot token or the chat id is empty.
    Incomplete,
    /// The channel is not one this service can send on.
    UnsupportedType(String),
    /// Telegram refused or failed the request.
    Rejected(String),
}

impl NotifyError {
    /// The error's message, as the service reports it.
    pub fn message(&self) -> (r: String)
        ensures
            *self == NotifyError::Incomplete ==> r@ == "Telegram 配置不完整：bot_token 或 chat_id 为空"@,
            self matches NotifyError::UnsupportedType(m) ==> r@ == m@,
            self matches NotifyError::Rejected(m) ==> r@ == m@,
    {
        match self {
            NotifyError::Incomplete => "Telegram 配置不完整：bot_token 或 chat_id 为空".to_owned(),
            NotifyError::UnsupportedType(m) => m.clone(),
            NotifyError::Rejected(m) => m.clone(),
        }
    }
}

/// The API host a message goes to: the default when the configured one is
/// blank, else the configured one without trailing slashes.
pub open spec fn api_host_of(configured: Seq<char>) -> Seq<char> {
    if trim_seq(configured).len() == 0 {
        "https://api.telegram.org"@
    } else {
        strip_trailing(configured, '/')
    }
}

/// The Telegram message for a title and a content: posted to
/// `<host>/bot<token>/sendMessage`, the title in bold above the content.
pub fn telegram_request(params: &NotifyParams, title: &str, content: &str) -> (r: Result<TelegramMessage, NotifyError>)
    ensures
        (params.bot_token@.len() == 0 || params.chat_id@.len() == 0) ==> r == Err::<TelegramMessage, NotifyError>(NotifyError::Incomplete),
        (params.bot_token@.len() > 0 && params.chat_id@.len() > 0) ==> (r matches Ok(m) && m.url@
            == api_host_of(params.api_host@) + "/bot"@ + params.bot_token@ + "/sendMessage"@ && m.chat_id@ == params.chat_id@
            && m.text@ == "*"@ + title@ + "*\n\n"@ + content@),
{
    if params.bot_token.unicode_len() == 0 || params.chat_id.unicode_len() == 0 {
        return Err(NotifyError::Incomplete);
    }
    let mut url = if is_blank(params.api_host.as_str()) {
        "https://api.telegram.org".to_owned()
    } else {
        trim_end_char(params.api_host.as_str(), '/').to_owned()
    };
    url.append("/bot");
    url.append(params.bot_token.as_str());
    url.append("/sendMessage");
    let mut text = "*".to_owned();
    text.append(title);
    text.append("*\n\n");
    text.append(content);
    Ok(TelegramMessage { url, chat_id: params.chat_id.clone(), text })
}

/// How Telegram answered: the HTTP status was a success, the `ok` field of
/// the reply, its `description`, and the status as text.
pub fn telegram_outcome(status_success: bool, ok_field: Option<bool>, description: Option<&str>, status_text: &str) -> (r: Result<(), NotifyError>)
    ensures
        (status_success && ok_field == Some(true)) ==> r is Ok,
        !(status_success && ok_field == Some(true)) ==> (r matches Err(NotifyError::Rejected(msg))
            && msg@ == "Telegram 发送失败: "@ + (match description {
                Some(d) => d@,
                None => "未知错误"@,
            }) + " (HTTP "@ + status_text@ + ")"@),
{
    if status_success && ok_field == Some(true) {
        return Ok(());
    }
    let mut msg = "Telegram 发送失败: ".to_owned();
    match description {
        Some(d) => msg.append(d),
        None => msg.append("未知错误"),
    }
    msg.append(" (HTTP ");
    msg.append(status_text);
    msg.append(")");
    Err(NotifyError::Rejected(msg))
}

// ───────────────────────── notification texts ─────────────────────────

/// Figures of one bucket, already formatted: total, used, remaining,
/// usage since the last notification, and usage today.
pub struct BucketFigures {
    pub total: String,
    pub used: String,
    pub remain: String,
    pub usage: String,
    pub today: String,
}

/// A bucket of the query result with its figures, for the default text.
pub struct BucketRow {
    pub key: String,
    pub figures: BucketFigures,
}

/// The bucket names a template may refer to, in the order they are filled in.
pub open spec fn template_bucket_names() -> Seq<Seq<char>> {
    seq![
        "所有通用"@,
        "所有免流"@,
        "所有流量"@,
        "通用有限"@,
        "通用不限"@,
        "区域有限"@,
        "区域不限"@,
        "免流有限"@,
        "免流不限"@,
    ]
}

/// The bucket keys behind `template_bucket_names`, in the same order.
pub open spec fn template_bucket_keys() -> Seq<Seq<char>> {
    seq![
        "所有通用"@,
        "所有免流"@,
        "所有流量"@,
        "common_limited"@,
        "common_unlimited"@,
        "regional_limited"@,
        "regional_unlimited"@,
        "targeted_limited"@,
        "targeted_unlimited"@,
    ]
}

/// The bucket names and keys that templates refer to.
pub fn template_buckets() -> (r: Vec<(&'static str, &'static str)>)
    ensures
        r.len() == 9,
        forall|k: int| 0 <= k < 9 ==> (#[trigger] r@[k]).0@ == template_bucket_names()[k] && r@[k].1@
            == template_bucket_keys()[k],
{
    let v = vec![
        ("所有通用", "所有通用"),
        ("所有免流", "所有免流"),
        ("所有流量", "所有流量"),
        ("通用有限", "common_limited"),
        ("通用不限", "common_unlimited"),
        ("区域有限", "regional_limited"),
        ("区域不限", "regional_unlimited"),
        ("免流有限", "targeted_limited"),
        ("免流不限", "targeted_unlimited"),
    ];
    v
}

/// The placeholder `[<name>.<field>]`.
pub open spec fn placeholder(name: Seq<char>, field: Seq<char>) -> Seq<char> {
    "["@ + name + "."@ + field + "]"@
}

/// The five placeholders of one bucket filled in.
pub open spec fn fill_bucket(r: Seq<char>, name: Seq<char>, f: BucketFigures) -> Seq<char> {
    let r1 = replace_seq(r, placeholder(name, "总量"@), f.total@);
    let r2 = replace_seq(r1, placeholder(name, "已用"@), f.used@);
    let r3 = replace_seq(r2, placeholder(name, "剩余"@), f.remain@);
    let r4 = replace_seq(r3, placeholder(name, "用量"@), f.usage@);
    replace_seq(r4, placeholder(name, "今日用量"@), f.today@)
}

/// The placeholders of the first `n` template buckets filled in.
pub open spec fn fill_buckets(r: Seq<char>, figs: Seq<BucketFigures>, n: nat) -> Seq<char>
    decreases n,
{
    if n == 0 {
        r
    } else {
        fill_bucket(fill_buckets(r, figs, (n - 1) as nat), template_bucket_names()[n - 1], figs[n - 1])
    }
}

/// The template with every placeholder filled in: the plan name, the time,
/// the date and the interval, then the nine buckets.
pub open spec fn filled_template(
    template: Seq<char>,
    main_package: Seq<char>,
    time: Seq<char>,
    date: Seq<char>,
    interval: Seq<char>,
    figs: Seq<BucketFigures>,
) -> Seq<char> {
    let r = replace_seq(
        replace_seq(
            replace_seq(replace_seq(template, "[套餐]"@, main_package), "[时间]"@, time),
            "[日期]"@,
            date,
        ),
        "[时长]"@,
        interval,
    );
    fill_buckets(r, figs, 9)
}

/// One line of the default text.
pub open spec fn default_line(row: BucketRow) -> Seq<char> {
    display_name(row.key@) + ": 总量 "@ + row.figures.total@ + " / 已用 "@ + row.figures.used@
        + " / 剩余 "@ + row.figures.remain@ + " / 用量 "@ + row.figures.usage@ + " / 今日 "@
        + row.figures.today@
}

/// The default text: the plan, the query time, then one line per bucket.
pub open spec fn default_text(main_package: Seq<char>, timestamp: Seq<char>, rows: Seq<BucketRow>) -> Seq<char> {
    join_seq(
        seq!["套餐: "@ + main_package, "查询时间: "@ + timestamp] + rows.map_values(
            |row: BucketRow| default_line(row),
        ),
        "\n"@,
    )
}

/// A notification text: the filled template, or the default text when the
/// template is empty or has no placeholder to fill.
pub open spec fn notify_text(
    template: Seq<char>,
    main_package: Seq<char>,
    timestamp: Seq<char>,
    time: Seq<char>,
    date: Seq<char>,
    interval: Seq<char>,
    figs: Seq<BucketFigures>,
    rows: Seq<BucketRow>,
) -> Seq<char> {
    let filled = filled_template(template, main_package, time, date, interval, figs);
    if template.len() == 0 || template == filled {
        default_text(main_package, timestamp, rows)
    } else {
        filled
    }
}

/// The default text of a notification (the template left empty) is the
/// plan and the query time on two lines, then one more line for every
/// bucket of the query, in the order given: each added bucket appends
/// exactly its own line, its display name with its five figures.
pub proof fn law_default_text_lists_every_bucket(
    main_package: Seq<char>,
    timestamp: Seq<char>,
    time: Seq<char>,
    date: Seq<char>,
    interval: Seq<char>,
    figs: Seq<BucketFigures>,
    rows: Seq<BucketRow>,
    row: BucketRow,
)
    ensures
        notify_text(""@, main_package, timestamp, time, date, interval, figs, Seq::empty())
            == "套餐: "@ + main_package + "\n"@ + "查询时间: "@ + timestamp,
        notify_text(""@, main_package, timestamp, time, date, interval, figs, rows.push(row))
            == notify_text(""@, main_package, timestamp, time, date, interval, figs, rows) + "\n"@
            + display_name(row.key@) + ": 总量 "@ + row.figures.total@ + " / 已用 "@
            + row.figures.used@ + " / 剩余 "@ + row.figures.remain@ + " / 用量 "@
            + row.figures.usage@ + " / 今日 "@ + row.figures.today@,
{
    reveal_strlit("");
    let header = seq!["套餐: "@ + main_package, "查询时间: "@ + timestamp];
    let f = |r: BucketRow| default_line(r);
    let none = Seq::<BucketRow>::empty();
    assert(header + none.map_values(f) =~= header);
    assert(header.drop_last() =~= seq![header[0]]);
    assert(join_seq(header, "\n"@) == join_seq(header.drop_last(), "\n"@) + "\n"@ + header.last());
    assert(join_seq(seq![header[0]], "\n"@) == header[0]);
    let before = header + rows.map_values(f);
    let after = header + rows.push(row).map_values(f);
    assert(after =~= before.push(default_line(row)));
    assert(after.drop_last() =~= before);
    assert(join_seq(after, "\n"@) == join_seq(after.drop_last(), "\n"@) + "\n"@ + after.last());
}

proof fn lemma_fill_buckets_absent(r: Seq<char>, figs: Seq<BucketFigures>, n: nat)
    requires
        forall|i: int| 0 <= i < r.len() ==> #[trigger] r[i] != '[',
    ensures
        fill_buckets(r, figs, n) == r,
    decreases n,
{
    reveal_strlit("[");
    if n > 0 {
        lemma_fill_buckets_absent(r, figs, (n - 1) as nat);
        let name = template_bucket_names()[n - 1];
        let f = figs[n - 1];
        assert(placeholder(name, "总量"@)[0] == '[');
        assert(placeholder(name, "已用"@)[0] == '[');
        assert(placeholder(name, "剩余"@)[0] == '[');
        assert(placeholder(name, "用量"@)[0] == '[');
        assert(placeholder(name, "今日用量"@)[0] == '[');
        lemma_replace_absent(r, placeholder(name, "总量"@), f.total@);
        lemma_replace_absent(r, placeholder(name, "已用"@), f.used@);
        lemma_replace_absent(r, placeholder(name, "剩余"@), f.remain@);
        lemma_replace_absent(r, placeholder(name, "用量"@), f.usage@);
        lemma_replace_absent(r, placeholder(name, "今日用量"@), f.today@);
    }
}

/// A template that holds no placeholder (no `[` at all) is not used: the
/// default text is sent in its place.
pub proof fn law_plain_template_gets_default_text(
    template: Seq<char>,
    main_package: Seq<char>,
    timestamp: Seq<char>,
    time: Seq<char>,
    date: Seq<char>,
    interval: Seq<char>,
    figs: Seq<BucketFigures>,
    rows: Seq<BucketRow>,
)
    requires
        forall|i: int| 0 <= i < template.len() ==> #[trigger] template[i] != '[',
    ensures
        notify_text(template, main_package, timestamp, time, date, interval, figs, rows)
            == default_text(main_package, timestamp, rows),
{
    reveal_strlit("[套餐]");
    reveal_strlit("[时间]");
    reveal_strlit("[日期]");
    reveal_strlit("[时长]");
    assert("[套餐]"@[0] == '[');
    assert("[时间]"@[0] == '[');
    assert("[日期]"@[0] == '[');
    assert("[时长]"@[0] == '[');
    lemma_replace_absent(template, "[套餐]"@, main_package);
    lemma_replace_absent(template, "[时间]"@, time);
    lemma_replace_absent(template, "[日期]"@, date);
    lemma_replace_absent(template, "[时长]"@, interval);
    lemma_fill_buckets_absent(template, figs, 9);
}

/// No `[` in the text.
pub open spec fn no_open_bracket(s: Seq<char>) -> bool {
    forall|i: int| 0 <= i < s.len() ==> #[trigger] s[i] != '['
}

/// The five figures a bucket placeholder may name, in the order they are filled in.
pub open spec fn template_fields() -> Seq<Seq<char>> {
    seq!["总量"@, "已用"@, "剩余"@, "用量"@, "今日用量"@]
}

/// The figure of a bucket that the field at `i` of `template_fields` names.
pub open spec fn figure_of(f: BucketFigures, i: int) -> Seq<char> {
    if i == 0 {
        f.total@
    } else if i == 1 {
        f.used@
    } else if i == 2 {
        f.remain@
    } else if i == 3 {
        f.usage@
    } else {
        f.today@
    }
}

/// The positions of a placeholder's characters.
proof fn lemma_placeholder_chars(n: Seq<char>, f: Seq<char>)
    ensures
        placeholder(n, f).len() == n.len() + f.len() + 3,
        placeholder(n, f)[0] == '[',
        forall|j: int| 0 <= j < n.len() ==> placeholder(n, f)[j + 1] == #[trigger] n[j],
        placeholder(n, f)[n.len() as int + 1] == '.',
        forall|j: int| 0 <= j < f.len() ==> placeholder(n, f)[n.len() + 2 + j] == #[trigger] f[j],
        placeholder(n, f)[n.len() + f.len() + 2int] == ']',
{
    reveal_strlit("[");
    reveal_strlit(".");
    reveal_strlit("]");
}

/// In a placeholder whose name and field hold no `[`, a text starting with
/// `[` can only occur at the start.
proof fn lemma_bracket_only_at_start(n: Seq<char>, f: Seq<char>, pat: Seq<char>, i: int)
    requires
        no_open_bracket(n),
        no_open_bracket(f),
        pat.len() > 0,
        pat[0] == '[',
        occurs_at(placeholder(n, f), pat, i),
    ensures
        i == 0,
{
    lemma_placeholder_chars(n, f);
    let p = placeholder(n, f);
    assert(p.subrange(i, i + pat.len())[0] == p[i]);
    if i > 0 {
        if i <= n.len() {
            assert(p[i] == n[i - 1]);
        } else if i >= n.len() + 2 && i < n.len() + 2 + f.len() {
            assert(p[i] == f[i - n.len() - 2]);
        }
    }
}

/// Two placeholders with names of one length, whose first holds no `[` and
/// whose field holds no `]`, meet only when they are the same.
proof fn lemma_placeholder_match(n1: Seq<char>, f1: Seq<char>, n2: Seq<char>, f2: Seq<char>, i: int)
    requires
        n1.len() == n2.len(),
        no_open_bracket(n1),
        no_open_bracket(f1),
        forall|j: int| 0 <= j < f1.len() ==> #[trigger] f1[j] != ']',
        occurs_at(placeholder(n1, f1), placeholder(n2, f2), i),
    ensures
        n1 == n2,
        f1 == f2,
{
    lemma_placeholder_chars(n1, f1);
    lemma_placeholder_chars(n2, f2);
    let p1 = placeholder(n1, f1);
    let p2 = placeholder(n2, f2);
    lemma_bracket_only_at_start(n1, f1, p2, i);
    assert forall|j: int| 0 <= j < p2.len() implies p1[j] == #[trigger] p2[j] by {
        assert(p1.subrange(0, p2.len() as int)[j] == p1[j]);
    }
    assert forall|j: int| 0 <= j < n1.len() implies n1[j] == #[trigger] n2[j] by {
        assert(p1[j + 1] == p2[j + 1]);
    }
    assert(n1 =~= n2);
    let base: int = n1.len() as int + 2;
    if f2.len() < f1.len() {
        assert(p2[base + f2.len() as int] == ']');
        assert(p1[base + f2.len() as int] == f1[f2.len() as int]);
        assert(false);
    }
    assert forall|j: int| 0 <= j < f1.len() implies f1[j] == #[trigger] f2[j] by {
        assert(p1[base + j] == p2[base + j]);
    }
    assert(f1 =~= f2);
}

/// One replacement while filling one placeholder `t` with `v`: the text is
/// still `t` (a pattern other than `t` does not occur in it) or already `v`
/// (which holds no `[`, the start of every pattern).
proof fn lemma_fill_step(cur: Seq<char>, pat: Seq<char>, to: Seq<char>, t: Seq<char>, v: Seq<char>)
    requires
        pat.len() > 0,
        pat[0] == '[',
        no_open_bracket(v),
        cur == t || cur == v,
        cur == t ==> ((pat == t && to == v) || forall|i: int| !#[trigger] occurs_at(t, pat, i)),
    ensures
        replace_seq(cur, pat, to) == (if cur == t && pat == t {
            v
        } else {
            cur
        }),
{
    if cur == t && pat == t {
        assert(t.subrange(0, t.len() as int) =~= t);
        assert(occurs_at(t, pat, 0));
        lemma_replace_whole(t, v);
    } else if cur == t {
        lemma_replace_not_occurring(t, pat, to);
    } else {
        lemma_replace_absent(cur, pat, to);
    }
}

/// Which template bucket a name is, told by its first and third characters.
spec fn name_index(s: Seq<char>) -> int {
    if s[0] == '所' {
        if s[2] == '通' {
            0
        } else if s[2] == '免' {
            1
        } else {
            2
        }
    } else if s[0] == '通' {
        if s[2] == '有' {
            3
        } else {
            4
        }
    } else if s[0] == '区' {
        if s[2] == '有' {
            5
        } else {
            6
        }
    } else if s[2] == '有' {
        7
    } else {
        8
    }
}

/// Which template field a field is, told by its first character.
spec fn field_index(s: Seq<char>) -> int {
    if s[0] == '总' {
        0
    } else if s[0] == '已' {
        1
    } else if s[0] == '剩' {
        2
    } else if s[0] == '用' {
        3
    } else {
        4
    }
}

/// A text of at most four characters, none of them `[` or `]`.
proof fn lemma_short_no_brackets(s: Seq<char>)
    requires
        s.len() <= 4,
        s.len() > 0 ==> s[0] != '[' && s[0] != ']',
        s.len() > 1 ==> s[1] != '[' && s[1] != ']',
        s.len() > 2 ==> s[2] != '[' && s[2] != ']',
        s.len() > 3 ==> s[3] != '[' && s[3] != ']',
    ensures
        no_open_bracket(s),
        forall|j: int| 0 <= j < s.len() ==> #[trigger] s[j] != ']',
{
    assert forall|j: int| 0 <= j < s.len() implies #[trigger] s[j] != '[' && s[j] != ']' by {
        if j == 0 {
        } else if j == 1 {
        } else if j == 2 {
        } else {
        }
    }
}

/// The template bucket names: four characters each, none `[`, told apart
/// by `name_index`, and none starting like a base placeholder.
proof fn lemma_template_name(k: int)
    requires
        0 <= k < 9,
    ensures
        template_bucket_names().len() == 9,
        template_bucket_names()[k].len() == 4,
        name_index(template_bucket_names()[k]) == k,
        no_open_bracket(template_bucket_names()[k]),
        template_bucket_names()[k][0] != '套',
        template_bucket_names()[k][0] != '时',
        template_bucket_names()[k][0] != '日',
{
    reveal_strlit("所有通用");
    reveal_strlit("所有免流");
    reveal_strlit("所有流量");
    reveal_strlit("通用有限");
    reveal_strlit("通用不限");
    reveal_strlit("区域有限");
    reveal_strlit("区域不限");
    reveal_strlit("免流有限");
    reveal_strlit("免流不限");
    if k == 0 {
        lemma_short_no_brackets(template_bucket_names()[k]);
    } else if k == 1 {
        lemma_short_no_brackets(template_bucket_names()[k]);
    } else if k == 2 {
        lemma_short_no_brackets(template_bucket_names()[k]);
    } else if k == 3 {
        lemma_short_no_brackets(template_bucket_names()[k]);
    } else if k == 4 {
        lemma_short_no_brackets(template_bucket_names()[k]);
    } else if k == 5 {
        lemma_short_no_brackets(template_bucket_names()[k]);
    } else if k == 6 {
        lemma_short_no_brackets(template_bucket_names()[k]);
    } else if k == 7 {
        lemma_short_no_brackets(template_bucket_names()[k]);
    } else if k == 8 {
        lemma_short_no_brackets(template_bucket_names()[k]);
    }
}

/// The template fields: none holds `[` or `]`, and `field_index` tells them apart.
proof fn lemma_template_field(g: int)
    requires
        0 <= g < 5,
    ensures
        template_fields().len() == 5,
        field_index(template_fields()[g]) == g,
        no_open_bracket(template_fields()[g]),
        forall|j: int| 0 <= j < template_fields()[g].len() ==> #[trigger] template_fields()[g][j] != ']',
{
    reveal_strlit("总量");
    reveal_strlit("已用");
    reveal_strlit("剩余");
    reveal_strlit("用量");
    reveal_strlit("今日用量");
    if g == 0 {
        lemma_short_no_brackets(template_fields()[g]);
    } else if g == 1 {
        lemma_short_no_brackets(template_fields()[g]);
    } else if g == 2 {
        lemma_short_no_brackets(template_fields()[g]);
    } else if g == 3 {
        lemma_short_no_brackets(template_fields()[g]);
    } else if g == 4 {
        lemma_short_no_brackets(template_fields()[g]);
    }
}

/// Another template placeholder does not occur in the placeholder of bucket
/// `k` and field `fi`.
proof fn lemma_other_placeholder_absent(k: int, fi: int, j: int, g: int)
    requires
        0 <= k < 9,
        0 <= j < 9,
        0 <= fi < 5,
        0 <= g < 5,
        j != k || g != fi,
    ensures
        forall|i: int| !#[trigger] occurs_at(
            placeholder(template_bucket_names()[k], template_fields()[fi]),
            placeholder(template_bucket_names()[j], template_fields()[g]),
            i,
        ),
{
    lemma_template_name(k);
    lemma_template_name(j);
    lemma_template_field(fi);
    lemma_template_field(g);
    assert forall|i: int| !#[trigger] occurs_at(
        placeholder(template_bucket_names()[k], template_fields()[fi]),
        placeholder(template_bucket_names()[j], template_fields()[g]),
        i,
    ) by {
        if occurs_at(
            placeholder(template_bucket_names()[k], template_fields()[fi]),
            placeholder(template_bucket_names()[j], template_fields()[g]),
            i,
        ) {
            lemma_placeholder_match(
                template_bucket_names()[k],
                template_fields()[fi],
                template_bucket_names()[j],
                template_fields()[g],
                i,
            );
        }
    }
}

/// The buckets before bucket `k` leave its placeholder untouched.
proof fn lemma_fill_before(figs: Seq<BucketFigures>, n: nat, k: int, fi: int)
    requires
        0 <= k < 9,
        0 <= fi < 5,
        n <= k,
        figs.len() == 9,
    ensures
        fill_buckets(placeholder(template_bucket_names()[k], template_fields()[fi]), figs, n)
            == placeholder(template_bucket_names()[k], template_fields()[fi]),
    decreases n,
{
    let t = placeholder(template_bucket_names()[k], template_fields()[fi]);
    if n > 0 {
        let j = n - 1;
        lemma_fill_before(figs, (n - 1) as nat, k, fi);
        lemma_template_field(0);
        let name = template_bucket_names()[j];
        let f = figs[j];
        lemma_other_placeholder_absent(k, fi, j, 0);
        lemma_other_placeholder_absent(k, fi, j, 1);
        lemma_other_placeholder_absent(k, fi, j, 2);
        lemma_other_placeholder_absent(k, fi, j, 3);
        lemma_other_placeholder_absent(k, fi, j, 4);
        lemma_placeholder_chars(name, "总量"@);
        lemma_placeholder_chars(name, "已用"@);
        lemma_placeholder_chars(name, "剩余"@);
        lemma_placeholder_chars(name, "用量"@);
        lemma_placeholder_chars(name, "今日用量"@);
        lemma_replace_not_occurring(t, placeholder(name, "总量"@), f.total@);
        lemma_replace_not_occurring(t, placeholder(name, "已用"@), f.used@);
        lemma_replace_not_occurring(t, placeholder(name, "剩余"@), f.remain@);
        lemma_replace_not_occurring(t, placeholder(name, "用量"@), f.usage@);
        lemma_replace_not_occurring(t, placeholder(name, "今日用量"@), f.today@);
    }
}

/// Bucket `k` turns its placeholder for field `fi` into that figure.
proof fn lemma_fill_at(figs: Seq<BucketFigures>, k: int, fi: int)
    requires
        0 <= k < 9,
        0 <= fi < 5,
        figs.len() == 9,
        no_open_bracket(figure_of(figs[k], fi)),
    ensures
        fill_bucket(
            placeholder(template_bucket_names()[k], template_fields()[fi]),
            template_bucket_names()[k],
            figs[k],
        ) == figure_of(figs[k], fi),
{
    let name = template_bucket_names()[k];
    let t = placeholder(name, template_fields()[fi]);
    let v = figure_of(figs[k], fi);
    let f = figs[k];
    lemma_template_field(0);
    lemma_placeholder_chars(name, "总量"@);
    lemma_placeholder_chars(name, "已用"@);
    lemma_placeholder_chars(name, "剩余"@);
    lemma_placeholder_chars(name, "用量"@);
    lemma_placeholder_chars(name, "今日用量"@);
    if fi != 0 {
        lemma_other_placeholder_absent(k, fi, k, 0);
    }
    if fi != 1 {
        lemma_other_placeholder_absent(k, fi, k, 1);
    }
    if fi != 2 {
        lemma_other_placeholder_absent(k, fi, k, 2);
    }
    if fi != 3 {
        lemma_other_placeholder_absent(k, fi, k, 3);
    }
    if fi != 4 {
        lemma_other_placeholder_absent(k, fi, k, 4);
    }
    let r1 = replace_seq(t, placeholder(name, "总量"@), f.total@);
    lemma_fill_step(t, placeholder(name, "总量"@), f.total@, t, v);
    let r2 = replace_seq(r1, placeholder(name, "已用"@), f.used@);
    lemma_fill_step(r1, placeholder(name, "已用"@), f.used@, t, v);
    let r3 = replace_seq(r2, placeholder(name, "剩余"@), f.remain@);
    lemma_fill_step(r2, placeholder(name, "剩余"@), f.remain@, t, v);
    let r4 = replace_seq(r3, placeholder(name, "用量"@), f.usage@);
    lemma_fill_step(r3, placeholder(name, "用量"@), f.usage@, t, v);
    lemma_fill_step(r4, placeholder(name, "今日用量"@), f.today@, t, v);
}

/// From bucket `k` on, the filled text is the figure.
proof fn lemma_fill_from(figs: Seq<BucketFigures>, n: nat, k: int, fi: int)
    requires
        0 <= k < 9,
        0 <= fi < 5,
        k < n <= 9,
        figs.len() == 9,
        no_open_bracket(figure_of(figs[k], fi)),
    ensures
        fill_buckets(placeholder(template_bucket_names()[k], template_fields()[fi]), figs, n)
            == figure_of(figs[k], fi),
    decreases n,
{
    let t = placeholder(template_bucket_names()[k], template_fields()[fi]);
    let v = figure_of(figs[k], fi);
    if n == k + 1 {
        lemma_fill_before(figs, k as nat, k, fi);
        lemma_fill_at(figs, k, fi);
    } else {
        lemma_fill_from(figs, (n - 1) as nat, k, fi);
        let name = template_bucket_names()[n - 1];
        let f = figs[n - 1];
        lemma_placeholder_chars(name, "总量"@);
        lemma_placeholder_chars(name, "已用"@);
        lemma_placeholder_chars(name, "剩余"@);
        lemma_placeholder_chars(name, "用量"@);
        lemma_placeholder_chars(name, "今日用量"@);
        lemma_replace_absent(v, placeholder(name, "总量"@), f.total@);
        lemma_replace_absent(v, placeholder(name, "已用"@), f.used@);
        lemma_replace_absent(v, placeholder(name, "剩余"@), f.remain@);
        lemma_replace_absent(v, placeholder(name, "用量"@), f.usage@);
        lemma_replace_absent(v, placeholder(name, "今日用量"@), f.today@);
    }
}

/// A template that is one bucket placeholder, `[<bucket>.<field>]`, becomes
/// that bucket's figure (figures never hold `[`).
pub proof fn law_bucket_placeholder_filled(
    k: int,
    fi: int,
    main_package: Seq<char>,
    timestamp: Seq<char>,
    time: Seq<char>,
    date: Seq<char>,
    interval: Seq<char>,
    figs: Seq<BucketFigures>,
    rows: Seq<BucketRow>,
)
    requires
        0 <= k < 9,
        0 <= fi < 5,
        figs.len() == 9,
        forall|j: int, g: int| 0 <= j < 9 && 0 <= g < 5 ==> no_open_bracket(#[trigger] figure_of(figs[j], g)),
    ensures
        notify_text(
            placeholder(template_bucket_names()[k], template_fields()[fi]),
            main_package,
            timestamp,
            time,
            date,
            interval,
            figs,
            rows,
        ) == figure_of(figs[k], fi),
{
    let name = template_bucket_names()[k];
    let t = placeholder(name, template_fields()[fi]);
    let v = figure_of(figs[k], fi);
    assert(no_open_bracket(figure_of(figs[k], fi)));
    lemma_template_name(k);
    lemma_template_field(fi);
    lemma_placeholder_chars(name, template_fields()[fi]);
    reveal_strlit("[套餐]");
    reveal_strlit("[时间]");
    reveal_strlit("[日期]");
    reveal_strlit("[时长]");
    assert forall|pat: Seq<char>, i: int|
        (pat == "[套餐]"@ || pat == "[时间]"@ || pat == "[日期]"@ || pat == "[时长]"@) implies !#[trigger] occurs_at(t, pat, i) by {
        if occurs_at(t, pat, i) {
            lemma_bracket_only_at_start(name, template_fields()[fi], pat, i);
            assert(t.subrange(0, pat.len() as int)[1] == t[1]);
            assert(t[1] == name[0]);
        }
    }
    lemma_replace_not_occurring(t, "[套餐]"@, main_package);
    lemma_replace_not_occurring(t, "[时间]"@, time);
    lemma_replace_not_occurring(t, "[日期]"@, date);
    lemma_replace_not_occurring(t, "[时长]"@, interval);
    lemma_fill_from(figs, 9, k, fi);
    if v.len() > 0 {
        assert(v[0] != t[0]);
    }
    assert(t != v);
}

/// The four plain placeholders, in the order they are filled in.
pub open spec fn base_placeholders() -> Seq<Seq<char>> {
    seq!["[套餐]"@, "[时间]"@, "[日期]"@, "[时长]"@]
}

/// A template that is one plain placeholder becomes its value: the plan's
/// name, the time, the date or the interval (values without `[`).
pub proof fn law_base_placeholder_filled(
    i: int,
    main_package: Seq<char>,
    timestamp: Seq<char>,
    time: Seq<char>,
    date: Seq<char>,
    interval: Seq<char>,
    figs: Seq<BucketFigures>,
    rows: Seq<BucketRow>,
)
    requires
        0 <= i < 4,
        no_open_bracket(seq![main_package, time, date, interval][i]),
    ensures
        notify_text(base_placeholders()[i], main_package, timestamp, time, date, interval, figs, rows)
            == seq![main_package, time, date, interval][i],
{
    reveal_strlit("[套餐]");
    reveal_strlit("[时间]");
    reveal_strlit("[日期]");
    reveal_strlit("[时长]");
    let pats = base_placeholders();
    let vals = seq![main_package, time, date, interval];
    let t = pats[i];
    let v = vals[i];
    assert forall|a: int, b: int| 0 <= a < 4 && 0 <= b < 4 && a != b implies !#[trigger] occurs_at(pats[a], pats[b], 0) by {
        assert(pats[a].subrange(0, 4)[1] == pats[a][1] && pats[a].subrange(0, 4)[2] == pats[a][2]);
    }
    assert forall|a: int, b: int, j: int| 0 <= a < 4 && 0 <= b < 4 && j != 0 implies !#[trigger] occurs_at(pats[a], pats[b], j) by {
        if occurs_at(pats[a], pats[b], j) {
            assert(pats[a].subrange(j, j + 4)[0] == pats[a][j]);
        }
    }
    let r1 = replace_seq(t, pats[0], main_package);
    lemma_fill_step(t, pats[0], main_package, t, v);
    let r2 = replace_seq(r1, pats[1], time);
    lemma_fill_step(r1, pats[1], time, t, v);
    let r3 = replace_seq(r2, pats[2], date);
    lemma_fill_step(r2, pats[2], date, t, v);
    let r4 = replace_seq(r3, pats[3], interval);
    lemma_fill_step(r3, pats[3], interval, t, v);
    lemma_fill_buckets_absent(v, figs, 9);
    if v.len() > 0 {
        assert(v[0] != t[0]);
    }
    assert(t != v);
}

fn make_placeholder(name: &str, field: &str) -> (r: String)
    ensures
        r@ == placeholder(name@, field@),
        r@.len() > 0,
{
    proof {
        reveal_strlit("[");
    }
    let mut p = "[".to_owned();
    p.append(name);
    p.append(".");
    p.append(field);
    p.append("]");
    p
}

fn fill_one(r: String, name: &str, f: &BucketFigures) -> (out: String)
    ensures
        out@ == fill_bucket(r@, name@, *f),
{
    let r1 = replace(r.as_str(), make_placeholder(name, "总量").as_str(), f.total.as_str());
    let r2 = replace(r1.as_str(), make_placeholder(name, "已用").as_str(), f.used.as_str());
    let r3 = replace(r2.as_str(), make_placeholder(name, "剩余").as_str(), f.remain.as_str());
    let r4 = replace(r3.as_str(), make_placeholder(name, "用量").as_str(), f.usage.as_str());
    replace(r4.as_str(), make_placeholder(name, "今日用量").as_str(), f.today.as_str())
}

fn default_line_exec(row: &BucketRow) -> (r: String)
    ensures
        r@ == default_line(*row),
{
    let mut s = bucket_display_name(row.key.as_str()).to_owned();
    s.append(": 总量 ");
    s.append(row.figures.total.as_str());
    s.append(" / 已用 ");
    s.append(row.figures.used.as_str());
    s.append(" / 剩余 ");
    s.append(row.figures.remain.as_str());
    s.append(" / 用量 ");
    s.append(row.figures.usage.as_str());
    s.append(" / 今日 ");
    s.append(row.figures.today.as_str());
    s
}

/// Fills a notification template (see `notify_text`). `figures` are the
/// nine template buckets in the order of `template_buckets`; `rows` are
/// the query's buckets, listed by the default text.
pub fn render_notify_content(
    template: &str,
    main_package: &str,
    timestamp: &str,
    time: &str,
    date: &str,
    interval: &str,
    figures: &Vec<BucketFigures>,
    rows: &Vec<BucketRow>,
) -> (r: String)
    requires
        figures.len() == 9,
    ensures
        r@ == notify_text(template@, main_package@, timestamp@, time@, date@, interval@, figures@, rows@),
{
    proof {
        reveal_strlit("[套餐]");
        reveal_strlit("[时间]");
        reveal_strlit("[日期]");
        reveal_strlit("[时长]");
    }
    let mut r = replace(template, "[套餐]", main_package);
    r = replace(r.as_str(), "[时间]", time);
    r = replace(r.as_str(), "[日期]", date);
    r = replace(r.as_str(), "[时长]", interval);
    let names = template_buckets();
    let ghost base = r@;
    let mut k: usize = 0;
    while k < 9
        invariant
            k <= 9,
            figures.len() == 9,
            names.len() == 9,
            forall|j: int| 0 <= j < 9 ==> (#[trigger] names@[j]).0@ == template_bucket_names()[j],
            r@ == fill_buckets(base, figures@, k as nat),
        decreases 9 - k,
    {
        r = fill_one(r, names[k].0, &figures[k]);
        k += 1;
    }
    if template.unicode_len() == 0 || str_eq(template, r.as_str()) {
        let mut lines: Vec<String> = Vec::new();
        let mut first = "套餐: ".to_owned();
        first.append(main_package);
        lines.push(first);
        let mut second = "查询时间: ".to_owned();
        second.append(timestamp);
        lines.push(second);
        let mut i: usize = 0;
        while i < rows.len()
            invariant
                i <= rows.len(),
                lines@.map_values(|p: String| p@) == seq!["套餐: "@ + main_package@, "查询时间: "@ + timestamp@] + rows@.take(i as int).map_values(|row: BucketRow| default_line(row)),
            decreases rows.len() - i,
        {
            let line = default_line_exec(&rows[i]);
            let ghost before = lines@.map_values(|p: String| p@);
            lines.push(line);
            proof {
                assert(rows@.take(i + 1).map_values(|row: BucketRow| default_line(row)) =~= rows@.take(i as int).map_values(|row: BucketRow| default_line(row)).push(default_line(rows@[i as int])));
                assert(lines@.map_values(|p: String| p@) =~= before.push(line@));
            }
            i += 1;
        }
        assert(rows@.take(rows.len() as int) =~= rows@);
        return join(&lines, "\n");
    }
    r
}

/// `chrono::Local::now().format("%H:%M:%S").to_string()`: the local time
/// of day now. The layout is fixed and valid, so the formatting cannot fail.
/// The digits rest on the moment of the call and are not stated; chrono
/// documents each of the three fields as two zero-padded digits, so the
/// text is eight characters long.
#[verifier::external_body]
fn local_time_of_day_text() -> (r: String)
    ensures
        r@.len() == 8,
{
    chrono::Local::now().format("%H:%M:%S").to_string()
}

/// `chrono::Local::now().format("%Y-%m-%d").to_string()`: the local date
/// now. The layout is fixed and valid, so the formatting cannot fail; the
/// text rests on the moment of the call, so nothing is promised of it.
#[verifier::external_body]
fn local_date_text() -> String {
    chrono::Local::now().format("%Y-%m-%d").to_string()
}

/// Fills a notification template with the current time and date.
pub fn build_notify_content(
    template: &str,
    main_package: &str,
    timestamp: &str,
    interval: &str,
    figures: &Vec<BucketFigures>,
    rows: &Vec<BucketRow>,
) -> (r: String)
    requires
        figures.len() == 9,
    ensures
        exists|time: Seq<char>, date: Seq<char>|
            r@ == notify_text(template@, main_package@, timestamp@, time, date, interval@, figures@, rows@),
{
    let time = local_time_of_day_text();
    let date = local_date_text();
    render_notify_content(template, main_package, timestamp, time.as_str(), date.as_str(), interval, figures, rows)
}

// ───────────────────────── when and what to send ─────────────────────────

/// Whether a user's notifications go anywhere.
#[derive(Clone, Copy, Debug, PartialEq, Eq)]
pub enum NotifyGate {
    /// Notifications are switched off.
    Disabled,
    /// The channel is not one this service can send on.
    Unsupported,
    /// Send on Telegram.
    Telegram,
}

/// Where a traffic notification goes: nowhere when notifications are
/// switched off, to Telegram when that is the channel, else it is refused.
pub fn flow_notify_gate(notify_enabled: i32, notify_type: &str) -> (r: NotifyGate)
    ensures
        notify_enabled == 0 ==> r == NotifyGate::Disabled,
        notify_enabled != 0 && notify_type@ == "telegram"@ ==> r == NotifyGate::Telegram,
        notify_enabled != 0 && notify_type@ != "telegram"@ ==> r == NotifyGate::Unsupported,
{
    if notify_enabled == 0 {
        NotifyGate::Disabled
    } else if str_eq(notify_type, "telegram") {
        NotifyGate::Telegram
    } else {
        NotifyGate::Unsupported
    }
}

/// Whether a scheduled query looks at the notification threshold at all:
/// notifications switched on (exactly 1) and a channel set.
pub fn query_may_notify(notify_enabled: i32, notify_type: &str) -> (r: bool)
    ensures
        r == (notify_enabled == 1 && notify_type@.len() > 0),
{
    notify_enabled == 1 && notify_type.unicode_len() > 0
}

/// The title and the text of a traffic notification, each filled in with
/// the current time and date: the user's title template (or a fixed title
/// when it is empty), and the user's content template.
pub fn flow_notify_texts(
    notify_title: &str,
    notify_content: &str,
    main_package: &str,
    timestamp: &str,
    interval: &str,
    figures: &Vec<BucketFigures>,
    rows: &Vec<BucketRow>,
) -> (r: (String, String))
    requires
        figures.len() == 9,
    ensures
        notify_title@.len() == 0 ==> r.0@ == "📊 流量查询通知"@,
        notify_title@.len() > 0 ==> exists|time: Seq<char>, date: Seq<char>|
            r.0@ == notify_text(notify_title@, main_package@, timestamp@, time, date, interval@, figures@, rows@),
        exists|time: Seq<char>, date: Seq<char>|
            r.1@ == notify_text(notify_content@, main_package@, timestamp@, time, date, interval@, figures@, rows@),
{
    let title = if notify_title.unicode_len() == 0 {
        "📊 流量查询通知".to_owned()
    } else {
        build_notify_content(notify_title, main_package, timestamp, interval, figures, rows)
    };
    let content = build_notify_content(notify_content, main_package, timestamp, interval, figures, rows);
    (title, content)
}

/// Whether a traffic notification goes out: notifications on, the channel
/// is Telegram, the stored parameters could be read, and both the bot token
/// and the chat id are set.
pub open spec fn flow_notify_sent(notify_enabled: i32, notify_type: Seq<char>, params: Option<NotifyParams>) -> bool {
    &&& notify_enabled != 0
    &&& notify_type == "telegram"@
    &&& params matches Some(p) && p.bot_token@.len() > 0 && p.chat_id@.len() > 0
}

/// The Telegram message of a traffic notification, if one is to be posted:
/// `None` when notifications are off, go to another channel, or have no
/// readable parameters (`params` is `None`); `Some(Err(Incomplete))` when
/// the bot token or the chat id is empty; else the message, whose text is
/// the title in bold above the content, each filled in as
/// `flow_notify_texts` fills it.
pub fn flow_notify_message(
    notify_enabled: i32,
    notify_type: &str,
    params: Option<&NotifyParams>,
    notify_title: &str,
    notify_content: &str,
    main_package: &str,
    timestamp: &str,
    interval: &str,
    figures: &Vec<BucketFigures>,
    rows: &Vec<BucketRow>,
) -> (r: Option<Result<TelegramMessage, NotifyError>>)
    requires
        figures.len() == 9,
    ensures
        r is None <==> !(notify_enabled != 0 && notify_type@ == "telegram"@ && params is Some),
        (r matches Some(Ok(_))) <==> flow_notify_sent(
            notify_enabled,
            notify_type@,
            match params {
                Some(p) => Some(*p),
                None => None,
            },
        ),
        r matches Some(Err(e)) ==> e == NotifyError::Incomplete,
        r matches Some(Ok(m)) ==> params matches Some(p) && {
            &&& m.url@ == api_host_of(p.api_host@) + "/bot"@ + p.bot_token@ + "/sendMessage"@
            &&& m.chat_id@ == p.chat_id@
            &&& exists|title: Seq<char>, content: Seq<char>|
                {
                    &&& m.text@ == "*"@ + title + "*\n\n"@ + content
                    &&& notify_title@.len() == 0 ==> title == "📊 流量查询通知"@
                    &&& notify_title@.len() > 0 ==> exists|time: Seq<char>, date: Seq<char>|
                        title == notify_text(notify_title@, main_package@, timestamp@, time, date, interval@, figures@, rows@)
                    &&& exists|time: Seq<char>, date: Seq<char>|
                        content == notify_text(notify_content@, main_package@, timestamp@, time, date, interval@, figures@, rows@)
                }
        },
{
    if notify_enabled == 0 || !str_eq(notify_type, "telegram") {
        return None;
    }
    let p = match params {
        Some(p) => p,
        None => return None,
    };
    let (title, content) = flow_notify_texts(
        notify_title,
        notify_content,
        main_package,
        timestamp,
        interval,
        figures,
        rows,
    );
    let r = telegram_request(p, title.as_str(), content.as_str());
    proof {
        if r is Ok {
            let ghost t = title@;
            let ghost c = content@;
            assert(r->Ok_0.text@ == "*"@ + t + "*\n\n"@ + c);
        }
    }
    Some(r)
}

/// Whether a credential-failure notice goes out: notifications on and the
/// channel is Telegram.
pub fn credential_notice_wanted(notify_enabled: i32, notify_type: &str) -> (r: bool)
    ensures
        r == (notify_enabled != 0 && notify_type@ == "telegram"@),
{
    notify_enabled != 0 && str_eq(notify_type, "telegram")
}

/// The text of a credential-failure notice.
pub fn credential_notice_text(nickname: &str, mobile: &str, error: &str, time: &str) -> (r: String)
    ensures
        r@ == "用户: "@ + nickname@ + "\n手机号: "@ + mobile@ + "\n错误: "@ + error@ + "\n时间: "@ + time@
            + "\n\n请尽快更新凭证。"@,
{
    let mut s = "用户: ".to_owned();
    s.append(nickname);
    s.append("\n手机号: ");
    s.append(mobile);
    s.append("\n错误: ");
    s.append(error);
    s.append("\n时间: ");
    s.append(time);
    s.append("\n\n请尽快更新凭证。");
    s
}

/// The title of a credential-failure notice.
pub fn credential_notice_title() -> (r: &'static str)
    ensures
        r@ == "⚠️ 凭证失效通知"@,
{
    "⚠️ 凭证失效通知"
}

/// The title and text of a test notification, or why none can be sent:
/// only Telegram is supported.
pub fn test_notice(notify_type: &str, mobile: &str, time: &str) -> (r: Result<(String, String), NotifyError>)
    ensures
        notify_type@ != "telegram"@ ==> (r matches Err(NotifyError::UnsupportedType(m)) && m@ == "暂不支持的通知类型: "@ + notify_type@),
        notify_type@ == "telegram"@ ==> (r matches Ok(p) && p.0@ == "🔔 通知测试"@ && p.1@ == "这是一条测试通知\n用户: "@ + mobile@ + "\n时间: "@ + time@),
{
    if !str_eq(notify_type, "telegram") {
        let mut m = "暂不支持的通知类型: ".to_owned();
        m.append(notify_type);
        return Err(NotifyError::UnsupportedType(m));
    }
    let mut body = "这是一条测试通知\n用户: ".to_owned();
    body.append(mobile);
    body.append("\n时间: ");
    body.append(time);
    Ok(("🔔 通知测试".to_owned(), body))
}

} // verus!
