//! Classification of traffic packages into buckets, and the texts shown
//! for them.
use vstd::prelude::*;
use vstd::string::*;

use vstd::utf8::encode_utf8;
use crate::text::{int_decimal, nat_decimal, str_eq, u64_to_decimal};

verus! {

// ───────────────────────── buckets ─────────────────────────

/// The six base buckets, in the order they are listed.
pub open spec fn base_bucket_keys() -> Seq<Seq<char>> {
    seq![
        "common_limited"@,
        "common_unlimited"@,
        "regional_limited"@,
        "regional_unlimited"@,
        "targeted_limited"@,
        "targeted_unlimited"@,
    ]
}

/// The three aggregate buckets: all general, all free-flow, all traffic.
pub open spec fn aggregate_bucket_keys() -> Seq<Seq<char>> {
    seq!["所有通用"@, "所有免流"@, "所有流量"@]
}

/// The keys of the six base buckets.
pub fn bucket_base() -> (r: Vec<&'static str>)
    ensures
        r@.map_values(|k: &str| k@) == base_bucket_keys(),
{
    let v = vec![
        "common_limited",
        "common_unlimited",
        "regional_limited",
        "regional_unlimited",
        "targeted_limited",
        "targeted_unlimited",
    ];
    assert(v@.map_values(|k: &str| k@) =~= base_bucket_keys());
    v
}

/// The keys of the three aggregate buckets.
pub fn bucket_aggregate() -> (r: Vec<&'static str>)
    ensures
        r@.map_values(|k: &str| k@) == aggregate_bucket_keys(),
{
    let v = vec!["所有通用", "所有免流", "所有流量"];
    assert(v@.map_values(|k: &str| k@) =~= aggregate_bucket_keys());
    v
}

/// Display name of a bucket key; unknown keys are shown as they are.
pub open spec fn display_name(key: Seq<char>) -> Seq<char> {
    if key == "common_limited"@ {
        "通用有限"@
    } else if key == "common_unlimited"@ {
        "通用不限"@
    } else if key == "regional_limited"@ {
        "区域有限"@
    } else if key == "regional_unlimited"@ {
        "区域不限"@
    } else if key == "targeted_limited"@ {
        "免流有限"@
    } else if key == "targeted_unlimited"@ {
        "免流不限"@
    } else {
        key
    }
}

/// The Chinese display name of one of the nine buckets.
pub fn bucket_display_name(key: &str) -> (r: &str)
    ensures
        r@ == display_name(key@),
{
    if str_eq(key, "common_limited") {
        "通用有限"
    } else if str_eq(key, "common_unlimited") {
        "通用不限"
    } else if str_eq(key, "regional_limited") {
        "区域有限"
    } else if str_eq(key, "regional_unlimited") {
        "区域不限"
    } else if str_eq(key, "targeted_limited") {
        "免流有限"
    } else if str_eq(key, "targeted_unlimited") {
        "免流不限"
    } else {
        key
    }
}

/// The class of a package: `common`, `regional` or `targeted`, from its
/// flow type ("1" general, "2"/"3" regional), resource type ("01"/"1"
/// data, "13"/"I3" free-flow) and public-free mark.
pub open spec fn package_class(flow_type: Seq<char>, resource_type: Seq<char>, public_free: bool) -> Seq<char> {
    let data = resource_type == "01"@ || resource_type == "1"@;
    let free = resource_type == "13"@ || resource_type == "I3"@;
    let regional = flow_type == "2"@ || flow_type == "3"@;
    if flow_type == "1"@ && data {
        "common"@
    } else if regional && data {
        "regional"@
    } else if regional && free {
        "targeted"@
    } else if public_free || free {
        "targeted"@
    } else {
        "common"@
    }
}

/// How packages are classed, over all flow types, resource types and marks:
/// a free-flow resource ("13" or "I3") is targeted whatever its flow type
/// or mark; a data resource ("01" or "1") is common under the general flow
/// type "1" and regional under "2" or "3"; any other resource is targeted
/// when marked public-free, and common when not.
pub proof fn law_package_classes(flow_type: Seq<char>, resource_type: Seq<char>, public_free: bool)
    ensures
        (resource_type == "13"@ || resource_type == "I3"@) ==> package_class(
            flow_type,
            resource_type,
            public_free,
        ) == "targeted"@,
        (resource_type == "01"@ || resource_type == "1"@) && flow_type == "1"@ ==> package_class(
            flow_type,
            resource_type,
            public_free,
        ) == "common"@,
        (resource_type == "01"@ || resource_type == "1"@) && (flow_type == "2"@ || flow_type == "3"@)
            ==> package_class(flow_type, resource_type, public_free) == "regional"@,
        (resource_type == "01"@ || resource_type == "1"@) && !(flow_type == "1"@ || flow_type == "2"@
            || flow_type == "3"@) ==> package_class(flow_type, resource_type, public_free) == (if public_free {
            "targeted"@
        } else {
            "common"@
        }),
        !(resource_type == "01"@ || resource_type == "1"@ || resource_type == "13"@ || resource_type
            == "I3"@) ==> package_class(flow_type, resource_type, public_free) == (if public_free {
            "targeted"@
        } else {
            "common"@
        }),
{
    reveal_strlit("01");
    reveal_strlit("1");
    reveal_strlit("13");
    reveal_strlit("I3");
    reveal_strlit("2");
    reveal_strlit("3");
    assert("13"@ != "01"@ && "13"@ != "1"@) by {
        assert("13"@[1] != "01"@[1]);
        assert("13"@.len() != "1"@.len());
    }
    assert("I3"@ != "01"@ && "I3"@ != "1"@) by {
        assert("I3"@[0] != "01"@[0]);
        assert("I3"@.len() != "1"@.len());
    }
    assert("1"@ != "2"@ && "1"@ != "3"@ && "2"@ != "3"@) by {
        assert("1"@[0] != "2"@[0] && "1"@[0] != "3"@[0] && "2"@[0] != "3"@[0]);
    }
}

/// Classifies a package as `common`, `regional` or `targeted`.
pub fn determine_package_type(flow_type: &str, resource_type: &str, is_public_free: bool) -> (r: &'static str)
    ensures
        r@ == package_class(flow_type@, resource_type@, is_public_free),
{
    let data = str_eq(resource_type, "01") || str_eq(resource_type, "1");
    let free = str_eq(resource_type, "13") || str_eq(resource_type, "I3");
    let regional = str_eq(flow_type, "2") || str_eq(flow_type, "3");
    if str_eq(flow_type, "1") && data {
        return "common";
    }
    if regional && data {
        return "regional";
    }
    if regional && free {
        return "targeted";
    }
    if is_public_free || free {
        return "targeted";
    }
    "common"
}

/// The label shown for a package: 公免 for public-free packages, else the
/// Chinese name of its class.
pub open spec fn package_label(flow_type: Seq<char>, resource_type: Seq<char>, public_free: bool) -> Seq<char> {
    if public_free {
        "公免"@
    } else {
        let c = package_class(flow_type, resource_type, public_free);
        if c == "common"@ {
            "通用"@
        } else if c == "regional"@ {
            "区域"@
        } else if c == "targeted"@ {
            "定向"@
        } else {
            "通用"@
        }
    }
}

/// The type label of a package.
pub fn get_package_type_label(flow_type: &str, resource_type: &str, is_public_free: bool) -> (r: &'static str)
    ensures
        r@ == package_label(flow_type@, resource_type@, is_public_free),
{
    if is_public_free {
        return "公免";
    }
    let c = determine_package_type(flow_type, resource_type, is_public_free);
    if str_eq(c, "common") {
        "通用"
    } else if str_eq(c, "regional") {
        "区域"
    } else if str_eq(c, "targeted") {
        "定向"
    } else {
        "通用"
    }
}

/// Whether a resource counts as traffic: flow type 1, 2 or 3, and not voice
/// ("02") or messages ("03").
pub open spec fn flow_resource(flow_type: Seq<char>, resource_type: Seq<char>) -> bool {
    (flow_type == "1"@ || flow_type == "2"@ || flow_type == "3"@) && !(resource_type == "02"@
        || resource_type == "03"@)
}

/// Whether a resource is traffic (as opposed to voice or messages).
pub fn is_flow_resource(flow_type: &str, resource_type: &str) -> (r: bool)
    ensures
        r == flow_resource(flow_type@, resource_type@),
{
    if !str_eq(flow_type, "1") && !str_eq(flow_type, "2") && !str_eq(flow_type, "3") {
        return false;
    }
    if str_eq(resource_type, "02") || str_eq(resource_type, "03") {
        return false;
    }
    true
}

/// The base bucket of a package class: `<class>_limited` when the package
/// has a positive total, else `<class>_unlimited`.
pub open spec fn bucket_key_spec(class: Seq<char>, limited: bool) -> Seq<char> {
    class + "_"@ + if limited {
        "limited"@
    } else {
        "unlimited"@
    }
}

/// The base bucket key of a package class.
pub fn bucket_key(class: &str, limited: bool) -> (r: String)
    ensures
        r@ == bucket_key_spec(class@, limited),
{
    let mut k = class.to_owned();
    k.append("_");
    if limited {
        k.append("limited");
    } else {
        k.append("unlimited");
    }
    k
}

/// The six names under which the base buckets are shown.
pub open spec fn base_bucket_names() -> Seq<Seq<char>> {
    seq!["通用有限"@, "通用不限"@, "区域有限"@, "区域不限"@, "免流有限"@, "免流不限"@]
}

/// Every package lands in one of the six base buckets, and that bucket is
/// shown under its own name, the one at the same place in the list of names.
pub proof fn law_package_lands_in_base_bucket(
    flow_type: Seq<char>,
    resource_type: Seq<char>,
    public_free: bool,
    limited: bool,
)
    ensures
        exists|i: int|
            0 <= i < 6 && base_bucket_keys()[i] == #[trigger] bucket_key_spec(
                package_class(flow_type, resource_type, public_free),
                limited,
            ) && display_name(base_bucket_keys()[i]) == base_bucket_names()[i],
{
    reveal_strlit("common");
    reveal_strlit("regional");
    reveal_strlit("targeted");
    reveal_strlit("_");
    reveal_strlit("limited");
    reveal_strlit("unlimited");
    reveal_strlit("common_limited");
    reveal_strlit("common_unlimited");
    reveal_strlit("regional_limited");
    reveal_strlit("regional_unlimited");
    reveal_strlit("targeted_limited");
    reveal_strlit("targeted_unlimited");
    let c = package_class(flow_type, resource_type, public_free);
    let k = bucket_key_spec(c, limited);
    let keys = base_bucket_keys();
    let i: int = if c == "common"@ {
        if limited { 0 } else { 1 }
    } else if c == "regional"@ {
        if limited { 2 } else { 3 }
    } else {
        if limited { 4 } else { 5 }
    };
    assert(keys[i] =~= k);
    assert(keys[0] != keys[1] && keys[0] != keys[2] && keys[0] != keys[3] && keys[0] != keys[4] && keys[0] != keys[5]) by {
        assert(keys[0].len() != keys[1].len());
        assert(keys[0][0] != keys[2][0] && keys[0][0] != keys[4][0]);
        assert(keys[0].len() != keys[3].len() && keys[0].len() != keys[5].len());
    }
    assert(keys[1] != keys[2] && keys[1] != keys[3] && keys[1] != keys[4] && keys[1] != keys[5]) by {
        assert(keys[1][0] != keys[2][0] && keys[1][0] != keys[3][0]);
        assert(keys[1][0] != keys[4][0] && keys[1][0] != keys[5][0]);
    }
    assert(keys[2] != keys[3] && keys[2] != keys[4] && keys[2] != keys[5]) by {
        assert(keys[2].len() != keys[3].len());
        assert(keys[2][0] != keys[4][0] && keys[2][0] != keys[5][0]);
    }
    assert(keys[3] != keys[4] && keys[3] != keys[5]) by {
        assert(keys[3][0] != keys[4][0] && keys[3][0] != keys[5][0]);
    }
    assert(keys[4] != keys[5]) by {
        assert(keys[4].len() != keys[5].len());
    }
}

/// A package is labelled 公免 exactly when it is public-free.
pub proof fn law_public_free_label(flow_type: Seq<char>, resource_type: Seq<char>, public_free: bool)
    ensures
        (package_label(flow_type, resource_type, public_free) == "公免"@) == public_free,
{
    reveal_strlit("公免");
    reveal_strlit("通用");
    reveal_strlit("区域");
    reveal_strlit("定向");
    assert("公免"@[0] != "通用"@[0]);
    assert("公免"@[0] != "区域"@[0]);
    assert("公免"@[0] != "定向"@[0]);
}

// ───────────────────────── mobile numbers ─────────────────────────

/// Four asterisks start at byte `i` of `b`.
pub open spec fn stars_at(b: Seq<u8>, i: int) -> bool {
    0 <= i && i + 4 <= b.len() && b[i] == 42 && b[i + 1] == 42 && b[i + 2] == 42 && b[i + 3] == 42
}

pub open spec fn bytes_prefix(b: Seq<u8>, p: Seq<u8>) -> bool {
    p.len() <= b.len() && b.subrange(0, p.len() as int) == p
}

pub open spec fn bytes_suffix(b: Seq<u8>, p: Seq<u8>) -> bool {
    p.len() <= b.len() && b.subrange(b.len() - p.len(), b.len() as int) == p
}

/// Whether `phone` (a number, or a masked one of 11 bytes such as
/// `138****5678`) designates `target`, both given as UTF-8 bytes.
pub open spec fn mobile_matches(phone: Seq<u8>, target: Seq<u8>) -> bool {
    if phone.len() == 0 || target.len() == 0 {
        false
    } else if phone.len() == 11 && exists|i: int| stars_at(phone, i) {
        bytes_prefix(target, phone.subrange(0, 3)) && bytes_suffix(target, phone.subrange(7, 11))
    } else {
        phone == target
    }
}

/// Whether a number can be compared without slicing it inside a character:
/// a masked 11-byte number must have character boundaries at bytes 3 and 7.
pub open spec fn mobile_sliceable(phone: Seq<char>) -> bool {
    let b = encode_utf8(phone);
    (b.len() == 11 && exists|i: int| stars_at(b, i)) ==> (vstd::utf8::is_char_boundary(b, 3)
        && vstd::utf8::is_char_boundary(b, 7))
}

/// Where the carrier's reply lists this number's own packages: under
/// `unshared` when the reply has shared packages, else under `resources`.
pub fn own_resources_key(has_share: bool) -> (r: &'static str)
    ensures
        has_share ==> r@ == "unshared"@,
        !has_share ==> r@ == "resources"@,
{
    if has_share {
        "unshared"
    } else {
        "resources"
    }
}

/// Whether `b` holds four `*` in a row somewhere.
fn has_stars(b: &[u8]) -> (r: bool)
    ensures
        r == exists|i: int| stars_at(b@, i),
{
    let n = b.len();
    let mut i: usize = 0;
    while i < n && n - i >= 4
        invariant
            n == b@.len(),
            i <= n,
            forall|j: int| 0 <= j < i ==> !stars_at(b@, j),
        decreases n - i,
    {
        if b[i] == 42 && b[i + 1] == 42 && b[i + 2] == 42 && b[i + 3] == 42 {
            assert(stars_at(b@, i as int));
            return true;
        }
        i += 1;
    }
    assert forall|j: int| !stars_at(b@, j) by {
        if 0 <= j && j + 4 <= n {
            assert(j < i);
        }
    }
    false
}

/// Whether a card number can be compared as a masked number: true unless it
/// is eleven bytes long, holds `****`, and its first three or last four
/// bytes do not stand on character boundaries.
pub fn mobile_can_be_sliced(phone: &str) -> (r: bool)
    ensures
        r == mobile_sliceable(phone@),
{
    let b = phone.as_bytes();
    if b.len() != 11 || !has_stars(b) {
        return true;
    }
    phone.is_char_boundary(3) && phone.is_char_boundary(7)
}

fn bytes_eq_range(a: &[u8], a0: usize, b: &[u8], b0: usize, n: usize) -> (r: bool)
    requires
        a0 + n <= a@.len(),
        b0 + n <= b@.len(),
    ensures
        r == (a@.subrange(a0 as int, a0 + n) == b@.subrange(b0 as int, b0 + n)),
{
    let al = a.len();
    let bl = b.len();
    let mut k: usize = 0;
    assert(a@.subrange(a0 as int, a0 as int) =~= b@.subrange(b0 as int, b0 as int));
    while k < n
        invariant
            al == a@.len(),
            bl == b@.len(),
            a0 + n <= al,
            b0 + n <= bl,
            k <= n,
            a@.subrange(a0 as int, a0 + k) == b@.subrange(b0 as int, b0 + k),
        decreases n - k,
    {
        if a[a0 + k] != b[b0 + k] {
            assert(a@.subrange(a0 as int, a0 + n)[k as int] != b@.subrange(b0 as int, b0 + n)[k as int]);
            return false;
        }
        assert(a@.subrange(a0 as int, a0 + k + 1) =~= a@.subrange(a0 as int, a0 + k).push(a@[a0 + k]));
        assert(b@.subrange(b0 as int, b0 + k + 1) =~= b@.subrange(b0 as int, b0 + k).push(b@[b0 + k]));
        k += 1;
    }
    true
}

/// Whether the number `phone_number` (possibly masked, like `138****5678`)
/// is `target_mobile`.
pub fn is_current_mobile(phone_number: &str, target_mobile: &str) -> (r: bool)
    requires
        mobile_sliceable(phone_number@),
    ensures
        r == mobile_matches(encode_utf8(phone_number@), encode_utf8(target_mobile@)),
{
    let p = phone_number.as_bytes();
    let t = target_mobile.as_bytes();
    let pn = p.len();
    let tn = t.len();
    if pn == 0 || tn == 0 {
        return false;
    }
    if pn == 11 {
        let mut i: usize = 0;
        let mut found = false;
        while i + 4 <= pn && !found
            invariant
                pn == p@.len(),
                pn == 11,
                i <= 11,
                found ==> stars_at(p@, i as int),
                !found ==> forall|j: int| 0 <= j < i ==> !stars_at(p@, j),
            decreases 11 - i + (if found { 0int } else { 1 }),
        {
            if p[i] == 42 && p[i + 1] == 42 && p[i + 2] == 42 && p[i + 3] == 42 {
                found = true;
            } else {
                i += 1;
            }
        }
        if found {
            if tn < 3 || tn < 4 {
                return false;
            }
            let pre = bytes_eq_range(t, 0, p, 0, 3);
            let suf = bytes_eq_range(t, tn - 4, p, 7, 4);
            proof {
                assert(p@.subrange(0, 3).subrange(0, 3) =~= p@.subrange(0, 3));
                assert(p@.subrange(7, 11) =~= p@.subrange(7, 11int));
            }
            return pre && suf;
        } else {
            assert forall|j: int| !stars_at(p@, j) by {
                if 0 <= j && j + 4 <= 11 {
                    assert(j < i);
                }
            }
        }
    }
    if pn != tn {
        return false;
    }
    assert(p@.subrange(0, pn as int) =~= p@);
    assert(t@.subrange(0, tn as int) =~= t@);
    bytes_eq_range(p, 0, t, 0, pn)
}

/// Position of the first card in `numbers` that designates `mobile`.
pub fn find_current_card(numbers: &Vec<String>, mobile: &str) -> (r: Option<usize>)
    requires
        forall|i: int| 0 <= i < numbers.len() ==> mobile_sliceable(#[trigger] numbers@[i]@),
    ensures
        match r {
            Some(i) => i < numbers.len() && mobile_matches(encode_utf8(numbers@[i as int]@), encode_utf8(mobile@))
                && forall|j: int| 0 <= j < i ==> !mobile_matches(encode_utf8(#[trigger] numbers@[j]@), encode_utf8(mobile@)),
            None => forall|j: int| 0 <= j < numbers.len() ==> !mobile_matches(encode_utf8(#[trigger] numbers@[j]@), encode_utf8(mobile@)),
        },
{
    let mut i: usize = 0;
    while i < numbers.len()
        invariant
            i <= numbers.len(),
            forall|i: int| 0 <= i < numbers.len() ==> mobile_sliceable(#[trigger] numbers@[i]@),
            forall|j: int| 0 <= j < i ==> !mobile_matches(encode_utf8(#[trigger] numbers@[j]@), encode_utf8(mobile@)),
        decreases numbers.len() - i,
    {
        if is_current_mobile(numbers[i].as_str(), mobile) {
            return Some(i);
        }
        i += 1;
    }
    None
}

/// Label of a card in a shared plan: the number, then 当前 (the logged-in
/// card), 主卡 (a card whose vice flag is set) or 副卡.
pub open spec fn card_label(number: Seq<char>, current_flag: Seq<char>, vice_flag: Seq<char>) -> Seq<char> {
    number + if current_flag == "1"@ {
        " (当前)"@
    } else if vice_flag == "1"@ {
        " (主卡)"@
    } else {
        " (副卡)"@
    }
}

/// The detail label of a card in a shared plan.
pub fn vice_card_label(usernumber: &str, current_login_flag: &str, vice_card_flag: &str) -> (r: String)
    ensures
        r@ == card_label(usernumber@, current_login_flag@, vice_card_flag@),
{
    let mut s = usernumber.to_owned();
    if str_eq(current_login_flag, "1") {
        s.append(" (当前)");
    } else if str_eq(vice_card_flag, "1") {
        s.append(" (主卡)");
    } else {
        s.append(" (副卡)");
    }
    s
}

/// A number designates itself, masked or not.
pub proof fn law_number_designates_itself(phone: Seq<u8>)
    requires
        phone.len() > 0,
    ensures
        mobile_matches(phone, phone),
{
    assert(phone.subrange(0, 3) == phone.subrange(0, 3));
    if phone.len() == 11 {
        assert(phone.subrange(phone.len() - 4, phone.len() as int) =~= phone.subrange(7, 11));
    }
}

// ───────────────────────── intervals ─────────────────────────

/// A duration in seconds as text, e.g. `2小时35分钟`: hours and minutes
/// when nonzero, seconds only below an hour; empty for no positive duration.
pub open spec fn interval_text(seconds: int) -> Seq<char> {
    if seconds <= 0 {
        Seq::empty()
    } else {
        let h = seconds / 3600;
        let m = (seconds % 3600) / 60;
        let s = seconds % 60;
        let parts = (if h > 0 {
            int_decimal(h) + "小时"@
        } else {
            Seq::empty()
        }) + (if m > 0 {
            int_decimal(m) + "分钟"@
        } else {
            Seq::empty()
        }) + (if s > 0 && h == 0 {
            int_decimal(s) + "秒"@
        } else {
            Seq::empty()
        });
        if parts.len() == 0 {
            "0秒"@
        } else {
            parts
        }
    }
}

/// An interval is written as empty text exactly when it is not positive.
pub proof fn law_interval_text_empty(seconds: int)
    ensures
        (interval_text(seconds).len() == 0) == (seconds <= 0),
{
    reveal_strlit("0秒");
    assert("0秒"@.len() == 2);
}

/// Formats a number of seconds as a readable interval.
pub fn format_interval(seconds: i64) -> (r: String)
    ensures
        r@ == interval_text(seconds as int),
{
    if seconds <= 0 {
        return String::new();
    }
    let total = seconds as u64;
    let hours = total / 3600;
    let minutes = (total % 3600) / 60;
    let secs = total % 60;
    let mut parts = String::new();
    if hours > 0 {
        parts.append(u64_to_decimal(hours).as_str());
        parts.append("小时");
    }
    if minutes > 0 {
        parts.append(u64_to_decimal(minutes).as_str());
        parts.append("分钟");
    }
    if secs > 0 && hours == 0 {
        parts.append(u64_to_decimal(secs).as_str());
        parts.append("秒");
    }
    if parts.unicode_len() == 0 {
        return "0秒".to_owned();
    }
    proof {
        assert(int_decimal(hours as int) == nat_decimal(hours as nat));
        assert(int_decimal(minutes as int) == nat_decimal(minutes as nat));
        assert(int_decimal(secs as int) == nat_decimal(secs as nat));
        let sp = Seq::<char>::empty();
        assert(parts@ =~= (if hours > 0 { int_decimal(hours as int) + "小时"@ } else { sp }) + (if minutes > 0 { int_decimal(minutes as int) + "分钟"@ } else { sp }) + (if secs > 0 && hours == 0 { int_decimal(secs as int) + "秒"@ } else { sp }));
    }
    parts
}

// ───────────────────────── plain records ─────────────────────────

/// One line of a package's details, as the front end shows it.
pub struct PackageDetail {
    pub label: String,
    pub value: String,
}

/// Account balance figures, as the carrier reports them.
pub struct BalanceInfo {
    pub balance: String,
    pub real_fee: String,
    pub can_use_fee: String,
}

} // verus!
