//! Verified text primitives: comparison, searching, trimming, splitting,
//! decimal parsing and decimal formatting over Unicode scalar sequences.
use vstd::prelude::*;
use vstd::string::*;

verus! {

// ───────────────────────── specifications ─────────────────────────

/// The Unicode `White_Space` property, the set that `char::is_whitespace` tests.
pub open spec fn is_white_space(c: char) -> bool {
    let u = c as u32;
    ||| (0x9 <= u && u <= 0xD)
    ||| u == 0x20
    ||| u == 0x85
    ||| u == 0xA0
    ||| u == 0x1680
    ||| (0x2000 <= u && u <= 0x200A)
    ||| u == 0x2028
    ||| u == 0x2029
    ||| u == 0x202F
    ||| u == 0x205F
    ||| u == 0x3000
}

/// `p` occurs in `s` starting at position `i`.
pub open spec fn occurs_at(s: Seq<char>, p: Seq<char>, i: int) -> bool {
    0 <= i && i + p.len() <= s.len() && s.subrange(i, i + p.len()) == p
}

pub open spec fn seq_starts_with(s: Seq<char>, p: Seq<char>) -> bool {
    occurs_at(s, p, 0)
}

pub open spec fn seq_ends_with(s: Seq<char>, p: Seq<char>) -> bool {
    occurs_at(s, p, s.len() - p.len())
}

pub open spec fn seq_contains(s: Seq<char>, p: Seq<char>) -> bool {
    exists|i: int| occurs_at(s, p, i)
}



/// `str::trim_start`: the sequence without its leading white space.
pub open spec fn trim_start_seq(s: Seq<char>) -> Seq<char>
    decreases s.len(),
{
    if s.len() > 0 && is_white_space(s[0]) {
        trim_start_seq(s.drop_first())
    } else {
        s
    }
}

/// `str::trim_end`: the sequence without its trailing white space.
pub open spec fn trim_end_seq(s: Seq<char>) -> Seq<char>
    decreases s.len(),
{
    if s.len() > 0 && is_white_space(s.last()) {
        trim_end_seq(s.drop_last())
    } else {
        s
    }
}

/// `str::trim`: white space removed at both ends.
pub open spec fn trim_seq(s: Seq<char>) -> Seq<char> {
    trim_end_seq(trim_start_seq(s))
}

/// Number of leading characters of `t` that are not white space.
pub open spec fn word_len(t: Seq<char>) -> nat
    decreases t.len(),
{
    if t.len() == 0 || is_white_space(t[0]) {
        0
    } else {
        1 + word_len(t.drop_first())
    }
}

/// `str::split_whitespace`: the maximal runs of non-white-space characters, in order.
pub open spec fn split_ws_seq(s: Seq<char>) -> Seq<Seq<char>>
    decreases s.len(),
{
    let t = trim_start_seq(s);
    if t.len() == 0 {
        Seq::empty()
    } else {
        proof {
            lemma_trim_start_shape(s);
            lemma_word_len_shape(t);
        }
        let k = word_len(t);
        seq![t.subrange(0, k as int)] + split_ws_seq(t.subrange(k as int, t.len() as int))
    }
}

/// Number of leading characters of `s` before the first `c`.
pub open spec fn piece_len(s: Seq<char>, c: char) -> nat
    decreases s.len(),
{
    if s.len() == 0 || s[0] == c {
        0
    } else {
        1 + piece_len(s.drop_first(), c)
    }
}

/// `str::split(c)`: the pieces between occurrences of `c`, empty pieces included.
pub open spec fn split_char_seq(s: Seq<char>, c: char) -> Seq<Seq<char>>
    decreases s.len(),
{
    proof {
        lemma_piece_len_shape(s, c);
    }
    let k = piece_len(s, c);
    if k >= s.len() {
        seq![s]
    } else {
        seq![s.subrange(0, k as int)] + split_char_seq(s.subrange(k as int + 1, s.len() as int), c)
    }
}

pub open spec fn is_ascii_digit(c: char) -> bool {
    '0' <= c && c <= '9'
}

pub open spec fn all_ascii_digits(s: Seq<char>) -> bool {
    forall|i: int| 0 <= i < s.len() ==> is_ascii_digit(#[trigger] s[i])
}

/// Value of a run of decimal digits.
pub open spec fn digits_value(s: Seq<char>) -> int
    decreases s.len(),
{
    if s.len() == 0 {
        0
    } else {
        digits_value(s.drop_last()) * 10 + (s.last() as int - '0' as int)
    }
}

/// The integer that Rust's `FromStr` for a signed integer reads from `s`:
/// an optional `+` or `-`, then one or more ASCII digits, nothing else.
pub open spec fn parse_int_seq(s: Seq<char>) -> Option<int> {
    if s.len() == 0 {
        None
    } else if s[0] == '+' || s[0] == '-' {
        let d = s.drop_first();
        if d.len() > 0 && all_ascii_digits(d) {
            Some(
                if s[0] == '-' {
                    -digits_value(d)
                } else {
                    digits_value(d)
                },
            )
        } else {
            None
        }
    } else if all_ascii_digits(s) {
        Some(digits_value(s))
    } else {
        None
    }
}

/// `s.parse::<i32>().ok()`.
pub open spec fn parse_i32_seq(s: Seq<char>) -> Option<i32> {
    match parse_int_seq(s) {
        Some(v) => if i32::MIN <= v <= i32::MAX {
            Some(v as i32)
        } else {
            None
        },
        None => None,
    }
}

/// `s.parse::<i64>().ok()`.
pub open spec fn parse_i64_seq(s: Seq<char>) -> Option<i64> {
    match parse_int_seq(s) {
        Some(v) => if i64::MIN <= v <= i64::MAX {
            Some(v as i64)
        } else {
            None
        },
        None => None,
    }
}

/// `s.parse::<u64>().ok()`: as for a signed integer, but a leading `-` is refused.
pub open spec fn parse_u64_seq(s: Seq<char>) -> Option<u64> {
    if s.len() > 0 && s[0] == '-' {
        None
    } else {
        match parse_int_seq(s) {
            Some(v) => if 0 <= v <= u64::MAX {
                Some(v as u64)
            } else {
                None
            },
            None => None,
        }
    }
}

/// `s.parse::<u32>().ok()`.
pub open spec fn parse_u32_seq(s: Seq<char>) -> Option<u32> {
    match parse_u64_seq(s) {
        Some(v) => if v <= u32::MAX {
            Some(v as u32)
        } else {
            None
        },
        None => None,
    }
}

pub open spec fn digit_char(d: int) -> char {
    (d + '0' as int) as char
}

/// Decimal digits of a natural number, as `Display` writes it.
pub open spec fn nat_decimal(n: nat) -> Seq<char>
    decreases n,
{
    if n < 10 {
        seq![digit_char(n as int)]
    } else {
        nat_decimal(n / 10) + seq![digit_char((n % 10) as int)]
    }
}

/// Decimal form of an integer, as `Display` writes it.
pub open spec fn int_decimal(i: int) -> Seq<char> {
    if i < 0 {
        seq!['-'] + nat_decimal((-i) as nat)
    } else {
        nat_decimal(i as nat)
    }
}


/// `str::replace(from, to)` for a nonempty pattern: every occurrence of
/// `from`, scanning left to right without overlap, replaced by `to`.
pub open spec fn replace_seq(s: Seq<char>, from: Seq<char>, to: Seq<char>) -> Seq<char>
    decreases s.len(),
{
    if from.len() == 0 || s.len() < from.len() {
        s
    } else if s.subrange(0, from.len() as int) == from {
        to + replace_seq(s.subrange(from.len() as int, s.len() as int), from, to)
    } else {
        seq![s[0]] + replace_seq(s.drop_first(), from, to)
    }
}

/// `parts.join(sep)`.
pub open spec fn join_seq(parts: Seq<Seq<char>>, sep: Seq<char>) -> Seq<char>
    decreases parts.len(),
{
    if parts.len() == 0 {
        Seq::empty()
    } else if parts.len() == 1 {
        parts[0]
    } else {
        join_seq(parts.drop_last(), sep) + sep + parts.last()
    }
}

// ───────────────────────── lemmas ─────────────────────────

pub proof fn lemma_trim_start_shape(s: Seq<char>)
    ensures
        trim_start_seq(s).len() <= s.len(),
        trim_start_seq(s).len() > 0 ==> !is_white_space(trim_start_seq(s)[0]),
        trim_start_seq(s) == s.subrange(s.len() - trim_start_seq(s).len(), s.len() as int),
    decreases s.len(),
{
    if s.len() > 0 && is_white_space(s[0]) {
        lemma_trim_start_shape(s.drop_first());
        assert(s.drop_first().subrange(
            s.drop_first().len() - trim_start_seq(s).len(),
            s.drop_first().len() as int,
        ) =~= s.subrange(s.len() - trim_start_seq(s).len(), s.len() as int));
    } else {
        assert(s.subrange(0, s.len() as int) =~= s);
    }
}

pub proof fn lemma_word_len_shape(t: Seq<char>)
    ensures
        word_len(t) <= t.len(),
        t.len() > 0 && !is_white_space(t[0]) ==> word_len(t) >= 1,
        forall|j: int| 0 <= j < word_len(t) ==> !is_white_space(#[trigger] t[j]),
        word_len(t) < t.len() ==> is_white_space(t[word_len(t) as int]),
    decreases t.len(),
{
    if t.len() == 0 || is_white_space(t[0]) {
    } else {
        lemma_word_len_shape(t.drop_first());
        assert forall|j: int| 0 <= j < word_len(t) implies !is_white_space(#[trigger] t[j]) by {
            if j > 0 {
                assert(t[j] == t.drop_first()[j - 1]);
            }
        }
    }
}

pub proof fn lemma_piece_len_shape(s: Seq<char>, c: char)
    ensures
        piece_len(s, c) <= s.len(),
        forall|j: int| 0 <= j < piece_len(s, c) ==> #[trigger] s[j] != c,
        piece_len(s, c) < s.len() ==> s[piece_len(s, c) as int] == c,
    decreases s.len(),
{
    if s.len() == 0 || s[0] == c {
    } else {
        lemma_piece_len_shape(s.drop_first(), c);
        assert forall|j: int| 0 <= j < piece_len(s, c) implies #[trigger] s[j] != c by {
            if j > 0 {
                assert(s[j] == s.drop_first()[j - 1]);
            }
        }
    }
}

proof fn lemma_digits_push(s: Seq<char>, c: char)
    ensures
        digits_value(s.push(c)) == digits_value(s) * 10 + (c as int - '0' as int),
{
    assert(s.push(c).drop_last() =~= s);
}

proof fn lemma_digits_nonneg(s: Seq<char>)
    requires
        all_ascii_digits(s),
    ensures
        digits_value(s) >= 0,
    decreases s.len(),
{
    if s.len() > 0 {
        assert(all_ascii_digits(s.drop_last())) by {
            assert forall|i: int| 0 <= i < s.drop_last().len() implies is_ascii_digit(
                #[trigger] s.drop_last()[i],
            ) by {
                assert(s.drop_last()[i] == s[i]);
            }
        }
        lemma_digits_nonneg(s.drop_last());
        assert(is_ascii_digit(s[s.len() - 1]));
    }
}

/// The decimal form of a natural number is a nonempty run of digits whose
/// value is the number.
pub proof fn lemma_nat_decimal_digits(n: nat)
    ensures
        nat_decimal(n).len() >= 1,
        all_ascii_digits(nat_decimal(n)),
        digits_value(nat_decimal(n)) == n,
    decreases n,
{
    if n < 10 {
        assert(seq![digit_char(n as int)].drop_last() =~= Seq::<char>::empty());
        assert(digit_char(n as int) as int == n + '0' as int);
        assert(digits_value(Seq::<char>::empty()) == 0);
        assert(digits_value(seq![digit_char(n as int)]) == n);
    } else {
        lemma_nat_decimal_digits(n / 10);
        vstd::arithmetic::div_mod::lemma_fundamental_div_mod(n as int, 10);
        assert(digit_char((n % 10) as int) as int == (n % 10) + '0' as int);
        let d = nat_decimal(n);
        assert(d.drop_last() =~= nat_decimal(n / 10));
        assert(d.last() == digit_char((n % 10) as int));
        assert(digits_value(d) == digits_value(nat_decimal(n / 10)) * 10 + (n % 10));
        assert forall|i: int| 0 <= i < d.len() implies is_ascii_digit(#[trigger] d[i]) by {
            if i < d.len() - 1 {
                assert(d[i] == nat_decimal(n / 10)[i]);
            }
        }
    }
}

/// Reading back the decimal form of a natural number gives the number.
pub proof fn lemma_parse_nat_decimal(n: nat)
    ensures
        parse_int_seq(nat_decimal(n)) == Some(n as int),
{
    lemma_nat_decimal_digits(n);
    assert(is_ascii_digit(nat_decimal(n)[0]));
}

/// A number written in decimal reads back as the same number.
pub proof fn law_decimal_round_trip(n: u64)
    ensures
        parse_u64_seq(nat_decimal(n as nat)) == Some(n),
        parse_i64_seq(int_decimal(n as int)) == (if n <= i64::MAX { Some(n as i64) } else { None::<i64> }),
{
    lemma_parse_nat_decimal(n as nat);
    lemma_nat_decimal_digits(n as nat);
    assert(is_ascii_digit(nat_decimal(n as nat)[0]));
}

/// A signed number written in decimal reads back as the same number.
pub proof fn law_signed_decimal_round_trip(i: i64)
    ensures
        parse_i64_seq(int_decimal(i as int)) == Some(i),
{
    if i < 0 {
        let d = nat_decimal((-i) as nat);
        lemma_nat_decimal_digits((-i) as nat);
        let s = seq!['-'] + d;
        assert(s.drop_first() =~= d);
        assert(s[0] == '-');
    } else {
        lemma_parse_nat_decimal(i as nat);
    }
}

/// A nonempty run without white space, then one white-space character, splits
/// into that run followed by the words of the rest.
pub proof fn lemma_split_ws_word(w: Seq<char>, sp: char, rest: Seq<char>)
    requires
        w.len() > 0,
        forall|j: int| 0 <= j < w.len() ==> !is_white_space(#[trigger] w[j]),
        is_white_space(sp),
    ensures
        split_ws_seq(w + seq![sp] + rest) == seq![w] + split_ws_seq(rest),
{
    let s = w + seq![sp] + rest;
    assert(s[0] == w[0]);
    assert(trim_start_seq(s) == s);
    lemma_word_len_prefix(w, seq![sp] + rest);
    assert(s =~= w + (seq![sp] + rest));
    assert(s.subrange(0, w.len() as int) =~= w);
    let tail = s.subrange(w.len() as int, s.len() as int);
    assert(tail =~= seq![sp] + rest);
    assert(tail.drop_first() =~= rest);
    assert(trim_start_seq(tail) == trim_start_seq(rest));
    lemma_split_ws_same_start(tail, rest);
}

/// A nonempty run without white space is a single word.
pub proof fn lemma_split_ws_single(w: Seq<char>)
    requires
        w.len() > 0,
        forall|j: int| 0 <= j < w.len() ==> !is_white_space(#[trigger] w[j]),
    ensures
        split_ws_seq(w) == seq![w],
{
    assert(trim_start_seq(w) == w);
    lemma_word_len_prefix(w, Seq::empty());
    assert(w + Seq::<char>::empty() =~= w);
    assert(w.subrange(0, w.len() as int) =~= w);
    assert(w.subrange(w.len() as int, w.len() as int) =~= Seq::<char>::empty());
    assert(trim_start_seq(Seq::<char>::empty()) =~= Seq::<char>::empty());
    assert(split_ws_seq(Seq::<char>::empty()) =~= Seq::<Seq<char>>::empty());
    assert(seq![w] + Seq::<Seq<char>>::empty() =~= seq![w]);
}

proof fn lemma_word_len_prefix(w: Seq<char>, rest: Seq<char>)
    requires
        forall|j: int| 0 <= j < w.len() ==> !is_white_space(#[trigger] w[j]),
        rest.len() == 0 || is_white_space(rest[0]),
    ensures
        word_len(w + rest) == w.len(),
    decreases w.len(),
{
    if w.len() == 0 {
        assert(w + rest =~= rest);
    } else {
        assert((w + rest).drop_first() =~= w.drop_first() + rest);
        assert forall|j: int| 0 <= j < w.drop_first().len() implies !is_white_space(
            #[trigger] w.drop_first()[j],
        ) by {
            assert(w.drop_first()[j] == w[j + 1]);
        }
        lemma_word_len_prefix(w.drop_first(), rest);
        assert((w + rest)[0] == w[0]);
    }
}

proof fn lemma_split_ws_same_start(a: Seq<char>, b: Seq<char>)
    requires
        trim_start_seq(a) == trim_start_seq(b),
    ensures
        split_ws_seq(a) == split_ws_seq(b),
{
}

/// Replacing a pattern that occurs nowhere leaves the text as it is.
pub proof fn lemma_replace_not_occurring(s: Seq<char>, from: Seq<char>, to: Seq<char>)
    requires
        from.len() > 0,
        forall|i: int| !#[trigger] occurs_at(s, from, i),
    ensures
        replace_seq(s, from, to) == s,
    decreases s.len(),
{
    if s.len() >= from.len() {
        assert(!occurs_at(s, from, 0));
        assert forall|i: int| !#[trigger] occurs_at(s.drop_first(), from, i) by {
            if occurs_at(s.drop_first(), from, i) {
                assert(s.drop_first().subrange(i, i + from.len()) =~= s.subrange(i + 1, i + 1 + from.len()));
                assert(occurs_at(s, from, i + 1));
            }
        }
        lemma_replace_not_occurring(s.drop_first(), from, to);
        assert(seq![s[0]] + s.drop_first() =~= s);
    }
}

/// Replacing a pattern in a text that is exactly the pattern gives the replacement.
pub proof fn lemma_replace_whole(from: Seq<char>, to: Seq<char>)
    requires
        from.len() > 0,
    ensures
        replace_seq(from, from, to) == to,
{
    assert(from.subrange(0, from.len() as int) =~= from);
    assert(from.subrange(from.len() as int, from.len() as int) =~= Seq::<char>::empty());
    assert(replace_seq(Seq::<char>::empty(), from, to) == Seq::<char>::empty());
    assert(to + Seq::<char>::empty() =~= to);
}

/// Replacing a pattern whose first character never occurs leaves the text as it is.
pub proof fn lemma_replace_absent(s: Seq<char>, from: Seq<char>, to: Seq<char>)
    requires
        from.len() > 0,
        forall|i: int| 0 <= i < s.len() ==> #[trigger] s[i] != from[0],
    ensures
        replace_seq(s, from, to) == s,
    decreases s.len(),
{
    if s.len() >= from.len() {
        assert(s.subrange(0, from.len() as int)[0] == s[0]);
        assert forall|i: int| 0 <= i < s.drop_first().len() implies #[trigger] s.drop_first()[i] != from[0] by {
            assert(s.drop_first()[i] == s[i + 1]);
        }
        lemma_replace_absent(s.drop_first(), from, to);
        assert(seq![s[0]] + s.drop_first() =~= s);
    }
}

// ───────────────────────── comparisons and search ─────────────────────────

/// Whether `c` has the Unicode `White_Space` property.
pub fn char_is_white_space(c: char) -> (r: bool)
    ensures
        r == is_white_space(c),
{
    let u = c as u32;
    (0x9 <= u && u <= 0xD) || u == 0x20 || u == 0x85 || u == 0xA0 || u == 0x1680 || (0x2000 <= u
        && u <= 0x200A) || u == 0x2028 || u == 0x2029 || u == 0x202F || u == 0x205F || u == 0x3000
}

/// Character-wise equality of two string slices.
pub fn str_eq(a: &str, b: &str) -> (r: bool)
    ensures
        r == (a@ == b@),
{
    let n = a.unicode_len();
    if n != b.unicode_len() {
        return false;
    }
    let mut i: usize = 0;
    while i < n
        invariant
            n == a@.len(),
            n == b@.len(),
            i <= n,
            forall|j: int| 0 <= j < i ==> a@[j] == b@[j],
        decreases n - i,
    {
        if a.get_char(i) != b.get_char(i) {
            return false;
        }
        i += 1;
    }
    assert(a@ =~= b@);
    true
}

/// Whether `p` occurs in `s` at character position `i`.
pub fn matches_at(s: &str, p: &str, i: usize) -> (r: bool)
    ensures
        r == occurs_at(s@, p@, i as int),
{
    let n = s.unicode_len();
    let m = p.unicode_len();
    if i > n || m > n - i {
        return false;
    }
    let mut k: usize = 0;
    while k < m
        invariant
            n == s@.len(),
            m == p@.len(),
            i + m <= n,
            k <= m,
            forall|j: int| 0 <= j < k ==> s@[i + j] == p@[j],
        decreases m - k,
    {
        if s.get_char(i + k) != p.get_char(k) {
            assert(s@.subrange(i as int, i + m)[k as int] != p@[k as int]);
            return false;
        }
        k += 1;
    }
    assert(s@.subrange(i as int, i + m) =~= p@);
    true
}

/// `str::starts_with` for a string pattern.
pub fn starts_with(s: &str, p: &str) -> (r: bool)
    ensures
        r == seq_starts_with(s@, p@),
{
    matches_at(s, p, 0)
}

/// `str::ends_with` for a string pattern.
pub fn ends_with(s: &str, p: &str) -> (r: bool)
    ensures
        r == seq_ends_with(s@, p@),
{
    let n = s.unicode_len();
    let m = p.unicode_len();
    if m > n {
        return false;
    }
    matches_at(s, p, n - m)
}

/// First position at which `p` occurs in `s`, if any.
pub fn find(s: &str, p: &str) -> (r: Option<usize>)
    ensures
        match r {
            Some(i) => occurs_at(s@, p@, i as int) && forall|j: int|
                0 <= j < i ==> !occurs_at(s@, p@, j),
            None => !seq_contains(s@, p@),
        },
{
    let n = s.unicode_len();
    let m = p.unicode_len();
    if m > n {
        return None;
    }
    if m == 0 {
        assert(s@.subrange(0, 0) =~= p@);
        return Some(0);
    }
    let mut i: usize = 0;
    while i <= n - m
        invariant
            n == s@.len(),
            m == p@.len(),
            0 < m <= n,
            i <= n - m + 1,
            forall|j: int| 0 <= j < i ==> !occurs_at(s@, p@, j),
        decreases n - m + 1 - i,
    {
        if matches_at(s, p, i) {
            return Some(i);
        }
        i += 1;
    }
    assert forall|j: int| !occurs_at(s@, p@, j) by {
        if 0 <= j < i {
        } else {
            assert(!(0 <= j && j + m <= n));
        }
    }
    None
}

/// `str::contains` for a string pattern.
pub fn contains(s: &str, p: &str) -> (r: bool)
    ensures
        r == seq_contains(s@, p@),
{
    find(s, p).is_some()
}


// ───────────────────────── trimming and splitting ─────────────────────────

/// `str::trim`.
pub fn trim(s: &str) -> (r: &str)
    ensures
        r@ == trim_seq(s@),
{
    let n = s.unicode_len();
    let mut a: usize = 0;
    assert(s@.subrange(0, n as int) =~= s@);
    while a < n && char_is_white_space(s.get_char(a))
        invariant
            n == s@.len(),
            a <= n,
            trim_start_seq(s@) == trim_start_seq(s@.subrange(a as int, n as int)),
        decreases n - a,
    {
        assert(s@.subrange(a as int, n as int).drop_first() =~= s@.subrange(a + 1, n as int));
        a += 1;
    }
    let mut b: usize = n;
    while b > a && char_is_white_space(s.get_char(b - 1))
        invariant
            n == s@.len(),
            a <= b <= n,
            trim_seq(s@) == trim_end_seq(s@.subrange(a as int, b as int)),
        decreases b - a,
    {
        assert(s@.subrange(a as int, b as int).drop_last() =~= s@.subrange(a as int, b - 1));
        b -= 1;
    }
    s.substring_char(a, b)
}

/// Whether every character of `s` is white space (`s.trim().is_empty()`).
pub fn is_blank(s: &str) -> (r: bool)
    ensures
        r == (trim_seq(s@).len() == 0),
{
    trim(s).unicode_len() == 0
}

proof fn lemma_split_ws_skip(x: Seq<char>)
    requires
        x.len() > 0,
        is_white_space(x[0]),
    ensures
        split_ws_seq(x) == split_ws_seq(x.drop_first()),
{
    assert(trim_start_seq(x) == trim_start_seq(x.drop_first()));
}

/// `str::split_whitespace`, collected.
pub fn split_whitespace(s: &str) -> (r: Vec<&str>)
    ensures
        r@.map_values(|w: &str| w@) == split_ws_seq(s@),
{
    let n = s.unicode_len();
    let mut out: Vec<&str> = Vec::new();
    let mut i: usize = 0;
    assert(s@.subrange(0, n as int) =~= s@);
    assert(out@.map_values(|w: &str| w@) =~= Seq::<Seq<char>>::empty());
    while i < n
        invariant
            n == s@.len(),
            i <= n,
            split_ws_seq(s@) == out@.map_values(|w: &str| w@) + split_ws_seq(
                s@.subrange(i as int, n as int),
            ),
        decreases n - i,
    {
        let x = Ghost(s@.subrange(i as int, n as int));
        if char_is_white_space(s.get_char(i)) {
            proof {
                lemma_split_ws_skip(x@);
                assert(x@.drop_first() =~= s@.subrange(i + 1, n as int));
            }
            i += 1;
        } else {
            let mut j: usize = i + 1;
            proof {
                assert(x@.drop_first() =~= s@.subrange(i + 1, n as int));
            }
            while j < n && !char_is_white_space(s.get_char(j))
                invariant
                    n == s@.len(),
                    i < j <= n,
                    x@ == s@.subrange(i as int, n as int),
                    !is_white_space(s@[i as int]),
                    word_len(x@) == (j - i) + word_len(s@.subrange(j as int, n as int)),
                decreases n - j,
            {
                assert(s@.subrange(j as int, n as int).drop_first() =~= s@.subrange(
                    j + 1,
                    n as int,
                ));
                j += 1;
            }
            proof {
                let k = word_len(x@);
                if j < n {
                    assert(s@.subrange(j as int, n as int)[0] == s@[j as int]);
                }
                assert(k == j - i);
                assert(trim_start_seq(x@) == x@);
                assert(x@.subrange(0, k as int) =~= s@.subrange(i as int, j as int));
                assert(x@.subrange(k as int, x@.len() as int) =~= s@.subrange(j as int, n as int));
            }
            let w = s.substring_char(i, j);
            let ghost before = out@.map_values(|w: &str| w@);
            out.push(w);
            proof {
                assert(out@.map_values(|w: &str| w@) =~= before.push(w@));
            }
            i = j;
        }
    }
    assert(s@.subrange(n as int, n as int) =~= Seq::<char>::empty());
    assert(split_ws_seq(Seq::<char>::empty()) =~= Seq::<Seq<char>>::empty());
    out
}

/// `str::split(c)`, collected.
pub fn split_char(s: &str, c: char) -> (r: Vec<&str>)
    ensures
        r@.map_values(|w: &str| w@) == split_char_seq(s@, c),
{
    let n = s.unicode_len();
    let mut out: Vec<&str> = Vec::new();
    let mut i: usize = 0;
    assert(s@.subrange(0, n as int) =~= s@);
    assert(out@.map_values(|w: &str| w@) =~= Seq::<Seq<char>>::empty());
    loop
        invariant
            n == s@.len(),
            i <= n,
            split_char_seq(s@, c) == out@.map_values(|w: &str| w@) + split_char_seq(
                s@.subrange(i as int, n as int),
                c,
            ),
        decreases n - i,
    {
        let x = Ghost(s@.subrange(i as int, n as int));
        let mut j: usize = i;
        while j < n && s.get_char(j) != c
            invariant
                n == s@.len(),
                i <= j <= n,
                x@ == s@.subrange(i as int, n as int),
                piece_len(x@, c) == (j - i) + piece_len(s@.subrange(j as int, n as int), c),
            decreases n - j,
        {
            assert(s@.subrange(j as int, n as int).drop_first() =~= s@.subrange(j + 1, n as int));
            j += 1;
        }
        proof {
            if j < n {
                assert(s@.subrange(j as int, n as int)[0] == s@[j as int]);
            }
            assert(piece_len(x@, c) == j - i);
            assert(x@.subrange(0, (j - i) as int) =~= s@.subrange(i as int, j as int));
        }
        let w = s.substring_char(i, j);
        let ghost before = out@.map_values(|w: &str| w@);
        out.push(w);
        proof {
            assert(out@.map_values(|w: &str| w@) =~= before.push(w@));
        }
        if j == n {
            proof {
                assert(x@ =~= s@.subrange(i as int, j as int));
            }
            return out;
        }
        proof {
            assert(x@.subrange(j - i + 1, x@.len() as int) =~= s@.subrange(j + 1, n as int));
        }
        i = j + 1;
    }
}


// ───────────────────────── building text ─────────────────────────

/// `s.replace(from, to)` for a nonempty pattern.
pub fn replace(s: &str, from: &str, to: &str) -> (r: String)
    requires
        from@.len() > 0,
    ensures
        r@ == replace_seq(s@, from@, to@),
{
    let n = s.unicode_len();
    let m = from.unicode_len();
    let mut out = String::new();
    let mut i: usize = 0;
    assert(s@.subrange(0, n as int) =~= s@);
    while i < n
        invariant
            n == s@.len(),
            m == from@.len(),
            m > 0,
            i <= n,
            replace_seq(s@, from@, to@) == out@ + replace_seq(s@.subrange(i as int, n as int), from@, to@),
        decreases n - i,
    {
        let ghost x = s@.subrange(i as int, n as int);
        if matches_at(s, from, i) {
            proof {
                assert(x.subrange(0, m as int) =~= s@.subrange(i as int, i + m));
                assert(x.subrange(m as int, x.len() as int) =~= s@.subrange(i + m, n as int));
            }
            out.append(to);
            i += m;
        } else {
            proof {
                if x.len() >= m {
                    assert(x.subrange(0, m as int) =~= s@.subrange(i as int, i + m));
                }
                assert(x.drop_first() =~= s@.subrange(i + 1, n as int));
            }
            let c = s.substring_char(i, i + 1);
            proof {
                assert(c@ =~= seq![x[0]]);
            }
            out.append(c);
            i += 1;
        }
    }
    assert(s@.subrange(n as int, n as int) =~= Seq::<char>::empty());
    out
}

/// `parts.join(sep)`.
pub fn join(parts: &Vec<String>, sep: &str) -> (r: String)
    ensures
        r@ == join_seq(parts@.map_values(|p: String| p@), sep@),
{
    let mut out = String::new();
    let ghost vs = parts@.map_values(|p: String| p@);
    let mut i: usize = 0;
    while i < parts.len()
        invariant
            i <= parts.len(),
            vs == parts@.map_values(|p: String| p@),
            out@ == join_seq(vs.take(i as int), sep@),
        decreases parts.len() - i,
    {
        proof {
            assert(vs.take(i + 1).drop_last() =~= vs.take(i as int));
            assert(vs.take(i + 1).last() == parts@[i as int]@);
            if i == 0 {
                assert(vs.take(1) =~= seq![parts@[0]@]);
            }
        }
        if i > 0 {
            out.append(sep);
        }
        out.append(parts[i].as_str());
        i += 1;
    }
    assert(vs.take(parts.len() as int) =~= vs);
    out
}

// ───────────────────────── numbers ─────────────────────────

/// Reads a signed decimal integer as Rust's `FromStr` does, keeping it only
/// inside `[lo, hi]`.
pub fn parse_int_in(s: &str, lo: i128, hi: i128) -> (r: Option<i128>)
    requires
        -0x10000000000000000000000000 < lo,
        hi < 0x10000000000000000000000000,
    ensures
        r == (match parse_int_seq(s@) {
            Some(v) => if lo <= v <= hi {
                Some(v as i128)
            } else {
                None::<i128>
            },
            None => None,
        }),
{
    let n = s.unicode_len();
    if n == 0 {
        return None;
    }
    let c0 = s.get_char(0);
    let neg = c0 == '-';
    let start: usize = if c0 == '+' || c0 == '-' {
        1
    } else {
        0
    };
    if start == n {
        return None;
    }
    let ghost d = s@.subrange(start as int, n as int);
    proof {
        if start == 1 {
            assert(s@.drop_first() =~= d);
        } else {
            assert(s@ =~= d);
        }
    }
    let mut acc: u128 = 0;
    let mut big = false;
    let mut i: usize = start;
    assert(s@.subrange(start as int, start as int) =~= Seq::<char>::empty());
    while i < n
        invariant
            n == s@.len(),
            start <= i <= n,
            start == 0 || start == 1,
            d == s@.subrange(start as int, n as int),
            start == 1 ==> s@.drop_first() == d && (s@[0] == '+' || s@[0] == '-'),
            start == 0 ==> s@ == d && !(s@[0] == '+' || s@[0] == '-'),
            all_ascii_digits(s@.subrange(start as int, i as int)),
            !big ==> acc == digits_value(s@.subrange(start as int, i as int)) && acc
                < 0x10000000000000000000000000,
            big ==> digits_value(s@.subrange(start as int, i as int))
                >= 0x10000000000000000000000000,
        decreases n - i,
    {
        let c = s.get_char(i);
        if !('0' <= c && c <= '9') {
            assert(d[i - start] == c);
            assert(!all_ascii_digits(d));
            return None;
        }
        let dv = (c as u32 - '0' as u32) as u128;
        let ghost pre = s@.subrange(start as int, i as int);
        proof {
            assert(s@.subrange(start as int, i + 1) =~= pre.push(c));
            lemma_digits_push(pre, c);
            lemma_digits_nonneg(pre);
        }
        if !big {
            let nv = acc * 10 + dv;
            if nv >= 0x10000000000000000000000000 {
                big = true;
            } else {
                acc = nv;
            }
        }
        i += 1;
        assert(all_ascii_digits(s@.subrange(start as int, i as int))) by {
            assert forall|k: int| 0 <= k < i - start implies is_ascii_digit(
                #[trigger] s@.subrange(start as int, i as int)[k],
            ) by {
                if k < i - 1 - start {
                    assert(s@.subrange(start as int, i as int)[k] == pre[k]);
                }
            }
        }
    }
    assert(s@.subrange(start as int, n as int) =~= d);
    if big {
        return None;
    }
    let v: i128 = if neg {
        -(acc as i128)
    } else {
        acc as i128
    };
    if lo <= v && v <= hi {
        Some(v)
    } else {
        None
    }
}

/// `s.parse::<i32>().ok()`.
pub fn parse_i32(s: &str) -> (r: Option<i32>)
    ensures
        r == parse_i32_seq(s@),
{
    match parse_int_in(s, i32::MIN as i128, i32::MAX as i128) {
        Some(v) => Some(v as i32),
        None => None,
    }
}

/// `s.parse::<u64>().ok()`.
pub fn parse_u64(s: &str) -> (r: Option<u64>)
    ensures
        r == parse_u64_seq(s@),
{
    if s.unicode_len() > 0 && s.get_char(0) == '-' {
        return None;
    }
    match parse_int_in(s, 0, u64::MAX as i128) {
        Some(v) => Some(v as u64),
        None => None,
    }
}

/// `s.parse::<u32>().ok()`.
pub fn parse_u32(s: &str) -> (r: Option<u32>)
    ensures
        r == parse_u32_seq(s@),
{
    match parse_u64(s) {
        Some(v) => if v <= u32::MAX as u64 {
            Some(v as u32)
        } else {
            None
        },
        None => None,
    }
}

/// `s.parse::<i64>().ok()`.
pub fn parse_i64(s: &str) -> (r: Option<i64>)
    ensures
        r == parse_i64_seq(s@),
{
    match parse_int_in(s, i64::MIN as i128, i64::MAX as i128) {
        Some(v) => Some(v as i64),
        None => None,
    }
}

fn digit_str(d: u64) -> (r: &'static str)
    requires
        d < 10,
    ensures
        r@ == seq![digit_char(d as int)],
{
    proof {
        reveal_strlit("0");
        reveal_strlit("1");
        reveal_strlit("2");
        reveal_strlit("3");
        reveal_strlit("4");
        reveal_strlit("5");
        reveal_strlit("6");
        reveal_strlit("7");
        reveal_strlit("8");
        reveal_strlit("9");
    }
    match d {
        0 => "0",
        1 => "1",
        2 => "2",
        3 => "3",
        4 => "4",
        5 => "5",
        6 => "6",
        7 => "7",
        8 => "8",
        _ => "9",
    }
}

/// Decimal form of an unsigned integer (`n.to_string()`).
pub fn u64_to_decimal(n: u64) -> (r: String)
    ensures
        r@ == nat_decimal(n as nat),
    decreases n,
{
    if n < 10 {
        digit_str(n).to_owned()
    } else {
        let mut s = u64_to_decimal(n / 10);
        s.append(digit_str(n % 10));
        s
    }
}

/// Decimal form of a signed integer (`i.to_string()`).
pub fn i64_to_decimal(i: i64) -> (r: String)
    ensures
        r@ == int_decimal(i as int),
{
    if i < 0 {
        let m: u64 = (-(i as i128)) as u64;
        let mut s = "-".to_owned();
        proof {
            reveal_strlit("-");
        }
        s.append(u64_to_decimal(m).as_str());
        s
    } else {
        u64_to_decimal(i as u64)
    }
}

} // verus!
