use unicom::text::{
    contains, ends_with, find, i64_to_decimal, is_blank, join, parse_i32, parse_i64, parse_u32,
    parse_u64, replace, split_char, split_whitespace, starts_with, str_eq, trim, u64_to_decimal,
};

#[test]
fn comparisons_and_search() {
    assert!(str_eq("流量", "流量"));
    assert!(!str_eq("a", "ab"));
    assert!(starts_with("Bearer x", "Bearer "));
    assert!(ends_with("abc", "bc"));
    assert!(!ends_with("c", "bc"));
    assert_eq!(find("abcabc", "ca"), Some(2));
    assert_eq!(find("abc", "x"), None);
    assert!(contains("登录失败：x", "登录失败"));
}

#[test]
fn trimming_and_splitting() {
    assert_eq!(trim("  a b \n"), "a b");
    assert_eq!(trim("\u{3000}x\u{3000}"), "x");
    assert!(is_blank(" \t"));
    assert!(!is_blank(" x "));
    assert_eq!(split_whitespace("  0 */5\t*  "), vec!["0", "*/5", "*"]);
    assert_eq!(split_whitespace(""), Vec::<&str>::new());
    assert_eq!(split_char("a;b;;c", ';'), vec!["a", "b", "", "c"]);
    assert_eq!(split_char("", ';'), vec![""]);
}

#[test]
fn replacing_and_joining() {
    assert_eq!(replace("[a][a]b", "[a]", "x"), "xxb");
    assert_eq!(replace("aaa", "aa", "b"), "ba");
    assert_eq!(replace("no match", "[x]", "y"), "no match");
    assert_eq!(join(&vec!["a".to_string(), "b".to_string()], "; "), "a; b");
    assert_eq!(join(&vec![], ", "), "");
}

#[test]
fn parsing_numbers() {
    assert_eq!(parse_i32("42"), Some(42));
    assert_eq!(parse_i32("-7"), Some(-7));
    assert_eq!(parse_i32("+7"), Some(7));
    assert_eq!(parse_i32("2147483648"), None);
    assert_eq!(parse_i32("-2147483648"), Some(i32::MIN));
    assert_eq!(parse_i32(""), None);
    assert_eq!(parse_i32("-"), None);
    assert_eq!(parse_i32(" 1"), None);
    assert_eq!(parse_i64("9223372036854775807"), Some(i64::MAX));
    assert_eq!(parse_u64("18446744073709551615"), Some(u64::MAX));
    assert_eq!(parse_u64("-0"), None);
    assert_eq!(parse_u64("+3"), Some(3));
    assert_eq!(parse_u32("4294967296"), None);
    assert_eq!(parse_u32("12345"), Some(12345));
}

#[test]
fn parsing_agrees_with_std() {
    for s in ["0", "-0", "+0", "12", "-12", "99999999999", "1a", "", "+", "007"] {
        assert_eq!(parse_i32(s), s.parse::<i32>().ok(), "{}", s);
        assert_eq!(parse_u32(s), s.parse::<u32>().ok(), "{}", s);
        assert_eq!(parse_i64(s), s.parse::<i64>().ok(), "{}", s);
    }
}

#[test]
fn decimal_forms() {
    assert_eq!(u64_to_decimal(0), "0");
    assert_eq!(u64_to_decimal(1234567890), "1234567890");
    assert_eq!(i64_to_decimal(-45), "-45");
    assert_eq!(i64_to_decimal(i64::MIN), i64::MIN.to_string());
}

#[test]
fn decimal_round_trips() {
    for n in [0u64, 7, 10, 12345, u64::MAX] {
        assert_eq!(parse_u64(&u64_to_decimal(n)), Some(n));
    }
    for i in [i64::MIN, -1, 0, 1, i64::MAX] {
        assert_eq!(parse_i64(&i64_to_decimal(i)), Some(i));
    }
    assert_eq!(parse_i64(&u64_to_decimal(u64::MAX)), None);
}
