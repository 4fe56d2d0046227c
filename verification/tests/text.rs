use nationbot::numbers::{decimal_chars, parse_i64, parse_u64};
use nationbot::text::{chars_of, contains_chars, remove_char, split_at_first_space, string_of, trim_chars};

fn v(x: &str) -> Vec<char> {
    x.chars().collect()
}

#[test]
fn parse_u64_like_std() {
    for t in ["0", "+5", "18446744073709551615", "18446744073709551616", "-1", "", "+", "1 ", "12a", "007"] {
        assert_eq!(parse_u64(&v(t)), t.parse::<u64>().ok(), "{}", t);
    }
}

#[test]
fn parse_i64_like_std() {
    for t in [
        "0", "-0", "+5", "-5", "9223372036854775807", "9223372036854775808", "-9223372036854775808",
        "-9223372036854775809", "-", "+", "", " 1", "--1",
    ] {
        assert_eq!(parse_i64(&v(t)), t.parse::<i64>().ok(), "{}", t);
    }
}

#[test]
fn decimal_like_to_string() {
    for n in [0u64, 7, 10, 1103203454123511878, u64::MAX] {
        let d: String = decimal_chars(n).into_iter().collect();
        assert_eq!(d, n.to_string());
    }
}

#[test]
fn trim_and_split() {
    let t: String = trim_chars(&v("\t a b \n")).into_iter().collect();
    assert_eq!(t, "a b");
    let (a, b) = split_at_first_space(&v("one two three"));
    assert_eq!(a, v("one"));
    assert_eq!(b, Some(v("two three")));
    let (a, b) = split_at_first_space(&v("single"));
    assert_eq!(a, v("single"));
    assert_eq!(b, None);
}

#[test]
fn contains_and_remove() {
    assert!(contains_chars(&v("hello"), &v("ell")));
    assert!(contains_chars(&v("hello"), &v("")));
    assert!(!contains_chars(&v("hello"), &v("hello!")));
    assert_eq!(remove_char(&v(" a b "), ' '), v("ab"));
}

#[test]
fn strings_round_trip() {
    assert_eq!(string_of(&chars_of("héllo")), "héllo");
}

#[test]
fn decimal_reads_back() {
    for n in [0u64, 9, 10, 99, 100, 123456789, u64::MAX] {
        assert_eq!(parse_u64(&decimal_chars(n)), Some(n));
    }
}
