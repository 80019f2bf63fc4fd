use asmcore::matcher::{match_str, MatchStr};
use asmcore::numbers::{stoi, stoi_binary, stoi_decimal, stoi_hex, stoi_octal};

#[test]
fn stoi_test() {
    assert_eq!(123, stoi("123").unwrap());
    assert_eq!(0xfe, stoi("0xfe").unwrap());
    assert_eq!(0b101, stoi("0b101").unwrap());
    assert_eq!(0o132, stoi("0o132").unwrap());
}

#[test]
fn match_str_test() {
    assert_eq!(
        Some(vec!["[", "rbp", "+", "rdi", "*", "2", "]"]),
        match_str(
            "[ rbp + rdi * 2 ]",
            &[
                MatchStr::Char('['),
                MatchStr::Str("rbp"),
                MatchStr::Char('+'),
                MatchStr::Str("rdi"),
                MatchStr::Char('*'),
                MatchStr::Number,
                MatchStr::Char(']'),
            ],
        )
    );
}

#[test]
fn match_str_rejects_unsatisfied_rule() {
    assert_eq!(
        None,
        match_str("[ rax ]", &[MatchStr::Char('['), MatchStr::Str("rbp"), MatchStr::Char(']')])
    );
    assert_eq!(None, match_str("abc", &[MatchStr::Number]));
}

#[test]
fn stoi_round_trips_every_base() {
    assert_eq!(2026, stoi("2026").unwrap());
    assert_eq!(2026, stoi("0x7ea").unwrap());
    assert_eq!(2026, stoi("0b11111101010").unwrap());
    assert_eq!(2026, stoi("0o3752").unwrap());
    assert_eq!(0, stoi("0").unwrap());
    assert_eq!(u64::MAX as i128, stoi("18446744073709551615").unwrap());
    assert_eq!(u64::MAX as i128, stoi("0xffffffffffffffff").unwrap());
}

#[test]
fn stoi_negates_via_leading_minus() {
    assert_eq!(-123, stoi("-123").unwrap());
    assert_eq!(-0xfe, stoi("-0xfe").unwrap());
    assert_eq!(123, stoi("--123").unwrap());
    assert_eq!(-8, stoi("-0b1000").unwrap());
}

#[test]
fn stoi_rejects_malformed_literals() {
    assert_eq!(None, stoi(""));
    assert_eq!(None, stoi("-"));
    assert_eq!(None, stoi("0x"));
    assert_eq!(None, stoi("0b"));
    assert_eq!(None, stoi("0o"));
    assert_eq!(None, stoi("12a"));
    assert_eq!(None, stoi("0b102"));
    assert_eq!(None, stoi("0o8"));
    assert_eq!(None, stoi("0xg1"));
    assert_eq!(None, stoi(" 12"));
    assert_eq!(None, stoi("18446744073709551616"));
}

#[test]
fn stoi_hex_accepts_either_case_of_digits() {
    assert_eq!(0xab, stoi("0xAB").unwrap());
    assert_eq!(None, stoi("0X1f"));
}

#[test]
fn radix_entry_points_demand_their_prefix() {
    assert_eq!(Some(5), stoi_binary("0b101"));
    assert_eq!(None, stoi_binary("101"));
    assert_eq!(Some(0o77), stoi_octal("0o77"));
    assert_eq!(None, stoi_octal("77"));
    assert_eq!(Some(0x1f), stoi_hex("0x1f"));
    assert_eq!(None, stoi_hex("1f"));
    assert_eq!(Some(42), stoi_decimal("42"));
    assert_eq!(None, stoi_decimal("0x2a"));
}
