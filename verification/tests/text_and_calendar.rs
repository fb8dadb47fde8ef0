use samsung_artmode::calendar::{civil_from_days, is_leap_exec, month_length_exec, year_length_exec};
use samsung_artmode::text::{
    chars_of, compare_strs, decimal_string, is_blank, padded_decimal, padded_hex, padded_signed,
    str_eq, trimmed,
};

#[test]
fn trimming_and_blanks() {
    assert_eq!(trimmed("  a b \t\n"), "a b");
    assert_eq!(trimmed(""), "");
    assert!(is_blank(" \t\r\n"));
    assert!(!is_blank(" x "));
    assert_eq!(trimmed("\u{3000}x\u{3000}"), "x");
    assert_eq!(chars_of("añb"), vec!['a', 'ñ', 'b']);
    assert!(str_eq("abc", "abc"));
    assert!(!str_eq("abc", "abd"));
}

#[test]
fn ordering_of_text() {
    assert_eq!(compare_strs("a", "b"), -1);
    assert_eq!(compare_strs("b", "a"), 1);
    assert_eq!(compare_strs("ab", "ab"), 0);
    assert_eq!(compare_strs("ab", "abc"), -1);
    assert_eq!(compare_strs("Z", "a"), -1);
    assert_eq!(compare_strs("192.168.1.20", "192.168.1.3"), -1);
}

#[test]
fn numbers_as_text() {
    assert_eq!(decimal_string(0), "0");
    assert_eq!(decimal_string(12345), "12345");
    assert_eq!(decimal_string(u128::MAX), "340282366920938463463374607431768211455");
    assert_eq!(padded_decimal(7, 2), "07");
    assert_eq!(padded_decimal(123, 2), "123");
    assert_eq!(padded_hex(255, 4), "00ff");
    assert_eq!(padded_hex(0, 0), "0");
    assert_eq!(padded_signed(-5, 4), "-005");
    assert_eq!(padded_signed(2024, 4), "2024");
    assert_eq!(padded_signed(12, 4), "0012");
    assert_eq!(padded_signed(i64::MIN, 4), "-9223372036854775808");
    for (v, w) in [(-5i64, 4usize), (2024, 4), (12, 4), (-12345, 3), (0, 2)] {
        assert_eq!(padded_signed(v, w), format!("{:0w$}", v, w = w));
    }
}

#[test]
fn civil_dates() {
    assert_eq!(civil_from_days(0), (1970, 1, 1));
    assert_eq!(civil_from_days(-1), (1969, 12, 31));
    assert_eq!(civil_from_days(-719_468), (0, 3, 1));
    assert_eq!(civil_from_days(19_723), (2024, 1, 1));
    assert_eq!(civil_from_days(11_016), (2000, 2, 29));
    assert_eq!(civil_from_days(2_932_896), (9999, 12, 31));
    assert!(is_leap_exec(2000));
    assert!(!is_leap_exec(1900));
    assert!(is_leap_exec(2024));
    assert!(is_leap_exec(0));
    assert!(!is_leap_exec(-1));
    assert_eq!(year_length_exec(2023), 365);
    assert_eq!(month_length_exec(2024, 2), 29);
    assert_eq!(month_length_exec(2023, 2), 28);
    assert_eq!(month_length_exec(2023, 4), 30);
}
