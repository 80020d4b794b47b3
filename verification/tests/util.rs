use photothing::decimal::{i32_to_string, parse_i32_digits, parse_i32_signed, parse_i64_signed,
    u64_to_string};
use photothing::util::{hash_password, str_eq, str_starts_with, uuid};

#[test]
fn password_hashing() {
    // letters, numbers, special chars & extended ascii
    let pw = "\u{e5}\u{ee}>@%\u{e5}\u{c4}St\u{bb}\u{c6}\u{b7}wj\u{b3}\u{b4}m~\u{f0}jC\u{bd}\u{b5}\u{e6}Gjq6?\u{ef}";
    let hashed = hash_password(pw).expect("hashing failed");

    assert!(bcrypt::verify(pw, &hashed.0).expect("hash failed"), "hashes match");
    assert!(!bcrypt::verify("moo moo", &hashed.0).expect("hash failed"), "diff strings dont match");
}

#[test]
fn gen_uuids() {
    let v4 = uuid();
    assert_eq!(v4.0.find("-"), None);
    assert_eq!(v4.0.len(), 32);
}

#[test]
fn decimal_rendering() {
    assert_eq!(u64_to_string(0), "0");
    assert_eq!(u64_to_string(7), "7");
    assert_eq!(u64_to_string(2678400), "2678400");
    assert_eq!(u64_to_string(u64::MAX), "18446744073709551615");
    assert_eq!(i32_to_string(-123), "-123");
    assert_eq!(i32_to_string(i32::MIN), "-2147483648");
    assert_eq!(i32_to_string(i32::MAX), "2147483647");
}

#[test]
fn decimal_parsing() {
    assert_eq!(parse_i32_digits("0"), Some(0));
    assert_eq!(parse_i32_digits("0012"), Some(12));
    assert_eq!(parse_i32_digits("2147483647"), Some(i32::MAX));
    assert_eq!(parse_i32_digits("2147483648"), None, "past the i32 range");
    assert_eq!(parse_i32_digits(""), None);
    assert_eq!(parse_i32_digits("12a"), None);
    assert_eq!(parse_i32_digits("-5"), None, "the digit grammar has no sign");
    // round trip over the rendered form
    assert_eq!(parse_i32_digits(&i32_to_string(394053)), Some(394053));
}

#[test]
fn signed_decimal_parsing() {
    assert_eq!(parse_i32_signed("-5"), Some(-5));
    assert_eq!(parse_i32_signed("+12"), Some(12));
    assert_eq!(parse_i32_signed("12"), Some(12));
    assert_eq!(parse_i32_signed("-2147483648"), Some(i32::MIN));
    assert_eq!(parse_i32_signed("-2147483649"), None, "below the i32 range");
    assert_eq!(parse_i32_signed("-"), None);
    assert_eq!(parse_i32_signed("+-3"), None);
    assert_eq!(parse_i64_signed("-9223372036854775807"), Some(-(i64::MAX)));
    assert_eq!(parse_i64_signed("9223372036854775807"), Some(i64::MAX));
    assert_eq!(parse_i64_signed("9223372036854775808"), None, "past the i64 range");
}

#[test]
fn string_helpers() {
    assert!(str_eq("", ""));
    assert!(str_eq("caf\u{e9}", "caf\u{e9}"));
    assert!(!str_eq("caf\u{e9}", "cafe"));
    assert!(!str_eq("abc", "abcd"));
    assert!(str_starts_with("ADMINx123", "ADMINx"));
    assert!(!str_starts_with("ADMIN", "ADMINx"));
    assert!(!str_starts_with("xADMINx", "ADMINx"));
}
