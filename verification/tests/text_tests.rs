use iron_nest::text::{i64_to_decimal, str_equal, u64_to_decimal};

#[test]
fn unsigned_decimal() {
    assert_eq!(u64_to_decimal(0), "0");
    assert_eq!(u64_to_decimal(7), "7");
    assert_eq!(u64_to_decimal(10), "10");
    assert_eq!(u64_to_decimal(1234567), "1234567");
    assert_eq!(u64_to_decimal(u64::MAX), u64::MAX.to_string());
}

#[test]
fn signed_decimal() {
    assert_eq!(i64_to_decimal(0), "0");
    assert_eq!(i64_to_decimal(-42), "-42");
    assert_eq!(i64_to_decimal(375458730), "375458730");
    assert_eq!(i64_to_decimal(i64::MIN), i64::MIN.to_string());
    assert_eq!(i64_to_decimal(i64::MAX), i64::MAX.to_string());
}

#[test]
fn string_equality() {
    assert!(str_equal("toggles", "toggles"));
    assert!(!str_equal("toggles", "toggles2"));
    assert!(!str_equal("ring1", "ring2"));
    assert!(str_equal("", ""));
    assert!(str_equal("héllo", "héllo"));
}
