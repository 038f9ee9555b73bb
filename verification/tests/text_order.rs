//! Decimal formatting and the string order the canonicalization sorts by.

use cos_upload::text::KeyOrder;
use cos_upload::text::format_i64;
use cos_upload::text::format_u64;
use cos_upload::text::str_order;
use cos_upload::upload::current_window;

#[test]
fn unsigned_decimal_formatting() {
    assert_eq!(format_u64(0), "0");
    assert_eq!(format_u64(7), "7");
    assert_eq!(format_u64(1234567890), "1234567890");
    assert_eq!(format_u64(u64::MAX), "18446744073709551615");
}

#[test]
fn signed_decimal_formatting() {
    assert_eq!(format_i64(0), "0");
    assert_eq!(format_i64(-1), "-1");
    assert_eq!(format_i64(1700000000), "1700000000");
    assert_eq!(format_i64(i64::MIN), "-9223372036854775808");
    assert_eq!(format_i64(i64::MAX), "9223372036854775807");
}

#[test]
fn string_order_is_lexicographic() {
    assert!(matches!(str_order("a", "b"), KeyOrder::Less));
    assert!(matches!(str_order("b", "a"), KeyOrder::Greater));
    assert!(matches!(str_order("abc", "abc"), KeyOrder::Equal));
    assert!(matches!(str_order("ab", "abc"), KeyOrder::Less));
    assert!(matches!(str_order("abd", "abc"), KeyOrder::Greater));
    assert!(matches!(str_order("", "a"), KeyOrder::Less));
    assert!(matches!(str_order("", ""), KeyOrder::Equal));
    assert!(matches!(str_order("Z", "a"), KeyOrder::Less));
}

#[test]
fn current_window_spans_the_horizon() {
    let w = current_window();
    assert_eq!(w.end - w.start, 600);
    assert!(w.start > 0);
}
